use chipmunk_tools::text::{chars_of, string_of};
use chipmunk_tools::toml::{parse_array, parse_toml_section, trim_toml_string};

#[test]
fn section_value_is_read() {
    let content = "[package]\nname = \"x\"\n\n[workspace.package]\n# the version\nversion = \"4.1.0\"\nedition = \"2021\"\n[other]\nversion = \"9\"\n";
    let section = parse_toml_section(content, "workspace.package");
    assert_eq!(section.get("version"), Some("4.1.0".to_string()));
    assert_eq!(section.get("edition"), Some("2021".to_string()));
    assert_eq!(section.get("name"), None);
    assert_eq!(section.len(), 2);
}

#[test]
fn later_value_wins_and_blank_lines_are_skipped() {
    let content = "[s]\n  key =  \"a\"  \n\n   # key = \"c\"\nkey=b\nnoequals\n";
    let section = parse_toml_section(content, "s");
    assert_eq!(section.get("key"), Some("b".to_string()));
    assert_eq!(section.len(), 1);
}

#[test]
fn pairs_before_any_header_belong_to_the_empty_section() {
    let content = "top = 1\n[s]\ninner = 2\n";
    assert_eq!(parse_toml_section(content, "").get("top"), Some("1".to_string()));
    assert_eq!(parse_toml_section(content, "").get("inner"), None);
    assert_eq!(parse_toml_section(content, "s").get("top"), None);
}

#[test]
fn header_brackets_are_all_removed() {
    let content = "[[arr]]\nx = \"1\"\n";
    assert_eq!(parse_toml_section(content, "arr").get("x"), Some("1".to_string()));
}

#[test]
fn crlf_lines_are_read() {
    let content = "[s]\r\nk = \"v\"\r\n";
    assert_eq!(parse_toml_section(content, "s").get("k"), Some("v".to_string()));
}

#[test]
fn value_keeps_text_after_first_equals() {
    let content = "[s]\nurl = a=b\n";
    assert_eq!(parse_toml_section(content, "s").get("url"), Some("a=b".to_string()));
}

#[test]
fn missing_section_reads_empty() {
    let content = "[a]\nk = 1\n";
    assert_eq!(parse_toml_section(content, "b").len(), 0);
    assert_eq!(parse_toml_section("", "a").len(), 0);
}

#[test]
fn trim_toml_string_cases() {
    assert_eq!(trim_toml_string("  \"abc\"  "), "abc");
    assert_eq!(trim_toml_string("\""), "\"");
    assert_eq!(trim_toml_string("\"\""), "");
    assert_eq!(trim_toml_string(" plain "), "plain");
    assert_eq!(trim_toml_string("\"a\" b"), "\"a\" b");
    assert_eq!(trim_toml_string("\" in side \""), " in side ");
}

#[test]
fn parse_array_cases() {
    assert_eq!(parse_array("[\"A\", \"B\" , ]"), vec!["A".to_string(), "B".to_string()]);
    assert_eq!(parse_array("[]"), Vec::<String>::new());
    assert_eq!(parse_array("  [ , , ]  "), Vec::<String>::new());
    assert_eq!(parse_array("[\"\"]"), vec!["".to_string()]);
    assert_eq!(parse_array("a, b"), vec!["a".to_string(), "b".to_string()]);
    assert_eq!(parse_array("[[x]]"), vec!["x".to_string()]);
}

#[test]
fn written_section_reads_back() {
    let content = "[env_vars]\nsigning_id = \"SIGN ME\"\ncheck_enabled = \"[\"A\",\"B\"]\"\nsigning_id = \"LAST\"\n";
    let section = parse_toml_section(content, "env_vars");
    assert_eq!(section.get("signing_id"), Some("LAST".to_string()));
    assert_eq!(section.get("check_enabled"), Some("[\"A\",\"B\"]".to_string()));
    assert_eq!(section.len(), 2);
}

#[test]
fn other_sections_do_not_count() {
    let before = "[other]\nk = \"x\"\n[mine]\nk = \"y\"\n";
    let after = "[mine]\nk = \"y\"\n[other]\nk = \"x\"\n";
    assert_eq!(parse_toml_section(before, "mine").get("k"), Some("y".to_string()));
    assert_eq!(parse_toml_section(after, "mine").get("k"), Some("y".to_string()));
}

#[test]
fn written_array_reads_back() {
    let items = vec!["A B".to_string(), "".to_string(), "[c]".to_string()];
    assert_eq!(parse_array("[\"A B\",\"\",\"[c]\"]"), items);
}

#[test]
fn chars_round_trip() {
    let cs = chars_of("héllo");
    assert_eq!(cs.len(), 5);
    assert_eq!(string_of(&cs), "héllo");
}

#[test]
fn lines_under_another_section_are_ignored() {
    let content = "[mine]\nk = \"1\"\n";
    let longer = format!("{content}\n[other]\nk = \"2\"\n# note\nj = 3\n");
    assert_eq!(parse_toml_section(&longer, "mine").get("k"), Some("1".to_string()));
    assert_eq!(parse_toml_section(&longer, "mine").len(), 1);
}
