use chipmunk_tools::args::{parse_args, usage_line, CliAction};
use chipmunk_tools::path::FsPath;
use chipmunk_tools::release::{
    alpha_app_root, alpha_binary_name, alpha_binary_path, alpha_release_path, alpha_version,
    alpha_workspace_root, ensure, entitlements_path, icon_path, info_plist, path_separator,
    platform_name, repo_readme_path, repo_root, Target, TargetOs,
};

fn path(root: &str, parts: &[&str]) -> FsPath {
    FsPath { root: root.to_string(), parts: parts.iter().map(|p| p.to_string()).collect() }
}

fn strings(v: &[&str]) -> Vec<String> {
    v.iter().map(|s| s.to_string()).collect()
}

fn repo() -> FsPath {
    path("/", &["home", "dev", "chipmunk"])
}

#[test]
fn repo_root_is_two_levels_up() {
    let manifest = path("/", &["home", "dev", "chipmunk", "tools", "release-alpha"]);
    let root = repo_root(&manifest);
    assert_eq!(root.display('/'), "/home/dev/chipmunk");
}

#[test]
fn repo_root_of_relative_path() {
    let manifest = path("", &["tools", "release-alpha"]);
    let root = repo_root(&manifest);
    assert_eq!(root.display('/'), "");
    assert_eq!(root.join("README.md").display('/'), "README.md");
}

#[test]
fn layout_paths() {
    let r = repo();
    assert_eq!(
        alpha_app_root(&r).display('/'),
        "/home/dev/chipmunk/application/apps/indexer/gui/application"
    );
    assert_eq!(
        alpha_release_path(&r).display('/'),
        "/home/dev/chipmunk/application/apps/indexer/gui/application/release"
    );
    assert_eq!(alpha_workspace_root(&r).display('/'), "/home/dev/chipmunk/application/apps/indexer");
    assert_eq!(repo_readme_path(&r).display('/'), "/home/dev/chipmunk/README.md");
    assert_eq!(
        icon_path(&r).display('/'),
        "/home/dev/chipmunk/application/holder/resources/mac/chipmunk.icns"
    );
    assert_eq!(
        entitlements_path(&r).display('/'),
        "/home/dev/chipmunk/application/holder/resources/mac/entitlements.mac.plist"
    );
}

#[test]
fn windows_paths_use_backslashes() {
    let r = path("C:\\", &["src", "chipmunk"]);
    assert_eq!(path_separator(TargetOs::Windows), '\\');
    assert_eq!(repo_readme_path(&r).display('\\'), "C:\\src\\chipmunk\\README.md");
}

#[test]
fn binary_name_per_os() {
    assert_eq!(alpha_binary_name(TargetOs::Windows), "chipmunk.exe");
    assert_eq!(alpha_binary_name(TargetOs::Linux), "chipmunk");
    assert_eq!(alpha_binary_name(TargetOs::Macos), "chipmunk");
}

#[test]
fn binary_path_present_and_missing() {
    let r = repo();
    let found = alpha_binary_path(&r, TargetOs::Linux, true).unwrap();
    assert_eq!(
        found.display('/'),
        "/home/dev/chipmunk/application/apps/indexer/target/release/chipmunk"
    );
    let missing = alpha_binary_path(&r, TargetOs::Linux, false).err().unwrap();
    assert_eq!(
        missing,
        "Alpha binary doesn't exist: /home/dev/chipmunk/application/apps/indexer/target/release/chipmunk"
    );
}

#[test]
fn platform_names() {
    assert_eq!(platform_name(Target { os: TargetOs::Linux, aarch64: false }), "linux");
    assert_eq!(platform_name(Target { os: TargetOs::Linux, aarch64: true }), "linux-arm64");
    assert_eq!(platform_name(Target { os: TargetOs::Macos, aarch64: true }), "darwin-arm64");
    assert_eq!(platform_name(Target { os: TargetOs::Windows, aarch64: false }), "win64");
}

#[test]
fn info_plist_text() {
    let expected = r#"<?xml version="1.0" encoding="UTF-8"?>
<!DOCTYPE plist PUBLIC "-//Apple//DTD PLIST 1.0//EN" "http://www.apple.com/DTDs/PropertyList-1.0.dtd">
<plist version="1.0">
<dict>
  <key>CFBundleDevelopmentRegion</key>
  <string>en</string>
  <key>CFBundleDisplayName</key>
  <string>Chipmunk Alpha</string>
  <key>CFBundleExecutable</key>
  <string>chipmunk</string>
  <key>CFBundleIconFile</key>
  <string>icon.icns</string>
  <key>CFBundleIdentifier</key>
  <string>com.esrlabs.chipmunk.alpha</string>
  <key>CFBundleInfoDictionaryVersion</key>
  <string>6.0</string>
  <key>CFBundleName</key>
  <string>Chipmunk Alpha</string>
  <key>CFBundlePackageType</key>
  <string>APPL</string>
  <key>CFBundleShortVersionString</key>
  <string>0.1.2</string>
  <key>CFBundleVersion</key>
  <string>0.1.2</string>
</dict>
</plist>
"#;
    assert_eq!(info_plist("0.1.2"), expected);
}

#[test]
fn alpha_version_found_and_missing() {
    let manifest = "[workspace]\nmembers = []\n\n[workspace.package]\nversion = \"3.19.2\"\n";
    assert_eq!(alpha_version(manifest), Ok("3.19.2".to_string()));
    assert_eq!(
        alpha_version("[workspace]\nversion = \"1\"\n"),
        Err("Resolving alpha version from workspace.package.version failed".to_string())
    );
}

#[test]
fn ensure_cases() {
    assert_eq!(ensure(true, "bad"), Ok(()));
    assert_eq!(ensure(false, "bad"), Err("bad".to_string()));
}

fn run_path(r: Result<CliAction, String>) -> Option<String> {
    match r {
        Ok(CliAction::Run(cli)) => cli.code_sign,
        _ => panic!("expected a run"),
    }
}

#[test]
fn parse_args_cases() {
    assert_eq!(run_path(parse_args(&strings(&[]))), None);
    assert_eq!(run_path(parse_args(&strings(&["-c", "sign.toml"]))), Some("sign.toml".to_string()));
    assert_eq!(
        run_path(parse_args(&strings(&["-c", "a.toml", "--code-sign", "b.toml"]))),
        Some("b.toml".to_string())
    );
    assert!(matches!(parse_args(&strings(&["--help"])), Ok(CliAction::Help)));
    assert!(matches!(parse_args(&strings(&["-c", "a", "-h", "--bogus"])), Ok(CliAction::Help)));
    assert_eq!(
        parse_args(&strings(&["--code-sign"])).err(),
        Some("Missing value for --code-sign".to_string())
    );
    assert_eq!(
        parse_args(&strings(&["--bogus", "-h"])).err(),
        Some("Unknown argument: --bogus".to_string())
    );
    assert_eq!(usage_line(), "Usage: release-alpha [--code-sign <PATH>]");
}
