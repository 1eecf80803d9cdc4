use chipmunk_tools::codesign::{code_sign_supported, notarize_verdict, AlphaMacOsCodeSign, EnvSnapshot};
use chipmunk_tools::path::FsPath;
use chipmunk_tools::plan::{
    build_alpha, clean_release, package_macos, package_portable, zip_macos_bundle, ProcessCall, Step,
};
use chipmunk_tools::release::{Target, TargetOs};

const CONFIG: &str = "[env_vars]\ncheck_enabled = [\"APPLE_SIGN\"]\ncheck_disabled = [\"SKIP_SIGN\"]\nsigning_id = \"SIGN_ID\"\n\n[notarize_command]\ncommand = \"xcrun  notarytool submit --wait\"\nenv_apple_id = \"APPLE_ID\"\nenv_team_id = \"TEAM_ID\"\nenv_password = \"APPLE_PASSWORD\"\naccepted_line = \"status: Accepted\"\n";

fn path(root: &str, parts: &[&str]) -> FsPath {
    FsPath { root: root.to_string(), parts: parts.iter().map(|p| p.to_string()).collect() }
}

fn repo() -> FsPath {
    path("/", &["r"])
}

fn env(vars: &[(&str, &str)]) -> EnvSnapshot {
    EnvSnapshot { vars: vars.iter().map(|(k, v)| (k.to_string(), v.to_string())).collect() }
}

fn full_env() -> EnvSnapshot {
    env(&[
        ("APPLE_SIGN", "1"),
        ("SIGN_ID", "Developer ID"),
        ("APPLE_ID", "me@example.com"),
        ("TEAM_ID", "TEAM"),
        ("APPLE_PASSWORD", "SECRET-REDACTED"),
    ])
}

fn call_parts(c: &ProcessCall) -> (String, Vec<String>) {
    (c.program.clone(), c.args.clone())
}

fn strings(v: &[&str]) -> Vec<String> {
    v.iter().map(|s| s.to_string()).collect()
}

fn describe(step: &Step) -> String {
    match step {
        Step::CreateDirAll { path, error } => format!("mkdir {} | {}", path.display('/'), error),
        Step::RemoveDirAll { path, error } => format!("rmdir {} | {}", path.display('/'), error),
        Step::Copy { from, to, error } => format!("copy {} {} | {}", from.display('/'), to.display('/'), error),
        Step::Write { path, error, .. } => format!("write {} | {}", path.display('/'), error),
        Step::RequireFile { path, error } => format!("require {} | {}", path.display('/'), error),
        Step::MakeExecutable { path, .. } => format!("chmod {}", path.display('/')),
        Step::Run(c) => format!("run {} {}", c.program, c.args.join(" ")),
        Step::Notarize { call, accepted_line } => format!("notarize {} {} | {}", call.program, call.args.join(" "), accepted_line),
        Step::Warn(m) => format!("warn {}", m),
        Step::Fail(m) => format!("fail {}", m),
    }
}

#[test]
fn code_sign_config_loads() {
    let cs = AlphaMacOsCodeSign::load(CONFIG).ok().unwrap();
    assert_eq!(cs.env_vars.check_enabled, strings(&["APPLE_SIGN"]));
    assert_eq!(cs.env_vars.check_disabled, strings(&["SKIP_SIGN"]));
    assert_eq!(cs.env_vars.signing_id, "SIGN_ID");
    assert_eq!(cs.notarize_command.command, "xcrun  notarytool submit --wait");
    assert_eq!(cs.notarize_command.accepted_line, "status: Accepted");
}

#[test]
fn code_sign_config_reports_first_missing_key() {
    let without_signing = CONFIG.replace("signing_id = \"SIGN_ID\"\n", "");
    assert_eq!(
        AlphaMacOsCodeSign::load(&without_signing).err(),
        Some("Missing env_vars.signing_id".to_string())
    );
    assert_eq!(
        AlphaMacOsCodeSign::load("").err(),
        Some("Missing env_vars.check_enabled".to_string())
    );
    let without_line = CONFIG.replace("accepted_line = \"status: Accepted\"\n", "");
    assert_eq!(
        AlphaMacOsCodeSign::load(&without_line).err(),
        Some("Missing notarize_command.accepted_line".to_string())
    );
}

#[test]
fn signing_allowed_by_environment() {
    let cs = AlphaMacOsCodeSign::load(CONFIG).ok().unwrap();
    assert!(cs.allowed(&full_env()));
    assert!(!cs.allowed(&env(&[])));
    assert!(!cs.allowed(&env(&[("APPLE_SIGN", "1"), ("SKIP_SIGN", "")])));
    assert_eq!(full_env().var("TEAM_ID"), Some("TEAM".to_string()));
    assert_eq!(env(&[("A", "1"), ("A", "2")]).var("A"), Some("1".to_string()));
}

#[test]
fn sign_app_commands() {
    let cs = AlphaMacOsCodeSign::load(CONFIG).ok().unwrap();
    let app = path("/", &["rel", "chipmunk-alpha.app"]);
    let calls = cs.sign_app(&full_env(), &app, &repo(), TargetOs::Macos).ok().unwrap();
    assert_eq!(calls.len(), 3);
    let ent = "/r/application/holder/resources/mac/entitlements.mac.plist";
    assert_eq!(
        call_parts(&calls[0]),
        (
            "codesign".to_string(),
            strings(&["--force", "--sign", "Developer ID", "--timestamp", "--options", "runtime", "--entitlements", ent, "/rel/chipmunk-alpha.app/Contents/MacOS/chipmunk"])
        )
    );
    assert_eq!(
        call_parts(&calls[1]),
        (
            "codesign".to_string(),
            strings(&["--force", "--sign", "Developer ID", "--timestamp", "--options", "runtime", "--deep", "--strict", "--entitlements", ent, "/rel/chipmunk-alpha.app"])
        )
    );
    assert_eq!(
        call_parts(&calls[2]),
        ("codesign".to_string(), strings(&["--verify", "--verbose=4", "/rel/chipmunk-alpha.app"]))
    );
    assert_eq!(calls[2].failure, "Verifying alpha app bundle signature failed");
    assert_eq!(
        cs.sign_app(&env(&[]), &app, &repo(), TargetOs::Macos).err(),
        Some("Reading signing identity failed from env var SIGN_ID".to_string())
    );
}

#[test]
fn notarize_command_is_formed() {
    let cs = AlphaMacOsCodeSign::load(CONFIG).ok().unwrap();
    let archive = path("/", &["rel", "a.zip"]);
    let call = cs.notarize_archive(&full_env(), &archive, TargetOs::Macos).ok().unwrap();
    assert_eq!(
        call_parts(&call),
        (
            "xcrun".to_string(),
            strings(&["notarytool", "submit", "--wait", "/rel/a.zip", "--apple-id", "me@example.com", "--team-id", "TEAM", "--password", "SECRET-REDACTED"])
        )
    );
    assert_eq!(call.launch_error, "Running alpha notarize command failed");
    assert_eq!(
        cs.notarize_archive(&env(&[("APPLE_ID", "x")]), &archive, TargetOs::Macos).err(),
        Some("Missing env var TEAM_ID".to_string())
    );
    let blank = AlphaMacOsCodeSign::load(&CONFIG.replace("xcrun  notarytool submit --wait", "   ")).ok().unwrap();
    assert_eq!(
        blank.notarize_archive(&full_env(), &archive, TargetOs::Macos).err(),
        Some("Alpha notarize command must include a binary".to_string())
    );
}

#[test]
fn notarize_verdicts() {
    assert_eq!(notarize_verdict("status: Accepted", true, "id: 1\n  status: Accepted  \n", ""), Ok(()));
    assert_eq!(notarize_verdict("status: Accepted", true, "", "status: Accepted\r\n"), Ok(()));
    assert_eq!(
        notarize_verdict("status: Accepted", true, "status: Invalid\n", "x"),
        Err("Alpha notarize command did not report accepted status".to_string())
    );
    assert_eq!(
        notarize_verdict("status: Accepted", false, "status: Accepted\n", ""),
        Err("Alpha notarize command failed".to_string())
    );
    assert_eq!(
        notarize_verdict("", true, "a\n", ""),
        Err("Alpha notarize command did not report accepted status".to_string())
    );
    assert_eq!(notarize_verdict("", true, "a\n\nb", ""), Ok(()));
}

#[test]
fn clean_release_steps() {
    let steps = clean_release(&repo(), TargetOs::Linux, true);
    let rel = "/r/application/apps/indexer/gui/application/release";
    assert_eq!(
        steps.iter().map(describe).collect::<Vec<_>>(),
        vec![
            format!("rmdir {rel} | Removing previous alpha release directory failed ({rel})"),
            format!("mkdir {rel} | Creating alpha release directory failed ({rel})"),
        ]
    );
    assert_eq!(clean_release(&repo(), TargetOs::Linux, false).len(), 1);
}

#[test]
fn build_command() {
    let c = build_alpha(&repo());
    assert_eq!(
        call_parts(&c),
        ("cargo".to_string(), strings(&["build", "--release", "--locked", "--manifest-path", "Cargo.toml"]))
    );
    assert_eq!(c.cwd.unwrap().display('/'), "/r/application/apps/indexer/gui/application");
    assert_eq!(c.failure, "Building Chipmunk Alpha failed");
}

#[test]
fn zip_command() {
    let c = zip_macos_bundle(&path("/", &["a.app"]), &path("/", &["a.zip"]), TargetOs::Macos);
    assert_eq!(call_parts(&c), ("ditto".to_string(), strings(&["-c", "-k", "--keepParent", "/a.app", "/a.zip"])));
}

#[test]
fn portable_plan_on_linux() {
    let (steps, archive) = package_portable(&repo(), Target { os: TargetOs::Linux, aarch64: false }, "1.0.0");
    let rel = "/r/application/apps/indexer/gui/application/release";
    let stage = format!("{rel}/chipmunk-alpha@1.0.0-linux-portable");
    let bin = "/r/application/apps/indexer/target/release/chipmunk";
    assert_eq!(archive.display('/'), format!("{rel}/chipmunk-alpha@1.0.0-linux-portable.tgz"));
    assert_eq!(
        steps.iter().map(describe).collect::<Vec<_>>(),
        vec![
            format!("mkdir {stage} | Creating alpha staging directory failed ({stage})"),
            format!("require {bin} | Alpha binary doesn't exist: {bin}"),
            format!("copy {bin} {stage}/chipmunk | Copying alpha binary failed"),
            format!("copy /r/README.md {stage}/README.md | Copying README for alpha package failed"),
            format!("run tar -czf {rel}/chipmunk-alpha@1.0.0-linux-portable.tgz -C {rel} chipmunk-alpha@1.0.0-linux-portable"),
        ]
    );
}

#[test]
fn portable_plan_on_windows() {
    let r = path("C:\\", &["r"]);
    let (steps, archive) = package_portable(&r, Target { os: TargetOs::Windows, aarch64: true }, "2");
    let rel = "C:\\r\\application\\apps\\indexer\\gui\\application\\release";
    assert_eq!(archive.display('\\'), format!("{rel}\\chipmunk-alpha@2-win64-arm64-portable.zip"));
    match &steps[4] {
        Step::Run(c) => {
            assert_eq!(c.program, "powershell");
            assert_eq!(
                c.args,
                vec![
                    "-Command".to_string(),
                    format!("Compress-Archive -Path '{rel}\\chipmunk-alpha@2-win64-arm64-portable\\*' -DestinationPath '{rel}\\chipmunk-alpha@2-win64-arm64-portable.zip'"),
                ]
            );
            assert_eq!(c.failure, "Compressing alpha zip failed");
        }
        _ => panic!("expected the compression"),
    }
}

#[test]
fn macos_plan_without_signing() {
    let target = Target { os: TargetOs::Macos, aarch64: true };
    let (steps, archive) = package_macos(&repo(), target, "5.0.0", None, &env(&[]));
    let rel = "/r/application/apps/indexer/gui/application/release";
    let app = format!("{rel}/chipmunk-alpha.app");
    assert_eq!(archive.display('/'), format!("{rel}/chipmunk-alpha@5.0.0-darwin-arm64-portable.zip"));
    let described = steps.iter().map(describe).collect::<Vec<_>>();
    assert_eq!(
        described,
        vec![
            format!("mkdir {app}/Contents/MacOS | Creating app bundle directory failed ({app}/Contents/MacOS)"),
            format!("mkdir {app}/Contents/Resources | Creating app bundle resources directory failed ({app}/Contents/Resources)"),
            "require /r/application/apps/indexer/target/release/chipmunk | Alpha binary doesn't exist: /r/application/apps/indexer/target/release/chipmunk".to_string(),
            format!("copy /r/application/apps/indexer/target/release/chipmunk {app}/Contents/MacOS/chipmunk | Copying alpha binary into .app failed"),
            format!("copy /r/application/holder/resources/mac/chipmunk.icns {app}/Contents/Resources/icon.icns | Copying alpha macOS icon failed"),
            format!("copy /r/README.md {rel}/README.md | Copying README for alpha package failed"),
            format!("write {app}/Contents/Info.plist | Writing Info.plist for alpha app failed"),
            format!("chmod {app}/Contents/MacOS/chipmunk"),
            format!("run ditto -c -k --keepParent {app} {rel}/chipmunk-alpha@5.0.0-darwin-arm64-portable.zip"),
        ]
    );
}

#[test]
fn macos_plan_with_signing() {
    let cs = AlphaMacOsCodeSign::load(CONFIG).ok().unwrap();
    let target = Target { os: TargetOs::Macos, aarch64: false };
    let (steps, _) = package_macos(&repo(), target, "5.0.0", Some(&cs), &full_env());
    let kinds = steps.iter().map(|s| describe(s).split(' ').next().unwrap().to_string()).collect::<Vec<_>>();
    assert_eq!(
        kinds,
        strings(&["mkdir", "mkdir", "require", "copy", "copy", "copy", "write", "chmod", "run", "run", "run", "run", "notarize", "run", "run"])
    );
    assert!(describe(&steps[13]).starts_with("run xcrun stapler staple /r/application"));
    assert!(describe(&steps[12]).ends_with("| status: Accepted"));
}

#[test]
fn macos_plan_signing_not_allowed_warns() {
    let cs = AlphaMacOsCodeSign::load(CONFIG).ok().unwrap();
    let target = Target { os: TargetOs::Macos, aarch64: false };
    let (steps, _) = package_macos(&repo(), target, "5", Some(&cs), &env(&[]));
    assert_eq!(steps.len(), 10);
    assert_eq!(
        describe(&steps[8]),
        "warn Skipping code signing because required environment variables are missing."
    );
}

#[test]
fn macos_plan_stops_on_missing_credentials() {
    let cs = AlphaMacOsCodeSign::load(CONFIG).ok().unwrap();
    let target = Target { os: TargetOs::Macos, aarch64: false };
    let (steps, _) = package_macos(&repo(), target, "5", Some(&cs), &env(&[("APPLE_SIGN", "1")]));
    assert_eq!(steps.len(), 9);
    assert_eq!(describe(&steps[8]), "fail Reading signing identity failed from env var SIGN_ID");
    let partial = env(&[("APPLE_SIGN", "1"), ("SIGN_ID", "x")]);
    let (steps, _) = package_macos(&repo(), target, "5", Some(&cs), &partial);
    assert_eq!(describe(steps.last().unwrap()), "fail Missing env var APPLE_ID");
}

#[test]
fn code_signing_only_on_macos() {
    assert_eq!(code_sign_supported(TargetOs::Macos), Ok(()));
    assert_eq!(
        code_sign_supported(TargetOs::Linux),
        Err("Alpha code signing is only supported on macOS".to_string())
    );
}

#[test]
fn loading_on_other_systems_fails_before_reading() {
    let mut called = false;
    let r = AlphaMacOsCodeSign::load_on(TargetOs::Linux, || {
        called = true;
        Ok(CONFIG.to_string())
    });
    assert_eq!(r.err(), Some("Alpha code signing is only supported on macOS".to_string()));
    assert!(!called);
}

#[test]
fn loading_on_macos_reads_the_file() {
    let cs = AlphaMacOsCodeSign::load_on(TargetOs::Macos, || Ok(CONFIG.to_string())).ok().unwrap();
    assert_eq!(cs.env_vars.signing_id, "SIGN_ID");
    let r = AlphaMacOsCodeSign::load_on(TargetOs::Macos, || Err("cannot read".to_string()));
    assert_eq!(r.err(), Some("cannot read".to_string()));
}
