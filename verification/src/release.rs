//! Where the release tool finds and puts things, and the texts it writes:
//! the repository layout, the platform name, the app's `Info.plist`, the
//! version read from the workspace manifest and the command line.
use vstd::prelude::*;
use vstd::string::*;
use crate::path::{FsPath, joined, display_path};
use crate::toml::{parse_toml_section, toml_section};

verus! {

/// The name of the macOS application bundle.
pub const ALPHA_APP_NAME: &'static str = "chipmunk-alpha.app";

/// The bundle identifier written into `Info.plist`.
pub const ALPHA_BUNDLE_ID: &'static str = "com.esrlabs.chipmunk.alpha";

/// The operating system the tool runs on.
#[derive(Clone, Copy, Debug, PartialEq, Eq, Structural)]
pub enum TargetOs {
    Linux,
    Macos,
    Windows,
    Other,
}

/// The platform the tool runs on: its operating system and whether the
/// processor is a 64-bit ARM one.
#[derive(Clone, Copy, Debug, PartialEq, Eq, Structural)]
pub struct Target {
    pub os: TargetOs,
    pub aarch64: bool,
}

/// The separator that paths of the platform are shown with.
pub open spec fn separator(os: TargetOs) -> char {
    if os == TargetOs::Windows {
        '\\'
    } else {
        '/'
    }
}

/// The separator that paths of the platform are shown with.
pub fn path_separator(os: TargetOs) -> (c: char)
    ensures
        c == separator(os),
{
    match os {
        TargetOs::Windows => '\\',
        _ => '/',
    }
}

/// `Ok` when `condition` holds, else `message` as the error.
pub fn ensure(condition: bool, message: &str) -> (r: Result<(), String>)
    ensures
        condition ==> r is Ok,
        !condition ==> (r matches Err(m) && m@ == message@),
{
    if condition {
        Ok(())
    } else {
        Err(String::from_str(message))
    }
}

/// The repository root: two levels above the directory of the tool's
/// manifest (`<repo>/tools/release-alpha`).
pub fn repo_root(manifest_dir: &FsPath) -> (r: FsPath)
    requires
        manifest_dir@.1.len() >= 2,
    ensures
        r@ == (manifest_dir@.0, manifest_dir@.1.take(manifest_dir@.1.len() - 2)),
{
    let first = manifest_dir.parent().unwrap();
    let second = first.parent().unwrap();
    assert(second@.1 =~= manifest_dir@.1.take(manifest_dir@.1.len() - 2));
    second
}

/// The directory of the alpha application.
pub open spec fn spec_alpha_app_root(repo: (Seq<char>, Seq<Seq<char>>)) -> (
    Seq<char>,
    Seq<Seq<char>>,
) {
    joined(repo, seq!["application"@, "apps"@, "indexer"@, "gui"@, "application"@])
}

/// The directory that the release is built in.
pub open spec fn spec_alpha_release_path(repo: (Seq<char>, Seq<Seq<char>>)) -> (
    Seq<char>,
    Seq<Seq<char>>,
) {
    joined(spec_alpha_app_root(repo), seq!["release"@])
}

/// The cargo workspace that the alpha application belongs to.
pub open spec fn spec_alpha_workspace_root(repo: (Seq<char>, Seq<Seq<char>>)) -> (
    Seq<char>,
    Seq<Seq<char>>,
) {
    joined(repo, seq!["application"@, "apps"@, "indexer"@])
}

/// The file name of the alpha executable on `os`.
pub open spec fn spec_alpha_binary_name(os: TargetOs) -> Seq<char> {
    if os == TargetOs::Windows {
        "chipmunk.exe"@
    } else {
        "chipmunk"@
    }
}

/// Where the build leaves the alpha executable.
pub open spec fn spec_alpha_binary_location(repo: (Seq<char>, Seq<Seq<char>>), os: TargetOs) -> (
    Seq<char>,
    Seq<Seq<char>>,
) {
    joined(
        spec_alpha_workspace_root(repo),
        seq!["target"@, "release"@, spec_alpha_binary_name(os)],
    )
}

/// The message for a missing alpha executable at `path`.
pub open spec fn missing_binary_message(path: (Seq<char>, Seq<Seq<char>>), os: TargetOs) -> Seq<
    char,
> {
    "Alpha binary doesn't exist: "@ + display_path(path, separator(os))
}

/// The repository's README.
pub open spec fn spec_repo_readme_path(repo: (Seq<char>, Seq<Seq<char>>)) -> (
    Seq<char>,
    Seq<Seq<char>>,
) {
    joined(repo, seq!["README.md"@])
}

/// The macOS resources of the application holder.
pub open spec fn mac_resources(repo: (Seq<char>, Seq<Seq<char>>)) -> (
    Seq<char>,
    Seq<Seq<char>>,
) {
    joined(repo, seq!["application"@, "holder"@, "resources"@, "mac"@])
}

/// The macOS icon of the application.
pub open spec fn spec_icon_path(repo: (Seq<char>, Seq<Seq<char>>)) -> (
    Seq<char>,
    Seq<Seq<char>>,
) {
    joined(mac_resources(repo), seq!["chipmunk.icns"@])
}

/// The entitlements that the executable is signed with.
pub open spec fn spec_entitlements_path(repo: (Seq<char>, Seq<Seq<char>>)) -> (
    Seq<char>,
    Seq<Seq<char>>,
) {
    joined(mac_resources(repo), seq!["entitlements.mac.plist"@])
}

/// The directory of the alpha application.
pub fn alpha_app_root(repo: &FsPath) -> (r: FsPath)
    ensures
        r@ == spec_alpha_app_root(repo@),
{
    let r = repo.join("application").join("apps").join("indexer").join("gui").join(
        "application",
    );
    assert(r@.1 =~= spec_alpha_app_root(repo@).1);
    r
}

/// The directory that the release is built in.
pub fn alpha_release_path(repo: &FsPath) -> (r: FsPath)
    ensures
        r@ == spec_alpha_release_path(repo@),
{
    let r = alpha_app_root(repo).join("release");
    assert(r@.1 =~= spec_alpha_release_path(repo@).1);
    r
}

/// The cargo workspace that the alpha application belongs to.
pub fn alpha_workspace_root(repo: &FsPath) -> (r: FsPath)
    ensures
        r@ == spec_alpha_workspace_root(repo@),
{
    let r = repo.join("application").join("apps").join("indexer");
    assert(r@.1 =~= spec_alpha_workspace_root(repo@).1);
    r
}

/// The file name of the alpha executable on `os`.
pub fn alpha_binary_name(os: TargetOs) -> (name: &'static str)
    ensures
        name@ == spec_alpha_binary_name(os),
{
    match os {
        TargetOs::Windows => "chipmunk.exe",
        _ => "chipmunk",
    }
}

/// Where the build leaves the alpha executable, given whether a file is
/// there: the path when it is, else the error that says it is missing.
pub fn alpha_binary_path(repo: &FsPath, os: TargetOs, exists: bool) -> (r: Result<
    FsPath,
    String,
>)
    ensures
        exists ==> (r matches Ok(p) && p@ == spec_alpha_binary_location(repo@, os)),
        !exists ==> (r matches Err(m) && m@ == missing_binary_message(
            spec_alpha_binary_location(repo@, os),
            os,
        )),
{
    let path = alpha_binary_location(repo, os);
    if exists {
        Ok(path)
    } else {
        Err(missing_binary_message_of(&path, os))
    }
}

/// Where the build leaves the alpha executable.
pub fn alpha_binary_location(repo: &FsPath, os: TargetOs) -> (r: FsPath)
    ensures
        r@ == spec_alpha_binary_location(repo@, os),
{
    let r = alpha_workspace_root(repo).join("target").join("release").join(
        alpha_binary_name(os),
    );
    assert(r@.1 =~= spec_alpha_binary_location(repo@, os).1);
    r
}

/// The build leaves the executable in `target/release` of the workspace at
/// `application/apps/indexer`, under the file name of the platform:
/// `chipmunk.exe` on Windows and `chipmunk` elsewhere.
pub proof fn law_binary_location_names_platform_executable(
    repo: (Seq<char>, Seq<Seq<char>>),
    os: TargetOs,
)
    ensures
        spec_alpha_binary_location(repo, os).0 == repo.0,
        spec_alpha_binary_location(repo, os).1.len() == repo.1.len() + 6,
        spec_alpha_binary_location(repo, os).1 == repo.1 + seq![
            "application"@,
            "apps"@,
            "indexer"@,
            "target"@,
            "release"@,
            spec_alpha_binary_location(repo, os).1.last(),
        ],
        os == TargetOs::Windows ==> spec_alpha_binary_location(repo, os).1.last() == "chipmunk.exe"@,
        os != TargetOs::Windows ==> spec_alpha_binary_location(repo, os).1.last() == "chipmunk"@,
{
    let loc = spec_alpha_binary_location(repo, os);
    assert(loc.1 =~= repo.1 + seq![
        "application"@,
        "apps"@,
        "indexer"@,
        "target"@,
        "release"@,
        loc.1.last(),
    ]);
}

/// The message for a missing alpha executable at `path`.
pub fn missing_binary_message_of(path: &FsPath, os: TargetOs) -> (m: String)
    ensures
        m@ == missing_binary_message(path@, os),
{
    let mut m = String::from_str("Alpha binary doesn't exist: ");
    m.append(path.display(path_separator(os)).as_str());
    m
}

/// The repository's README.
pub fn repo_readme_path(repo: &FsPath) -> (r: FsPath)
    ensures
        r@ == spec_repo_readme_path(repo@),
{
    let r = repo.join("README.md");
    r
}

/// The macOS icon of the application.
pub fn icon_path(repo: &FsPath) -> (r: FsPath)
    ensures
        r@ == spec_icon_path(repo@),
{
    let r = repo.join("application").join("holder").join("resources").join("mac").join(
        "chipmunk.icns",
    );
    assert(r@.1 =~= spec_icon_path(repo@).1);
    r
}

/// The entitlements that the executable is signed with.
pub fn entitlements_path(repo: &FsPath) -> (r: FsPath)
    ensures
        r@ == spec_entitlements_path(repo@),
{
    let r = repo.join("application").join("holder").join("resources").join("mac").join(
        "entitlements.mac.plist",
    );
    assert(r@.1 =~= spec_entitlements_path(repo@).1);
    r
}

/// The platform part of the archive names: the system, and `-arm64` on
/// 64-bit ARM processors.
pub open spec fn spec_platform_name(target: Target) -> Seq<char> {
    let base = if target.os == TargetOs::Linux {
        "linux"@
    } else if target.os == TargetOs::Macos {
        "darwin"@
    } else {
        "win64"@
    };
    if target.aarch64 {
        base + "-arm64"@
    } else {
        base
    }
}

/// The platform part of the archive names. There is none for an operating
/// system other than Linux, macOS and Windows.
pub fn platform_name(target: Target) -> (name: String)
    requires
        target.os != TargetOs::Other,
    ensures
        name@ == spec_platform_name(target),
{
    let mut platform = match target.os {
        TargetOs::Linux => String::from_str("linux"),
        TargetOs::Macos => String::from_str("darwin"),
        _ => String::from_str("win64"),
    };
    if target.aarch64 {
        platform.append("-arm64");
    }
    platform
}

/// The platform name is the system's (`linux`, `darwin` or `win64`), with
/// `-arm64` after it exactly when the processor is a 64-bit ARM one.
pub proof fn law_platform_name_arm_suffix(target: Target)
    requires
        target.os != TargetOs::Other,
    ensures
        !target.aarch64 && target.os == TargetOs::Linux ==> spec_platform_name(target) == "linux"@,
        !target.aarch64 && target.os == TargetOs::Macos ==> spec_platform_name(target) == "darwin"@,
        !target.aarch64 && target.os == TargetOs::Windows ==> spec_platform_name(target) == "win64"@,
        target.aarch64 ==> spec_platform_name(target) == spec_platform_name(
            (Target { os: target.os, aarch64: false }),
        ) + "-arm64"@,
{
}

/// The text of `Info.plist` before the short version string.
pub open spec fn plist_head() -> Seq<char> {
    "<?xml version=\"1.0\" encoding=\"UTF-8\"?>\n<!DOCTYPE plist PUBLIC \"-//Apple//DTD PLIST 1.0//EN\" \"http://www.apple.com/DTDs/PropertyList-1.0.dtd\">\n<plist version=\"1.0\">\n<dict>\n  <key>CFBundleDevelopmentRegion</key>\n  <string>en</string>\n  <key>CFBundleDisplayName</key>\n  <string>Chipmunk Alpha</string>\n  <key>CFBundleExecutable</key>\n  <string>chipmunk</string>\n  <key>CFBundleIconFile</key>\n  <string>icon.icns</string>\n  <key>CFBundleIdentifier</key>\n  <string>"@
        + ALPHA_BUNDLE_ID@
        + "</string>\n  <key>CFBundleInfoDictionaryVersion</key>\n  <string>6.0</string>\n  <key>CFBundleName</key>\n  <string>Chipmunk Alpha</string>\n  <key>CFBundlePackageType</key>\n  <string>APPL</string>\n  <key>CFBundleShortVersionString</key>\n  <string>"@
}

/// The text of `Info.plist` between the two version strings.
pub open spec fn plist_middle() -> Seq<char> {
    "</string>\n  <key>CFBundleVersion</key>\n  <string>"@
}

/// The text of `Info.plist` after the bundle version.
pub open spec fn plist_tail() -> Seq<char> {
    "</string>\n</dict>\n</plist>\n"@
}

/// The `Info.plist` of the application bundle for `version`.
pub fn info_plist(version: &str) -> (plist: String)
    ensures
        plist@ == plist_head() + version@ + plist_middle() + version@ + plist_tail(),
{
    let mut s = String::from_str(
        "<?xml version=\"1.0\" encoding=\"UTF-8\"?>\n<!DOCTYPE plist PUBLIC \"-//Apple//DTD PLIST 1.0//EN\" \"http://www.apple.com/DTDs/PropertyList-1.0.dtd\">\n<plist version=\"1.0\">\n<dict>\n  <key>CFBundleDevelopmentRegion</key>\n  <string>en</string>\n  <key>CFBundleDisplayName</key>\n  <string>Chipmunk Alpha</string>\n  <key>CFBundleExecutable</key>\n  <string>chipmunk</string>\n  <key>CFBundleIconFile</key>\n  <string>icon.icns</string>\n  <key>CFBundleIdentifier</key>\n  <string>",
    );
    s.append(ALPHA_BUNDLE_ID);
    s.append(
        "</string>\n  <key>CFBundleInfoDictionaryVersion</key>\n  <string>6.0</string>\n  <key>CFBundleName</key>\n  <string>Chipmunk Alpha</string>\n  <key>CFBundlePackageType</key>\n  <string>APPL</string>\n  <key>CFBundleShortVersionString</key>\n  <string>",
    );
    s.append(version);
    s.append("</string>\n  <key>CFBundleVersion</key>\n  <string>");
    s.append(version);
    s.append("</string>\n</dict>\n</plist>\n");
    s
}

/// The version that the alpha release gets: `version` of
/// `[workspace.package]` in the workspace manifest `manifest`.
pub fn alpha_version(manifest: &str) -> (r: Result<String, String>)
    ensures
        ({
            let section = toml_section(manifest@, "workspace.package"@);
            &&& section.dom().contains("version"@) ==> (r matches Ok(v) && v@
                == section["version"@])
            &&& !section.dom().contains("version"@) ==> (r matches Err(m) && m@
                == "Resolving alpha version from workspace.package.version failed"@)
        }),
{
    let section = parse_toml_section(manifest, "workspace.package");
    match section.get("version") {
        Some(v) => Ok(v),
        None => Err(String::from_str("Resolving alpha version from workspace.package.version failed")),
    }
}

} // verus!
