//! The release as a sequence of file system operations and commands. The
//! functions here decide what to do and in which order; whoever carries a
//! plan out performs the steps in order and stops at the first that fails,
//! reporting the step's message.
use vstd::prelude::*;
use vstd::string::*;
use crate::codesign::{AlphaMacOsCodeSign, EnvSnapshot};
use crate::path::{FsPath, display_path, joined};
use crate::release::{
    ALPHA_APP_NAME, Target, TargetOs, alpha_app_root, alpha_binary_location, alpha_binary_name,
    alpha_release_path, icon_path, info_plist, missing_binary_message, missing_binary_message_of,
    path_separator, platform_name, plist_head, plist_middle, plist_tail, repo_readme_path,
    separator, spec_alpha_app_root, spec_alpha_binary_location, spec_alpha_binary_name,
    spec_alpha_release_path, spec_icon_path, spec_platform_name, spec_repo_readme_path,
};
use crate::text::{strings_view, words};

verus! {

/// A command to run: the program, its arguments and the directory to run
/// it in. Where it cannot be started, the error is `launch_error`, a colon
/// and the reason; where it exits unsuccessfully, the error is `failure`.
pub struct ProcessCall {
    pub program: String,
    pub args: Vec<String>,
    pub cwd: Option<FsPath>,
    pub launch_error: String,
    pub failure: String,
}

/// What a command is, in terms of character sequences.
pub struct CallModel {
    pub program: Seq<char>,
    pub args: Seq<Seq<char>>,
    pub cwd: Option<(Seq<char>, Seq<Seq<char>>)>,
    pub launch_error: Seq<char>,
    pub failure: Seq<char>,
}

impl View for ProcessCall {
    type V = CallModel;

    open spec fn view(&self) -> CallModel {
        CallModel {
            program: self.program@,
            args: strings_view(self.args@),
            cwd: match self.cwd {
                Some(p) => Some(p@),
                None => None,
            },
            launch_error: self.launch_error@,
            failure: self.failure@,
        }
    }
}

impl ProcessCall {
    /// A command of a program given by name.
    pub fn new(
        program: &str,
        args: Vec<String>,
        cwd: Option<FsPath>,
        launch_error: &str,
        failure: &str,
    ) -> (c: ProcessCall)
        ensures
            c.program@ == program@,
            c.args == args,
            c.cwd == cwd,
            c.launch_error@ == launch_error@,
            c.failure@ == failure@,
    {
        ProcessCall {
            program: String::from_str(program),
            args,
            cwd,
            launch_error: String::from_str(launch_error),
            failure: String::from_str(failure),
        }
    }

    /// A command of a program given as an owned string.
    pub fn new_owned(
        program: String,
        args: Vec<String>,
        cwd: Option<FsPath>,
        launch_error: &str,
        failure: &str,
    ) -> (c: ProcessCall)
        ensures
            c.program == program,
            c.args == args,
            c.cwd == cwd,
            c.launch_error@ == launch_error@,
            c.failure@ == failure@,
    {
        ProcessCall {
            program,
            args,
            cwd,
            launch_error: String::from_str(launch_error),
            failure: String::from_str(failure),
        }
    }
}

/// One step of a plan, with what to report when it fails. For the file
/// operations the report is `error`, a colon and the reason.
pub enum Step {
    /// Create a directory and its missing parents.
    CreateDirAll { path: FsPath, error: String },
    /// Remove a directory with all it holds.
    RemoveDirAll { path: FsPath, error: String },
    /// Copy a file.
    Copy { from: FsPath, to: FsPath, error: String },
    /// Write a file with the given contents.
    Write { path: FsPath, contents: String, error: String },
    /// Go on only if the file exists; else report `error` as it stands.
    RequireFile { path: FsPath, error: String },
    /// Make a file executable (mode `0o755`), on Unix systems.
    MakeExecutable { path: FsPath, metadata_error: String, permissions_error: String },
    /// Run a command.
    Run(ProcessCall),
    /// Run the notarization command and judge its output with
    /// `notarize_verdict` and `accepted_line`.
    Notarize { call: ProcessCall, accepted_line: String },
    /// Print a warning and go on.
    Warn(String),
    /// Stop with this error.
    Fail(String),
}

/// What a step is, in terms of character sequences.
pub enum StepModel {
    CreateDirAll((Seq<char>, Seq<Seq<char>>), Seq<char>),
    RemoveDirAll((Seq<char>, Seq<Seq<char>>), Seq<char>),
    Copy((Seq<char>, Seq<Seq<char>>), (Seq<char>, Seq<Seq<char>>), Seq<char>),
    Write((Seq<char>, Seq<Seq<char>>), Seq<char>, Seq<char>),
    RequireFile((Seq<char>, Seq<Seq<char>>), Seq<char>),
    MakeExecutable((Seq<char>, Seq<Seq<char>>), Seq<char>, Seq<char>),
    Run(CallModel),
    Notarize(CallModel, Seq<char>),
    Warn(Seq<char>),
    Fail(Seq<char>),
}

impl View for Step {
    type V = StepModel;

    open spec fn view(&self) -> StepModel {
        match self {
            Step::CreateDirAll { path, error } => StepModel::CreateDirAll(path@, error@),
            Step::RemoveDirAll { path, error } => StepModel::RemoveDirAll(path@, error@),
            Step::Copy { from, to, error } => StepModel::Copy(from@, to@, error@),
            Step::Write { path, contents, error } => StepModel::Write(path@, contents@, error@),
            Step::RequireFile { path, error } => StepModel::RequireFile(path@, error@),
            Step::MakeExecutable { path, metadata_error, permissions_error } =>
                StepModel::MakeExecutable(path@, metadata_error@, permissions_error@),
            Step::Run(c) => StepModel::Run(c@),
            Step::Notarize { call, accepted_line } => StepModel::Notarize(call@, accepted_line@),
            Step::Warn(m) => StepModel::Warn(m@),
            Step::Fail(m) => StepModel::Fail(m@),
        }
    }
}

/// Commands in terms of their models.
pub open spec fn calls_view(calls: Seq<ProcessCall>) -> Seq<CallModel> {
    calls.map_values(|c: ProcessCall| c@)
}

/// A plan in terms of its steps' models.
pub open spec fn plan_view(steps: Seq<Step>) -> Seq<StepModel> {
    steps.map_values(|s: Step| s@)
}

/// A message that names a path: `context (path)`.
pub open spec fn with_path(context: Seq<char>, p: (Seq<char>, Seq<Seq<char>>), os: TargetOs) -> Seq<
    char,
> {
    context + " ("@ + display_path(p, separator(os)) + ")"@
}

/// A message that names a path: `context (path)`.
pub fn message_with_path(context: &str, p: &FsPath, os: TargetOs) -> (m: String)
    ensures
        m@ == with_path(context@, p@, os),
{
    let mut m = String::from_str(context);
    m.append(" (");
    m.append(p.display(path_separator(os)).as_str());
    m.append(")");
    m
}

/// The steps that leave an empty release directory: remove the old one if
/// there is one, then create it.
pub open spec fn spec_clean_release(repo: (Seq<char>, Seq<Seq<char>>), os: TargetOs, exists: bool) -> Seq<
    StepModel,
> {
    let release = spec_alpha_release_path(repo);
    let create = StepModel::CreateDirAll(
        release,
        with_path("Creating alpha release directory failed"@, release, os),
    );
    if exists {
        seq![
            StepModel::RemoveDirAll(
                release,
                with_path("Removing previous alpha release directory failed"@, release, os),
            ),
            create,
        ]
    } else {
        seq![create]
    }
}

/// The steps that leave an empty release directory, given whether the
/// directory exists now.
pub fn clean_release(repo: &FsPath, os: TargetOs, exists: bool) -> (steps: Vec<Step>)
    ensures
        plan_view(steps@) == spec_clean_release(repo@, os, exists),
{
    let release = alpha_release_path(repo);
    let mut steps: Vec<Step> = Vec::new();
    if exists {
        let error = message_with_path("Removing previous alpha release directory failed", &release, os);
        steps.push(Step::RemoveDirAll { path: release.clone(), error });
    }
    let error = message_with_path("Creating alpha release directory failed", &release, os);
    steps.push(Step::CreateDirAll { path: release, error });
    assert(plan_view(steps@) =~= spec_clean_release(repo@, os, exists));
    steps
}

/// Whatever `exists` says, the clean-up ends by creating the release
/// directory; before that it removes the directory, and only when it
/// exists.
pub proof fn law_clean_release_ends_creating(
    repo: (Seq<char>, Seq<Seq<char>>),
    os: TargetOs,
    exists: bool,
)
    ensures
        ({
            let steps = spec_clean_release(repo, os, exists);
            let release = spec_alpha_release_path(repo);
            &&& steps.len() == if exists { 2int } else { 1int }
            &&& steps.last() matches StepModel::CreateDirAll(p, _) && p == release
            &&& (exists|i: int| 0 <= i < steps.len() && (#[trigger] steps[i]) is RemoveDirAll)
                <==> exists
            &&& forall|i: int|
                0 <= i < steps.len() - 1 ==> (#[trigger] steps[i] matches StepModel::RemoveDirAll(
                    p,
                    _,
                ) && p == release)
        }),
{
    let steps = spec_clean_release(repo, os, exists);
    if exists {
        assert(steps[0] is RemoveDirAll);
    }
}

/// The command that builds the alpha application.
pub open spec fn spec_build_alpha(repo: (Seq<char>, Seq<Seq<char>>)) -> CallModel {
    CallModel {
        program: "cargo"@,
        args: seq!["build"@, "--release"@, "--locked"@, "--manifest-path"@, "Cargo.toml"@],
        cwd: Some(spec_alpha_app_root(repo)),
        launch_error: "Building Chipmunk Alpha failed"@,
        failure: "Building Chipmunk Alpha failed"@,
    }
}

/// The command that builds the alpha application.
pub fn build_alpha(repo: &FsPath) -> (c: ProcessCall)
    ensures
        c@ == spec_build_alpha(repo@),
{
    let mut args: Vec<String> = Vec::new();
    args.push(String::from_str("build"));
    args.push(String::from_str("--release"));
    args.push(String::from_str("--locked"));
    args.push(String::from_str("--manifest-path"));
    args.push(String::from_str("Cargo.toml"));
    let c = ProcessCall::new(
        "cargo",
        args,
        Some(alpha_app_root(repo)),
        "Building Chipmunk Alpha failed",
        "Building Chipmunk Alpha failed",
    );
    assert(c@.args =~= spec_build_alpha(repo@).args);
    c
}

/// The command that zips the bundle at `app_root` into `archive`.
pub open spec fn spec_zip_macos_bundle(
    app_root: (Seq<char>, Seq<Seq<char>>),
    archive: (Seq<char>, Seq<Seq<char>>),
    os: TargetOs,
) -> CallModel {
    CallModel {
        program: "ditto"@,
        args: seq![
            "-c"@,
            "-k"@,
            "--keepParent"@,
            display_path(app_root, separator(os)),
            display_path(archive, separator(os)),
        ],
        cwd: None,
        launch_error: "Creating macOS alpha zip archive failed"@,
        failure: "Creating macOS alpha zip archive failed"@,
    }
}

/// The command that zips the bundle at `app_root` into `archive`.
pub fn zip_macos_bundle(app_root: &FsPath, archive: &FsPath, os: TargetOs) -> (c: ProcessCall)
    ensures
        c@ == spec_zip_macos_bundle(app_root@, archive@, os),
{
    let sep = path_separator(os);
    let mut args: Vec<String> = Vec::new();
    args.push(String::from_str("-c"));
    args.push(String::from_str("-k"));
    args.push(String::from_str("--keepParent"));
    args.push(app_root.display(sep));
    args.push(archive.display(sep));
    let c = ProcessCall::new(
        "ditto",
        args,
        None,
        "Creating macOS alpha zip archive failed",
        "Creating macOS alpha zip archive failed",
    );
    assert(c@.args =~= spec_zip_macos_bundle(app_root@, archive@, os).args);
    c
}

/// The name of the portable archive's top directory.
pub open spec fn portable_root_name(version: Seq<char>, target: Target) -> Seq<char> {
    "chipmunk-alpha@"@ + version + "-"@ + spec_platform_name(target) + "-portable"@
}

/// Where the portable archive is written.
pub open spec fn spec_portable_archive(
    repo: (Seq<char>, Seq<Seq<char>>),
    target: Target,
    version: Seq<char>,
) -> (Seq<char>, Seq<Seq<char>>) {
    let name = portable_root_name(version, target);
    joined(
        spec_alpha_release_path(repo),
        seq![if target.os == TargetOs::Windows { name + ".zip"@ } else { name + ".tgz"@ }],
    )
}

/// The command that compresses the portable release.
pub open spec fn spec_portable_compress(
    repo: (Seq<char>, Seq<Seq<char>>),
    target: Target,
    version: Seq<char>,
) -> CallModel {
    let os = target.os;
    let sep = separator(os);
    let name = portable_root_name(version, target);
    let release = spec_alpha_release_path(repo);
    let staging = joined(release, seq![name]);
    let archive = spec_portable_archive(repo, target, version);
    if os == TargetOs::Windows {
        CallModel {
            program: "powershell"@,
            args: seq![
                "-Command"@,
                "Compress-Archive -Path '"@ + display_path(joined(staging, seq!["*"@]), sep)
                    + "' -DestinationPath '"@ + display_path(archive, sep) + "'"@,
            ],
            cwd: None,
            launch_error: "Compressing alpha zip failed"@,
            failure: "Compressing alpha zip failed"@,
        }
    } else {
        CallModel {
            program: "tar"@,
            args: seq![
                "-czf"@,
                display_path(archive, sep),
                "-C"@,
                display_path(release, sep),
                name,
            ],
            cwd: None,
            launch_error: "Compressing alpha archive failed"@,
            failure: "Compressing alpha archive failed"@,
        }
    }
}

/// The steps that package the portable release: the staging directory with
/// the executable and the README, compressed into a zip archive on Windows
/// and into a gzipped tar archive elsewhere.
pub open spec fn spec_package_portable(
    repo: (Seq<char>, Seq<Seq<char>>),
    target: Target,
    version: Seq<char>,
) -> Seq<StepModel> {
    let os = target.os;
    let sep = separator(os);
    let name = portable_root_name(version, target);
    let release = spec_alpha_release_path(repo);
    let staging = joined(release, seq![name]);
    let binary = spec_alpha_binary_location(repo, os);
    let archive = spec_portable_archive(repo, target, version);
    let compress = spec_portable_compress(repo, target, version);
    seq![
        StepModel::CreateDirAll(
            staging,
            with_path("Creating alpha staging directory failed"@, staging, os),
        ),
        StepModel::RequireFile(binary, missing_binary_message(binary, os)),
        StepModel::Copy(
            binary,
            joined(staging, seq![spec_alpha_binary_name(os)]),
            "Copying alpha binary failed"@,
        ),
        StepModel::Copy(
            spec_repo_readme_path(repo),
            joined(staging, seq!["README.md"@]),
            "Copying README for alpha package failed"@,
        ),
        StepModel::Run(compress),
    ]
}

/// The steps that package the portable release of `version`, and where
/// the archive is written.
pub fn package_portable(repo: &FsPath, target: Target, version: &str) -> (r: (Vec<Step>, FsPath))
    requires
        target.os != TargetOs::Other,
    ensures
        plan_view(r.0@) == spec_package_portable(repo@, target, version@),
        r.1@ == spec_portable_archive(repo@, target, version@),
{
    let os = target.os;
    let sep = path_separator(os);
    let mut name = String::from_str("chipmunk-alpha@");
    name.append(version);
    name.append("-");
    name.append(platform_name(target).as_str());
    name.append("-portable");
    let release = alpha_release_path(repo);
    let staging = release.join(name.as_str());
    let binary = alpha_binary_location(repo, os);
    let mut steps: Vec<Step> = Vec::new();
    steps.push(
        Step::CreateDirAll {
            path: staging.clone(),
            error: message_with_path("Creating alpha staging directory failed", &staging, os),
        },
    );
    steps.push(Step::RequireFile { path: binary.clone(), error: missing_binary_message_of(&binary, os) });
    steps.push(
        Step::Copy {
            from: binary,
            to: staging.join(alpha_binary_name(os)),
            error: String::from_str("Copying alpha binary failed"),
        },
    );
    steps.push(
        Step::Copy {
            from: repo_readme_path(repo),
            to: staging.join("README.md"),
            error: String::from_str("Copying README for alpha package failed"),
        },
    );
    let archive;
    if matches!(os, TargetOs::Windows) {
        let mut file = name.clone();
        file.append(".zip");
        archive = release.join(file.as_str());
        let mut command = String::from_str("Compress-Archive -Path '");
        command.append(staging.join("*").display(sep).as_str());
        command.append("' -DestinationPath '");
        command.append(archive.display(sep).as_str());
        command.append("'");
        let mut args: Vec<String> = Vec::new();
        args.push(String::from_str("-Command"));
        args.push(command);
        let c = ProcessCall::new("powershell", args, None, "Compressing alpha zip failed", "Compressing alpha zip failed");
        assert(archive@ == spec_portable_archive(repo@, target, version@));
        assert(c@.args =~= spec_portable_compress(repo@, target, version@).args);
        steps.push(Step::Run(c));
    } else {
        let mut file = name.clone();
        file.append(".tgz");
        archive = release.join(file.as_str());
        let mut args: Vec<String> = Vec::new();
        args.push(String::from_str("-czf"));
        args.push(archive.display(sep));
        args.push(String::from_str("-C"));
        args.push(release.display(sep));
        args.push(name);
        let c = ProcessCall::new("tar", args, None, "Compressing alpha archive failed", "Compressing alpha archive failed");
        assert(archive@ == spec_portable_archive(repo@, target, version@));
        assert(c@.args =~= spec_portable_compress(repo@, target, version@).args);
        steps.push(Step::Run(c));
    }
    proof {
        let expected = spec_package_portable(repo@, target, version@);
        assert(name@ == portable_root_name(version@, target));
        assert(staging@ == joined(spec_alpha_release_path(repo@), seq![name@]));
        assert(plan_view(steps@) =~= expected);
    }
    (steps, archive)
}

/// The bundle directory of the macOS release.
pub open spec fn spec_app_bundle(repo: (Seq<char>, Seq<Seq<char>>)) -> (Seq<char>, Seq<Seq<char>>) {
    joined(spec_alpha_release_path(repo), seq![ALPHA_APP_NAME@])
}

/// Where the macOS archive is written.
pub open spec fn spec_macos_archive(
    repo: (Seq<char>, Seq<Seq<char>>),
    target: Target,
    version: Seq<char>,
) -> (Seq<char>, Seq<Seq<char>>) {
    joined(
        spec_alpha_release_path(repo),
        seq!["chipmunk-alpha@"@ + version + "-"@ + spec_platform_name(target) + "-portable.zip"@],
    )
}

/// The steps that lay out the application bundle: its directories, the
/// executable, the icon, the README beside it and `Info.plist`, and on Unix
/// systems the executable's mode.
pub open spec fn spec_bundle_steps(
    repo: (Seq<char>, Seq<Seq<char>>),
    target: Target,
    version: Seq<char>,
) -> Seq<StepModel> {
    let os = target.os;
    let app_root = spec_app_bundle(repo);
    let contents = joined(app_root, seq!["Contents"@]);
    let macos_dir = joined(contents, seq!["MacOS"@]);
    let resources = joined(contents, seq!["Resources"@]);
    let binary = spec_alpha_binary_location(repo, os);
    let executable = joined(macos_dir, seq!["chipmunk"@]);
    seq![
        StepModel::CreateDirAll(
            macos_dir,
            with_path("Creating app bundle directory failed"@, macos_dir, os),
        ),
        StepModel::CreateDirAll(
            resources,
            with_path("Creating app bundle resources directory failed"@, resources, os),
        ),
        StepModel::RequireFile(binary, missing_binary_message(binary, os)),
        StepModel::Copy(binary, executable, "Copying alpha binary into .app failed"@),
        StepModel::Copy(
            spec_icon_path(repo),
            joined(resources, seq!["icon.icns"@]),
            "Copying alpha macOS icon failed"@,
        ),
        StepModel::Copy(
            spec_repo_readme_path(repo),
            joined(spec_alpha_release_path(repo), seq!["README.md"@]),
            "Copying README for alpha package failed"@,
        ),
        StepModel::Write(
            joined(contents, seq!["Info.plist"@]),
            plist_head() + version + plist_middle() + version + plist_tail(),
            "Writing Info.plist for alpha app failed"@,
        ),
    ] + if os != TargetOs::Windows {
        seq![
            StepModel::MakeExecutable(
                executable,
                "Reading alpha binary metadata failed"@,
                "Setting alpha binary permissions failed"@,
            ),
        ]
    } else {
        Seq::<StepModel>::empty()
    }
}

/// The command that staples the notarization ticket to the bundle.
pub open spec fn spec_staple(app_root: (Seq<char>, Seq<Seq<char>>), os: TargetOs) -> CallModel {
    CallModel {
        program: "xcrun"@,
        args: seq!["stapler"@, "staple"@, display_path(app_root, separator(os))],
        cwd: None,
        launch_error: "Stapling alpha app failed"@,
        failure: "Stapling alpha app failed"@,
    }
}

/// The warning printed when signing is configured but not allowed.
pub open spec fn skip_signing_warning() -> Seq<char> {
    "Skipping code signing because required environment variables are missing."@
}

/// The commands as steps that run them.
pub open spec fn run_steps(calls: Seq<CallModel>) -> Seq<StepModel> {
    calls.map_values(|c: CallModel| StepModel::Run(c))
}

/// The steps that package the macOS release: the bundle, its signature when
/// signing is configured and allowed, the zip archive, and when signed the
/// notarization, the stapling and a second zip archive of the stapled
/// bundle. A step that cannot be formed (a missing credential) ends the
/// plan as a failure.
pub open spec fn spec_package_macos(
    repo: (Seq<char>, Seq<Seq<char>>),
    target: Target,
    version: Seq<char>,
    code_sign: Option<&AlphaMacOsCodeSign>,
    vars: Seq<(String, String)>,
) -> Seq<StepModel> {
    let os = target.os;
    let app_root = spec_app_bundle(repo);
    let archive = spec_macos_archive(repo, target, version);
    let base = spec_bundle_steps(repo, target, version);
    let zip = StepModel::Run(spec_zip_macos_bundle(app_root, archive, os));
    match code_sign {
        None => base.push(zip),
        Some(cs) => if !cs.spec_allowed(vars) {
            base.push(StepModel::Warn(skip_signing_warning())).push(zip)
        } else {
            match cs.spec_sign_app(vars, app_root, repo, os) {
                Err(m) => base.push(StepModel::Fail(m)),
                Ok(calls) => {
                    let signed = (base + run_steps(calls)).push(zip);
                    match cs.spec_notarize_archive(vars, archive, os) {
                        Err(m) => signed.push(StepModel::Fail(m)),
                        Ok(call) => signed.push(
                            StepModel::Notarize(call, cs.notarize_command.accepted_line@),
                        ).push(StepModel::Run(spec_staple(app_root, os))).push(zip),
                    }
                },
            }
        },
    }
}

/// The steps that lay out the application bundle.
fn bundle_steps(repo: &FsPath, target: Target, version: &str, app_root: &FsPath) -> (steps: Vec<Step>)
    requires
        app_root@ == spec_app_bundle(repo@),
    ensures
        plan_view(steps@) == spec_bundle_steps(repo@, target, version@),
{
    let os = target.os;
    let contents = app_root.join("Contents");
    let macos_dir = contents.join("MacOS");
    let resources = contents.join("Resources");
    let binary = alpha_binary_location(repo, os);
    let mut steps: Vec<Step> = Vec::new();
    steps.push(
        Step::CreateDirAll {
            path: macos_dir.clone(),
            error: message_with_path("Creating app bundle directory failed", &macos_dir, os),
        },
    );
    steps.push(
        Step::CreateDirAll {
            path: resources.clone(),
            error: message_with_path("Creating app bundle resources directory failed", &resources, os),
        },
    );
    steps.push(Step::RequireFile { path: binary.clone(), error: missing_binary_message_of(&binary, os) });
    steps.push(
        Step::Copy {
            from: binary,
            to: macos_dir.join("chipmunk"),
            error: String::from_str("Copying alpha binary into .app failed"),
        },
    );
    steps.push(
        Step::Copy {
            from: icon_path(repo),
            to: resources.join("icon.icns"),
            error: String::from_str("Copying alpha macOS icon failed"),
        },
    );
    steps.push(
        Step::Copy {
            from: repo_readme_path(repo),
            to: alpha_release_path(repo).join("README.md"),
            error: String::from_str("Copying README for alpha package failed"),
        },
    );
    steps.push(
        Step::Write {
            path: contents.join("Info.plist"),
            contents: info_plist(version),
            error: String::from_str("Writing Info.plist for alpha app failed"),
        },
    );
    if !matches!(os, TargetOs::Windows) {
        steps.push(
            Step::MakeExecutable {
                path: macos_dir.join("chipmunk"),
                metadata_error: String::from_str("Reading alpha binary metadata failed"),
                permissions_error: String::from_str("Setting alpha binary permissions failed"),
            },
        );
    }
    proof {
        let expected = spec_bundle_steps(repo@, target, version@);
        assert(contents@ == joined(app_root@, seq!["Contents"@]));
        assert(plan_view(steps@) =~= expected);
    }
    steps
}

/// The steps that package the macOS release of `version`, signed and
/// notarized with `code_sign` when it is given and the environment `env`
/// allows it, and where the archive is written.
pub fn package_macos(
    repo: &FsPath,
    target: Target,
    version: &str,
    code_sign: Option<&AlphaMacOsCodeSign>,
    env: &EnvSnapshot,
) -> (r: (Vec<Step>, FsPath))
    requires
        target.os != TargetOs::Other,
    ensures
        plan_view(r.0@) == spec_package_macos(repo@, target, version@, code_sign, env.vars@),
        r.1@ == spec_macos_archive(repo@, target, version@),
{
    let os = target.os;
    let release = alpha_release_path(repo);
    let app_root = release.join(ALPHA_APP_NAME);
    let mut file = String::from_str("chipmunk-alpha@");
    file.append(version);
    file.append("-");
    file.append(platform_name(target).as_str());
    file.append("-portable.zip");
    let archive = release.join(file.as_str());
    let mut steps = bundle_steps(repo, target, version, &app_root);
    let ghost base = plan_view(steps@);
    let allowed = match code_sign {
        Some(cs) => cs.allowed(env),
        None => false,
    };
    match code_sign {
        Some(cs) => {
            if allowed {
                match cs.sign_app(env, &app_root, repo, os) {
                    Ok(calls) => {
                        let ghost cv = calls_view(calls@);
                        let mut calls = calls;
                        let mut k: usize = 0;
                        assert(cv.skip(0) =~= cv);
                        assert(base + run_steps(cv.take(0)) =~= base);
                        while calls.len() > 0
                            invariant
                                k + calls@.len() == cv.len(),
                                cv.len() <= usize::MAX,
                                calls_view(calls@) == cv.skip(k as int),
                                plan_view(steps@) == base + run_steps(cv.take(k as int)),
                            decreases calls.len(),
                        {
                            let ghost before = calls@;
                            let ghost before_steps = plan_view(steps@);
                            assert(calls_view(before)[0] == cv.skip(k as int)[0]);
                            let c = calls.remove(0);
                            assert(c@ == cv[k as int]);
                            steps.push(Step::Run(c));
                            assert forall|j: int| 0 <= j < calls@.len() implies #[trigger] calls_view(calls@)[j] == cv.skip(k + 1)[j] by {
                                assert(calls@[j] == before[j + 1]);
                                assert(calls_view(before)[j + 1] == cv.skip(
                                    k as int,
                                )[j + 1]);
                            }
                            assert(calls_view(calls@) =~= cv.skip(k + 1));
                            assert(plan_view(steps@) =~= before_steps.push(StepModel::Run(cv[k as int])));
                            assert(run_steps(cv.take(k + 1)) =~= run_steps(cv.take(k as int)).push(
                                StepModel::Run(cv[k as int]),
                            ));
                            k = k + 1;
                            assert(plan_view(steps@) =~= base + run_steps(cv.take(k as int)));
                        }
                        assert(cv.take(k as int) =~= cv);
                    },
                    Err(m) => {
                        steps.push(Step::Fail(m));
                        assert(plan_view(steps@) =~= spec_package_macos(
                            repo@,
                            target,
                            version@,
                            code_sign,
                            env.vars@,
                        ));
                        return (steps, archive);
                    },
                }
            } else {
                steps.push(
                    Step::Warn(
                        String::from_str(
                            "Skipping code signing because required environment variables are missing.",
                        ),
                    ),
                );
            }
        },
        None => {},
    }
    let ghost signed = plan_view(steps@);
    steps.push(Step::Run(zip_macos_bundle(&app_root, &archive, os)));
    if allowed {
        match code_sign {
            Some(cs) => {
                match cs.notarize_archive(env, &archive, os) {
                    Ok(call) => {
                        steps.push(
                            Step::Notarize {
                                call,
                                accepted_line: cs.notarize_command.accepted_line.clone(),
                            },
                        );
                        let mut args: Vec<String> = Vec::new();
                        args.push(String::from_str("stapler"));
                        args.push(String::from_str("staple"));
                        args.push(app_root.display(path_separator(os)));
                        let staple = ProcessCall::new(
                            "xcrun",
                            args,
                            None,
                            "Stapling alpha app failed",
                            "Stapling alpha app failed",
                        );
                        assert(staple@.args =~= spec_staple(app_root@, os).args);
                        steps.push(Step::Run(staple));
                        steps.push(Step::Run(zip_macos_bundle(&app_root, &archive, os)));
                    },
                    Err(m) => {
                        let ghost before = plan_view(steps@);
                        steps.push(Step::Fail(m));
                        assert(plan_view(steps@) =~= before.push(StepModel::Fail(m@)));
                    },
                }
            },
            None => {},
        }
    }
    proof {
        let expected = spec_package_macos(repo@, target, version@, code_sign, env.vars@);
        assert(plan_view(steps@) =~= expected);
    }
    (steps, archive)
}

/// Whether a plan has a step that stops it with an error.
pub open spec fn has_fail(steps: Seq<StepModel>) -> bool {
    exists|i: int| 0 <= i < steps.len() && (#[trigger] steps[i]) is Fail
}

/// Every macOS plan first lays out the bundle; signing and notarizing only
/// add steps after it; and a plan that does not stop with an error ends by
/// zipping the bundle into the archive that `package_macos` reports.
pub proof fn law_macos_plan_shape(
    repo: (Seq<char>, Seq<Seq<char>>),
    target: Target,
    version: Seq<char>,
    code_sign: Option<&AlphaMacOsCodeSign>,
    vars: Seq<(String, String)>,
)
    ensures
        ({
            let plan = spec_package_macos(repo, target, version, code_sign, vars);
            let base = spec_bundle_steps(repo, target, version);
            &&& plan.len() > base.len()
            &&& plan.take(base.len() as int) == base
            &&& !has_fail(plan) ==> plan.last() == StepModel::Run(
                spec_zip_macos_bundle(
                    spec_app_bundle(repo),
                    spec_macos_archive(repo, target, version),
                    target.os,
                ),
            )
        }),
{
    let plan = spec_package_macos(repo, target, version, code_sign, vars);
    let base = spec_bundle_steps(repo, target, version);
    let os = target.os;
    let app_root = spec_app_bundle(repo);
    let archive = spec_macos_archive(repo, target, version);
    let zip = StepModel::Run(spec_zip_macos_bundle(app_root, archive, os));
    match code_sign {
        None => {
            assert(plan.take(base.len() as int) =~= base);
        },
        Some(cs) => {
            if !cs.spec_allowed(vars) {
                assert(plan.take(base.len() as int) =~= base);
            } else {
                match cs.spec_sign_app(vars, app_root, repo, os) {
                    Err(m) => {
                        assert(plan.take(base.len() as int) =~= base);
                        assert(plan[plan.len() - 1] is Fail);
                    },
                    Ok(calls) => {
                        let signed = (base + run_steps(calls)).push(zip);
                        assert(signed.take(base.len() as int) =~= base);
                        match cs.spec_notarize_archive(vars, archive, os) {
                            Err(m) => {
                                assert(plan.take(base.len() as int) =~= base);
                                assert(plan[plan.len() - 1] is Fail);
                            },
                            Ok(call) => {
                                assert(plan.take(base.len() as int) =~= base);
                            },
                        }
                    },
                }
            }
        },
    }
}

/// No step that lays out the bundle notarizes.
proof fn lemma_bundle_steps_do_not_notarize(
    repo: (Seq<char>, Seq<Seq<char>>),
    target: Target,
    version: Seq<char>,
)
    ensures
        forall|i: int|
            0 <= i < spec_bundle_steps(repo, target, version).len() ==> !(#[trigger] spec_bundle_steps(
                repo,
                target,
                version,
            )[i] is Notarize),
{
    let base = spec_bundle_steps(repo, target, version);
    assert forall|i: int| 0 <= i < base.len() implies !(#[trigger] base[i] is Notarize) by {
        if i == 0 {
        } else if i == 1 {
        } else if i == 2 {
        } else if i == 3 {
        } else if i == 4 {
        } else if i == 5 {
        } else if i == 6 {
        } else {
        }
    }
}

/// In a macOS plan, a notarization step comes right after the step that
/// zips the bundle into the archive that `package_macos` reports, and what
/// it submits is that archive: its path argument, followed by the three
/// credential options with their values, is the archive's displayed path.
pub proof fn law_macos_notarizes_the_archive(
    repo: (Seq<char>, Seq<Seq<char>>),
    target: Target,
    version: Seq<char>,
    code_sign: Option<&AlphaMacOsCodeSign>,
    vars: Seq<(String, String)>,
)
    ensures
        ({
            let plan = spec_package_macos(repo, target, version, code_sign, vars);
            let archive = spec_macos_archive(repo, target, version);
            forall|i: int|
                0 <= i < plan.len() && #[trigger] plan[i] is Notarize ==> {
                    &&& i > 0
                    &&& plan[i - 1] == StepModel::Run(
                        spec_zip_macos_bundle(spec_app_bundle(repo), archive, target.os),
                    )
                    &&& plan[i] matches StepModel::Notarize(call, _) && call.args.len() >= 7
                        && call.args[call.args.len() - 7] == display_path(
                        archive,
                        separator(target.os),
                    )
                }
        }),
{
    let plan = spec_package_macos(repo, target, version, code_sign, vars);
    let base = spec_bundle_steps(repo, target, version);
    let os = target.os;
    let app_root = spec_app_bundle(repo);
    let archive = spec_macos_archive(repo, target, version);
    let zip = StepModel::Run(spec_zip_macos_bundle(app_root, archive, os));
    lemma_bundle_steps_do_not_notarize(repo, target, version);
    match code_sign {
        None => {
            assert forall|i: int| 0 <= i < plan.len() implies !(#[trigger] plan[i] is Notarize) by {
                if i < base.len() {
                    assert(plan[i] == base[i]);
                }
            }
        },
        Some(cs) => {
            if !cs.spec_allowed(vars) {
                assert forall|i: int| 0 <= i < plan.len() implies !(#[trigger] plan[i] is Notarize) by {
                    if i < base.len() {
                        assert(plan[i] == base[i]);
                    }
                }
            } else {
                match cs.spec_sign_app(vars, app_root, repo, os) {
                    Err(m) => {
                        assert forall|i: int| 0 <= i < plan.len() implies !(
                        #[trigger] plan[i] is Notarize) by {
                            if i < base.len() {
                                assert(plan[i] == base[i]);
                            }
                        }
                    },
                    Ok(calls) => {
                        let runs = run_steps(calls);
                        let signed = (base + runs).push(zip);
                        assert forall|i: int| 0 <= i < signed.len() implies !(
                        #[trigger] signed[i] is Notarize) by {
                            if i < base.len() {
                                assert(signed[i] == base[i]);
                            } else if i < base.len() + runs.len() {
                                assert(signed[i] == runs[i - base.len()]);
                            }
                        }
                        match cs.spec_notarize_archive(vars, archive, os) {
                            Err(m) => {
                                assert forall|i: int| 0 <= i < plan.len() implies !(
                                #[trigger] plan[i] is Notarize) by {
                                    if i < signed.len() {
                                        assert(plan[i] == signed[i]);
                                    }
                                }
                            },
                            Ok(call) => {
                                let n = signed.len();
                                assert(plan[n - 1] == zip);
                                assert forall|i: int|
                                    0 <= i < plan.len() && #[trigger] plan[i] is Notarize implies i
                                    == n by {
                                    if i < n {
                                        assert(plan[i] == signed[i]);
                                    }
                                }
                                let ws = words(cs.notarize_command.command@);
                                assert(call.args.len() == ws.skip(1).len() + 7);
                                assert(call.args[call.args.len() - 7] == display_path(
                                    archive,
                                    separator(os),
                                ));
                            },
                        }
                    },
                }
            }
        },
    }
}

} // verus!
