//! Code signing and notarization of the macOS bundle: the configuration
//! read from its TOML file, the environment it depends on, and the commands
//! that sign and notarize.
use vstd::prelude::*;
use vstd::string::*;
use crate::path::{FsPath, display_path, joined};
use crate::plan::{CallModel, ProcessCall, calls_view};
use crate::release::{TargetOs, ensure, separator, path_separator, entitlements_path, spec_entitlements_path};
use crate::text::{chars_of, has_trimmed_line, raw_lines, strings_view, trim, words, words_of};
use crate::toml::{parse_array, parse_toml_section, toml_array, toml_section};

verus! {

/// The environment variables that the tool was started with, each name
/// with its value (those whose value is Unicode text).
pub struct EnvSnapshot {
    pub vars: Vec<(String, String)>,
}

/// The value of the variable `name`: that of its first entry.
pub open spec fn env_value(vars: Seq<(String, String)>, name: Seq<char>) -> Option<Seq<char>>
    decreases vars.len(),
{
    if vars.len() == 0 {
        None
    } else {
        match env_value(vars.drop_last(), name) {
            Some(v) => Some(v),
            None => if vars.last().0@ == name {
                Some(vars.last().1@)
            } else {
                None
            },
        }
    }
}

proof fn lemma_env_value_prefix(vars: Seq<(String, String)>, n: int, name: Seq<char>)
    requires
        0 <= n <= vars.len(),
        env_value(vars.take(n), name) is Some,
    ensures
        env_value(vars, name) == env_value(vars.take(n), name),
    decreases vars.len(),
{
    if n < vars.len() {
        assert(vars.drop_last().take(n) =~= vars.take(n));
        lemma_env_value_prefix(vars.drop_last(), n, name);
    } else {
        assert(vars.take(n) =~= vars);
    }
}

impl EnvSnapshot {
    /// The value of the variable `name`, if it is set.
    pub fn var(&self, name: &str) -> (r: Option<String>)
        ensures
            match env_value(self.vars@, name@) {
                Some(v) => r matches Some(x) && x@ == v,
                None => r is None,
            },
    {
        let key = String::from_str(name);
        let mut i: usize = 0;
        assert(self.vars@.take(0) =~= Seq::<(String, String)>::empty());
        while i < self.vars.len()
            invariant
                i <= self.vars@.len(),
                key@ == name@,
                env_value(self.vars@.take(i as int), name@) is None,
            decreases self.vars.len() - i,
        {
            assert(self.vars@.take(i + 1).drop_last() =~= self.vars@.take(i as int));
            if self.vars[i].0 == key {
                proof {
                    lemma_env_value_prefix(self.vars@, i + 1, name@);
                }
                return Some(self.vars[i].1.clone());
            }
            i = i + 1;
        }
        assert(self.vars@.take(self.vars@.len() as int) =~= self.vars@);
        None
    }
}

/// Which environment variables decide whether to sign, and which one holds
/// the signing identity.
pub struct AlphaEnvVars {
    /// Signing happens only when all of these are set.
    pub check_enabled: Vec<String>,
    /// Signing happens only when none of these is set.
    pub check_disabled: Vec<String>,
    /// The variable that holds the signing identity.
    pub signing_id: String,
}

/// How to notarize: the command, the variables that hold the credentials,
/// and the output line that reports success.
pub struct AlphaNotarizeCommand {
    pub command: String,
    pub env_apple_id: String,
    pub env_team_id: String,
    pub env_password: String,
    pub accepted_line: String,
}

/// The code signing configuration of the macOS bundle.
pub struct AlphaMacOsCodeSign {
    pub env_vars: AlphaEnvVars,
    pub notarize_command: AlphaNotarizeCommand,
}

/// The message for the first key that the configuration lacks, given its
/// `[env_vars]` pairs `e` and its `[notarize_command]` pairs `n`.
pub open spec fn code_sign_missing(e: Map<Seq<char>, Seq<char>>, n: Map<Seq<char>, Seq<char>>) -> Option<
    Seq<char>,
> {
    if !e.dom().contains("check_enabled"@) {
        Some("Missing env_vars.check_enabled"@)
    } else if !e.dom().contains("check_disabled"@) {
        Some("Missing env_vars.check_disabled"@)
    } else if !e.dom().contains("signing_id"@) {
        Some("Missing env_vars.signing_id"@)
    } else if !n.dom().contains("command"@) {
        Some("Missing notarize_command.command"@)
    } else if !n.dom().contains("env_apple_id"@) {
        Some("Missing notarize_command.env_apple_id"@)
    } else if !n.dom().contains("env_team_id"@) {
        Some("Missing notarize_command.env_team_id"@)
    } else if !n.dom().contains("env_password"@) {
        Some("Missing notarize_command.env_password"@)
    } else if !n.dom().contains("accepted_line"@) {
        Some("Missing notarize_command.accepted_line"@)
    } else {
        None
    }
}

/// Code signing is configured on macOS only: `Ok` there, else the error
/// that says so.
pub fn code_sign_supported(os: TargetOs) -> (r: Result<(), String>)
    ensures
        os == TargetOs::Macos ==> r is Ok,
        os != TargetOs::Macos ==> (r matches Err(m) && m@
            == "Alpha code signing is only supported on macOS"@),
{
    ensure(matches!(os, TargetOs::Macos), "Alpha code signing is only supported on macOS")
}

/// Whether `r` is what reading the configuration text `content` gives:
/// the error for the first missing key, else the configuration of its
/// `[env_vars]` and `[notarize_command]` sections.
pub open spec fn loaded_from(content: Seq<char>, r: Result<AlphaMacOsCodeSign, String>) -> bool {
    let e = toml_section(content, "env_vars"@);
    let n = toml_section(content, "notarize_command"@);
    match code_sign_missing(e, n) {
        Some(m) => r matches Err(x) && x@ == m,
        None => r matches Ok(c) && c.read_from(e, n),
    }
}

/// Whether `r` is what loading gives when reading the file gave `read`:
/// the read error as it stands, or what the text read gives.
pub open spec fn loaded_after(read: Result<String, String>, r: Result<AlphaMacOsCodeSign, String>) -> bool {
    match read {
        Err(e) => r matches Err(x) && x@ == e@,
        Ok(text) => loaded_from(text@, r),
    }
}

impl AlphaMacOsCodeSign {
    /// Loads the configuration on `os`. On a system other than macOS it
    /// fails with the message that says so, without calling `read`; on
    /// macOS it calls `read` once for the file's text and reads the
    /// configuration from it, or fails with the error that `read` gives.
    pub fn load_on<F: FnOnce() -> Result<String, String>>(os: TargetOs, read: F) -> (r: Result<
        AlphaMacOsCodeSign,
        String,
    >)
        requires
            os == TargetOs::Macos ==> call_requires(read, ()),
        ensures
            os != TargetOs::Macos ==> (r matches Err(m) && m@
                == "Alpha code signing is only supported on macOS"@),
            os == TargetOs::Macos ==> exists|c: Result<String, String>|
                #[trigger] call_ensures(read, (), c) && loaded_after(c, r),
    {
        match code_sign_supported(os) {
            Err(m) => Err(m),
            Ok(()) => {
                let c = read();
                match c {
                    Err(e) => {
                        let r = Err(e);
                        proof {
                            assert(loaded_after(c, r));
                        }
                        r
                    },
                    Ok(text) => {
                        let r = Self::load(text.as_str());
                        proof {
                            assert(loaded_after(c, r));
                        }
                        r
                    },
                }
            },
        }
    }

    /// Whether this configuration holds the values of `e` (`[env_vars]`)
    /// and `n` (`[notarize_command]`).
    pub open spec fn read_from(
        &self,
        e: Map<Seq<char>, Seq<char>>,
        n: Map<Seq<char>, Seq<char>>,
    ) -> bool {
        &&& strings_view(self.env_vars.check_enabled@) == toml_array(e["check_enabled"@])
        &&& strings_view(self.env_vars.check_disabled@) == toml_array(e["check_disabled"@])
        &&& self.env_vars.signing_id@ == e["signing_id"@]
        &&& self.notarize_command.command@ == n["command"@]
        &&& self.notarize_command.env_apple_id@ == n["env_apple_id"@]
        &&& self.notarize_command.env_team_id@ == n["env_team_id"@]
        &&& self.notarize_command.env_password@ == n["env_password"@]
        &&& self.notarize_command.accepted_line@ == n["accepted_line"@]
    }

    /// Reads the configuration from the text of its file.
    pub fn load(content: &str) -> (r: Result<AlphaMacOsCodeSign, String>)
        ensures
            loaded_from(content@, r),
    {
        let env_vars = parse_toml_section(content, "env_vars");
        let notarize = parse_toml_section(content, "notarize_command");
        let check_enabled = match env_vars.get("check_enabled") {
            Some(v) => parse_array(v.as_str()),
            None => return Err(String::from_str("Missing env_vars.check_enabled")),
        };
        let check_disabled = match env_vars.get("check_disabled") {
            Some(v) => parse_array(v.as_str()),
            None => return Err(String::from_str("Missing env_vars.check_disabled")),
        };
        let signing_id = match env_vars.get("signing_id") {
            Some(v) => v,
            None => return Err(String::from_str("Missing env_vars.signing_id")),
        };
        let command = match notarize.get("command") {
            Some(v) => v,
            None => return Err(String::from_str("Missing notarize_command.command")),
        };
        let env_apple_id = match notarize.get("env_apple_id") {
            Some(v) => v,
            None => return Err(String::from_str("Missing notarize_command.env_apple_id")),
        };
        let env_team_id = match notarize.get("env_team_id") {
            Some(v) => v,
            None => return Err(String::from_str("Missing notarize_command.env_team_id")),
        };
        let env_password = match notarize.get("env_password") {
            Some(v) => v,
            None => return Err(String::from_str("Missing notarize_command.env_password")),
        };
        let accepted_line = match notarize.get("accepted_line") {
            Some(v) => v,
            None => return Err(String::from_str("Missing notarize_command.accepted_line")),
        };
        Ok(
            AlphaMacOsCodeSign {
                env_vars: AlphaEnvVars { check_enabled, check_disabled, signing_id },
                notarize_command: AlphaNotarizeCommand {
                    command,
                    env_apple_id,
                    env_team_id,
                    env_password,
                    accepted_line,
                },
            },
        )
    }

    /// Whether signing may happen in the environment `vars`: every variable
    /// of `check_enabled` is set and none of `check_disabled` is.
    pub open spec fn spec_allowed(&self, vars: Seq<(String, String)>) -> bool {
        &&& forall|i: int|
            0 <= i < self.env_vars.check_enabled@.len() ==> env_value(
                vars,
                #[trigger] self.env_vars.check_enabled@[i]@,
            ) is Some
        &&& forall|i: int|
            0 <= i < self.env_vars.check_disabled@.len() ==> env_value(
                vars,
                #[trigger] self.env_vars.check_disabled@[i]@,
            ) is None
    }

    /// Signing is allowed exactly when every variable named in
    /// `check_enabled` is set and none named in `check_disabled` is: one
    /// enabling variable that is missing, or one disabling variable that is
    /// set, is enough to refuse it, and with every enabling variable set and no
    /// disabling one it is allowed.
    pub proof fn law_allowed_needs_every_enabled_var(&self, vars: Seq<(String, String)>)
        ensures
            (exists|i: int|
                0 <= i < self.env_vars.check_enabled@.len() && env_value(
                    vars,
                    #[trigger] self.env_vars.check_enabled@[i]@,
                ) is None) ==> !self.spec_allowed(vars),
            (exists|i: int|
                0 <= i < self.env_vars.check_disabled@.len() && env_value(
                    vars,
                    #[trigger] self.env_vars.check_disabled@[i]@,
                ) is Some) ==> !self.spec_allowed(vars),
            (forall|i: int|
                0 <= i < self.env_vars.check_enabled@.len() ==> env_value(
                    vars,
                    #[trigger] self.env_vars.check_enabled@[i]@,
                ) is Some) && (forall|i: int|
                0 <= i < self.env_vars.check_disabled@.len() ==> env_value(
                    vars,
                    #[trigger] self.env_vars.check_disabled@[i]@,
                ) is None) ==> self.spec_allowed(vars),
    {
    }

    /// Whether signing may happen in the environment `env`.
    pub fn allowed(&self, env: &EnvSnapshot) -> (b: bool)
        ensures
            b == self.spec_allowed(env.vars@),
    {
        let mut i: usize = 0;
        while i < self.env_vars.check_enabled.len()
            invariant
                i <= self.env_vars.check_enabled@.len(),
                forall|j: int|
                    0 <= j < i ==> env_value(
                        env.vars@,
                        #[trigger] self.env_vars.check_enabled@[j]@,
                    ) is Some,
            decreases self.env_vars.check_enabled.len() - i,
        {
            if env.var(self.env_vars.check_enabled[i].as_str()).is_none() {
                return false;
            }
            i = i + 1;
        }
        let mut k: usize = 0;
        while k < self.env_vars.check_disabled.len()
            invariant
                k <= self.env_vars.check_disabled@.len(),
                forall|j: int|
                    0 <= j < self.env_vars.check_enabled@.len() ==> env_value(
                        env.vars@,
                        #[trigger] self.env_vars.check_enabled@[j]@,
                    ) is Some,
                forall|j: int|
                    0 <= j < k ==> env_value(
                        env.vars@,
                        #[trigger] self.env_vars.check_disabled@[j]@,
                    ) is None,
            decreases self.env_vars.check_disabled.len() - k,
        {
            if env.var(self.env_vars.check_disabled[k].as_str()).is_some() {
                return false;
            }
            k = k + 1;
        }
        true
    }

    /// The commands that sign the bundle at `app_root`, or the error when
    /// the variable with the signing identity is not set.
    pub open spec fn spec_sign_app(
        &self,
        vars: Seq<(String, String)>,
        app_root: (Seq<char>, Seq<Seq<char>>),
        repo: (Seq<char>, Seq<Seq<char>>),
        os: TargetOs,
    ) -> Result<Seq<CallModel>, Seq<char>> {
        let sep = separator(os);
        let ent = display_path(spec_entitlements_path(repo), sep);
        let exe = display_path(joined(app_root, seq!["Contents"@, "MacOS"@, "chipmunk"@]), sep);
        let app = display_path(app_root, sep);
        match env_value(vars, self.env_vars.signing_id@) {
            None => Err("Reading signing identity failed from env var "@ + self.env_vars.signing_id@),
            Some(id) => Ok(
                seq![
                    CallModel {
                        program: "codesign"@,
                        args: seq![
                            "--force"@,
                            "--sign"@,
                            id,
                            "--timestamp"@,
                            "--options"@,
                            "runtime"@,
                            "--entitlements"@,
                            ent,
                            exe,
                        ],
                        cwd: None,
                        launch_error: "Signing alpha executable failed"@,
                        failure: "Signing alpha executable failed"@,
                    },
                    CallModel {
                        program: "codesign"@,
                        args: seq![
                            "--force"@,
                            "--sign"@,
                            id,
                            "--timestamp"@,
                            "--options"@,
                            "runtime"@,
                            "--deep"@,
                            "--strict"@,
                            "--entitlements"@,
                            ent,
                            app,
                        ],
                        cwd: None,
                        launch_error: "Signing alpha app bundle failed"@,
                        failure: "Signing alpha app bundle failed"@,
                    },
                    CallModel {
                        program: "codesign"@,
                        args: seq!["--verify"@, "--verbose=4"@, app],
                        cwd: None,
                        launch_error: "Verifying alpha app bundle signature failed"@,
                        failure: "Verifying alpha app bundle signature failed"@,
                    },
                ],
            ),
        }
    }

    /// The commands that sign the bundle at `app_root` with the identity
    /// that the environment holds.
    pub fn sign_app(&self, env: &EnvSnapshot, app_root: &FsPath, repo: &FsPath, os: TargetOs) -> (r:
        Result<Vec<ProcessCall>, String>)
        ensures
            match self.spec_sign_app(env.vars@, app_root@, repo@, os) {
                Ok(calls) => r matches Ok(v) && calls_view(v@) == calls,
                Err(m) => r matches Err(e) && e@ == m,
            },
    {
        let id = match env.var(self.env_vars.signing_id.as_str()) {
            Some(id) => id,
            None => {
                let mut m = String::from_str("Reading signing identity failed from env var ");
                m.append(self.env_vars.signing_id.as_str());
                return Err(m);
            },
        };
        let sep = path_separator(os);
        let ent = entitlements_path(repo).display(sep);
        let exe = app_root.join("Contents").join("MacOS").join("chipmunk");
        assert(exe@ =~= joined(app_root@, seq!["Contents"@, "MacOS"@, "chipmunk"@]));
        let exe = exe.display(sep);
        let app = app_root.display(sep);
        let mut a1: Vec<String> = Vec::new();
        a1.push(String::from_str("--force"));
        a1.push(String::from_str("--sign"));
        a1.push(id.clone());
        a1.push(String::from_str("--timestamp"));
        a1.push(String::from_str("--options"));
        a1.push(String::from_str("runtime"));
        a1.push(String::from_str("--entitlements"));
        a1.push(ent.clone());
        a1.push(exe);
        let mut a2: Vec<String> = Vec::new();
        a2.push(String::from_str("--force"));
        a2.push(String::from_str("--sign"));
        a2.push(id);
        a2.push(String::from_str("--timestamp"));
        a2.push(String::from_str("--options"));
        a2.push(String::from_str("runtime"));
        a2.push(String::from_str("--deep"));
        a2.push(String::from_str("--strict"));
        a2.push(String::from_str("--entitlements"));
        a2.push(ent);
        a2.push(app.clone());
        let mut a3: Vec<String> = Vec::new();
        a3.push(String::from_str("--verify"));
        a3.push(String::from_str("--verbose=4"));
        a3.push(app);
        let c1 = ProcessCall::new("codesign", a1, None, "Signing alpha executable failed", "Signing alpha executable failed");
        let c2 = ProcessCall::new("codesign", a2, None, "Signing alpha app bundle failed", "Signing alpha app bundle failed");
        let c3 = ProcessCall::new(
            "codesign",
            a3,
            None,
            "Verifying alpha app bundle signature failed",
            "Verifying alpha app bundle signature failed",
        );
        let mut calls: Vec<ProcessCall> = Vec::new();
        calls.push(c1);
        calls.push(c2);
        calls.push(c3);
        proof {
            let expected = self.spec_sign_app(env.vars@, app_root@, repo@, os);
            assert(expected is Ok);
            assert(calls@[0]@.args =~= expected->Ok_0[0].args);
            assert(calls@[1]@.args =~= expected->Ok_0[1].args);
            assert(calls@[2]@.args =~= expected->Ok_0[2].args);
            assert(calls_view(calls@) =~= expected->Ok_0);
        }
        Ok(calls)
    }

    /// The command that notarizes `archive`, or the error for the first
    /// credential that the environment lacks or for a command that names no
    /// program.
    pub open spec fn spec_notarize_archive(
        &self,
        vars: Seq<(String, String)>,
        archive: (Seq<char>, Seq<Seq<char>>),
        os: TargetOs,
    ) -> Result<CallModel, Seq<char>> {
        let nc = self.notarize_command;
        match env_value(vars, nc.env_apple_id@) {
            None => Err("Missing env var "@ + nc.env_apple_id@),
            Some(apple_id) => match env_value(vars, nc.env_team_id@) {
                None => Err("Missing env var "@ + nc.env_team_id@),
                Some(team_id) => match env_value(vars, nc.env_password@) {
                    None => Err("Missing env var "@ + nc.env_password@),
                    Some(password) => {
                        let ws = words(nc.command@);
                        if ws.len() == 0 {
                            Err("Alpha notarize command must include a binary"@)
                        } else {
                            Ok(
                                CallModel {
                                    program: ws[0],
                                    args: ws.skip(1) + seq![
                                        display_path(archive, separator(os)),
                                        "--apple-id"@,
                                        apple_id,
                                        "--team-id"@,
                                        team_id,
                                        "--password"@,
                                        password,
                                    ],
                                    cwd: None,
                                    launch_error: "Running alpha notarize command failed"@,
                                    failure: "Alpha notarize command failed"@,
                                },
                            )
                        }
                    },
                },
            },
        }
    }

    /// The command that notarizes `archive` with the credentials that the
    /// environment holds.
    pub fn notarize_archive(&self, env: &EnvSnapshot, archive: &FsPath, os: TargetOs) -> (r: Result<
        ProcessCall,
        String,
    >)
        ensures
            match self.spec_notarize_archive(env.vars@, archive@, os) {
                Ok(call) => r matches Ok(c) && c@ == call,
                Err(m) => r matches Err(e) && e@ == m,
            },
    {
        let nc = &self.notarize_command;
        let apple_id = match env.var(nc.env_apple_id.as_str()) {
            Some(v) => v,
            None => {
                let mut m = String::from_str("Missing env var ");
                m.append(nc.env_apple_id.as_str());
                return Err(m);
            },
        };
        let team_id = match env.var(nc.env_team_id.as_str()) {
            Some(v) => v,
            None => {
                let mut m = String::from_str("Missing env var ");
                m.append(nc.env_team_id.as_str());
                return Err(m);
            },
        };
        let password = match env.var(nc.env_password.as_str()) {
            Some(v) => v,
            None => {
                let mut m = String::from_str("Missing env var ");
                m.append(nc.env_password.as_str());
                return Err(m);
            },
        };
        let cs = chars_of(nc.command.as_str());
        let ws = words_of(cs.as_slice());
        if ws.len() == 0 {
            return Err(String::from_str("Alpha notarize command must include a binary"));
        }
        let mut args: Vec<String> = Vec::new();
        let mut i: usize = 1;
        while i < ws.len()
            invariant
                1 <= i <= ws@.len(),
                args@.len() == i - 1,
                strings_view(args@) == strings_view(ws@).subrange(1, i as int),
            decreases ws.len() - i,
        {
            let w = ws[i].clone();
            assert(strings_view(ws@)[i as int] == w@);
            let ghost before = args@;
            args.push(w);
            assert forall|k: int| 0 <= k < args@.len() implies strings_view(args@)[k]
                == strings_view(ws@)[k + 1] by {
                if k < before.len() {
                    assert(args@[k] == before[k]);
                    assert(strings_view(before)[k] == strings_view(ws@).subrange(1, i as int)[k]);
                } else {
                    assert(args@[k]@ == w@);
                }
            }
            i = i + 1;
            assert(strings_view(args@) =~= strings_view(ws@).subrange(1, i as int));
        }
        args.push(archive.display(path_separator(os)));
        args.push(String::from_str("--apple-id"));
        args.push(apple_id);
        args.push(String::from_str("--team-id"));
        args.push(team_id);
        args.push(String::from_str("--password"));
        args.push(password);
        let program = ws[0].clone();
        let call = ProcessCall::new_owned(
            program,
            args,
            None,
            "Running alpha notarize command failed",
            "Alpha notarize command failed",
        );
        proof {
            let expected = self.spec_notarize_archive(env.vars@, archive@, os);
            assert(strings_view(ws@).subrange(1, ws@.len() as int) =~= words(nc.command@).skip(1));
            assert(call@.args =~= expected->Ok_0.args);
        }
        Ok(call)
    }
}

/// Whether some line of `out` or of `err`, trimmed, is `line`.
pub open spec fn reports_line(out: Seq<char>, err: Seq<char>, line: Seq<char>) -> bool {
    ||| exists|i: int| 0 <= i < raw_lines(out).len() && trim(#[trigger] raw_lines(out)[i]) == line
    ||| exists|i: int| 0 <= i < raw_lines(err).len() && trim(#[trigger] raw_lines(err)[i]) == line
}

/// Judges a finished notarization: it failed when the command did not
/// succeed, or when no line of its output reports `accepted_line`.
pub fn notarize_verdict(accepted_line: &str, success: bool, stdout: &str, stderr: &str) -> (r:
    Result<(), String>)
    ensures
        !success ==> (r matches Err(m) && m@ == "Alpha notarize command failed"@),
        success && !reports_line(stdout@, stderr@, accepted_line@) ==> (r matches Err(m) && m@
            == "Alpha notarize command did not report accepted status"@),
        success && reports_line(stdout@, stderr@, accepted_line@) ==> r is Ok,
{
    let target = chars_of(accepted_line);
    let out = chars_of(stdout);
    let err = chars_of(stderr);
    let accepted = has_trimmed_line(out.as_slice(), target.as_slice()) || has_trimmed_line(
        err.as_slice(),
        target.as_slice(),
    );
    if !success {
        return Err(String::from_str("Alpha notarize command failed"));
    }
    if !accepted {
        return Err(String::from_str("Alpha notarize command did not report accepted status"));
    }
    Ok(())
}

} // verus!
