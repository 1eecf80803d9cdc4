//! The command line of the release tool: `[--code-sign <PATH>]` or `--help`.
use vstd::prelude::*;
use vstd::string::*;
use crate::text::strings_view;

verus! {

/// The options that the release tool runs with.
pub struct Cli {
    /// The code signing configuration to sign and notarize with, if any.
    pub code_sign: Option<String>,
}

/// What the command line asks for.
pub enum CliAction {
    /// Print the usage and stop.
    Help,
    /// Build the release with these options.
    Run(Cli),
}

/// The usage line that `--help` prints.
pub open spec fn usage() -> Seq<char> {
    "Usage: release-alpha [--code-sign <PATH>]"@
}

/// The outcome of the arguments `args`, read from the first on, when the
/// arguments before them left the code signing path at `code_sign`:
/// `Ok(None)` for help, `Ok(Some(path))` to run, `Err` with the message.
pub open spec fn args_outcome(args: Seq<Seq<char>>, code_sign: Option<Seq<char>>) -> Result<
    Option<Option<Seq<char>>>,
    Seq<char>,
>
    decreases args.len(),
{
    if args.len() == 0 {
        Ok(Some(code_sign))
    } else {
        let a = args[0];
        if a == "-h"@ || a == "--help"@ {
            Ok(None)
        } else if a == "-c"@ || a == "--code-sign"@ {
            if args.len() < 2 {
                Err("Missing value for --code-sign"@)
            } else {
                args_outcome(args.skip(2), Some(args[1]))
            }
        } else {
            Err("Unknown argument: "@ + a)
        }
    }
}

/// The usage line that `--help` prints.
pub fn usage_line() -> (s: String)
    ensures
        s@ == usage(),
{
    String::from_str("Usage: release-alpha [--code-sign <PATH>]")
}

/// Reads the arguments that follow the program name. A later
/// `--code-sign` overrides an earlier one; `--help` stops the reading.
pub fn parse_args(args: &[String]) -> (r: Result<CliAction, String>)
    ensures
        match args_outcome(strings_view(args@), None) {
            Ok(None) => r matches Ok(CliAction::Help),
            Ok(Some(cs)) => r matches Ok(CliAction::Run(cli)) && (match cli.code_sign {
                Some(p) => cs == Some(p@),
                None => cs is None,
            }),
            Err(m) => r matches Err(e) && e@ == m,
        },
{
    let ghost all = strings_view(args@);
    let help_short = String::from_str("-h");
    let help_long = String::from_str("--help");
    let sign_short = String::from_str("-c");
    let sign_long = String::from_str("--code-sign");
    let mut code_sign: Option<String> = None;
    let mut i: usize = 0;
    assert(all.skip(0) =~= all);
    while i < args.len()
        invariant
            i <= args@.len(),
            all == strings_view(args@),
            help_short@ == "-h"@,
            help_long@ == "--help"@,
            sign_short@ == "-c"@,
            sign_long@ == "--code-sign"@,
            args_outcome(all, None) == args_outcome(
                all.skip(i as int),
                match code_sign {
                    Some(p) => Some(p@),
                    None => None,
                },
            ),
        decreases args.len() - i,
    {
        let arg = &args[i];
        assert(all.skip(i as int)[0] == arg@);
        if *arg == help_short || *arg == help_long {
            return Ok(CliAction::Help);
        } else if *arg == sign_short || *arg == sign_long {
            if i + 1 >= args.len() {
                return Err(String::from_str("Missing value for --code-sign"));
            }
            assert(all.skip(i as int).skip(2) =~= all.skip(i + 2));
            assert(all.skip(i as int)[1] == args@[i + 1]@);
            code_sign = Some(args[i + 1].clone());
            i = i + 2;
        } else {
            let mut m = String::from_str("Unknown argument: ");
            m.append(arg.as_str());
            return Err(m);
        }
    }
    Ok(CliAction::Run(Cli { code_sign }))
}

/// A later `--code-sign` overrides an earlier one.
pub proof fn law_later_code_sign_wins(
    first: Seq<char>,
    second: Seq<char>,
    rest: Seq<Seq<char>>,
    code_sign: Option<Seq<char>>,
)
    ensures
        args_outcome(seq!["--code-sign"@, first, "--code-sign"@, second] + rest, code_sign)
            == args_outcome(rest, Some(second)),
{
    reveal_strlit("--code-sign");
    reveal_strlit("-h");
    reveal_strlit("--help");
    assert("--code-sign"@.len() != "-h"@.len());
    assert("--code-sign"@.len() != "--help"@.len());
    let all = seq!["--code-sign"@, first, "--code-sign"@, second] + rest;
    let tail = seq!["--code-sign"@, second] + rest;
    assert(all.skip(2) =~= tail);
    assert(tail.skip(2) =~= rest);
    assert(args_outcome(tail, Some(first)) == args_outcome(rest, Some(second)));
    assert(args_outcome(all, code_sign) == args_outcome(tail, Some(first)));
}

/// `--help` answers with the usage whatever follows it.
pub proof fn law_help_wins(rest: Seq<Seq<char>>, code_sign: Option<Seq<char>>)
    ensures
        args_outcome(seq!["--help"@] + rest, code_sign) == Ok::<Option<Option<Seq<char>>>, Seq<char>>(None),
{
}

} // verus!
