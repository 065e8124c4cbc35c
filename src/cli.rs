//! The commands of the tool, as plain values, and the parsing of the
//! arguments of the `compile` command.

use vstd::prelude::*;
use crate::console::{Icons, Style};
use crate::layout::CompactDirectory;
use crate::target::Target;
use crate::text::str_eq;
use crate::version::{is_version_text, ParseError, Version, VersionSpec};

verus! {

/// Settings of the commands that install.
#[derive(Debug, Clone, PartialEq, Eq)]
pub struct CompactUpdateConfig {
    /// The program that unpacks archives.
    pub unzip: String,
}

/// Install a version and, unless told otherwise, make it the current one.
#[derive(Debug, Clone, PartialEq, Eq)]
pub struct UpdateCommand {
    pub version: Option<VersionSpec>,
    pub no_set_default: bool,
    pub config: CompactUpdateConfig,
}

/// List the versions available, or those installed.
#[derive(Debug, Clone, PartialEq, Eq)]
pub struct ListCommand {
    pub installed: bool,
    pub config: CompactUpdateConfig,
}

/// Commands on the tool itself.
#[derive(Debug, Clone, Copy, PartialEq, Eq, Structural)]
pub enum SSelf {
    Check,
    Update,
}

/// The commands of the tool.
#[derive(Debug, Clone, PartialEq, Eq)]
pub enum Command {
    Check,
    Update(UpdateCommand),
    SSelf(SSelf),
    List(ListCommand),
    ExternalCommand(Vec<String>),
}

/// Everything an invocation of the tool was given.
#[derive(Debug, Clone)]
pub struct CommandLineArguments {
    pub target: Target,
    pub directory: CompactDirectory,
    pub command: Command,
    pub style: Style,
    pub icons: Icons,
}

/// A call of the compiler: the version pinned with `+VERSION`, if any, and
/// the arguments passed on to it.
#[derive(Debug, Clone, PartialEq, Eq)]
pub struct CompileRequest {
    pub version: Option<Version>,
    pub arguments: Vec<String>,
}

/// Why the arguments of an external command were refused.
#[derive(Debug, Clone, PartialEq, Eq)]
pub enum ExternalCommandError {
    /// No command was given.
    MissingCommand,
    /// The command is not `compile`.
    UnknownCommand { command: String },
    /// A `+VERSION` argument does not hold a version.
    InvalidVersion { error: ParseError },
}

/// The texts of a list of arguments.
pub open spec fn arg_views(v: Seq<String>) -> Seq<Seq<char>> {
    v.map_values(|a: String| a@)
}

pub open spec fn is_pin(a: Seq<char>) -> bool {
    a.len() > 0 && a[0] == '+'
}

/// The arguments that are passed on: those that do not pin a version.
pub open spec fn passed_on(s: Seq<Seq<char>>) -> Seq<Seq<char>>
    decreases s.len(),
{
    if s.len() == 0 {
        Seq::empty()
    } else if is_pin(s.last()) {
        passed_on(s.drop_last())
    } else {
        passed_on(s.drop_last()).push(s.last())
    }
}

/// The text of the last version pin, if any.
pub open spec fn last_pin(s: Seq<Seq<char>>) -> Option<Seq<char>>
    decreases s.len(),
{
    if s.len() == 0 {
        None
    } else if is_pin(s.last()) {
        Some(s.last().skip(1))
    } else {
        last_pin(s.drop_last())
    }
}

/// Whether every pin holds a version.
pub open spec fn pins_valid(s: Seq<Seq<char>>) -> bool {
    forall|i: int| 0 <= i < s.len() && is_pin(#[trigger] s[i]) ==> is_version_text(s[i].skip(1))
}

/// Parses the arguments after the tool's own: the command `compile`,
/// then compiler arguments among which `+VERSION` pins a version (the last
/// one wins).
pub fn parse_compile_arguments(arguments: &Vec<String>) -> (r: Result<CompileRequest, ExternalCommandError>)
    ensures
        ({
            let s = arg_views(arguments@);
            let rest = s.skip(1);
            match r {
                Ok(req) => s.len() > 0 && s[0] == "compile"@ && pins_valid(rest) && arg_views(req.arguments@) == passed_on(rest) && match last_pin(rest) {
                    None => req.version is None,
                    Some(t) => req.version matches Some(v) && v.text() == t,
                },
                Err(ExternalCommandError::MissingCommand) => s.len() == 0,
                Err(ExternalCommandError::UnknownCommand { command }) => s.len() > 0 && s[0]
                    != "compile"@ && command@ == s[0],
                Err(ExternalCommandError::InvalidVersion { error }) => s.len() > 0 && s[0]
                    == "compile"@ && exists|i: int|
                    0 <= i < rest.len() && is_pin(#[trigger] rest[i]) && !is_version_text(
                        rest[i].skip(1),
                    ) && error.text@ == rest[i].skip(1) && pins_valid(rest.take(i)),
            }
        }),
{
    let ghost s = arg_views(arguments@);
    if arguments.len() == 0 {
        return Err(ExternalCommandError::MissingCommand);
    }
    assert(s[0] == arguments@[0]@);
    proof {
        reveal_strlit("compile");
    }
    if !str_eq(arguments[0].as_str(), "compile") {
        return Err(ExternalCommandError::UnknownCommand { command: arguments[0].clone() });
    }
    let ghost rest = s.skip(1);
    let mut version: Option<Version> = None;
    let mut passed: Vec<String> = Vec::new();
    let mut k: usize = 1;
    while k < arguments.len()
        invariant
            1 <= k <= arguments@.len(),
            s == arg_views(arguments@),
            rest == s.skip(1),
            s.len() > 0 && s[0] == "compile"@,
            pins_valid(rest.take(k - 1)),
            arg_views(passed@) == passed_on(rest.take(k - 1)),
            match last_pin(rest.take(k - 1)) {
                None => version is None,
                Some(t) => version matches Some(v) && v.text() == t,
            },
        decreases arguments@.len() - k,
    {
        let a = &arguments[k];
        let ghost pre = rest.take(k - 1);
        let ghost cur = rest.take(k as int);
        assert(cur.drop_last() =~= pre);
        assert(cur.last() == a@);
        let n = a.as_str().unicode_len();
        if n > 0 && a.as_str().get_char(0) == '+' {
            let tail = a.as_str().substring_char(1, n);
            assert(tail@ =~= a@.skip(1));
            match Version::parse(tail) {
                Ok(v) => {
                    version = Some(v);
                },
                Err(error) => {
                    assert(rest[k - 1] == a@);
                    assert(rest.take(k - 1) == pre);
                    return Err(ExternalCommandError::InvalidVersion { error });
                },
            }
            assert forall|i: int| 0 <= i < cur.len() && is_pin(#[trigger] cur[i]) implies is_version_text(
                cur[i].skip(1),
            ) by {
                if i < cur.len() - 1 {
                    assert(cur[i] == pre[i]);
                } else {
                    assert(is_version_text(a@.skip(1))) by {
                        let v = version->Some_0;
                        assert(a@.skip(1) == crate::version::version_text(
                            v.major as nat,
                            v.minor as nat,
                            v.patch as nat,
                        ));
                    }
                }
            }
        } else {
            let ghost before = arg_views(passed@);
            passed.push(a.clone());
            assert(arg_views(passed@) =~= before.push(a@));
            assert forall|i: int| 0 <= i < cur.len() && is_pin(#[trigger] cur[i]) implies is_version_text(
                cur[i].skip(1),
            ) by {
                assert(cur[i] == pre[i]);
            }
        }
        k = k + 1;
    }
    assert(rest.take(k - 1) =~= rest);
    Ok(CompileRequest { version, arguments: passed })
}

} // verus!
