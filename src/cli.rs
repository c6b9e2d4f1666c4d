use vstd::prelude::*;
use crate::alignment;
use crate::linear;
use crate::text::{parse_usize, same_text, usize_text_value};

verus! {

/// The window manager interface to work through.
#[derive(Debug, Clone, Copy, PartialEq, Eq, Structural)]
pub enum UseBackend {
    I3,
    WmCtl,
    Xcb,
}

/// A parsed command line.
#[derive(Debug)]
pub struct Cli {
    pub backend: UseBackend,
    pub command: String,
    pub number: Option<usize>,
    pub wrap: bool,
}

/// A command line that asks for no navigation, or cannot be run.
#[derive(Debug, PartialEq, Eq)]
pub enum CliError {
    /// The help text was asked for.
    Help,
    /// The version was asked for.
    Version,
    /// An argument is left over after the command.
    UnexpectedArgument(String),
    /// No command was given.
    NoCommand,
    /// The `number` command came without a number.
    NoNumber,
}

/// The usage text.
pub const HELP: &'static str = "
i3switch - A simple command-line utility to switch focus in i3 window manager

Usage: i3switch (<OPTION>|[<BACKEND>] <COMMAND> [wrap])

Backends:
  -i3           Use i3 backend (default)
  -wm           Use wmctl backend
  -xcb          Use xcb backend

Commands:
  next          Move focus to next tab/window
  prev          Move focus to previous tab/window
  right         Move focus right
  down          Move focus down
  left          Move focus left
  up            Move focus up
  number NUM    Switch focus to tab/window number NUM

Arguments:
  [wrap]        Wrap around when reaching the edge of the workspace

Options:
  -h, --help    Print help (see a summary with '-h')
  -V, --version Print version
";

/// The argument at position `i`, if there is one.
pub open spec fn arg_at(args: Seq<Seq<char>>, i: int) -> Option<Seq<char>> {
    if 0 <= i < args.len() {
        Some(args[i])
    } else {
        None
    }
}

/// The backend that an option names.
pub open spec fn backend_option(a: Option<Seq<char>>) -> Option<UseBackend> {
    match a {
        Some(s) => if s == "-i3"@ {
            Some(UseBackend::I3)
        } else if s == "-wm"@ {
            Some(UseBackend::WmCtl)
        } else if s == "-xcb"@ {
            Some(UseBackend::Xcb)
        } else {
            None
        },
        None => None,
    }
}

/// Whether `s` names a command.
pub open spec fn is_command(s: Seq<char>) -> bool {
    s == "left"@ || s == "right"@ || s == "up"@ || s == "down"@ || s == "next"@ || s == "prev"@
        || s == "number"@
}

/// What a command line comes to, over the characters of its arguments.
pub enum ParseOutcome {
    Run { backend: UseBackend, command: Seq<char>, number: Option<usize>, wrap: bool },
    Help,
    Version,
    UnexpectedArgument(Seq<char>),
    NoCommand,
    NoNumber,
}

/// The reading of a command line `args` whose first entry is the program: an optional help
/// or version option; else an optional backend option, a command, an optional `wrap`, and
/// for `number` the number; nothing may follow. `wrap` is read with every command; the
/// `number` command accepts it and navigation ignores it there.
pub open spec fn parse_spec(args: Seq<Seq<char>>) -> ParseOutcome {
    let first = arg_at(args, 1);
    if first == Some("-h"@) || first == Some("--help"@) {
        ParseOutcome::Help
    } else if first == Some("-V"@) || first == Some("--version"@) {
        ParseOutcome::Version
    } else {
        let backend = backend_option(first);
        let i1: int = if backend is Some {
            2
        } else {
            1
        };
        let has_command = arg_at(args, i1) matches Some(c) && is_command(c);
        let command = if has_command {
            args[i1]
        } else {
            Seq::empty()
        };
        let i2 = if has_command {
            i1 + 1
        } else {
            i1
        };
        let wrap = arg_at(args, i2) == Some("wrap"@);
        let i3 = if wrap {
            i2 + 1
        } else {
            i2
        };
        let is_number = command == "number"@;
        let number = if is_number {
            usize_text_value(
                match arg_at(args, i3) {
                    Some(a) => a,
                    None => Seq::empty(),
                },
            )
        } else {
            None
        };
        let i4 = if is_number {
            i3 + 1
        } else {
            i3
        };
        if i4 < args.len() {
            ParseOutcome::UnexpectedArgument(args[i4])
        } else if command.len() == 0 {
            ParseOutcome::NoCommand
        } else if is_number && number is None {
            ParseOutcome::NoNumber
        } else {
            ParseOutcome::Run {
                backend: match backend {
                    Some(b) => b,
                    None => UseBackend::I3,
                },
                command,
                number,
                wrap,
            }
        }
    }
}

/// The outcome that a result of `Cli::parse` stands for.
pub open spec fn outcome_of(r: Result<Cli, CliError>) -> ParseOutcome {
    match r {
        Ok(c) => ParseOutcome::Run {
            backend: c.backend,
            command: c.command@,
            number: c.number,
            wrap: c.wrap,
        },
        Err(CliError::Help) => ParseOutcome::Help,
        Err(CliError::Version) => ParseOutcome::Version,
        Err(CliError::UnexpectedArgument(a)) => ParseOutcome::UnexpectedArgument(a@),
        Err(CliError::NoCommand) => ParseOutcome::NoCommand,
        Err(CliError::NoNumber) => ParseOutcome::NoNumber,
    }
}

/// The characters of each argument.
pub open spec fn texts_of(args: Seq<String>) -> Seq<Seq<char>> {
    args.map_values(|a: String| a@)
}

/// Whether argument `i` exists and reads `lit`.
fn arg_is(args: &Vec<String>, i: usize, lit: &str) -> (r: bool)
    ensures
        r == (arg_at(texts_of(args@), i as int) == Some(lit@)),
{
    if i < args.len() {
        same_text(args[i].as_str(), lit)
    } else {
        false
    }
}

/// The backend that argument `i` names, if any.
fn backend_at(args: &Vec<String>, i: usize) -> (r: Option<UseBackend>)
    ensures
        r == backend_option(arg_at(texts_of(args@), i as int)),
{
    if i >= args.len() {
        None
    } else if same_text(args[i].as_str(), "-i3") {
        Some(UseBackend::I3)
    } else if same_text(args[i].as_str(), "-wm") {
        Some(UseBackend::WmCtl)
    } else if same_text(args[i].as_str(), "-xcb") {
        Some(UseBackend::Xcb)
    } else {
        None
    }
}

/// Whether argument `i` exists and names a command.
fn command_at(args: &Vec<String>, i: usize) -> (r: bool)
    ensures
        r == (arg_at(texts_of(args@), i as int) matches Some(c) && is_command(c)),
{
    if i >= args.len() {
        return false;
    }
    let a = args[i].as_str();
    same_text(a, "left") || same_text(a, "right") || same_text(a, "up") || same_text(a, "down")
        || same_text(a, "next") || same_text(a, "prev") || same_text(a, "number")
}

impl Cli {
    /// Reads a command line whose first entry is the program.
    pub fn parse(args: Vec<String>) -> (r: Result<Cli, CliError>)
        requires
            args@.len() < usize::MAX - 4,
        ensures
            outcome_of(r) == parse_spec(texts_of(args@)),
    {
        let ghost texts = texts_of(args@);
        if arg_is(&args, 1, "-h") || arg_is(&args, 1, "--help") {
            return Err(CliError::Help);
        }
        if arg_is(&args, 1, "-V") || arg_is(&args, 1, "--version") {
            return Err(CliError::Version);
        }
        let mut arg_index: usize = 1;
        let backend = backend_at(&args, arg_index);
        if backend.is_some() {
            arg_index = arg_index + 1;
        }
        let mut command = String::new();
        if command_at(&args, arg_index) {
            command = args[arg_index].clone();
            arg_index = arg_index + 1;
        }
        let mut wrap = false;
        if arg_is(&args, arg_index, "wrap") {
            wrap = true;
            arg_index = arg_index + 1;
        }
        let is_number = same_text(command.as_str(), "number");
        let mut number: Option<usize> = None;
        if is_number {
            number = if arg_index < args.len() {
                parse_usize(args[arg_index].as_str())
            } else {
                proof {
                    reveal_strlit("");
                }
                parse_usize("")
            };
            arg_index = arg_index + 1;
        }
        if arg_index < args.len() {
            return Err(CliError::UnexpectedArgument(args[arg_index].clone()));
        }
        if command.unicode_len() == 0 {
            return Err(CliError::NoCommand);
        }
        if is_number && number.is_none() {
            return Err(CliError::NoNumber);
        }
        let backend = match backend {
            Some(b) => b,
            None => UseBackend::iter()[0],
        };
        Ok(Cli { backend, command, number, wrap })
    }

    /// The usage text.
    pub fn help() -> (r: String)
        ensures
            r@ == HELP@,
    {
        HELP.to_owned()
    }

    /// The step through the tab order that the command asks for, if it asks for one.
    pub fn linear_direction(&self) -> (r: Option<linear::Direction>)
        ensures
            r == (if self.command@ == "next"@ {
                Some(linear::Direction::Next)
            } else if self.command@ == "prev"@ {
                Some(linear::Direction::Prev)
            } else {
                None
            }),
    {
        let c = self.command.as_str();
        if same_text(c, "next") {
            Some(linear::Direction::Next)
        } else if same_text(c, "prev") {
            Some(linear::Direction::Prev)
        } else {
            None
        }
    }

    /// The movement in the plane that the command asks for, if it asks for one.
    pub fn planar_direction(&self) -> (r: Option<alignment::Direction>)
        ensures
            r == (if self.command@ == "left"@ {
                Some(alignment::Direction::Left)
            } else if self.command@ == "right"@ {
                Some(alignment::Direction::Right)
            } else if self.command@ == "up"@ {
                Some(alignment::Direction::Up)
            } else if self.command@ == "down"@ {
                Some(alignment::Direction::Down)
            } else {
                None
            }),
    {
        let c = self.command.as_str();
        if same_text(c, "left") {
            Some(alignment::Direction::Left)
        } else if same_text(c, "right") {
            Some(alignment::Direction::Right)
        } else if same_text(c, "up") {
            Some(alignment::Direction::Up)
        } else if same_text(c, "down") {
            Some(alignment::Direction::Down)
        } else {
            None
        }
    }
}

impl UseBackend {
    /// The backends, the default one first.
    pub fn iter() -> (r: Vec<UseBackend>)
        ensures
            r@ == seq![UseBackend::I3, UseBackend::WmCtl, UseBackend::Xcb],
    {
        let mut r: Vec<UseBackend> = Vec::new();
        r.push(UseBackend::I3);
        r.push(UseBackend::WmCtl);
        r.push(UseBackend::Xcb);
        r
    }
}

} // verus!
