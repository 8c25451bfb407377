//! The command line of the backend binary: `bridge --connect <addr>
//! --plugin-version <version>` or `serve-fixture --root <path> --bind <addr>`.
use vstd::prelude::*;
use crate::paths::same_text;
use crate::text::push_str;

verus! {

/// What the binary is asked to do.
#[derive(Debug, Clone, PartialEq, Eq)]
pub enum Command {
    /// Print the usage text.
    Help,
    /// Serve an output root over HTTP.
    ServeFixture { root: String, bind: String },
    /// Connect to the bridge.
    Bridge { connect: String, plugin_version: String },
    /// Print `message` and exit with `code`.
    Fail { message: String, code: i32 },
}

/// What scanning a subcommand's options gives.
pub enum Scan {
    Help,
    Unknown(Seq<char>),
    Done(Option<Seq<char>>, Option<Seq<char>>),
}

/// Scans options from `i` on: each of the two flags takes the argument after
/// it (none where it is last), a later flag overriding an earlier one; a help
/// flag stops the scan, and so does any other argument.
pub open spec fn scan(
    args: Seq<Seq<char>>,
    i: int,
    a: Option<Seq<char>>,
    b: Option<Seq<char>>,
    flag_a: Seq<char>,
    flag_b: Seq<char>,
) -> Scan
    decreases args.len() - i,
{
    if i < 0 || i >= args.len() {
        Scan::Done(a, b)
    } else if args[i] == flag_a {
        if i + 1 < args.len() {
            scan(args, i + 2, Some(args[i + 1]), b, flag_a, flag_b)
        } else {
            scan(args, i + 1, None, b, flag_a, flag_b)
        }
    } else if args[i] == flag_b {
        if i + 1 < args.len() {
            scan(args, i + 2, a, Some(args[i + 1]), flag_a, flag_b)
        } else {
            scan(args, i + 1, a, None, flag_a, flag_b)
        }
    } else if args[i] == "--help"@ || args[i] == "-h"@ {
        Scan::Help
    } else {
        Scan::Unknown(args[i])
    }
}

/// A command as plain text, for contracts.
pub enum CommandView {
    Help,
    ServeFixture(Seq<char>, Seq<char>),
    Bridge(Seq<char>, Seq<char>),
    Fail(Seq<char>, i32),
}

pub open spec fn command_view(c: Command) -> CommandView {
    match c {
        Command::Help => CommandView::Help,
        Command::ServeFixture { root, bind } => CommandView::ServeFixture(root@, bind@),
        Command::Bridge { connect, plugin_version } => CommandView::Bridge(connect@, plugin_version@),
        Command::Fail { message, code } => CommandView::Fail(message@, code),
    }
}

/// The command that the arguments (without the program name) ask for.
pub open spec fn command_of(args: Seq<Seq<char>>) -> CommandView {
    if args.len() == 0 {
        CommandView::Help
    } else if args[0] == "serve-fixture"@ {
        match scan(args, 1, None, None, "--root"@, "--bind"@) {
            Scan::Help => CommandView::Help,
            Scan::Unknown(other) => CommandView::Fail("unknown serve-fixture argument: "@ + other, 2),
            Scan::Done(None, _) => CommandView::Fail("serve-fixture requires --root"@, 2),
            Scan::Done(Some(_), None) => CommandView::Fail("serve-fixture requires --bind"@, 2),
            Scan::Done(Some(root), Some(bind)) => CommandView::ServeFixture(root, bind),
        }
    } else if args[0] == "--help"@ || args[0] == "-h"@ {
        CommandView::Help
    } else if args[0] != "bridge"@ {
        CommandView::Fail("unknown command: "@ + args[0], 2)
    } else {
        match scan(args, 1, None, None, "--connect"@, "--plugin-version"@) {
            Scan::Help => CommandView::Help,
            Scan::Unknown(other) => CommandView::Fail("unknown bridge argument: "@ + other, 2),
            Scan::Done(None, _) => CommandView::Fail("bridge requires --connect"@, 2),
            Scan::Done(Some(_), None) => CommandView::Fail("bridge requires --plugin-version"@, 2),
            Scan::Done(Some(connect), Some(version)) => CommandView::Bridge(connect, version),
        }
    }
}

/// The outcome of an option scan, with its texts.
enum Scanned {
    Help,
    Unknown(String),
    Done(Option<String>, Option<String>),
}

spec fn scanned_view(s: Scanned) -> Scan {
    match s {
        Scanned::Help => Scan::Help,
        Scanned::Unknown(m) => Scan::Unknown(m@),
        Scanned::Done(a, b) => Scan::Done(
            match a {
                Some(x) => Some(x@),
                None => None,
            },
            match b {
                Some(x) => Some(x@),
                None => None,
            },
        ),
    }
}

fn scan_options(args: &Vec<String>, flag_a: &str, flag_b: &str) -> (r: Scanned)
    requires
        args@.len() >= 1,
    ensures
        scanned_view(r) == scan(args@.map_values(|s: String| s@), 1, None, None, flag_a@, flag_b@),
{
    let ghost v = args@.map_values(|s: String| s@);
    let mut a: Option<String> = None;
    let mut b: Option<String> = None;
    let mut i: usize = 1;
    while i < args.len()
        invariant
            1 <= i <= args@.len() + 1,
            v == args@.map_values(|s: String| s@),
            scan(v, 1, None, None, flag_a@, flag_b@) == scan(
                v,
                i as int,
                match a {
                    Some(x) => Some(x@),
                    None => None,
                },
                match b {
                    Some(x) => Some(x@),
                    None => None,
                },
                flag_a@,
                flag_b@,
            ),
        decreases args@.len() + 1 - i,
    {
        let arg = args[i].as_str();
        assert(v[i as int] == arg@);
        if same_text(arg, flag_a) {
            if i + 1 < args.len() {
                a = Some(args[i + 1].clone());
                proof {
                    assert(v[i + 1] == args@[i + 1]@);
                }
                i = i + 2;
            } else {
                a = None;
                i = i + 1;
            }
        } else if same_text(arg, flag_b) {
            if i + 1 < args.len() {
                b = Some(args[i + 1].clone());
                proof {
                    assert(v[i + 1] == args@[i + 1]@);
                }
                i = i + 2;
            } else {
                b = None;
                i = i + 1;
            }
        } else if same_text(arg, "--help") || same_text(arg, "-h") {
            return Scanned::Help;
        } else {
            return Scanned::Unknown(args[i].clone());
        }
    }
    Scanned::Done(a, b)
}

fn with_prefix(prefix: &str, s: &str) -> (r: String)
    ensures
        r@ == prefix@ + s@,
{
    let mut r = String::from_str(prefix);
    push_str(&mut r, s);
    r
}

/// Reads the command line (without the program name).
pub fn parse_command(args: &Vec<String>) -> (c: Command)
    ensures
        command_view(c) == command_of(args@.map_values(|s: String| s@)),
{
    let ghost v = args@.map_values(|s: String| s@);
    if args.len() == 0 {
        return Command::Help;
    }
    let first = args[0].as_str();
    assert(v[0] == first@);
    if same_text(first, "serve-fixture") {
        return match scan_options(args, "--root", "--bind") {
            Scanned::Help => Command::Help,
            Scanned::Unknown(other) => Command::Fail {
                message: with_prefix("unknown serve-fixture argument: ", other.as_str()),
                code: 2,
            },
            Scanned::Done(None, _) => Command::Fail { message: String::from_str("serve-fixture requires --root"), code: 2 },
            Scanned::Done(Some(_), None) => Command::Fail {
                message: String::from_str("serve-fixture requires --bind"),
                code: 2,
            },
            Scanned::Done(Some(root), Some(bind)) => Command::ServeFixture { root, bind },
        };
    }
    if same_text(first, "--help") || same_text(first, "-h") {
        return Command::Help;
    }
    if !same_text(first, "bridge") {
        return Command::Fail { message: with_prefix("unknown command: ", first), code: 2 };
    }
    match scan_options(args, "--connect", "--plugin-version") {
        Scanned::Help => Command::Help,
        Scanned::Unknown(other) => Command::Fail {
            message: with_prefix("unknown bridge argument: ", other.as_str()),
            code: 2,
        },
        Scanned::Done(None, _) => Command::Fail { message: String::from_str("bridge requires --connect"), code: 2 },
        Scanned::Done(Some(_), None) => Command::Fail {
            message: String::from_str("bridge requires --plugin-version"),
            code: 2,
        },
        Scanned::Done(Some(connect), Some(plugin_version)) => Command::Bridge { connect, plugin_version },
    }
}

/// The usage text.
pub fn usage() -> (s: &'static str)
    ensures
        s@ == "Usage: squaremap-server bridge --connect 127.0.0.1:<port> --plugin-version <version>\n       squaremap-server serve-fixture --root <path> --bind <loopback:port>"@,
{
    "Usage: squaremap-server bridge --connect 127.0.0.1:<port> --plugin-version <version>\n       squaremap-server serve-fixture --root <path> --bind <loopback:port>"
}

} // verus!
