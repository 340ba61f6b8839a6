//! Command line: which action an invocation asks for, and the texts it prints.

use crate::text::{push_text, same_text};
use vstd::prelude::*;

verus! {

/// What the invocation asks the process to do.
#[derive(Clone, Copy, PartialEq, Eq, Structural, Debug)]
pub enum CliAction {
    /// Run the app normally (tray icon and freeze hotkey, foreground process).
    Run,
    /// Start again detached from the terminal and exit.
    Daemon,
    /// Ask the running instance to toggle the freeze.
    Toggle,
    /// Print [`HELP`].
    Help,
    /// Print [`version_string`].
    Version,
}

/// `--help` output.
pub const HELP: &'static str = "\
SpotFreeze — freeze the screen, then spotlight / zoom / snip to clipboard.

Usage: spotfreeze [OPTIONS] [COMMAND]

Commands:
  toggle       Ask the running SpotFreeze instance to toggle the freeze
               (Linux only; for compositor keybinds, e.g. in hyprland.conf:
                bind = SUPER, F, exec, spotfreeze toggle)

Options:
      --daemon     Start detached from the terminal (nohup-style): the
                   process survives the terminal being closed afterwards
                   (Linux/macOS only)
  -h, --help       Print this help and exit
  -V, --version    Print the version and exit

With no options SpotFreeze runs in the foreground: tray icon plus the global
freeze hotkey. Settings live in the per-OS config folder (see README.md).
";

/// Version of this crate.
pub const VERSION: &'static str = "0.1.0";

/// `spotfreeze` and the version.
pub fn version_string() -> (r: String)
    ensures
        r@ == "spotfreeze "@ + VERSION@,
{
    let mut out: String = "spotfreeze ".to_owned();
    push_text(&mut out, VERSION);
    out
}

/// The action an argument names.
pub open spec fn action_of(arg: Seq<char>) -> Option<CliAction> {
    if arg == "--daemon"@ {
        Some(CliAction::Daemon)
    } else if arg == "-h"@ || arg == "--help"@ {
        Some(CliAction::Help)
    } else if arg == "-V"@ || arg == "--version"@ {
        Some(CliAction::Version)
    } else if arg == "toggle"@ {
        Some(CliAction::Toggle)
    } else {
        None
    }
}

fn find_action(arg: &str) -> (r: Option<CliAction>)
    ensures
        r == action_of(arg@),
{
    if same_text(arg, "--daemon") {
        Some(CliAction::Daemon)
    } else if same_text(arg, "-h") || same_text(arg, "--help") {
        Some(CliAction::Help)
    } else if same_text(arg, "-V") || same_text(arg, "--version") {
        Some(CliAction::Version)
    } else if same_text(arg, "toggle") {
        Some(CliAction::Toggle)
    } else {
        None
    }
}

/// The canonical spelling of an action in messages.
pub open spec fn spelling(action: CliAction) -> Seq<char> {
    match action {
        CliAction::Run => "(run)"@,
        CliAction::Daemon => "--daemon"@,
        CliAction::Toggle => "toggle"@,
        CliAction::Help => "--help"@,
        CliAction::Version => "--version"@,
    }
}

/// The canonical spelling of an action in messages.
fn flag_name(action: CliAction) -> (r: &'static str)
    ensures
        r@ == spelling(action),
{
    match action {
        CliAction::Run => "(run)",
        CliAction::Daemon => "--daemon",
        CliAction::Toggle => "toggle",
        CliAction::Help => "--help",
        CliAction::Version => "--version",
    }
}

/// The message for an argument that is not known.
pub open spec fn unknown_message(arg: Seq<char>) -> Seq<char> {
    "unknown argument '"@ + arg + "'; try --help"@
}

/// The message for a second action.
pub open spec fn conflict_message(previous: CliAction, arg: Seq<char>) -> Seq<char> {
    "conflicting options: "@ + spelling(previous) + " and "@ + arg
}

/// What the arguments from `i` on ask for when `action` was named before them:
/// at most one action in all, and nothing unknown.
pub open spec fn asked(args: Seq<String>, i: int, action: Option<CliAction>) -> Result<
    CliAction,
    Seq<char>,
>
    decreases args.len() - i,
{
    if i >= args.len() {
        Ok(
            match action {
                Some(a) => a,
                None => CliAction::Run,
            },
        )
    } else {
        match (action_of(args[i]@), action) {
            (None, _) => Err(unknown_message(args[i]@)),
            (Some(_), Some(previous)) => Err(conflict_message(previous, args[i]@)),
            (Some(found), None) => asked(args, i + 1, Some(found)),
        }
    }
}

/// Parse the process arguments (without the program name). Unknown arguments
/// and conflicting actions are errors with a message for the user.
pub fn parse(args: &[String]) -> (r: Result<CliAction, String>)
    ensures
        match (r, asked(args@, 0, None)) {
            (Ok(a), Ok(b)) => a == b,
            (Err(m), Err(n)) => m@ == n,
            _ => false,
        },
{
    let mut action: Option<CliAction> = None;
    let mut i: usize = 0;
    while i < args.len()
        invariant
            i <= args@.len(),
            asked(args@, 0, None) == asked(args@, i as int, action),
        decreases args@.len() - i,
    {
        let arg: &str = args[i].as_str();
        match find_action(arg) {
            None => {
                let mut message: String = "unknown argument '".to_owned();
                push_text(&mut message, arg);
                push_text(&mut message, "'; try --help");
                return Err(message);
            },
            Some(found) => {
                match action {
                    Some(previous) => {
                        let mut message: String = "conflicting options: ".to_owned();
                        push_text(&mut message, flag_name(previous));
                        push_text(&mut message, " and ");
                        push_text(&mut message, arg);
                        return Err(message);
                    },
                    None => {},
                }
                action = Some(found);
            },
        }
        i += 1;
    }
    match action {
        Some(a) => Ok(a),
        None => Ok(CliAction::Run),
    }
}

/// Two recognized arguments always conflict: no invocation asks for two
/// actions.
pub proof fn lemma_one_action_at_most(args: Seq<String>)
    requires
        args.len() >= 2,
        action_of(args[0]@) is Some,
        action_of(args[1]@) is Some,
    ensures
        asked(args, 0, None) is Err,
{
    assert(asked(args, 0, None) == asked(args, 1, action_of(args[0]@)));
}

/// The words of the command line. No invocation means to run; each word alone
/// asks for its action, in either of the two spellings where it has two; any
/// other word alone is refused by name.
#[verifier::rlimit(60)]
pub proof fn lemma_words(args: Seq<String>)
    requires
        args.len() <= 1,
    ensures
        args.len() == 0 ==> asked(args, 0, None) == Ok::<CliAction, Seq<char>>(CliAction::Run),
        args.len() == 1 ==> {
            let word = args[0]@;
            let r = asked(args, 0, None);
            &&& r == Ok::<CliAction, Seq<char>>(CliAction::Daemon) <==> word == "--daemon"@
            &&& r == Ok::<CliAction, Seq<char>>(CliAction::Toggle) <==> word == "toggle"@
            &&& r == Ok::<CliAction, Seq<char>>(CliAction::Help) <==> word == "-h"@ || word
                == "--help"@
            &&& r == Ok::<CliAction, Seq<char>>(CliAction::Version) <==> word == "-V"@ || word
                == "--version"@
            &&& r != Ok::<CliAction, Seq<char>>(CliAction::Run)
            &&& r matches Err(message) ==> message == "unknown argument '"@ + word
                + "'; try --help"@
        },
{
    reveal_strlit("--daemon");
    reveal_strlit("toggle");
    reveal_strlit("-h");
    reveal_strlit("--help");
    reveal_strlit("-V");
    reveal_strlit("--version");
    reveal_with_fuel(asked, 3);
    assert("--daemon"@[2] == 'd' && "--help"@[2] == 'h' && "--version"@[2] == 'v');
    assert("toggle"@[0] == 't' && "-h"@[0] == '-' && "-V"@[0] == '-' && "--daemon"@[0] == '-');
    assert("--help"@[0] == '-' && "--version"@[0] == '-');
    assert("-h"@[1] == 'h' && "-V"@[1] == 'V');
    assert("-h"@.len() == 2 && "-V"@.len() == 2 && "--daemon"@.len() == 8);
    assert("--help"@.len() == 6 && "--version"@.len() == 9 && "toggle"@.len() == 6);
}

/// Of two or more arguments the first unknown one is refused by name, before
/// anything else is; two known ones are refused together, the earlier action
/// in its long spelling.
#[verifier::rlimit(60)]
pub proof fn lemma_two_words(args: Seq<String>)
    requires
        args.len() >= 2,
    ensures
        asked(args, 0, None) is Err,
        asked(seq![args[0]], 0, None) is Err ==> asked(args, 0, None) == asked(
            seq![args[0]],
            0,
            None,
        ),
        asked(seq![args[0]], 0, None) is Ok && asked(seq![args[1]], 0, None) is Err ==> asked(
            args,
            0,
            None,
        ) == asked(seq![args[1]], 0, None),
        asked(seq![args[1]], 0, None) is Ok ==> match asked(seq![args[0]], 0, None) {
            Ok(CliAction::Daemon) => asked(args, 0, None) == Err::<CliAction, Seq<char>>(
                "conflicting options: "@ + "--daemon"@ + " and "@ + args[1]@,
            ),
            Ok(CliAction::Toggle) => asked(args, 0, None) == Err::<CliAction, Seq<char>>(
                "conflicting options: "@ + "toggle"@ + " and "@ + args[1]@,
            ),
            Ok(CliAction::Help) => asked(args, 0, None) == Err::<CliAction, Seq<char>>(
                "conflicting options: "@ + "--help"@ + " and "@ + args[1]@,
            ),
            Ok(CliAction::Version) => asked(args, 0, None) == Err::<CliAction, Seq<char>>(
                "conflicting options: "@ + "--version"@ + " and "@ + args[1]@,
            ),
            _ => true,
        },
{
    reveal_with_fuel(asked, 4);
}

} // verus!
