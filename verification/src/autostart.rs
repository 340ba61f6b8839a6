//! Launch at login: identifiers, payload texts, the registration path and the
//! enable/disable decision.

use crate::text::{chars_of, join_path, joined, push_text};
use vstd::prelude::*;

verus! {

/// What to do to bring the system's registration in line with the setting.
#[derive(Clone, Copy, PartialEq, Eq, Structural, Debug)]
pub enum ReconcileAction {
    /// Write the registration, pointing at the current executable, whether or
    /// not there is one.
    Install,
    /// Delete the registration; an absent one is no error.
    Remove,
}

/// `true` installs, `false` removes.
pub fn reconcile_action(auto_start: bool) -> (r: ReconcileAction)
    ensures
        r == (if auto_start {
            ReconcileAction::Install
        } else {
            ReconcileAction::Remove
        }),
{
    if auto_start {
        ReconcileAction::Install
    } else {
        ReconcileAction::Remove
    }
}

/// Registry key below the current user that holds the logon programs.
pub const WINDOWS_RUN_KEY_PATH: &'static str =
    "Software\\Microsoft\\Windows\\CurrentVersion\\Run";

/// Value name inside that key.
pub const WINDOWS_VALUE_NAME: &'static str = "SpotFreeze";

/// The registry value: the executable's path in quotes, without arguments.
pub fn windows_run_value_payload(exe_path: &str) -> (r: String)
    ensures
        r@ == seq!['"'] + exe_path@ + seq!['"'],
{
    let mut out = String::new();
    out.push('"');
    push_text(&mut out, exe_path);
    out.push('"');
    proof {
        assert(out@ =~= seq!['"'] + exe_path@ + seq!['"']);
    }
    out
}

/// LaunchAgent label and file stem.
pub const LAUNCH_AGENT_LABEL: &'static str = "com.spotfreeze.app";

/// LaunchAgent file name.
pub const LAUNCH_AGENT_FILE: &'static str = "com.spotfreeze.app.plist";

/// The LaunchAgent's path below the home directory; `None` when that is unset
/// or empty.
pub fn launch_agent_plist_path(home: Option<&str>) -> (r: Option<String>)
    ensures
        match (home, r) {
            (Some(h), Some(path)) => h@.len() > 0 && path@ == joined(
                joined(joined(h@, "Library"@), "LaunchAgents"@),
                LAUNCH_AGENT_FILE@,
            ),
            (Some(h), None) => h@.len() == 0,
            (None, None) => true,
            _ => false,
        },
{
    match home {
        Some(h) => {
            if h.is_empty() {
                None
            } else {
                let library = join_path(h, "Library");
                let agents = join_path(library.as_str(), "LaunchAgents");
                Some(join_path(agents.as_str(), LAUNCH_AGENT_FILE))
            }
        },
        None => None,
    }
}

/// The LaunchAgent text before the program path.
pub const PLIST_HEAD: &'static str = "<?xml version=\"1.0\" encoding=\"UTF-8\"?>\n<!DOCTYPE plist PUBLIC \"-//Apple//DTD PLIST 1.0//EN\" \"http://www.apple.com/DTDs/PropertyList-1.0.dtd\">\n<plist version=\"1.0\">\n<dict>\n\t<key>Label</key>\n\t<string>com.spotfreeze.app</string>\n\t<key>ProgramArguments</key>\n\t<array>\n\t\t<string>";

/// The LaunchAgent text after the program path.
pub const PLIST_TAIL: &'static str = "</string>\n\t</array>\n\t<key>RunAtLoad</key>\n\t<true/>\n</dict>\n</plist>\n";

/// The LaunchAgent that runs the program at login and leaves it alone
/// afterwards.
pub fn launch_agent_plist(program_path: &str) -> (r: String)
    ensures
        r@ == PLIST_HEAD@ + escaped(program_path@) + PLIST_TAIL@,
{
    let mut out: String = PLIST_HEAD.to_owned();
    push_text(&mut out, xml_escape(program_path).as_str());
    push_text(&mut out, PLIST_TAIL);
    out
}

/// A character as XML text content.
pub open spec fn entity(c: char) -> Seq<char> {
    if c == '&' {
        "&amp;"@
    } else if c == '<' {
        "&lt;"@
    } else if c == '>' {
        "&gt;"@
    } else {
        seq![c]
    }
}

/// A text as XML text content, character by character.
pub open spec fn escaped(text: Seq<char>) -> Seq<char>
    decreases text.len(),
{
    if text.len() == 0 {
        Seq::empty()
    } else {
        escaped(text.drop_last()) + entity(text.last())
    }
}

/// Escape the XML text-content entities (`&`, `<`, `>`).
pub fn xml_escape(text: &str) -> (r: String)
    ensures
        r@ == escaped(text@),
{
    let chars = chars_of(text);
    let mut out = String::new();
    let mut i: usize = 0;
    proof {
        assert(chars@.take(0) =~= Seq::<char>::empty());
    }
    while i < chars.len()
        invariant
            i <= chars@.len(),
            out@ == escaped(chars@.take(i as int)),
        decreases chars@.len() - i,
    {
        let c: char = chars[i];
        let ghost before = out@;
        if c == '&' {
            push_text(&mut out, "&amp;");
        } else if c == '<' {
            push_text(&mut out, "&lt;");
        } else if c == '>' {
            push_text(&mut out, "&gt;");
        } else {
            out.push(c);
            proof {
                assert(out@ =~= before + seq![c]);
            }
        }
        proof {
            let now = chars@.take(i + 1);
            assert(now.drop_last() =~= chars@.take(i as int));
            assert(now.last() == c);
            assert(out@ =~= before + entity(c));
        }
        i += 1;
    }
    proof {
        assert(chars@.take(i as int) =~= chars@);
    }
    out
}

/// Escaped text holds no angle bracket: it can neither open nor close an
/// element.
pub proof fn lemma_escaped_has_no_brackets(text: Seq<char>, i: int)
    requires
        0 <= i < escaped(text).len(),
    ensures
        escaped(text)[i] != '<',
        escaped(text)[i] != '>',
    decreases text.len(),
{
    reveal_strlit("&amp;");
    reveal_strlit("&lt;");
    reveal_strlit("&gt;");
    if text.len() > 0 {
        let head = escaped(text.drop_last());
        if i < head.len() {
            lemma_escaped_has_no_brackets(text.drop_last(), i);
        }
    }
}

/// Escaping works character by character: the pieces of a text can be escaped
/// apart.
pub proof fn lemma_escaped_pieces(a: Seq<char>, b: Seq<char>)
    ensures
        escaped(a + b) == escaped(a) + escaped(b),
    decreases b.len(),
{
    if b.len() == 0 {
        assert(a + b =~= a);
        assert(escaped(a) + escaped(b) =~= escaped(a));
    } else {
        lemma_escaped_pieces(a, b.drop_last());
        assert((a + b).drop_last() =~= a + b.drop_last());
        assert(escaped(a) + escaped(b.drop_last()) + entity(b.last()) =~= escaped(a) + (escaped(
            b.drop_last(),
        ) + entity(b.last())));
    }
}

/// The three characters that mean something in XML text are written as their
/// entities, every other character as itself.
pub proof fn lemma_entities(c: char)
    ensures
        escaped(Seq::empty()).len() == 0,
        c == '&' ==> escaped(seq![c]) == seq!['&', 'a', 'm', 'p', ';'],
        c == '<' ==> escaped(seq![c]) == seq!['&', 'l', 't', ';'],
        c == '>' ==> escaped(seq![c]) == seq!['&', 'g', 't', ';'],
        c != '&' && c != '<' && c != '>' ==> escaped(seq![c]) == seq![c],
{
    reveal_strlit("&amp;");
    reveal_strlit("&lt;");
    reveal_strlit("&gt;");
    assert(seq![c].drop_last() =~= Seq::<char>::empty());
    assert(escaped(Seq::<char>::empty()) =~= Seq::<char>::empty());
    assert(escaped(seq![c]) =~= entity(c));
}

} // verus!
