//! Settings text: commented JSON (JSONC).
//!
//! Reading strips a byte-order mark, treats blank text as "all defaults", and
//! turns JSONC into plain JSON text. Writing puts brief comments above the keys
//! that need one. Files themselves are the caller's part; the steps of a save
//! are decided here.

use crate::text::{
    begins_with, chars_of, count_leading_spaces, is_space, join_path, join_windows_path, joined,
    joined_windows, leading_spaces, lemma_leading_spaces, push_chars, push_text, starts_with,
    text_of,
};
use vstd::prelude::*;

verus! {

/// File name of the settings.
pub const SETTINGS_FILE_NAME: &'static str = "settings.json";

/// The comment above a line whose text (without indentation) is `trimmed`:
/// only keys whose unit, range or meaning is not obvious have one.
pub open spec fn key_comment(trimmed: Seq<char>) -> Option<Seq<char>> {
    if begins_with(trimmed, "\"spotlight_radius_modifier\":"@) {
        Some("modifier-only binding: key HELD while scrolling the wheel to resize the circle (not a full hotkey)"@)
    } else if begins_with(trimmed, "\"default_radius\":"@) {
        Some("physical pixels on the monitor under the cursor"@)
    } else if begins_with(trimmed, "\"step_factor\":"@) {
        Some("zoom multiplier per wheel notch (must be > 1.0)"@)
    } else if begins_with(trimmed, "\"dim_opacity\":"@) {
        Some("0 = invisible veil, 255 = fully black"@)
    } else {
        None
    }
}

fn find_comment(trimmed: &[char]) -> (r: Option<&'static str>)
    ensures
        match r {
            Some(c) => key_comment(trimmed@) == Some(c@),
            None => key_comment(trimmed@) is None,
        },
{
    if starts_with(trimmed, "\"spotlight_radius_modifier\":") {
        Some("modifier-only binding: key HELD while scrolling the wheel to resize the circle (not a full hotkey)")
    } else if starts_with(trimmed, "\"default_radius\":") {
        Some("physical pixels on the monitor under the cursor")
    } else if starts_with(trimmed, "\"step_factor\":") {
        Some("zoom multiplier per wheel notch (must be > 1.0)")
    } else if starts_with(trimmed, "\"dim_opacity\":") {
        Some("0 = invisible veil, 255 = fully black")
    } else {
        None
    }
}

/// A line with its comment, if it has one, on a line of its own above it at
/// the same indentation; both end in a newline.
pub open spec fn commented(line: Seq<char>) -> Seq<char> {
    let indent = leading_spaces(line);
    (match key_comment(line.skip(indent)) {
        Some(c) => line.take(indent) + "// "@ + c + seq!['\n'],
        None => Seq::empty(),
    }) + line + seq!['\n']
}

/// Position of the first newline, the length when there is none.
pub open spec fn line_end(text: Seq<char>) -> int
    decreases text.len(),
{
    if text.len() == 0 || text[0] == '\n' {
        0
    } else {
        1 + line_end(text.skip(1))
    }
}

/// The first line of a text: up to its newline, without a carriage return
/// before that newline.
pub open spec fn first_line(text: Seq<char>) -> Seq<char> {
    let n = line_end(text);
    if 0 < n < text.len() && text[n - 1] == '\r' {
        text.take(n - 1)
    } else {
        text.take(n)
    }
}

/// Every line of a text with its comment.
pub open spec fn annotated(text: Seq<char>) -> Seq<char>
    decreases text.len(),
    via annotated_decreases
{
    if text.len() == 0 {
        Seq::empty()
    } else {
        let n = line_end(text);
        commented(first_line(text)) + (if n < text.len() {
            annotated(text.skip(n + 1))
        } else {
            Seq::empty()
        })
    }
}

#[via_fn]
proof fn annotated_decreases(text: Seq<char>) {
    lemma_line_end_bounds(text);
}

proof fn lemma_line_end_bounds(text: Seq<char>)
    ensures
        0 <= line_end(text) <= text.len(),
    decreases text.len(),
{
    if text.len() > 0 && text[0] != '\n' {
        lemma_line_end_bounds(text.skip(1));
    }
}

pub(crate) proof fn lemma_line_end(text: Seq<char>, n: int)
    requires
        0 <= n <= text.len(),
        forall|i: int| 0 <= i < n ==> text[i] != '\n',
        n < text.len() ==> text[n] == '\n',
    ensures
        line_end(text) == n,
    decreases n,
{
    if n > 0 {
        lemma_line_end(text.skip(1), n - 1);
    }
}

fn push_commented(out: &mut String, line: &[char])
    ensures
        final(out)@ == old(out)@ + commented(line@),
{
    let indent: usize = count_leading_spaces(line);
    let trimmed: &[char] = vstd::slice::slice_subrange(line, indent, line.len());
    proof {
        assert(trimmed@ =~= line@.skip(indent as int));
    }
    match find_comment(trimmed) {
        Some(comment) => {
            let head: &[char] = vstd::slice::slice_subrange(line, 0, indent);
            proof {
                assert(head@ =~= line@.take(indent as int));
            }
            push_chars(out, head);
            push_text(out, "// ");
            push_text(out, comment);
            out.push('\n');
        },
        None => {},
    }
    push_chars(out, line);
    out.push('\n');
    proof {
        assert(out@ =~= old(out)@ + commented(line@));
    }
}

/// The settings text for pretty-printed JSON: every line of `json`, with a
/// brief comment above each key that needs one, ending in a newline.
pub fn to_jsonc_template(json: &str) -> (r: String)
    ensures
        r@ == annotated(json@),
{
    let chars = chars_of(json);
    let mut out = String::new();
    let mut start: usize = 0;
    proof {
        assert(chars@.skip(0) =~= json@);
        assert(out@ + annotated(chars@.skip(0)) =~= annotated(json@));
    }
    while start < chars.len()
        invariant
            start <= chars@.len(),
            out@ + annotated(chars@.skip(start as int)) == annotated(json@),
        decreases chars@.len() - start,
    {
        let ghost rest = chars@.skip(start as int);
        let mut end: usize = start;
        while end < chars.len() && chars[end] != '\n'
            invariant
                start <= end <= chars@.len(),
                rest == chars@.skip(start as int),
                forall|i: int| 0 <= i < end - start ==> rest[i] != '\n',
            decreases chars@.len() - end,
        {
            proof {
                assert(rest[end - start] == chars@[end as int]);
            }
            end += 1;
        }
        proof {
            if end < chars@.len() {
                assert(rest[end - start] == chars@[end as int]);
            }
            lemma_line_end(rest, end - start);
        }
        let last: usize = if end < chars.len() && end > start && chars[end - 1] == '\r' {
            end - 1
        } else {
            end
        };
        let line: &[char] = vstd::slice::slice_subrange(chars.as_slice(), start, last);
        proof {
            if start < end {
                assert(rest[end - start - 1] == chars@[end - 1]);
            }
            assert(line@ =~= first_line(rest));
        }
        let ghost before = out@;
        push_commented(&mut out, line);
        let ghost n = end - start;
        if end < chars.len() {
            start = end + 1;
        } else {
            start = end;
        }
        proof {
            let now = chars@.skip(start as int);
            if n < rest.len() {
                assert(now =~= rest.skip(n + 1));
            } else {
                assert(now.len() == 0);
                assert(annotated(now) =~= Seq::<char>::empty());
            }
            assert(annotated(rest) =~= commented(first_line(rest)) + annotated(now));
            assert(out@ + annotated(now) =~= before + annotated(rest));
        }
    }
    proof {
        assert(chars@.skip(start as int).len() == 0);
        assert(out@ =~= annotated(json@));
    }
    out
}

/// A text without the byte-order mark in front of it.
pub open spec fn without_bom(text: Seq<char>) -> Seq<char> {
    if text.len() > 0 && text[0] == '\u{FEFF}' {
        text.skip(1)
    } else {
        text
    }
}

/// What `jsonc_parser::parse_to_ast` makes of a text: the root value as plain
/// JSON text, `None` when there is no value, or the parser's message.
pub uninterp spec fn jsonc_document(text: Seq<char>) -> Result<Option<Seq<char>>, Seq<char>>;

/// Whether a line is a comment as a whole.
pub open spec fn is_comment_line(line: Seq<char>) -> bool {
    begins_with(line.skip(leading_spaces(line)), "//"@)
}

/// Number of double quotes in a text.
pub open spec fn quotes(text: Seq<char>) -> int
    decreases text.len(),
{
    if text.len() == 0 {
        0
    } else {
        quotes(text.drop_last()) + (if text.last() == '"' {
            1int
        } else {
            0
        })
    }
}

/// Whether a line is one comment, or holds whole strings only: no comment, no
/// escape, no single quote, and every double quote has its partner.
pub open spec fn plain_line(line: Seq<char>) -> bool {
    &&& !line.contains('\r')
    &&& is_comment_line(line) || {
        &&& !line.contains('/')
        &&& !line.contains('\'')
        &&& !line.contains('\\')
        &&& quotes(line) % 2 == 0
    }
}

/// Whether every line of a text is plain.
pub open spec fn plain_lines(text: Seq<char>) -> bool
    decreases text.len(),
    via plain_lines_decreases
{
    text.len() > 0 ==> {
        let n = line_end(text);
        plain_line(text.take(n)) && (n < text.len() ==> plain_lines(text.skip(n + 1)))
    }
}

#[via_fn]
proof fn plain_lines_decreases(text: Seq<char>) {
    lemma_line_end_bounds(text);
}

/// The lines of a text that are no comments, each ending in a newline.
pub open spec fn kept_lines(text: Seq<char>) -> Seq<char>
    decreases text.len(),
    via kept_lines_decreases
{
    if text.len() == 0 {
        Seq::empty()
    } else {
        let n = line_end(text);
        let line = text.take(n);
        (if is_comment_line(line) {
            Seq::empty()
        } else {
            line.push('\n')
        }) + (if n < text.len() {
            kept_lines(text.skip(n + 1))
        } else {
            Seq::empty()
        })
    }
}

#[via_fn]
proof fn kept_lines_decreases(text: Seq<char>) {
    lemma_line_end_bounds(text);
}

/// Whether two texts, every line of both plain, differ in comment lines only.
pub open spec fn same_but_comments(a: Seq<char>, b: Seq<char>) -> bool {
    plain_lines(a) && plain_lines(b) && kept_lines(a) == kept_lines(b)
}

/// Whether an outcome is the document of a text; of errors only that there is
/// one.
pub open spec fn reads_as(r: Result<Option<String>, String>, text: Seq<char>) -> bool {
    match (r, jsonc_document(text)) {
        (Ok(Some(json)), Ok(Some(document))) => json@ == document,
        (Ok(None), Ok(None)) => true,
        (Err(_), Err(_)) => true,
        _ => false,
    }
}

/// Whether a message ends with the place the parser found fault with.
pub open spec fn names_a_place(message: Seq<char>) -> bool {
    exists|what: Seq<char>, line: Seq<char>, column: Seq<char>|
        message == #[trigger] place_message(what, line, column)
}

/// A parser message: what is wrong, and where.
pub open spec fn place_message(what: Seq<char>, line: Seq<char>, column: Seq<char>) -> Seq<char> {
    what + " on line "@ + line + " column "@ + column
}

/// `jsonc_parser::parse_to_ast` with default options (comments and trailing
/// commas allowed), the root value converted to a `serde_json::Value` and
/// written as JSON text. The outcome depends on the text alone; an error
/// message ends with the line and column. The parser skips comments, so two
/// texts that differ in comment lines only have the same outcome, but for the
/// place in a message. What the JSON text is for a given input is not described
/// further.
#[verifier::external_body]
fn read_jsonc(text: &str) -> (r: Result<Option<String>, String>)
    ensures
        match r {
            Ok(Some(json)) => jsonc_document(text@) == Ok::<Option<Seq<char>>, Seq<char>>(
                Some(json@),
            ),
            Ok(None) => jsonc_document(text@) == Ok::<Option<Seq<char>>, Seq<char>>(None),
            Err(message) => {
                &&& jsonc_document(text@) == Err::<Option<Seq<char>>, Seq<char>>(message@)
                &&& names_a_place(message@)
            },
        },
        forall|other: Seq<char>| #[trigger]
            same_but_comments(text@, other) ==> reads_as(r, other),
{
    match jsonc_parser::parse_to_ast(text, &Default::default(), &Default::default()) {
        Ok(ast) => match ast.value {
            Some(value) => Ok(Some(serde_json::Value::from(value).to_string())),
            None => Ok(None),
        },
        Err(e) => Err(e.to_string()),
    }
}

/// Whether a text is empty or only white space.
pub open spec fn blank(text: Seq<char>) -> bool {
    leading_spaces(text) >= text.len()
}

/// Read settings text: `Ok(None)` = all defaults (nothing in it), `Ok(Some)` =
/// the settings object as plain JSON text, `Err` = the parser's message, which
/// names line and column. A byte-order mark in front is ignored.
///
/// What [`to_jsonc_template`] wrote reads back as the JSON object it was given.
pub fn parse_jsonc(text: &str) -> (r: Result<Option<String>, String>)
    ensures
        ({
            let body = without_bom(text@);
            if blank(body) {
                r matches Ok(None)
            } else {
                match r {
                    Ok(Some(json)) => jsonc_document(body) == Ok::<Option<Seq<char>>, Seq<char>>(
                        Some(json@),
                    ),
                    Ok(None) => jsonc_document(body) == Ok::<Option<Seq<char>>, Seq<char>>(None),
                    Err(message) => {
                        &&& jsonc_document(body) == Err::<Option<Seq<char>>, Seq<char>>(message@)
                        &&& names_a_place(message@)
                    },
                }
            }
        }),
        forall|json: Seq<char>|
            text@ == #[trigger] annotated(json) && plain_lines(json) && begins_with(json, seq!['{'])
                ==> reads_as(r, json),
{
    let chars = chars_of(text);
    let start: usize = if chars.len() > 0 && chars[0] == '\u{FEFF}' {
        1
    } else {
        0
    };
    let body: &[char] = vstd::slice::slice_subrange(chars.as_slice(), start, chars.len());
    proof {
        assert(body@ =~= without_bom(text@));
        assert forall|json: Seq<char>|
            text@ == #[trigger] annotated(json) && plain_lines(json) && begins_with(
                json,
                seq!['{'],
            ) implies body@ == text@ && !blank(body@) && same_but_comments(text@, json) by {
            lemma_template_adds_comments_only(json);
            lemma_template_of_object(json);
        }
    }
    if count_leading_spaces(body) >= body.len() {
        return Ok(None);
    }
    read_jsonc(text_of(body).as_str())
}

/// Where a save writes first: a sibling of the settings file.
pub fn tmp_path_for(path: &str) -> (r: String)
    ensures
        r@ == path@ + ".tmp"@,
{
    let mut tmp: String = path.to_owned();
    push_text(&mut tmp, ".tmp");
    tmp
}

/// The settings file in the directory `dir` on Windows.
pub fn default_settings_path_windows(dir: &str) -> (r: String)
    ensures
        r@ == joined_windows(dir@, SETTINGS_FILE_NAME@),
{
    join_windows_path(dir, SETTINGS_FILE_NAME)
}

/// The settings file in the directory `dir` on Linux and macOS.
pub fn default_settings_path(dir: &str) -> (r: String)
    ensures
        r@ == joined(dir@, SETTINGS_FILE_NAME@),
{
    join_path(dir, SETTINGS_FILE_NAME)
}

/// What reading the settings file came to.
#[derive(Clone, Copy, PartialEq, Eq, Structural, Debug)]
pub enum ReadOutcome {
    /// The file was read.
    Text,
    /// There is no such file.
    Missing,
    /// It could not be read.
    Failed,
}

/// What to do after reading the settings file.
#[derive(Clone, Copy, PartialEq, Eq, Structural, Debug)]
pub enum LoadStep {
    /// Parse the text.
    Parse,
    /// Use the defaults, and try to write them as a file to edit; a failure of
    /// that is no error.
    CreateDefaults,
    /// Report the read error.
    Fail,
}

/// Decide how a load goes on.
pub fn load(read: ReadOutcome) -> (r: LoadStep)
    ensures
        r == (match read {
            ReadOutcome::Text => LoadStep::Parse,
            ReadOutcome::Missing => LoadStep::CreateDefaults,
            ReadOutcome::Failed => LoadStep::Fail,
        }),
{
    match read {
        ReadOutcome::Text => LoadStep::Parse,
        ReadOutcome::Missing => LoadStep::CreateDefaults,
        ReadOutcome::Failed => LoadStep::Fail,
    }
}

/// A step of an atomic save.
#[derive(Clone, Copy, PartialEq, Eq, Structural, Debug)]
pub enum SaveStep {
    /// Create the temporary file, write the text and flush it.
    WriteTemp,
    /// Rename the temporary file over the settings file.
    Rename,
    /// Remove the temporary file; the save has failed.
    RemoveTemp,
    /// The settings file holds the text.
    Saved,
    /// The settings file is as it was.
    Failed,
}

/// The step after `step`, which went well or not. Removing the temporary file
/// is best effort.
pub open spec fn next_save_step(step: SaveStep, ok: bool) -> SaveStep {
    match step {
        SaveStep::WriteTemp => if ok {
            SaveStep::Rename
        } else {
            SaveStep::RemoveTemp
        },
        SaveStep::Rename => if ok {
            SaveStep::Saved
        } else {
            SaveStep::RemoveTemp
        },
        SaveStep::RemoveTemp => SaveStep::Failed,
        SaveStep::Saved => SaveStep::Saved,
        SaveStep::Failed => SaveStep::Failed,
    }
}

/// Decide the next step of an atomic save, which starts with
/// [`SaveStep::WriteTemp`].
pub fn save(step: SaveStep, ok: bool) -> (r: SaveStep)
    ensures
        r == next_save_step(step, ok),
{
    match step {
        SaveStep::WriteTemp => if ok {
            SaveStep::Rename
        } else {
            SaveStep::RemoveTemp
        },
        SaveStep::Rename => if ok {
            SaveStep::Saved
        } else {
            SaveStep::RemoveTemp
        },
        SaveStep::RemoveTemp => SaveStep::Failed,
        SaveStep::Saved => SaveStep::Saved,
        SaveStep::Failed => SaveStep::Failed,
    }
}

/// A save ends within three steps, whatever goes wrong; it reports success
/// only when both the write and the rename went well, and leaves no temporary
/// file behind otherwise.
pub proof fn lemma_save_is_atomic(write: bool, rename: bool, remove: bool)
    ensures
        ({
            let a = next_save_step(SaveStep::WriteTemp, write);
            let b = next_save_step(a, if write {
                rename
            } else {
                remove
            });
            let c = next_save_step(b, remove);
            &&& c == SaveStep::Saved <==> write && rename
            &&& c == SaveStep::Failed <==> !(write && rename)
            &&& !write ==> a == SaveStep::RemoveTemp
            &&& write && !rename ==> b == SaveStep::RemoveTemp
        }),
{
}

/// A first line in front of a text.
proof fn lemma_line_in_front(line: Seq<char>, rest: Seq<char>)
    requires
        !line.contains('\n'),
    ensures
        plain_lines(line.push('\n') + rest) == (plain_line(line) && plain_lines(rest)),
        kept_lines(line.push('\n') + rest) == (if is_comment_line(line) {
            Seq::empty()
        } else {
            line.push('\n')
        }) + kept_lines(rest),
{
    let text = line.push('\n') + rest;
    let n = line.len() as int;
    assert forall|i: int| 0 <= i < n implies text[i] != '\n' by {
        assert(text[i] == line[i]);
        assert(line.contains(line[i]));
    }
    lemma_line_end(text, n);
    assert(text.take(n) =~= line);
    assert(text.skip(n + 1) =~= rest);
}

/// A comment holds no line break.
proof fn lemma_comment_is_one_line(trimmed: Seq<char>)
    ensures
        key_comment(trimmed) matches Some(c) ==> !c.contains('\n') && !c.contains('\r'),
{
    reveal_strlit("modifier-only binding: key HELD while scrolling the wheel to resize the circle (not a full hotkey)");
    reveal_strlit("physical pixels on the monitor under the cursor");
    reveal_strlit("zoom multiplier per wheel notch (must be > 1.0)");
    reveal_strlit("0 = invisible veil, 255 = fully black");
}

/// A line with its comment, in front of a text.
proof fn lemma_commented_in_front(line: Seq<char>, rest: Seq<char>)
    requires
        !line.contains('\n'),
        plain_line(line),
    ensures
        plain_lines(commented(line) + rest) == plain_lines(rest),
        kept_lines(commented(line) + rest) == kept_lines(line.push('\n') + rest),
{
    let indent = leading_spaces(line);
    lemma_line_in_front(line, rest);
    match key_comment(line.skip(indent)) {
        None => {
            assert(commented(line) + rest =~= line.push('\n') + rest);
        },
        Some(c) => {
            lemma_comment_is_one_line(line.skip(indent));
            lemma_leading_bounds(line);
            let above = line.take(indent) + "// "@ + c;
            assert("// "@.len() == 3 && "// "@[0] == '/' && "// "@[1] == '/' && "// "@[2] == ' ')
                by {
                reveal_strlit("// ");
            }
            assert("//"@ =~= seq!['/', '/']) by {
                reveal_strlit("//");
            }
            assert forall|i: int| 0 <= i < indent implies is_space(#[trigger] above[i]) by {
                assert(above[i] == line[i]);
            }
            assert(above[indent] == '/');
            lemma_leading_spaces(above, indent);
            assert(above.skip(indent).take(2) =~= "//"@);
            assert(is_comment_line(above));
            assert forall|i: int| 0 <= i < above.len() implies above[i] != '\n' && above[i] != '\r'
                by {
                if i < indent {
                    assert(above[i] == line[i]);
                    assert(line.contains(line[i]));
                } else if i >= indent + 3 {
                    assert(above[i] == c[i - indent - 3]);
                    assert(c.contains(c[i - indent - 3]));
                } else {
                    assert(above[i] == "// "@[i - indent]);
                }
            }
            lemma_line_in_front(above, line.push('\n') + rest);
            assert(commented(line) + rest =~= above.push('\n') + (line.push('\n') + rest));
            assert(Seq::<char>::empty() + kept_lines(line.push('\n') + rest) =~= kept_lines(
                line.push('\n') + rest,
            ));
        },
    }
}

/// White space in front lies within the text, and is white space.
proof fn lemma_leading_bounds(text: Seq<char>)
    ensures
        0 <= leading_spaces(text) <= text.len(),
        forall|i: int| 0 <= i < leading_spaces(text) ==> is_space(#[trigger] text[i]),
    decreases text.len(),
{
    if text.len() > 0 && is_space(text[0]) {
        lemma_leading_bounds(text.skip(1));
        assert forall|i: int| 0 <= i < leading_spaces(text) implies is_space(#[trigger] text[i]) by {
            if i > 0 {
                assert(text.skip(1)[i - 1] == text[i]);
            }
        }
    }
}

/// A line that ends a text, with and without its newline.
proof fn lemma_last_line(line: Seq<char>)
    requires
        !line.contains('\n'),
        line.len() > 0,
    ensures
        plain_lines(line) == plain_line(line),
        kept_lines(line) == kept_lines(line.push('\n')),
{
    assert forall|i: int| 0 <= i < line.len() implies line[i] != '\n' by {
        assert(line.contains(line[i]));
    }
    lemma_line_end(line, line.len() as int);
    assert(line.take(line.len() as int) =~= line);
    lemma_line_in_front(line, Seq::empty());
    assert(line.push('\n') + Seq::<char>::empty() =~= line.push('\n'));
    assert(kept_lines(line) =~= kept_lines(line.push('\n')));
}

/// The settings text of a JSON text whose lines are plain differs from it in
/// comment lines only.
pub proof fn lemma_template_adds_comments_only(json: Seq<char>)
    requires
        plain_lines(json),
    ensures
        same_but_comments(annotated(json), json),
    decreases json.len(),
{
    if json.len() > 0 {
        lemma_line_end_bounds(json);
        let n = line_end(json);
        let line = json.take(n);
        lemma_no_newline_before_end(json);
        assert(!line.contains('\n'));
        if 0 < n {
            assert(line.contains(line[n - 1]));
        }
        assert(first_line(json) == line);
        if n < json.len() {
            let rest = json.skip(n + 1);
            lemma_template_adds_comments_only(rest);
            lemma_commented_in_front(line, annotated(rest));
            lemma_line_in_front(line, annotated(rest));
            lemma_line_in_front(line, rest);
            lemma_newline_at_end(json);
            assert(json =~= line.push('\n') + rest);
        } else {
            assert(line =~= json);
            lemma_commented_in_front(line, Seq::empty());
            assert(annotated(json) =~= commented(line) + Seq::<char>::empty());
            assert(line.push('\n') + Seq::<char>::empty() =~= line.push('\n'));
            lemma_last_line(line);
        }
    }
}

proof fn lemma_no_newline_before_end(text: Seq<char>)
    ensures
        forall|i: int| 0 <= i < line_end(text) ==> #[trigger] text[i] != '\n',
    decreases text.len(),
{
    lemma_line_end_bounds(text);
    if text.len() > 0 && text[0] != '\n' {
        lemma_no_newline_before_end(text.skip(1));
        assert forall|i: int| 0 <= i < line_end(text) implies #[trigger] text[i] != '\n' by {
            if i > 0 {
                assert(text.skip(1)[i - 1] == text[i]);
            }
        }
    }
}

proof fn lemma_newline_at_end(text: Seq<char>)
    requires
        line_end(text) < text.len(),
    ensures
        text[line_end(text)] == '\n',
    decreases text.len(),
{
    lemma_line_end_bounds(text);
    if text[0] != '\n' {
        lemma_line_end_bounds(text.skip(1));
        lemma_newline_at_end(text.skip(1));
    }
}

/// A text that begins with another character begins with no quoted key.
proof fn lemma_no_quoted_prefix(text: Seq<char>, prefix: Seq<char>)
    requires
        prefix.len() > 0,
        prefix[0] == '"',
        text[0] != '"',
    ensures
        !begins_with(text, prefix),
{
    if begins_with(text, prefix) {
        assert(text.take(prefix.len() as int)[0] == text[0]);
    }
}

/// The settings text of a JSON object begins with its brace.
proof fn lemma_template_of_object(json: Seq<char>)
    requires
        plain_lines(json),
        begins_with(json, seq!['{']),
    ensures
        annotated(json)[0] == '{',
        annotated(json).len() > 0,
        without_bom(annotated(json)) == annotated(json),
        !blank(annotated(json)),
{
    assert(json[0] == json.take(1)[0]);
    let line = first_line(json);
    lemma_line_end_bounds(json);
    lemma_line_end_bounds(json.skip(1));
    assert(line_end(json) > 0);
    assert(line.len() > 0 && line[0] == '{');
    assert(leading_spaces(line) == 0);
    let trimmed = line.skip(0);
    assert(trimmed[0] == '{');
    assert(key_comment(trimmed) is None) by {
        reveal_strlit("\"spotlight_radius_modifier\":");
        reveal_strlit("\"default_radius\":");
        reveal_strlit("\"step_factor\":");
        reveal_strlit("\"dim_opacity\":");
        lemma_no_quoted_prefix(trimmed, "\"spotlight_radius_modifier\":"@);
        lemma_no_quoted_prefix(trimmed, "\"default_radius\":"@);
        lemma_no_quoted_prefix(trimmed, "\"step_factor\":"@);
        lemma_no_quoted_prefix(trimmed, "\"dim_opacity\":"@);
    }
    assert(commented(line)[0] == '{');
    assert(annotated(json)[0] == '{');
    assert(leading_spaces(annotated(json)) == 0);
}

/// A settings text ends with a newline.
pub proof fn lemma_template_ends_with_newline(json: Seq<char>)
    requires
        json.len() > 0,
    ensures
        annotated(json).len() > 0,
        annotated(json).last() == '\n',
    decreases json.len(),
{
    lemma_line_end_bounds(json);
    let n = line_end(json);
    let head = commented(first_line(json));
    assert(head.last() == '\n');
    if n < json.len() && json.skip(n + 1).len() > 0 {
        lemma_template_ends_with_newline(json.skip(n + 1));
    } else {
        if n < json.len() {
            assert(annotated(json.skip(n + 1)) =~= Seq::<char>::empty());
        }
        assert(annotated(json) =~= head);
    }
}

/// A settings text that is blank after its byte-order mark has nothing in it
/// but white space.
pub proof fn lemma_blank_is_spaces(text: Seq<char>, i: int)
    requires
        blank(text),
        0 <= i < text.len(),
    ensures
        is_space(text[i]),
    decreases text.len(),
{
    if !is_space(text[0]) {
        assert(leading_spaces(text) == 0);
    } else {
        assert(leading_spaces(text) == 1 + leading_spaces(text.skip(1)));
        if i > 0 {
            lemma_blank_is_spaces(text.skip(1), i - 1);
            assert(text.skip(1)[i - 1] == text[i]);
        }
    }
}

} // verus!
