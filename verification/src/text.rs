//! Text as sequences of characters.

use vstd::prelude::*;
use vstd::string::StringExecFns;

verus! {

/// `String::push` appends one character.
pub assume_specification[ String::push ](s: &mut String, c: char)
    ensures
        final(s)@ == old(s)@.push(c),
;

/// The characters of a text.
pub fn chars_of(s: &str) -> (r: Vec<char>)
    ensures
        r@ == s@,
{
    let mut r: Vec<char> = Vec::new();
    for c in it: s.chars()
        invariant
            it.seq() == s@,
            r@ == s@.take(it.index() as int),
    {
        r.push(c);
        proof {
            assert(r@ =~= s@.take(it.index() + 1));
        }
    }
    proof {
        assert(r@ =~= s@);
    }
    r
}

/// The text of some characters.
pub fn text_of(chars: &[char]) -> (r: String)
    ensures
        r@ == chars@,
{
    let mut r = String::new();
    push_chars(&mut r, chars);
    proof {
        assert(r@ =~= chars@);
    }
    r
}

/// Append characters to a text.
pub fn push_chars(out: &mut String, chars: &[char])
    ensures
        final(out)@ == old(out)@ + chars@,
{
    let ghost before = out@;
    let mut i: usize = 0;
    while i < chars.len()
        invariant
            i <= chars@.len(),
            out@ == before + chars@.take(i as int),
        decreases chars@.len() - i,
    {
        out.push(chars[i]);
        i += 1;
        proof {
            assert(out@ =~= before + chars@.take(i as int));
        }
    }
    proof {
        assert(out@ =~= before + chars@);
    }
}

/// Whether two character runs are equal.
pub fn same_chars(a: &[char], b: &[char]) -> (r: bool)
    ensures
        r == (a@ == b@),
{
    if a.len() != b.len() {
        return false;
    }
    let mut i: usize = 0;
    while i < a.len()
        invariant
            i <= a@.len(),
            a@.len() == b@.len(),
            forall|k: int| 0 <= k < i ==> a@[k] == b@[k],
        decreases a@.len() - i,
    {
        if a[i] != b[i] {
            return false;
        }
        i += 1;
    }
    proof {
        assert(a@ =~= b@);
    }
    true
}

/// Append a text.
pub fn push_text(out: &mut String, s: &str)
    ensures
        final(out)@ == old(out)@ + s@,
{
    out.append(s);
}

/// Whether two texts are equal.
pub fn same_text(a: &str, b: &str) -> (r: bool)
    ensures
        r == (a@ == b@),
{
    same_chars(chars_of(a).as_slice(), chars_of(b).as_slice())
}

/// Unicode white space.
pub open spec fn is_space(c: char) -> bool {
    let v = c as u32;
    0x09 <= v <= 0x0D || v == 0x20 || v == 0x85 || v == 0xA0 || v == 0x1680 || 0x2000 <= v <= 0x200A
        || v == 0x2028 || v == 0x2029 || v == 0x202F || v == 0x205F || v == 0x3000
}

/// Whether a character is Unicode white space.
pub fn is_whitespace(c: char) -> (r: bool)
    ensures
        r == is_space(c),
{
    let v: u32 = c as u32;
    (0x09 <= v && v <= 0x0D) || v == 0x20 || v == 0x85 || v == 0xA0 || v == 0x1680 || (0x2000 <= v
        && v <= 0x200A) || v == 0x2028 || v == 0x2029 || v == 0x202F || v == 0x205F || v == 0x3000
}

/// Number of white-space characters a text begins with.
pub open spec fn leading_spaces(text: Seq<char>) -> int
    decreases text.len(),
{
    if text.len() > 0 && is_space(text[0]) {
        1 + leading_spaces(text.skip(1))
    } else {
        0
    }
}

/// [`leading_spaces`] counts exactly the white space in front.
pub proof fn lemma_leading_spaces(text: Seq<char>, n: int)
    requires
        0 <= n <= text.len(),
        forall|i: int| 0 <= i < n ==> is_space(#[trigger] text[i]),
        n < text.len() ==> !is_space(text[n]),
    ensures
        leading_spaces(text) == n,
    decreases n,
{
    if n > 0 {
        lemma_leading_spaces(text.skip(1), n - 1);
    }
}

/// Number of white-space characters a text begins with.
pub fn count_leading_spaces(text: &[char]) -> (n: usize)
    ensures
        n == leading_spaces(text@),
        n <= text@.len(),
{
    let mut n: usize = 0;
    while n < text.len() && is_whitespace(text[n])
        invariant
            n <= text@.len(),
            forall|i: int| 0 <= i < n ==> is_space(#[trigger] text@[i]),
        decreases text@.len() - n,
    {
        n += 1;
    }
    proof {
        lemma_leading_spaces(text@, n as int);
    }
    n
}

/// Number of white-space characters a text ends with.
pub open spec fn trailing_spaces(text: Seq<char>) -> int
    decreases text.len(),
{
    if text.len() > 0 && is_space(text.last()) {
        1 + trailing_spaces(text.drop_last())
    } else {
        0
    }
}

pub(crate) proof fn lemma_trailing_spaces(text: Seq<char>, n: int)
    requires
        0 <= n <= text.len(),
        forall|i: int| text.len() - n <= i < text.len() ==> is_space(#[trigger] text[i]),
        n < text.len() ==> !is_space(text[text.len() - n - 1]),
    ensures
        trailing_spaces(text) == n,
    decreases n,
{
    if n > 0 {
        lemma_trailing_spaces(text.drop_last(), n - 1);
    }
}

/// A text without white space at either end.
pub open spec fn trimmed(text: Seq<char>) -> Seq<char> {
    let rest = text.skip(leading_spaces(text));
    rest.take(rest.len() - trailing_spaces(rest))
}

/// A text without white space at either end.
pub fn trim(text: &[char]) -> (r: &[char])
    ensures
        r@ == trimmed(text@),
{
    let start: usize = count_leading_spaces(text);
    let rest: &[char] = vstd::slice::slice_subrange(text, start, text.len());
    proof {
        assert(rest@ =~= text@.skip(start as int));
    }
    let mut end: usize = rest.len();
    while end > 0 && is_whitespace(rest[end - 1])
        invariant
            end <= rest@.len(),
            forall|i: int| end <= i < rest@.len() ==> is_space(#[trigger] rest@[i]),
        decreases end,
    {
        end -= 1;
    }
    proof {
        lemma_trailing_spaces(rest@, rest@.len() - end);
        assert(rest@.subrange(0, end as int) =~= rest@.take(end as int));
    }
    vstd::slice::slice_subrange(rest, 0, end)
}

/// Whether `text` begins with `prefix`.
pub open spec fn begins_with(text: Seq<char>, prefix: Seq<char>) -> bool {
    prefix.len() <= text.len() && text.take(prefix.len() as int) == prefix
}

/// Whether `text` begins with `prefix`.
pub fn starts_with(text: &[char], prefix: &str) -> (r: bool)
    ensures
        r == begins_with(text@, prefix@),
{
    let p = chars_of(prefix);
    if p.len() > text.len() {
        return false;
    }
    let head: &[char] = vstd::slice::slice_subrange(text, 0, p.len());
    proof {
        assert(head@ =~= text@.take(prefix@.len() as int));
    }
    same_chars(head, p.as_slice())
}

/// Whether `needle` occurs in `text`.
pub open spec fn occurs(text: Seq<char>, needle: Seq<char>) -> bool {
    exists|i: int| 0 <= i <= text.len() && begins_with(#[trigger] text.skip(i), needle)
}

/// Whether `needle` occurs in `text`.
pub fn contains_text(text: &str, needle: &str) -> (r: bool)
    ensures
        r == occurs(text@, needle@),
{
    let chars = chars_of(text);
    let mut i: usize = 0;
    while i < chars.len()
        invariant
            i <= chars@.len(),
            chars@ == text@,
            forall|k: int| 0 <= k < i ==> !begins_with(#[trigger] text@.skip(k), needle@),
        decreases chars@.len() - i,
    {
        let rest: &[char] = vstd::slice::slice_subrange(chars.as_slice(), i, chars.len());
        proof {
            assert(rest@ =~= text@.skip(i as int));
        }
        if starts_with(rest, needle) {
            return true;
        }
        i += 1;
    }
    let rest: &[char] = vstd::slice::slice_subrange(chars.as_slice(), i, chars.len());
    proof {
        assert(rest@ =~= text@.skip(i as int));
    }
    starts_with(rest, needle)
}

/// Path of `name` inside the directory `dir`.
pub open spec fn joined(dir: Seq<char>, name: Seq<char>) -> Seq<char> {
    if dir.len() == 0 {
        name
    } else if dir.last() == '/' {
        dir + name
    } else {
        dir.push('/') + name
    }
}

/// Path of the relative `name` inside the directory `dir`, with one separating
/// slash.
pub fn join_path(dir: &str, name: &str) -> (r: String)
    ensures
        r@ == joined(dir@, name@),
{
    let chars = chars_of(dir);
    let mut out: String = dir.to_owned();
    if chars.len() > 0 && chars[chars.len() - 1] != '/' {
        out.push('/');
    }
    push_text(&mut out, name);
    proof {
        if dir@.len() == 0 {
            assert(out@ =~= name@);
        }
    }
    out
}

/// Whether a drive may be named by this character.
pub open spec fn is_drive_letter(c: char) -> bool {
    ('A' <= c && c <= 'Z') || ('a' <= c && c <= 'z')
}

/// Whether a Windows path takes a name without a separator between: nothing, a
/// bare drive, or a path that ends with a separator.
pub open spec fn ends_open(dir: Seq<char>) -> bool {
    dir.len() == 0 || dir.last() == '\\' || dir.last() == '/' || (dir.len() == 2
        && is_drive_letter(dir[0]) && dir[1] == ':')
}

/// Path of `name` inside the directory `dir` on Windows.
pub open spec fn joined_windows(dir: Seq<char>, name: Seq<char>) -> Seq<char> {
    if ends_open(dir) {
        dir + name
    } else {
        dir.push('\\') + name
    }
}

/// Path of the relative `name` inside the directory `dir` on Windows, with one
/// separating backslash.
pub fn join_windows_path(dir: &str, name: &str) -> (r: String)
    ensures
        r@ == joined_windows(dir@, name@),
{
    let chars = chars_of(dir);
    let n: usize = chars.len();
    let open: bool = n == 0 || chars[n - 1] == '\\' || chars[n - 1] == '/' || (n == 2 && ((
    chars[0] >= 'A' && chars[0] <= 'Z') || (chars[0] >= 'a' && chars[0] <= 'z')) && chars[1]
        == ':');
    let mut out: String = dir.to_owned();
    if !open {
        out.push('\\');
    }
    push_text(&mut out, name);
    out
}

/// Decimal digits of a number.
pub open spec fn decimal(n: nat) -> Seq<char>
    decreases n,
{
    if n < 10 {
        seq![(n + 0x30) as char]
    } else {
        decimal(n / 10).push((n % 10 + 0x30) as char)
    }
}

/// Append a number in decimal.
pub fn push_decimal(out: &mut String, n: u64)
    ensures
        final(out)@ == old(out)@ + decimal(n as nat),
    decreases n,
{
    let digit: char = ((n % 10) as u8 + 0x30) as char;
    if n >= 10 {
        push_decimal(out, n / 10);
    }
    let ghost before = out@;
    out.push(digit);
    proof {
        assert(out@ =~= old(out)@ + decimal(n as nat));
    }
}

/// Decimal text of a signed number.
pub open spec fn signed_decimal(n: int) -> Seq<char> {
    if n < 0 {
        seq!['-'] + decimal((-n) as nat)
    } else {
        decimal(n as nat)
    }
}

/// Append a signed number in decimal.
pub fn push_signed(out: &mut String, n: i64)
    ensures
        final(out)@ == old(out)@ + signed_decimal(n as int),
{
    if n < 0 {
        out.push('-');
        let ghost before = out@;
        // The magnitude of the smallest number is one more than that of the
        // largest.
        let magnitude: u64 = (-(n + 1)) as u64 + 1;
        push_decimal(out, magnitude);
        proof {
            assert(out@ =~= old(out)@ + (seq!['-'] + decimal((-n) as nat)));
        }
    } else {
        push_decimal(out, n as u64);
    }
}

/// Whether a character is a decimal digit.
pub open spec fn is_digit(c: char) -> bool {
    '0' <= c <= '9'
}

/// Value of decimal digits.
pub open spec fn digits_value(text: Seq<char>) -> nat
    decreases text.len(),
{
    if text.len() == 0 {
        0
    } else {
        digits_value(text.drop_last()) * 10 + (text.last() as u32 - 0x30) as nat
    }
}

/// At least one character, and only digits.
pub open spec fn all_digits(text: Seq<char>) -> bool {
    text.len() > 0 && forall|i: int| 0 <= i < text.len() ==> is_digit(#[trigger] text[i])
}

/// The signed number a text stands for: digits with an optional sign, within
/// the 64-bit range.
pub open spec fn parsed_number(text: Seq<char>) -> Option<i64> {
    let signed = text.len() > 0 && (text[0] == '-' || text[0] == '+');
    let digits = if signed {
        text.skip(1)
    } else {
        text
    };
    let value = if signed && text[0] == '-' {
        -(digits_value(digits) as int)
    } else {
        digits_value(digits) as int
    };
    if all_digits(digits) && i64::MIN <= value <= i64::MAX {
        Some(value as i64)
    } else {
        None
    }
}

/// Read a signed 64-bit number: digits with an optional sign.
pub fn parse_number(text: &[char]) -> (r: Option<i64>)
    ensures
        r == parsed_number(text@),
{
    let signed: bool = text.len() > 0 && (text[0] == '-' || text[0] == '+');
    let negative: bool = signed && text[0] == '-';
    let start: usize = if signed {
        1
    } else {
        0
    };
    let ghost digits = if signed {
        text@.skip(1)
    } else {
        text@
    };
    if start == text.len() {
        return None;
    }
    let mut value: u64 = 0;
    let mut too_large: bool = false;
    let mut i: usize = start;
    proof {
        assert(digits.take(0) =~= Seq::<char>::empty());
    }
    while i < text.len()
        invariant
            start <= i <= text@.len(),
            signed == (text@.len() > 0 && (text@[0] == '-' || text@[0] == '+')),
            start == (if signed {
                1int
            } else {
                0int
            }),
            digits == (if signed {
                text@.skip(1)
            } else {
                text@
            }),
            digits.len() == text@.len() - start,
            forall|k: int| 0 <= k < i - start ==> is_digit(#[trigger] digits[k]),
            too_large ==> digits_value(digits.take(i - start)) > 0x8000_0000_0000_0000,
            !too_large ==> value == digits_value(digits.take(i - start)) && value
                <= 0x8000_0000_0000_0000,
        decreases text@.len() - i,
    {
        let c: char = text[i];
        proof {
            assert(digits[i - start] == c);
        }
        if !('0' <= c && c <= '9') {
            proof {
                assert(!all_digits(digits));
            }
            return None;
        }
        proof {
            let now = digits.take(i - start + 1);
            assert(now.drop_last() =~= digits.take(i - start));
            assert(now.last() == c);
        }
        if !too_large {
            let digit: u64 = c as u64 - 0x30;
            let grown: u128 = value as u128 * 10 + digit as u128;
            if grown > 0x8000_0000_0000_0000 {
                too_large = true;
            } else {
                value = grown as u64;
            }
        }
        i += 1;
    }
    proof {
        assert(digits.take(i - start) =~= digits);
    }
    if too_large {
        return None;
    }
    if negative {
        if value == 0x8000_0000_0000_0000 {
            Some(i64::MIN)
        } else {
            Some(-(value as i64))
        }
    } else if value > 0x7fff_ffff_ffff_ffff {
        None
    } else {
        Some(value as i64)
    }
}

proof fn lemma_decimal_digits(n: nat)
    ensures
        all_digits(decimal(n)),
        digits_value(decimal(n)) == n,
    decreases n,
{
    if n < 10 {
        assert(decimal(n).drop_last() =~= Seq::<char>::empty());
        assert(digits_value(Seq::<char>::empty()) == 0);
        assert(decimal(n).last() as u32 == n + 0x30);
    } else {
        lemma_decimal_digits(n / 10);
        assert(decimal(n).drop_last() =~= decimal(n / 10));
        assert forall|i: int| 0 <= i < decimal(n).len() implies is_digit(
            #[trigger] decimal(n)[i],
        ) by {
            if i < decimal(n / 10).len() {
                assert(decimal(n)[i] == decimal(n / 10)[i]);
            }
        }
    }
}

/// Reading back a number's decimal text gives the number.
pub proof fn lemma_number_round_trip(n: i64)
    ensures
        parsed_number(signed_decimal(n as int)) == Some(n),
        forall|i: int|
            0 <= i < signed_decimal(n as int).len() ==> (#[trigger] signed_decimal(n as int)[i]
                == '-' || is_digit(signed_decimal(n as int)[i])),
{
    let text = signed_decimal(n as int);
    if n < 0 {
        lemma_decimal_digits((-n) as nat);
        assert(text.skip(1) =~= decimal((-n) as nat));
        assert forall|i: int| 0 <= i < text.len() implies (#[trigger] text[i] == '-' || is_digit(
            text[i],
        )) by {
            if i > 0 {
                assert(text[i] == decimal((-n) as nat)[i - 1]);
            }
        }
    } else {
        lemma_decimal_digits(n as nat);
        assert(is_digit(text[0]));
    }
}

/// ASCII letters in lower case, all else as it is.
pub open spec fn lower(c: char) -> char {
    if 'A' <= c <= 'Z' {
        (c as u32 + 32) as char
    } else {
        c
    }
}

/// A text with its ASCII letters in lower case.
pub open spec fn lowered(text: Seq<char>) -> Seq<char> {
    Seq::new(text.len(), |i: int| lower(text[i]))
}

/// A text with its ASCII letters in lower case.
pub fn to_lower(text: &str) -> (r: String)
    ensures
        r@ == lowered(text@),
{
    let chars = chars_of(text);
    let mut out = String::new();
    let mut i: usize = 0;
    while i < chars.len()
        invariant
            i <= chars@.len(),
            chars@ == text@,
            out@.len() == i,
            forall|k: int| 0 <= k < i ==> #[trigger] out@[k] == lower(text@[k]),
        decreases chars@.len() - i,
    {
        let c: char = chars[i];
        if 'A' <= c && c <= 'Z' {
            out.push((c as u8 + 32) as char);
        } else {
            out.push(c);
        }
        i += 1;
    }
    proof {
        assert(out@ =~= lowered(text@));
    }
    out
}

/// Decimal text: one digit for a number below ten, else the digits of its
/// tenth and then its last digit.
pub proof fn lemma_decimal_text(tens: nat, digit: nat)
    requires
        digit < 10,
    ensures
        decimal(digit) == seq![(48 + digit) as char],
        tens > 0 ==> decimal(10 * tens + digit) == decimal(tens).push((48 + digit) as char),
        tens > 0 ==> signed_decimal(-(tens as int)) == seq!['-'] + decimal(tens),
        signed_decimal(tens as int) == decimal(tens),
{
    assert((10 * tens + digit) / 10 == tens && (10 * tens + digit) % 10 == digit);
}

/// Reading digits: one more digit makes ten times the number and that digit.
/// A number may have one sign in front, and nothing else than digits counts.
pub proof fn lemma_read_digits(digits: Seq<char>, last: char)
    requires
        all_digits(digits),
        digits_value(digits) <= 0x7fff_ffff_ffff_ffff,
        '0' <= last <= '9',
    ensures
        digits_value(seq![last]) == last as int - 48,
        digits_value(digits.push(last)) == 10 * digits_value(digits) + (last as int - 48),
        parsed_number(digits) == Some(digits_value(digits) as i64),
        parsed_number(seq!['+'] + digits) == parsed_number(digits),
        parsed_number(seq!['-'] + digits) == Some((-(digits_value(digits) as int)) as i64),
{
    assert(digits.push(last).drop_last() =~= digits);
    assert(seq![last].drop_last() =~= Seq::<char>::empty());
    reveal_with_fuel(digits_value, 2);
    assert((seq!['+'] + digits).skip(1) =~= digits);
    assert((seq!['-'] + digits).skip(1) =~= digits);
    assert(is_digit(digits[0]));
}

/// A text with a character that is no digit past its first is no number; nor
/// is a sign alone, nothing at all, or a number beyond 64 bits.
pub proof fn lemma_no_number(text: Seq<char>, i: int)
    ensures
        0 < i < text.len() && !('0' <= text[i] <= '9') ==> parsed_number(text) is None,
        text.len() == 0 ==> parsed_number(text) is None,
        text.len() == 1 && !('0' <= text[0] <= '9') ==> parsed_number(text) is None,
        all_digits(text) && digits_value(text) > 0x7fff_ffff_ffff_ffff ==> parsed_number(text)
            is None,
        all_digits(text) && digits_value(text) > 0x8000_0000_0000_0000 ==> parsed_number(
            seq!['-'] + text,
        ) is None,
{
    if 0 < i < text.len() && !('0' <= text[i] <= '9') {
        assert(text.skip(1)[i - 1] == text[i]);
        assert(!is_digit(text[i]));
        assert(!is_digit(text.skip(1)[i - 1]));
    }
    assert((seq!['-'] + text).skip(1) =~= text);
    if all_digits(text) {
        assert(is_digit(text[0]));
    }
    if text.len() == 1 && !('0' <= text[0] <= '9') {
        assert(!is_digit(text[0]));
    }
}

/// Lower case maps the capital letters to the small ones, in order, and keeps
/// every other character and the length.
pub proof fn lemma_lower_case(text: Seq<char>, i: int)
    requires
        0 <= i < text.len(),
    ensures
        lowered(text).len() == text.len(),
        'A' <= text[i] <= 'Z' ==> lowered(text)[i] as int - 'a' as int == text[i] as int - 'A' as int,
        !('A' <= text[i] <= 'Z') ==> lowered(text)[i] == text[i],
{
}

/// A text occurs in another where its characters stand there in a row, and
/// only there.
pub proof fn lemma_occurrence(text: Seq<char>, needle: Seq<char>)
    ensures
        occurs(text, needle) <==> exists|at: int|
            0 <= at <= text.len() - needle.len() && #[trigger] text.subrange(
                at,
                at + needle.len(),
            ) == needle,
{
    if occurs(text, needle) {
        let at = choose|i: int|
            0 <= i <= text.len() && begins_with(#[trigger] text.skip(i), needle);
        assert(text.subrange(at, at + needle.len()) =~= needle) by {
            assert(text.skip(at).take(needle.len() as int) =~= needle);
            assert forall|k: int| 0 <= k < needle.len() implies text[at + k] == needle[k] by {
                assert(text.skip(at).take(needle.len() as int)[k] == text[at + k]);
            }
        }
    }
    if exists|at: int|
        0 <= at <= text.len() - needle.len() && #[trigger] text.subrange(at, at + needle.len())
            == needle {
        let at = choose|at: int|
            0 <= at <= text.len() - needle.len() && #[trigger] text.subrange(at, at + needle.len())
                == needle;
        assert(text.skip(at).take(needle.len() as int) =~= text.subrange(at, at + needle.len()));
        assert(begins_with(text.skip(at), needle));
    }
}

} // verus!
