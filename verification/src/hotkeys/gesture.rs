//! Key gestures: a set of modifiers plus one key, with their text form.

use crate::text::{chars_of, push_text, same_chars};
use core::ops::BitOr;
use vstd::prelude::*;
use vstd::std_specs::ops::BitOrSpecImpl;

verus! {

/// `weight` when `on`, else 0.
pub open spec fn flag(on: bool, weight: int) -> int {
    if on {
        weight
    } else {
        0
    }
}

/// A set of modifier keys.
#[derive(Clone, Copy, PartialEq, Eq, Structural, Hash, Debug)]
pub struct Modifiers {
    pub alt: bool,
    pub ctrl: bool,
    pub shift: bool,
    pub win: bool,
}

impl Modifiers {
    /// No modifier.
    pub fn none() -> (r: Self)
        ensures
            r == (Modifiers { alt: false, ctrl: false, shift: false, win: false }),
    {
        Modifiers { alt: false, ctrl: false, shift: false, win: false }
    }

    /// Alt alone.
    pub fn alt() -> (r: Self)
        ensures
            r == (Modifiers { alt: true, ctrl: false, shift: false, win: false }),
    {
        Modifiers { alt: true, ctrl: false, shift: false, win: false }
    }

    /// Ctrl alone.
    pub fn ctrl() -> (r: Self)
        ensures
            r == (Modifiers { alt: false, ctrl: true, shift: false, win: false }),
    {
        Modifiers { alt: false, ctrl: true, shift: false, win: false }
    }

    /// Shift alone.
    pub fn shift() -> (r: Self)
        ensures
            r == (Modifiers { alt: false, ctrl: false, shift: true, win: false }),
    {
        Modifiers { alt: false, ctrl: false, shift: true, win: false }
    }

    /// The Win (Super, Command) key alone.
    pub fn win() -> (r: Self)
        ensures
            r == (Modifiers { alt: false, ctrl: false, shift: false, win: true }),
    {
        Modifiers { alt: false, ctrl: false, shift: false, win: true }
    }

    /// Every modifier of `other` is also in `self`.
    pub open spec fn holds(self, other: Modifiers) -> bool {
        &&& other.alt ==> self.alt
        &&& other.ctrl ==> self.ctrl
        &&& other.shift ==> self.shift
        &&& other.win ==> self.win
    }

    /// The modifiers of either set.
    pub open spec fn with(self, other: Modifiers) -> Modifiers {
        Modifiers {
            alt: self.alt || other.alt,
            ctrl: self.ctrl || other.ctrl,
            shift: self.shift || other.shift,
            win: self.win || other.win,
        }
    }

    /// Subset test: whether every modifier of `other` is held. The empty set
    /// is always held.
    pub fn contains(self, other: Modifiers) -> (r: bool)
        ensures
            r == self.holds(other),
    {
        (!other.alt || self.alt) && (!other.ctrl || self.ctrl) && (!other.shift || self.shift) && (
        !other.win || self.win)
    }

    /// Win32 `RegisterHotKey` flags: Alt 1, Ctrl 2, Shift 4, Win 8.
    pub fn bits(self) -> (r: u32)
        ensures
            r == flag(self.alt, 1) + flag(self.ctrl, 2) + flag(self.shift, 4) + flag(self.win, 8),
    {
        let mut r: u32 = 0;
        if self.alt {
            r += 1;
        }
        if self.ctrl {
            r += 2;
        }
        if self.shift {
            r += 4;
        }
        if self.win {
            r += 8;
        }
        r
    }

    pub fn is_empty(self) -> (r: bool)
        ensures
            r == (!self.alt && !self.ctrl && !self.shift && !self.win),
    {
        !self.alt && !self.ctrl && !self.shift && !self.win
    }
}

impl BitOr for Modifiers {
    type Output = Modifiers;

    fn bitor(self, rhs: Modifiers) -> (r: Modifiers) {
        Modifiers {
            alt: self.alt || rhs.alt,
            ctrl: self.ctrl || rhs.ctrl,
            shift: self.shift || rhs.shift,
            win: self.win || rhs.win,
        }
    }
}

impl BitOrSpecImpl for Modifiers {
    open spec fn obeys_bitor_spec() -> bool {
        true
    }

    open spec fn bitor_req(self, rhs: Modifiers) -> bool {
        true
    }

    open spec fn bitor_spec(self, rhs: Modifiers) -> Modifiers {
        self.with(rhs)
    }
}

/// Name of a key that is written as a word.
pub open spec fn word_name(vk: u32) -> Option<Seq<char>> {
    if vk == 0x08 {
        Some("Backspace"@)
    } else if vk == 0x09 {
        Some("Tab"@)
    } else if vk == 0x0D {
        Some("Enter"@)
    } else if vk == 0x13 {
        Some("Pause"@)
    } else if vk == 0x1B {
        Some("Esc"@)
    } else if vk == 0x20 {
        Some("Space"@)
    } else if vk == 0x21 {
        Some("PageUp"@)
    } else if vk == 0x22 {
        Some("PageDown"@)
    } else if vk == 0x23 {
        Some("End"@)
    } else if vk == 0x24 {
        Some("Home"@)
    } else if vk == 0x25 {
        Some("Left"@)
    } else if vk == 0x26 {
        Some("Up"@)
    } else if vk == 0x27 {
        Some("Right"@)
    } else if vk == 0x28 {
        Some("Down"@)
    } else if vk == 0x2C {
        Some("PrintScreen"@)
    } else if vk == 0x2D {
        Some("Insert"@)
    } else if vk == 0x2E {
        Some("Delete"@)
    } else {
        None
    }
}

/// Name of the key with virtual-key code `vk`: letters and digits are
/// themselves, function keys `F1` to `F24`, and a few words.
pub open spec fn key_name(vk: u32) -> Option<Seq<char>> {
    if 0x30 <= vk <= 0x39 || 0x41 <= vk <= 0x5A {
        Some(seq![vk as char])
    } else if 0x70 <= vk <= 0x78 {
        Some(seq!['F', (vk - 0x70 + 0x31) as char])
    } else if 0x79 <= vk <= 0x87 {
        Some(
            seq!['F', ((vk - 0x6F) / 10 + 0x30) as char, ((vk - 0x6F) % 10 + 0x30) as char],
        )
    } else {
        word_name(vk)
    }
}

/// The virtual-key code with this name.
pub open spec fn key_code(name: Seq<char>) -> Option<u32> {
    if exists|vk: u32| key_name(vk) == Some(name) {
        Some(choose|vk: u32| key_name(vk) == Some(name))
    } else {
        None
    }
}

/// No key name contains a plus sign or is empty.
pub(crate) proof fn lemma_key_names_are_plain(vk: u32)
    ensures
        key_name(vk) matches Some(name) ==> name.len() > 0 && forall|i: int|
            0 <= i < name.len() ==> name[i] != '+',
{
    reveal_strlit("Backspace");
    reveal_strlit("Tab");
    reveal_strlit("Enter");
    reveal_strlit("Pause");
    reveal_strlit("Esc");
    reveal_strlit("Space");
    reveal_strlit("PageUp");
    reveal_strlit("PageDown");
    reveal_strlit("End");
    reveal_strlit("Home");
    reveal_strlit("Left");
    reveal_strlit("Up");
    reveal_strlit("Right");
    reveal_strlit("Down");
    reveal_strlit("PrintScreen");
    reveal_strlit("Insert");
    reveal_strlit("Delete");
}

/// Two keys never share a name.
pub proof fn lemma_key_names_differ(a: u32, b: u32)
    requires
        key_name(a) is Some,
        key_name(a) == key_name(b),
    ensures
        a == b,
{
    reveal_strlit("Backspace");
    reveal_strlit("Tab");
    reveal_strlit("Enter");
    reveal_strlit("Pause");
    reveal_strlit("Esc");
    reveal_strlit("Space");
    reveal_strlit("PageUp");
    reveal_strlit("PageDown");
    reveal_strlit("End");
    reveal_strlit("Home");
    reveal_strlit("Left");
    reveal_strlit("Up");
    reveal_strlit("Right");
    reveal_strlit("Down");
    reveal_strlit("PrintScreen");
    reveal_strlit("Insert");
    reveal_strlit("Delete");
    let name = key_name(a)->0;
    let other = key_name(b)->0;
    assert(name.len() == other.len());
    assert(name[0] == other[0]);
    if name.len() > 1 {
        assert(name[1] == other[1]);
    }
    if name.len() > 2 {
        assert(name[2] == other[2]);
    }
    if name.len() > 4 {
        assert(name[4] == other[4]);
    }
}

/// Every named key is found again by its name.
pub proof fn lemma_key_code_of_name(vk: u32)
    requires
        key_name(vk) is Some,
    ensures
        key_code(key_name(vk)->0) == Some(vk),
{
    let name = key_name(vk)->0;
    assert(key_name(vk) == Some(name));
    let found = choose|k: u32| key_name(k) == Some(name);
    assert(key_name(found) == Some(name));
    lemma_key_names_differ(vk, found);
}

fn word_key_name(vk: u32) -> (r: Option<&'static str>)
    ensures
        match r {
            Some(s) => word_name(vk) == Some(s@),
            None => word_name(vk) is None,
        },
{
    match vk {
        0x08 => Some("Backspace"),
        0x09 => Some("Tab"),
        0x0D => Some("Enter"),
        0x13 => Some("Pause"),
        0x1B => Some("Esc"),
        0x20 => Some("Space"),
        0x21 => Some("PageUp"),
        0x22 => Some("PageDown"),
        0x23 => Some("End"),
        0x24 => Some("Home"),
        0x25 => Some("Left"),
        0x26 => Some("Up"),
        0x27 => Some("Right"),
        0x28 => Some("Down"),
        0x2C => Some("PrintScreen"),
        0x2D => Some("Insert"),
        0x2E => Some("Delete"),
        _ => None,
    }
}

fn digit(n: u8) -> (r: char)
    requires
        n < 10,
    ensures
        r == (n + 0x30) as char,
{
    (n + 0x30) as char
}

/// The characters of a key's name.
fn key_label(vk: u32) -> (r: Option<Vec<char>>)
    ensures
        match r {
            Some(name) => key_name(vk) == Some(name@),
            None => key_name(vk) is None,
        },
{
    let mut name: Vec<char> = Vec::new();
    if (0x30 <= vk && vk <= 0x39) || (0x41 <= vk && vk <= 0x5A) {
        name.push(vk as u8 as char);
        proof {
            assert(name@ =~= seq![vk as char]);
        }
        return Some(name);
    }
    if 0x70 <= vk && vk <= 0x78 {
        name.push('F');
        name.push(digit((vk - 0x6F) as u8));
        proof {
            assert(name@ =~= seq!['F', (vk - 0x70 + 0x31) as char]);
        }
        return Some(name);
    }
    if 0x79 <= vk && vk <= 0x87 {
        let n: u8 = (vk - 0x6F) as u8;
        name.push('F');
        name.push(digit(n / 10));
        name.push(digit(n % 10));
        proof {
            assert(name@ =~= seq![
                'F',
                ((vk - 0x6F) / 10 + 0x30) as char,
                ((vk - 0x6F) % 10 + 0x30) as char,
            ]);
        }
        return Some(name);
    }
    match word_key_name(vk) {
        Some(word) => Some(chars_of(word)),
        None => None,
    }
}

/// The virtual-key code named by `name`.
fn find_key(name: &[char]) -> (r: Option<u32>)
    ensures
        r == key_code(name@),
{
    let mut vk: u32 = 0;
    while vk < 0x100
        invariant
            vk <= 0x100,
            forall|k: u32| k < vk ==> #[trigger] key_name(k) != Some(name@),
        decreases 0x100 - vk,
    {
        match key_label(vk) {
            Some(label) => {
                if same_chars(label.as_slice(), name) {
                    proof {
                        lemma_key_code_of_name(vk);
                    }
                    return Some(vk);
                }
            },
            None => {},
        }
        vk += 1;
    }
    proof {
        assert forall|k: u32| #[trigger] key_name(k) != Some(name@) by {}
    }
    None
}

/// Modifier set named by one word.
pub open spec fn modifier_named(word: Seq<char>) -> Option<Modifiers> {
    if word == "Ctrl"@ {
        Some(Modifiers { alt: false, ctrl: true, shift: false, win: false })
    } else if word == "Alt"@ {
        Some(Modifiers { alt: true, ctrl: false, shift: false, win: false })
    } else if word == "Shift"@ {
        Some(Modifiers { alt: false, ctrl: false, shift: true, win: false })
    } else if word == "Win"@ {
        Some(Modifiers { alt: false, ctrl: false, shift: false, win: true })
    } else {
        None
    }
}

fn find_modifier(word: &[char]) -> (r: Option<Modifiers>)
    ensures
        r == modifier_named(word@),
{
    if same_chars(word, chars_of("Ctrl").as_slice()) {
        Some(Modifiers::ctrl())
    } else if same_chars(word, chars_of("Alt").as_slice()) {
        Some(Modifiers::alt())
    } else if same_chars(word, chars_of("Shift").as_slice()) {
        Some(Modifiers::shift())
    } else if same_chars(word, chars_of("Win").as_slice()) {
        Some(Modifiers::win())
    } else {
        None
    }
}

/// Why a gesture's text was refused.
#[derive(Clone, Copy, PartialEq, Eq, Structural, Debug)]
pub enum ParseGestureError {
    /// A part before the last is not a modifier name.
    UnknownModifier,
    /// A modifier is named twice.
    RepeatedModifier,
    /// The last part is not a key name.
    UnknownKey,
}

/// A hotkey: modifiers held while one key is pressed.
#[derive(Clone, Copy, PartialEq, Eq, Structural, Hash, Debug)]
pub struct HotkeyGesture {
    pub modifiers: Modifiers,
    /// Virtual-key code of the key.
    pub vk: u32,
}

/// Position of the first plus sign, the length when there is none.
pub open spec fn first_plus(text: Seq<char>) -> int
    decreases text.len(),
{
    if text.len() == 0 || text[0] == '+' {
        0
    } else {
        1 + first_plus(text.skip(1))
    }
}

pub(crate) proof fn lemma_first_plus(text: Seq<char>, n: int)
    requires
        0 <= n <= text.len(),
        forall|i: int| 0 <= i < n ==> text[i] != '+',
        n < text.len() ==> text[n] == '+',
    ensures
        first_plus(text) == n,
    decreases n,
{
    if n > 0 {
        lemma_first_plus(text.skip(1), n - 1);
    }
}

proof fn lemma_first_plus_bounds(text: Seq<char>)
    ensures
        0 <= first_plus(text) <= text.len(),
    decreases text.len(),
{
    if text.len() > 0 && text[0] != '+' {
        lemma_first_plus_bounds(text.skip(1));
    }
}

/// What a gesture's text stands for: modifier names, each followed by a plus
/// sign, in any order and each at most once; then a key name.
pub open spec fn parsed(text: Seq<char>) -> Result<HotkeyGesture, ParseGestureError>
    decreases text.len(),
    via parsed_decreases
{
    let n = first_plus(text);
    if n >= text.len() {
        match key_code(text) {
            Some(vk) => Ok(
                HotkeyGesture {
                    modifiers: Modifiers { alt: false, ctrl: false, shift: false, win: false },
                    vk,
                },
            ),
            None => Err(ParseGestureError::UnknownKey),
        }
    } else {
        match modifier_named(text.take(n)) {
            Some(m) => match parsed(text.skip(n + 1)) {
                Ok(g) => if g.modifiers.holds(m) {
                    Err(ParseGestureError::RepeatedModifier)
                } else {
                    Ok(HotkeyGesture { modifiers: g.modifiers.with(m), vk: g.vk })
                },
                Err(e) => Err(e),
            },
            None => Err(ParseGestureError::UnknownModifier),
        }
    }
}

#[via_fn]
proof fn parsed_decreases(text: Seq<char>) {
    lemma_first_plus_bounds(text);
}

fn parse_chars(text: &[char]) -> (r: Result<HotkeyGesture, ParseGestureError>)
    ensures
        r == parsed(text@),
    decreases text@.len(),
{
    let mut n: usize = 0;
    while n < text.len() && text[n] != '+'
        invariant
            n <= text@.len(),
            forall|i: int| 0 <= i < n ==> text@[i] != '+',
        decreases text@.len() - n,
    {
        n += 1;
    }
    proof {
        lemma_first_plus(text@, n as int);
    }
    if n == text.len() {
        return match find_key(text) {
            Some(vk) => Ok(HotkeyGesture { modifiers: Modifiers::none(), vk }),
            None => Err(ParseGestureError::UnknownKey),
        };
    }
    let word: &[char] = vstd::slice::slice_subrange(text, 0, n);
    let rest: &[char] = vstd::slice::slice_subrange(text, n + 1, text.len());
    match find_modifier(word) {
        None => Err(ParseGestureError::UnknownModifier),
        Some(m) => match parse_chars(rest) {
            Err(e) => Err(e),
            Ok(g) => {
                if g.modifiers.contains(m) {
                    Err(ParseGestureError::RepeatedModifier)
                } else {
                    Ok(HotkeyGesture { modifiers: g.modifiers | m, vk: g.vk })
                }
            },
        },
    }
}

/// `word` when `on`, else nothing.
pub open spec fn part(on: bool, word: Seq<char>) -> Seq<char> {
    if on {
        word
    } else {
        Seq::empty()
    }
}

/// What modifier names joined by plus signs stand for, in any order and each at
/// most once.
pub open spec fn named_modifiers(text: Seq<char>) -> Result<Modifiers, ParseGestureError>
    decreases text.len(),
    via named_modifiers_decreases
{
    let n = first_plus(text);
    match modifier_named(text.take(n)) {
        None => Err(ParseGestureError::UnknownModifier),
        Some(m) => if n >= text.len() {
            Ok(m)
        } else {
            match named_modifiers(text.skip(n + 1)) {
                Err(e) => Err(e),
                Ok(rest) => if rest.holds(m) {
                    Err(ParseGestureError::RepeatedModifier)
                } else {
                    Ok(rest.with(m))
                },
            }
        },
    }
}

#[via_fn]
proof fn named_modifiers_decreases(text: Seq<char>) {
    lemma_first_plus_bounds(text);
}

fn parse_modifier_chars(text: &[char]) -> (r: Result<Modifiers, ParseGestureError>)
    ensures
        r == named_modifiers(text@),
    decreases text@.len(),
{
    let mut n: usize = 0;
    while n < text.len() && text[n] != '+'
        invariant
            n <= text@.len(),
            forall|i: int| 0 <= i < n ==> text@[i] != '+',
        decreases text@.len() - n,
    {
        n += 1;
    }
    proof {
        lemma_first_plus(text@, n as int);
    }
    let word: &[char] = vstd::slice::slice_subrange(text, 0, n);
    match find_modifier(word) {
        None => Err(ParseGestureError::UnknownModifier),
        Some(m) => {
            if n == text.len() {
                return Ok(m);
            }
            let rest: &[char] = vstd::slice::slice_subrange(text, n + 1, text.len());
            match parse_modifier_chars(rest) {
                Err(e) => Err(e),
                Ok(others) => {
                    if others.contains(m) {
                        Err(ParseGestureError::RepeatedModifier)
                    } else {
                        Ok(others | m)
                    }
                },
            }
        },
    }
}

/// What a modifiers text stands for: nothing for the empty one.
pub open spec fn parsed_modifiers(text: Seq<char>) -> Result<Modifiers, ParseGestureError> {
    if text.len() == 0 {
        Ok(Modifiers { alt: false, ctrl: false, shift: false, win: false })
    } else {
        named_modifiers(text)
    }
}

impl Modifiers {
    /// Read what [`Modifiers::to_display`] writes.
    pub fn parse(text: &str) -> (r: Result<Modifiers, ParseGestureError>)
        ensures
            r == parsed_modifiers(text@),
    {
        let chars = chars_of(text);
        if chars.len() == 0 {
            Ok(Modifiers::none())
        } else {
            parse_modifier_chars(chars.as_slice())
        }
    }

    /// The modifier names in Ctrl, Alt, Shift, Win order, joined by plus signs.
    pub open spec fn names(self) -> Seq<char> {
        if self.prefix().len() == 0 {
            self.prefix()
        } else {
            self.prefix().drop_last()
        }
    }

    /// The modifier names in Ctrl, Alt, Shift, Win order, each followed by a
    /// plus sign.
    pub open spec fn prefix(self) -> Seq<char> {
        part(self.ctrl, "Ctrl+"@) + (part(self.alt, "Alt+"@) + (part(self.shift, "Shift+"@) + part(
            self.win,
            "Win+"@,
        )))
    }

    /// The modifier names in Ctrl, Alt, Shift, Win order, joined by plus signs.
    pub fn to_display(self) -> (r: String)
        ensures
            r@ == self.names(),
    {
        let mut prefix = String::new();
        self.push_prefix(&mut prefix);
        proof {
            assert(prefix@ =~= self.prefix());
        }
        let chars = chars_of(prefix.as_str());
        if chars.len() == 0 {
            return prefix;
        }
        let shown = crate::text::text_of(
            vstd::slice::slice_subrange(chars.as_slice(), 0, chars.len() - 1),
        );
        proof {
            assert(shown@ =~= self.prefix().drop_last());
        }
        shown
    }

    fn push_prefix(self, out: &mut String)
        ensures
            final(out)@ == old(out)@ + self.prefix(),
    {
        if self.ctrl {
            push_text(out, "Ctrl+");
        }
        if self.alt {
            push_text(out, "Alt+");
        }
        if self.shift {
            push_text(out, "Shift+");
        }
        if self.win {
            push_text(out, "Win+");
        }
        proof {
            assert(out@ =~= old(out)@ + self.prefix());
        }
    }
}

/// Whether `vk` is itself a modifier key (either side of Shift, Ctrl, Alt or
/// Win).
pub open spec fn is_modifier_key(vk: u32) -> bool {
    0x10 <= vk <= 0x12 || 0x5B <= vk <= 0x5C || 0xA0 <= vk <= 0xA5
}

impl HotkeyGesture {
    pub fn new(modifiers: Modifiers, vk: u32) -> (r: Self)
        ensures
            r == (HotkeyGesture { modifiers, vk }),
    {
        Self { modifiers, vk }
    }

    /// Parse a gesture such as `Ctrl+Alt+F` or `Esc`.
    pub fn parse(text: &str) -> (r: Result<HotkeyGesture, ParseGestureError>)
        ensures
            r == parsed(text@),
    {
        parse_chars(chars_of(text).as_slice())
    }

    /// The gesture's text: modifier names, then the key's name; a key without
    /// a name shows as a question mark.
    pub open spec fn shown(self) -> Seq<char> {
        self.modifiers.prefix() + (match key_name(self.vk) {
            Some(name) => name,
            None => seq!['?'],
        })
    }

    /// The gesture's text, as [`HotkeyGesture::parse`] reads it.
    pub fn to_display(&self) -> (r: String)
        ensures
            r@ == self.shown(),
    {
        let mut out = String::new();
        self.modifiers.push_prefix(&mut out);
        proof {
            assert(out@ =~= self.modifiers.prefix());
        }
        match key_label(self.vk) {
            Some(name) => crate::text::push_chars(&mut out, name.as_slice()),
            None => {
                out.push('?');
                proof {
                    assert(out@ =~= self.shown());
                }
            },
        }
        out
    }

    /// A gesture can be registered when its key is a real key: not absent, not
    /// beyond the virtual-key range, and not a modifier itself.
    pub open spec fn registerable(self) -> bool {
        0 < self.vk < 0xFF && !is_modifier_key(self.vk)
    }

    pub fn is_registerable(&self) -> (r: bool)
        ensures
            r == self.registerable(),
    {
        let vk: u32 = self.vk;
        0 < vk && vk < 0xFF && !((0x10 <= vk && vk <= 0x12) || (0x5B <= vk && vk <= 0x5C) || (0xA0
            <= vk && vk <= 0xA5))
    }
}

/// A gesture's text has at most 30 characters.
pub proof fn lemma_shown_len(g: HotkeyGesture)
    ensures
        g.shown().len() <= 30,
{
    reveal_strlit("Ctrl+");
    reveal_strlit("Alt+");
    reveal_strlit("Shift+");
    reveal_strlit("Win+");
    reveal_strlit("Backspace");
    reveal_strlit("Tab");
    reveal_strlit("Enter");
    reveal_strlit("Pause");
    reveal_strlit("Esc");
    reveal_strlit("Space");
    reveal_strlit("PageUp");
    reveal_strlit("PageDown");
    reveal_strlit("End");
    reveal_strlit("Home");
    reveal_strlit("Left");
    reveal_strlit("Up");
    reveal_strlit("Right");
    reveal_strlit("Down");
    reveal_strlit("PrintScreen");
    reveal_strlit("Insert");
    reveal_strlit("Delete");
}

/// Reading a modifier name in front of a gesture's text adds that modifier.
pub(crate) proof fn lemma_parsed_prefix(word: Seq<char>, rest: Seq<char>)
    requires
        forall|i: int| 0 <= i < word.len() ==> word[i] != '+',
    ensures
        ({
            let text = word.push('+') + rest;
            parsed(text) == (match modifier_named(word) {
                Some(m) => match parsed(rest) {
                    Ok(g) => if g.modifiers.holds(m) {
                        Err::<HotkeyGesture, ParseGestureError>(ParseGestureError::RepeatedModifier)
                    } else {
                        Ok(HotkeyGesture { modifiers: g.modifiers.with(m), vk: g.vk })
                    },
                    Err(e) => Err(e),
                },
                None => Err(ParseGestureError::UnknownModifier),
            })
        }),
{
    let text = word.push('+') + rest;
    lemma_first_plus(text, word.len() as int);
    assert(text.take(word.len() as int) =~= word);
    assert(text.skip(word.len() as int + 1) =~= rest);
}

/// Reading back a gesture's text gives the gesture, for every key that has a
/// name.
pub proof fn lemma_gesture_text_round_trip(g: HotkeyGesture)
    requires
        key_name(g.vk) is Some,
    ensures
        parsed(g.shown()) == Ok::<HotkeyGesture, ParseGestureError>(g),
{
    reveal_strlit("Ctrl");
    reveal_strlit("Alt");
    reveal_strlit("Shift");
    reveal_strlit("Win");
    reveal_strlit("Ctrl+");
    reveal_strlit("Alt+");
    reveal_strlit("Shift+");
    reveal_strlit("Win+");
    assert("Ctrl+"@ =~= "Ctrl"@.push('+'));
    assert("Alt+"@ =~= "Alt"@.push('+'));
    assert("Shift+"@ =~= "Shift"@.push('+'));
    assert("Win+"@ =~= "Win"@.push('+'));
    assert("Ctrl"@ != "Alt"@) by { assert("Ctrl"@[0] != "Alt"@[0]); }
    assert("Ctrl"@ != "Shift"@) by { assert("Ctrl"@[0] != "Shift"@[0]); }
    assert("Ctrl"@ != "Win"@) by { assert("Ctrl"@[0] != "Win"@[0]); }
    assert("Alt"@ != "Shift"@) by { assert("Alt"@[0] != "Shift"@[0]); }
    assert("Alt"@ != "Win"@) by { assert("Alt"@[0] != "Win"@[0]); }
    assert("Shift"@ != "Win"@) by { assert("Shift"@[0] != "Win"@[0]); }
    let m = g.modifiers;
    let name = key_name(g.vk)->0;
    lemma_key_names_are_plain(g.vk);
    lemma_key_code_of_name(g.vk);
    lemma_first_plus(name, name.len() as int);
    let t3 = part(m.win, "Win+"@) + name;
    let t2 = part(m.shift, "Shift+"@) + t3;
    let t1 = part(m.alt, "Alt+"@) + t2;
    let t0 = part(m.ctrl, "Ctrl+"@) + t1;
    lemma_parsed_prefix("Win"@, name);
    lemma_parsed_prefix("Shift"@, t3);
    lemma_parsed_prefix("Alt"@, t2);
    lemma_parsed_prefix("Ctrl"@, t1);
    assert(!m.win ==> t3 =~= name);
    assert(!m.shift ==> t2 =~= t3);
    assert(!m.alt ==> t1 =~= t2);
    assert(!m.ctrl ==> t0 =~= t1);
    assert(g.shown() =~= t0);
}

/// One modifier name, alone or in front of others.
proof fn lemma_named_in_front(word: Seq<char>, rest: Seq<char>)
    requires
        forall|i: int| 0 <= i < word.len() ==> word[i] != '+',
    ensures
        named_modifiers(word) == (match modifier_named(word) {
            Some(m) => Ok::<Modifiers, ParseGestureError>(m),
            None => Err(ParseGestureError::UnknownModifier),
        }),
        named_modifiers(word.push('+') + rest) == (match modifier_named(word) {
            Some(m) => match named_modifiers(rest) {
                Ok(others) => if others.holds(m) {
                    Err::<Modifiers, ParseGestureError>(ParseGestureError::RepeatedModifier)
                } else {
                    Ok(others.with(m))
                },
                Err(e) => Err(e),
            },
            None => Err(ParseGestureError::UnknownModifier),
        }),
{
    lemma_first_plus(word, word.len() as int);
    assert(word.take(word.len() as int) =~= word);
    let text = word.push('+') + rest;
    lemma_first_plus(text, word.len() as int);
    assert(text.take(word.len() as int) =~= word);
    assert(text.skip(word.len() as int + 1) =~= rest);
}

/// `word` in front of the names in `rest`, where `on`.
spec fn named(on: bool, word: Seq<char>, rest: Seq<char>) -> Seq<char> {
    if !on {
        rest
    } else if rest.len() == 0 {
        word
    } else {
        word.push('+') + rest
    }
}

/// Reading back the names of some modifiers gives the modifiers.
pub proof fn lemma_modifiers_text_round_trip(m: Modifiers)
    ensures
        parsed_modifiers(m.names()) == Ok::<Modifiers, ParseGestureError>(m),
{
    reveal_strlit("Ctrl");
    reveal_strlit("Alt");
    reveal_strlit("Shift");
    reveal_strlit("Win");
    reveal_strlit("Ctrl+");
    reveal_strlit("Alt+");
    reveal_strlit("Shift+");
    reveal_strlit("Win+");
    assert("Ctrl+"@ =~= "Ctrl"@.push('+'));
    assert("Alt+"@ =~= "Alt"@.push('+'));
    assert("Shift+"@ =~= "Shift"@.push('+'));
    assert("Win+"@ =~= "Win"@.push('+'));
    assert("Ctrl"@ != "Alt"@) by { assert("Ctrl"@[0] != "Alt"@[0]); }
    assert("Ctrl"@ != "Shift"@) by { assert("Ctrl"@[0] != "Shift"@[0]); }
    assert("Ctrl"@ != "Win"@) by { assert("Ctrl"@[0] != "Win"@[0]); }
    assert("Alt"@ != "Shift"@) by { assert("Alt"@[0] != "Shift"@[0]); }
    assert("Alt"@ != "Win"@) by { assert("Alt"@[0] != "Win"@[0]); }
    assert("Shift"@ != "Win"@) by { assert("Shift"@[0] != "Win"@[0]); }
    let t3 = named(m.win, "Win"@, Seq::empty());
    let t2 = named(m.shift, "Shift"@, t3);
    let t1 = named(m.alt, "Alt"@, t2);
    let t0 = named(m.ctrl, "Ctrl"@, t1);
    lemma_named_in_front("Win"@, Seq::empty());
    lemma_named_in_front("Shift"@, t3);
    lemma_named_in_front("Alt"@, t2);
    lemma_named_in_front("Ctrl"@, t1);
    let p3 = part(m.win, "Win+"@);
    let p2 = part(m.shift, "Shift+"@) + p3;
    let p1 = part(m.alt, "Alt+"@) + p2;
    let p0 = part(m.ctrl, "Ctrl+"@) + p1;
    assert(if m.win { p3 =~= t3.push('+') } else { p3 =~= t3 });
    assert(if t2.len() > 0 { p2 =~= t2.push('+') } else { p2 =~= t2 });
    assert(if t1.len() > 0 { p1 =~= t1.push('+') } else { p1 =~= t1 });
    assert(if t0.len() > 0 { p0 =~= t0.push('+') } else { p0 =~= t0 });
    assert(m.prefix() == p0);
    assert(m.names() =~= t0);
}

} // verus!
