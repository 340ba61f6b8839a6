//! Launch at login on Windows: the registry calls to make and what their
//! statuses mean.

use crate::autostart::{
    reconcile_action, windows_run_value_payload, ReconcileAction, WINDOWS_RUN_KEY_PATH,
    WINDOWS_VALUE_NAME,
};
use crate::tray::{encode_units, utf16_units};
use vstd::prelude::*;

verus! {

/// The current user's hive: the 32-bit handle 0x80000001, sign-extended.
pub const HKEY_CURRENT_USER: isize = -2147483647;

/// The access right that setting and deleting a value need.
pub const KEY_SET_VALUE: u32 = 0x0002;

/// Value type: text.
pub const REG_SZ: u32 = 1;

pub const ERROR_SUCCESS: i32 = 0;

/// The value to delete is not there.
pub const ERROR_FILE_NOT_FOUND: i32 = 2;

/// A text as UTF-16 with its terminator.
pub open spec fn wide_units(text: Seq<char>) -> Seq<u16> {
    utf16_units(text).push(0)
}

/// A text as UTF-16 with its terminator.
pub fn wide(s: &str) -> (r: Vec<u16>)
    ensures
        r@ == wide_units(s@),
{
    let mut out = encode_units(s);
    out.push(0);
    out
}

/// What to do under the opened key.
pub enum RunValueStep {
    /// Set the text value to these units, all their bytes.
    Write { name: Vec<u16>, value: Vec<u16> },
    /// Delete the value.
    Delete { name: Vec<u16> },
}

/// The registry work for a setting: the key to open, then the step under it.
pub fn apply_auto_start(auto_start: bool, exe: &str) -> (r: (Vec<u16>, RunValueStep))
    ensures
        r.0@ == wide_units(WINDOWS_RUN_KEY_PATH@),
        match r.1 {
            RunValueStep::Write { name, value } => {
                &&& auto_start
                &&& name@ == wide_units(WINDOWS_VALUE_NAME@)
                &&& value@ == wide_units(seq!['"'] + exe@ + seq!['"'])
            },
            RunValueStep::Delete { name } => !auto_start && name@ == wide_units(
                WINDOWS_VALUE_NAME@,
            ),
        },
{
    let key = wide(WINDOWS_RUN_KEY_PATH);
    let name = wide(WINDOWS_VALUE_NAME);
    match reconcile_action(auto_start) {
        ReconcileAction::Install => {
            let payload = windows_run_value_payload(exe);
            (key, RunValueStep::Write { name, value: wide(payload.as_str()) })
        },
        ReconcileAction::Remove => (key, RunValueStep::Delete { name }),
    }
}

/// How many bytes some units are; `None` when that does not fit the registry's
/// count.
pub fn byte_count(units: &[u16]) -> (r: Option<u32>)
    ensures
        match r {
            Some(n) => n == units@.len() * 2,
            None => units@.len() * 2 > u32::MAX,
        },
{
    if units.len() > 0x7fff_ffff {
        None
    } else {
        Some((units.len() * 2) as u32)
    }
}

/// Whether setting the value succeeded.
pub fn set_run_value(status: i32) -> (r: bool)
    ensures
        r == (status == ERROR_SUCCESS),
{
    status == ERROR_SUCCESS
}

/// Whether deleting the value succeeded: an absent value is what was wanted.
pub fn delete_run_value(status: i32) -> (r: bool)
    ensures
        r == (status == ERROR_SUCCESS || status == ERROR_FILE_NOT_FOUND),
{
    status == ERROR_SUCCESS || status == ERROR_FILE_NOT_FOUND
}

/// The name of a failed call, as an error says it.
pub fn status_error(api: &str) -> (r: String)
    ensures
        r@ == api@ + " failed"@,
{
    let mut out: String = api.to_owned();
    crate::text::push_text(&mut out, " failed");
    out
}

/// A text for the system is its UTF-16 units with one zero after them.
pub proof fn lemma_wide_text(text: Seq<char>)
    ensures
        wide_units(text).len() == utf16_units(text).len() + 1,
        wide_units(text).last() == 0,
        wide_units(text).drop_last() == utf16_units(text),
{
    assert(wide_units(text).drop_last() =~= utf16_units(text));
}

} // verus!
