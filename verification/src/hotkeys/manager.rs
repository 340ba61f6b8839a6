//! Bookkeeping of globally registered hotkeys: id allocation, duplicate
//! detection, and the way back from an id to its gesture. The system calls
//! themselves are made by the caller, between the steps of [`HotkeyManager`].

use crate::hotkeys::gesture::HotkeyGesture;
use std::collections::HashMap;
use vstd::prelude::*;
use vstd::std_specs::iter::IteratorSpec;

verus! {

broadcast use vstd::std_specs::hash::group_hash_axioms;

/// Registration id, as passed to the system and delivered back with the event.
#[derive(Clone, Copy, PartialEq, Eq, Structural, Hash, Debug)]
pub struct HotkeyId(pub i32);

/// Highest id the system accepts for a window hotkey. Ids start at 1.
pub const MAX_HOTKEY_ID: i32 = 0xBFFF;

/// Why a hotkey operation failed.
#[derive(Clone, Copy, PartialEq, Eq, Structural, Debug)]
pub enum HotkeyError {
    /// The gesture's key cannot be registered.
    NotRegisterable,
    /// The gesture is already registered here.
    AlreadyRegistered,
    /// Every id is taken.
    IdsExhausted,
    /// No hotkey has this id.
    UnknownId,
    /// The system refused the call.
    Refused,
}

/// The `k`-th id when scanning forward from `start`, wrapping past the last id
/// to 1.
pub open spec fn scan(start: i32, k: int) -> i32 {
    ((start - 1 + k) % MAX_HOTKEY_ID as int + 1) as i32
}

/// Which ids map to which gestures, and where the next id is searched.
pub struct Book {
    pub map: HashMap<i32, HotkeyGesture>,
    pub next_id: i32,
}

impl Book {
    /// All ids are valid, the search position included.
    pub open spec fn wf(self) -> bool {
        &&& 1 <= self.next_id <= MAX_HOTKEY_ID
        &&& forall|id: i32| #[trigger]
            self.map@.contains_key(id) ==> 1 <= id <= MAX_HOTKEY_ID
    }

    /// No id is free.
    pub open spec fn exhausted(self) -> bool {
        forall|id: i32| 1 <= id <= MAX_HOTKEY_ID ==> #[trigger] self.map@.contains_key(id)
    }

    /// No two ids hold the same gesture.
    pub open spec fn distinct(self) -> bool {
        forall|a: i32, b: i32|
            self.map@.contains_key(a) && self.map@.contains_key(b) && #[trigger] self.map@[a]
                == #[trigger] self.map@[b] ==> a == b
    }

    /// `id` is the first free id from the search position on.
    pub open spec fn first_free(self, id: i32) -> bool {
        &&& !self.map@.contains_key(id)
        &&& exists|k: int|
            0 <= k < MAX_HOTKEY_ID && id == #[trigger] scan(self.next_id, k) && forall|j: int|
                0 <= j < k ==> self.map@.contains_key(#[trigger] scan(self.next_id, j))
    }

    pub fn new() -> (r: Self)
        ensures
            r.wf(),
            r.map@ == Map::<i32, HotkeyGesture>::empty(),
            r.next_id == 1,
    {
        Self { map: HashMap::new(), next_id: 1 }
    }

    /// Whether some id holds `gesture`.
    pub open spec fn holds(self, gesture: HotkeyGesture) -> bool {
        exists|id: i32| self.map@.contains_key(id) && #[trigger] self.map@[id] == gesture
    }

    fn contains_gesture(&self, gesture: HotkeyGesture) -> (r: bool)
        ensures
            r == self.holds(gesture),
    {
        for g in it: self.map.values()
            invariant
                it.seq() == self.map.values().remaining(),
                forall|k: int| 0 <= k < it.index() ==> *(#[trigger] it.seq()[k]) != gesture,
        {
            if *g == gesture {
                proof {
                    let all = it.seq().unref();
                    assert(all[it.index() as int] == gesture);
                    assert(all.to_set().contains(gesture));
                    assert(self.map@.values().contains(gesture));
                    assert(self.holds(gesture));
                }
                return true;
            }
        }
        proof {
            if self.holds(gesture) {
                let id = choose|id: i32|
                    self.map@.contains_key(id) && #[trigger] self.map@[id] == gesture;
                assert(self.map@.values().contains(gesture));
                let all = self.map.values().remaining();
                assert(all.unref().to_set().contains(gesture));
                let k = choose|k: int| 0 <= k < all.unref().len() && all.unref()[k] == gesture;
                assert(*all[k] == gesture);
            }
        }
        false
    }

    /// Validate, allocate an id and record the gesture under it.
    pub fn register(&mut self, gesture: HotkeyGesture) -> (r: Result<i32, HotkeyError>)
        requires
            old(self).wf(),
        ensures
            final(self).wf(),
            old(self).distinct() ==> final(self).distinct(),
            match r {
                Ok(id) => {
                    &&& gesture.registerable()
                    &&& !old(self).holds(gesture)
                    &&& old(self).first_free(id)
                    &&& final(self).map@ == old(self).map@.insert(id, gesture)
                    &&& final(self).next_id == scan(id, 1)
                },
                Err(e) => {
                    &&& final(self).map@ == old(self).map@
                    &&& final(self).next_id == old(self).next_id
                    &&& if !gesture.registerable() {
                        e == HotkeyError::NotRegisterable
                    } else if old(self).holds(gesture) {
                        e == HotkeyError::AlreadyRegistered
                    } else {
                        e == HotkeyError::IdsExhausted && old(self).exhausted()
                    }
                },
            },
    {
        if !gesture.is_registerable() {
            return Err(HotkeyError::NotRegisterable);
        }
        if self.contains_gesture(gesture) {
            return Err(HotkeyError::AlreadyRegistered);
        }
        match self.alloc_id() {
            Ok(id) => {
                self.map.insert(id, gesture);
                Ok(id)
            },
            Err(e) => Err(e),
        }
    }

    /// First free id, scanning forward from `next_id` and wrapping once; an
    /// error only when every id is taken.
    pub fn alloc_id(&mut self) -> (r: Result<i32, HotkeyError>)
        requires
            old(self).wf(),
        ensures
            final(self).wf(),
            final(self).map@ == old(self).map@,
            match r {
                Ok(id) => {
                    &&& 1 <= id <= MAX_HOTKEY_ID
                    &&& old(self).first_free(id)
                    &&& final(self).next_id == scan(id, 1)
                },
                Err(e) => {
                    &&& e == HotkeyError::IdsExhausted
                    &&& old(self).exhausted()
                    &&& final(self).next_id == old(self).next_id
                },
            },
    {
        let start: i32 = self.next_id;
        let mut k: i32 = 0;
        while k < MAX_HOTKEY_ID
            invariant
                1 <= start <= MAX_HOTKEY_ID,
                0 <= k <= MAX_HOTKEY_ID,
                start == old(self).next_id,
                self.map@ == old(self).map@,
                self.wf(),
                self.next_id == scan(start, k as int),
                forall|j: int| 0 <= j < k ==> self.map@.contains_key(#[trigger] scan(start, j)),
            decreases MAX_HOTKEY_ID - k,
        {
            let id: i32 = self.next_id;
            self.next_id = if id >= MAX_HOTKEY_ID {
                1
            } else {
                id + 1
            };
            if !self.map.contains_key(&id) {
                proof {
                    assert(id == scan(start, k as int));
                }
                return Ok(id);
            }
            k += 1;
        }
        proof {
            assert forall|id: i32| 1 <= id <= MAX_HOTKEY_ID implies #[trigger] old(self).map@.contains_key(id) by {
                let j = if id >= start {
                    id - start
                } else {
                    id - start + MAX_HOTKEY_ID
                };
                assert(scan(start, j) == id);
            }
        }
        Err(HotkeyError::IdsExhausted)
    }

    /// Remove a recorded id, returning its gesture. Unknown ids are an error.
    pub fn remove(&mut self, id: i32) -> (r: Result<HotkeyGesture, HotkeyError>)
        requires
            old(self).wf(),
        ensures
            final(self).wf(),
            old(self).distinct() ==> final(self).distinct(),
            final(self).next_id == old(self).next_id,
            match r {
                Ok(g) => {
                    &&& old(self).map@.contains_key(id)
                    &&& g == old(self).map@[id]
                    &&& final(self).map@ == old(self).map@.remove(id)
                },
                Err(e) => {
                    &&& !old(self).map@.contains_key(id)
                    &&& e == HotkeyError::UnknownId
                    &&& final(self).map@ == old(self).map@
                },
            },
    {
        match self.map.remove(&id) {
            Some(g) => Ok(g),
            None => {
                proof {
                    assert(self.map@ =~= old(self).map@);
                }
                Err(HotkeyError::UnknownId)
            },
        }
    }

    /// The gesture recorded under `id`.
    pub open spec fn lookup(self, id: i32) -> Option<HotkeyGesture> {
        if self.map@.contains_key(id) {
            Some(self.map@[id])
        } else {
            None
        }
    }

    /// The gesture recorded under `id`.
    pub fn get(&self, id: i32) -> (r: Option<HotkeyGesture>)
        ensures
            r == self.lookup(id),
    {
        match self.map.get(&id) {
            Some(g) => Some(*g),
            None => None,
        }
    }

    /// Every recorded id once, in no particular order.
    pub fn ids(&self) -> (r: Vec<i32>)
        ensures
            r@.no_duplicates(),
            r@.to_set() == self.map@.dom(),
    {
        let mut r: Vec<i32> = Vec::new();
        for id in it: self.map.keys()
            invariant
                it.seq() == self.map.keys().remaining(),
                r@ == it.seq().unref().take(it.index() as int),
        {
            r.push(*id);
            proof {
                assert(r@ =~= it.seq().unref().take(it.index() + 1));
            }
        }
        proof {
            let all = self.map.keys().remaining();
            assert(r@ =~= all.unref());
            assert forall|i: int, j: int| 0 <= i < r@.len() && 0 <= j < r@.len() && i
                != j implies r@[i] != r@[j] by {
                assert(all[i] != all[j]);
            }
        }
        r
    }
}

/// A registration is found again under its id and disturbs no other; removing
/// it frees both the id and the gesture.
pub proof fn lemma_register_then_remove(
    map: Map<i32, HotkeyGesture>,
    id: i32,
    gesture: HotkeyGesture,
)
    requires
        !map.contains_key(id),
    ensures
        map.insert(id, gesture)[id] == gesture,
        forall|other: i32|
            other != id && map.contains_key(other) ==> #[trigger] map.insert(id, gesture)[other]
                == map[other],
        map.insert(id, gesture).remove(id) == map,
{
    assert(map.insert(id, gesture).remove(id) =~= map);
}

/// The signed 32-bit number in the low half of `v`.
pub open spec fn low_i32(v: usize) -> i32 {
    if v as int % 0x1_0000_0000 < 0x8000_0000 {
        (v as int % 0x1_0000_0000) as i32
    } else {
        (v as int % 0x1_0000_0000 - 0x1_0000_0000) as i32
    }
}

fn low_word(v: usize) -> (r: i32)
    ensures
        r == low_i32(v),
{
    let low: i64 = (v as u64 % 0x1_0000_0000) as i64;
    if low < 0x8000_0000 {
        low as i32
    } else {
        (low - 0x1_0000_0000) as i32
    }
}

/// Registers global hotkeys on a window and maps ids back to the gestures that
/// produced them. Each operation is in two steps around the system call: the
/// manager's step before it decides, the one after it records the outcome.
pub struct HotkeyManager {
    /// Handle of the owning message window.
    pub hwnd: isize,
    pub book: Book,
}

impl HotkeyManager {
    pub open spec fn wf(self) -> bool {
        self.book.wf()
    }

    pub fn new(hwnd: isize) -> (r: Self)
        ensures
            r.wf(),
            r.hwnd == hwnd,
            r.book.map@ == Map::<i32, HotkeyGesture>::empty(),
            r.book.next_id == 1,
    {
        Self { hwnd, book: Book::new() }
    }

    /// First step of a registration: check `gesture` and reserve an id for it.
    /// The system is then asked to register the gesture under that id, and
    /// [`HotkeyManager::settle`] is told the outcome.
    pub fn register(&mut self, gesture: HotkeyGesture) -> (r: Result<HotkeyId, HotkeyError>)
        requires
            old(self).wf(),
        ensures
            final(self).wf(),
            final(self).hwnd == old(self).hwnd,
            match r {
                Ok(id) => {
                    &&& gesture.registerable()
                    &&& !old(self).book.holds(gesture)
                    &&& old(self).book.first_free(id.0)
                    &&& final(self).book.map@ == old(self).book.map@.insert(id.0, gesture)
                    &&& final(self).book.next_id == scan(id.0, 1)
                },
                Err(e) => {
                    &&& final(self).book.map@ == old(self).book.map@
                    &&& final(self).book.next_id == old(self).book.next_id
                    &&& if !gesture.registerable() {
                        e == HotkeyError::NotRegisterable
                    } else if old(self).book.holds(gesture) {
                        e == HotkeyError::AlreadyRegistered
                    } else {
                        e == HotkeyError::IdsExhausted && old(self).book.exhausted()
                    }
                },
            },
    {
        match self.book.register(gesture) {
            Ok(id) => Ok(HotkeyId(id)),
            Err(e) => Err(e),
        }
    }

    /// Second step of a registration: keep the reserved id when the system
    /// accepted the gesture, take it back when it did not.
    pub fn settle(&mut self, id: HotkeyId, accepted: bool) -> (r: Result<HotkeyId, HotkeyError>)
        requires
            old(self).wf(),
        ensures
            final(self).wf(),
            final(self).hwnd == old(self).hwnd,
            final(self).book.next_id == old(self).book.next_id,
            accepted ==> r == Ok::<HotkeyId, HotkeyError>(id) && final(self).book.map@ == old(self).book.map@,
            !accepted ==> r == Err::<HotkeyId, HotkeyError>(HotkeyError::Refused) && final(self).book.map@ == old(self).book.map@.remove(id.0),
    {
        if accepted {
            return Ok(id);
        }
        let removed = self.book.remove(id.0);
        proof {
            if removed is Err {
                assert(self.book.map@ =~= old(self).book.map@.remove(id.0));
            }
        }
        Err(HotkeyError::Refused)
    }

    /// Unregister a previously returned id. `released` is the outcome of the
    /// system call for a known id; the entry goes only when it succeeded.
    pub fn unregister(&mut self, id: HotkeyId, released: bool) -> (r: Result<(), HotkeyError>)
        requires
            old(self).wf(),
        ensures
            final(self).wf(),
            final(self).hwnd == old(self).hwnd,
            final(self).book.next_id == old(self).book.next_id,
            r == (if old(self).book.lookup(id.0) is None {
                Err::<(), HotkeyError>(HotkeyError::UnknownId)
            } else if released {
                Ok(())
            } else {
                Err(HotkeyError::Refused)
            }),
            final(self).book.map@ == (if r is Ok {
                old(self).book.map@.remove(id.0)
            } else {
                old(self).book.map@
            }),
    {
        if self.book.get(id.0).is_none() {
            return Err(HotkeyError::UnknownId);
        }
        if !released {
            return Err(HotkeyError::Refused);
        }
        let _removed = self.book.remove(id.0);
        Ok(())
    }

    /// Ids the system released successfully among the first `n` outcomes.
    pub open spec fn released(outcomes: Seq<(i32, bool)>, n: int) -> Set<i32> {
        Set::new(|id: i32| exists|k: int| 0 <= k < n && #[trigger] outcomes[k] == (id, true))
    }

    /// Record the outcomes of releasing hotkeys (one per id, see
    /// [`Book::ids`]): released ids are forgotten, failed ones stay. An error
    /// when any failed.
    pub fn unregister_all(&mut self, outcomes: &[(i32, bool)]) -> (r: Result<(), HotkeyError>)
        requires
            old(self).wf(),
        ensures
            final(self).wf(),
            final(self).hwnd == old(self).hwnd,
            final(self).book.next_id == old(self).book.next_id,
            final(self).book.map@ == old(self).book.map@.remove_keys(
                HotkeyManager::released(outcomes@, outcomes@.len() as int),
            ),
            r == (if exists|k: int| 0 <= k < outcomes@.len() && !(#[trigger] outcomes@[k]).1 {
                Err::<(), HotkeyError>(HotkeyError::Refused)
            } else {
                Ok(())
            }),
    {
        let mut failed: bool = false;
        let mut i: usize = 0;
        proof {
            assert(self.book.map@ =~= old(self).book.map@.remove_keys(
                HotkeyManager::released(outcomes@, 0),
            ));
        }
        while i < outcomes.len()
            invariant
                i <= outcomes@.len(),
                self.wf(),
                self.hwnd == old(self).hwnd,
                self.book.next_id == old(self).book.next_id,
                self.book.map@ == old(self).book.map@.remove_keys(
                    HotkeyManager::released(outcomes@, i as int),
                ),
                failed <==> exists|k: int| 0 <= k < i && !(#[trigger] outcomes@[k]).1,
            decreases outcomes@.len() - i,
        {
            let (id, ok): (i32, bool) = outcomes[i];
            let ghost prior = self.book.map@;
            if ok {
                let _removed = self.book.remove(id);
            } else {
                failed = true;
            }
            proof {
                let was = HotkeyManager::released(outcomes@, i as int);
                let now = HotkeyManager::released(outcomes@, i + 1);
                assert forall|k: i32| now.contains(k) <==> was.contains(k) || (ok && k == id) by {
                    if was.contains(k) {
                        let j = choose|j: int| 0 <= j < i && #[trigger] outcomes@[j] == (k, true);
                        assert(outcomes@[j] == (k, true));
                    }
                    if ok && k == id {
                        assert(outcomes@[i as int] == (k, true));
                    }
                }
                assert(self.book.map@ =~= old(self).book.map@.remove_keys(now));
                if failed {
                    if !ok {
                        assert(!outcomes@[i as int].1);
                    }
                }
            }
            i += 1;
        }
        if failed {
            Err(HotkeyError::Refused)
        } else {
            Ok(())
        }
    }

    /// The gesture registered under `id`.
    pub fn gesture(&self, id: HotkeyId) -> (r: Option<HotkeyGesture>)
        ensures
            r == self.book.lookup(id.0),
    {
        self.book.get(id.0)
    }

    /// Resolve a hotkey event's parameter, which carries the id in its low 32
    /// bits. `None` for foreign ids.
    pub fn handle_wm_hotkey(&self, wparam: usize) -> (r: Option<(HotkeyId, HotkeyGesture)>)
        ensures
            r == (match self.book.lookup(low_i32(wparam)) {
                Some(g) => Some((HotkeyId(low_i32(wparam)), g)),
                None => None,
            }),
    {
        let id: i32 = low_word(wparam);
        match self.book.get(id) {
            Some(g) => Some((HotkeyId(id), g)),
            None => None,
        }
    }
}

} // verus!
