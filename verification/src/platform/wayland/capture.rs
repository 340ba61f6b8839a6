//! Screen capture through the compositor's frame-copy protocol: which offered
//! buffer to take, how a frame resolves, and how its rows become a
//! [`DibBuffer`]. The protocol requests are the caller's part.

use crate::capture::rows::{rows_fit, rows_to_dib, source_row};
use crate::capture::{DibBuffer, MonitorInfo};
use crate::overlay::composite::size_fits;
use crate::text::push_text;
use vstd::prelude::*;

verus! {

/// A shared-memory pixel format.
#[derive(Clone, Copy, PartialEq, Eq, Structural, Debug)]
pub enum ShmFormat {
    Argb8888,
    Xrgb8888,
    /// Any other format, by its protocol code.
    Other(u32),
}

/// One buffer offer of a frame.
#[derive(Clone, Copy, PartialEq, Eq, Structural, Debug)]
pub struct ShmOffer {
    pub format: ShmFormat,
    pub width: u32,
    pub height: u32,
    pub stride: u32,
}

impl ShmOffer {
    /// Its bytes in memory are those of a [`DibBuffer`].
    pub open spec fn compatible(self) -> bool {
        self.format == ShmFormat::Xrgb8888 || self.format == ShmFormat::Argb8888
    }
}

/// The first compatible offer among those from `i` on.
pub open spec fn first_compatible(offers: Seq<ShmOffer>, i: int) -> Option<usize>
    decreases offers.len() - i,
{
    if i >= offers.len() {
        None
    } else if offers[i].compatible() {
        Some(i as usize)
    } else {
        first_compatible(offers, i + 1)
    }
}

/// Index of the first offer in a compatible format, in the order offered.
pub fn choose_shm_format(offers: &[ShmOffer]) -> (r: Option<usize>)
    ensures
        r == first_compatible(offers@, 0),
        r matches Some(i) ==> i < offers@.len() && offers@[i as int].compatible(),
{
    let mut i: usize = 0;
    while i < offers.len()
        invariant
            i <= offers@.len(),
            first_compatible(offers@, 0) == first_compatible(offers@, i as int),
        decreases offers@.len() - i,
    {
        match offers[i].format {
            ShmFormat::Xrgb8888 | ShmFormat::Argb8888 => {
                return Some(i);
            },
            ShmFormat::Other(_) => {},
        }
        i += 1;
    }
    None
}

/// Why a frame could not be captured.
#[derive(Clone, PartialEq, Eq, Debug)]
pub enum FrameError {
    /// No offered format is compatible.
    NoFormat,
    /// The frame buffer could not be allocated, for this reason.
    Allocation(String),
    /// The frame was reported ready before a buffer was accepted.
    ReadyTooSoon,
    /// The buffer does not hold the offered rows.
    ShortBuffer,
    /// The compositor reported a failure.
    Failed,
    /// The frame never resolved.
    Unresolved,
}

impl FrameError {
    /// What the error says.
    pub open spec fn text(self) -> Seq<char> {
        match self {
            FrameError::NoFormat => "the compositor offered no xrgb8888/argb8888 shm format"@,
            FrameError::Allocation(cause) => "allocating the frame buffer: "@ + cause@,
            FrameError::ReadyTooSoon => "the frame reported ready before a buffer was accepted"@,
            FrameError::ShortBuffer => "the frame buffer does not hold the offered rows"@,
            FrameError::Failed => "the compositor reported a frame copy failure"@,
            FrameError::Unresolved => "the frame never resolved"@,
        }
    }

    /// What the error says.
    pub fn message(&self) -> (r: String)
        ensures
            r@ == self.text(),
    {
        match self {
            FrameError::NoFormat => "the compositor offered no xrgb8888/argb8888 shm format".to_owned(),
            FrameError::Allocation(cause) => {
                let mut out: String = "allocating the frame buffer: ".to_owned();
                push_text(&mut out, cause.as_str());
                out
            },
            FrameError::ReadyTooSoon => "the frame reported ready before a buffer was accepted".to_owned(),
            FrameError::ShortBuffer => "the frame buffer does not hold the offered rows".to_owned(),
            FrameError::Failed => "the compositor reported a frame copy failure".to_owned(),
            FrameError::Unresolved => "the frame never resolved".to_owned(),
        }
    }
}

/// Per-frame progress.
pub struct FrameProgress {
    pub offers: Vec<ShmOffer>,
    pub y_invert: bool,
    /// The offer whose buffer the frame is being copied into.
    pub pending: Option<ShmOffer>,
    pub outcome: Option<Result<DibBuffer, FrameError>>,
}

impl FrameProgress {
    fn new() -> (r: Self)
        ensures
            r.offers@ == Seq::<ShmOffer>::empty(),
            !r.y_invert,
            r.pending is None,
            r.outcome is None,
    {
        Self { offers: Vec::new(), y_invert: false, pending: None, outcome: None }
    }
}

/// A frame's protocol event.
#[derive(Clone, Copy, PartialEq, Eq, Structural, Debug)]
pub enum FrameEvent {
    /// A buffer of this kind would be accepted.
    Buffer { offer: ShmOffer },
    /// All buffers were offered.
    BufferDone,
    Flags { y_invert: bool },
    /// The copy is complete.
    Ready,
    Failed,
    /// Anything else.
    Other,
}

/// What the caller does after an event.
#[derive(Clone, Copy, PartialEq, Eq, Structural, Debug)]
pub enum FrameAction {
    Nothing,
    /// Allocate a buffer for this offer and report with
    /// [`CaptureState::allocated`].
    Allocate { offer: ShmOffer },
    /// Request the copy into the allocated buffer.
    Copy,
    /// The frame is resolved: destroy it, and its buffer if it has one.
    Destroy,
}

/// Number of the first `n` frames that are not resolved yet.
pub open spec fn unresolved(frames: Seq<FrameProgress>, n: int) -> nat
    decreases n,
{
    if n <= 0 {
        0
    } else {
        unresolved(frames, n - 1) + (if frames[n - 1].outcome is None {
            1nat
        } else {
            0nat
        })
    }
}

proof fn lemma_unresolved_update(
    before: Seq<FrameProgress>,
    after: Seq<FrameProgress>,
    index: int,
    n: int,
)
    requires
        0 <= index < before.len(),
        0 <= n <= before.len(),
        after.len() == before.len(),
        forall|i: int| 0 <= i < before.len() && i != index ==> after[i] == before[i],
    ensures
        unresolved(after, n) - unresolved(before, n) == (if index < n {
            (if after[index].outcome is None {
                1int
            } else {
                0int
            }) - (if before[index].outcome is None {
                1int
            } else {
                0int
            })
        } else {
            0int
        }),
        index < n && before[index].outcome is None ==> unresolved(before, n) > 0,
    decreases n,
{
    if n > 0 {
        lemma_unresolved_update(before, after, index, n - 1);
    }
}

/// Progress of one capture pass over every output.
pub struct CaptureState {
    pub frames: Vec<FrameProgress>,
    /// Frames not yet resolved.
    pub remaining: usize,
}

impl CaptureState {
    /// The counter counts the frames that are not resolved.
    pub open spec fn wf(self) -> bool {
        self.remaining == unresolved(self.frames@, self.frames@.len() as int)
    }

    /// A pass over `n` outputs.
    pub fn new(n: usize) -> (r: Self)
        ensures
            r.wf(),
            r.frames@.len() == n,
            r.remaining == n,
            forall|i: int|
                0 <= i < n ==> (#[trigger] r.frames@[i]).outcome is None && r.frames@[i].pending
                    is None && r.frames@[i].offers@.len() == 0 && !r.frames@[i].y_invert,
    {
        let mut frames: Vec<FrameProgress> = Vec::new();
        let mut i: usize = 0;
        while i < n
            invariant
                i <= n,
                frames@.len() == i,
                unresolved(frames@, i as int) == i,
                forall|k: int|
                    0 <= k < i ==> (#[trigger] frames@[k]).outcome is None && frames@[k].pending
                        is None && frames@[k].offers@.len() == 0 && !frames@[k].y_invert,
            decreases n - i,
        {
            let ghost before = frames@;
            frames.push(FrameProgress::new());
            proof {
                lemma_unresolved_prefix(before, frames@, i as int);
            }
            i += 1;
        }
        Self { frames, remaining: n }
    }

    /// `after` is this state but for frame `index`, and counts it right.
    pub open spec fn only_frame(self, index: int, after: CaptureState) -> bool {
        &&& after.frames@.len() == self.frames@.len()
        &&& forall|i: int|
            0 <= i < self.frames@.len() && i != index ==> #[trigger] after.frames@[i]
                == self.frames@[i]
        &&& after.remaining == self.remaining - (if self.frames@[index].outcome is None
            && after.frames@[index].outcome is Some {
            1int
        } else {
            0int
        })
    }

    /// Record a frame's outcome, once.
    fn finish(&mut self, index: usize, outcome: Result<DibBuffer, FrameError>) -> (r: FrameAction)
        requires
            old(self).wf(),
            index < old(self).frames@.len(),
        ensures
            final(self).wf(),
            old(self).only_frame(index as int, *final(self)),
            final(self).frames@[index as int] == (FrameProgress {
                outcome: if old(self).frames@[index as int].outcome is Some {
                    old(self).frames@[index as int].outcome
                } else {
                    Some(outcome)
                },
                ..old(self).frames@[index as int]
            }),
            r == (if old(self).frames@[index as int].outcome is Some {
                FrameAction::Nothing
            } else {
                FrameAction::Destroy
            }),
    {
        if self.frames[index].outcome.is_some() {
            return FrameAction::Nothing;
        }
        let ghost before = self.frames@;
        self.frames[index].outcome = Some(outcome);
        proof {
            lemma_unresolved_update(before, self.frames@, index as int, before.len() as int);
        }
        self.remaining = self.remaining - 1;
        FrameAction::Destroy
    }

    /// The image a completed copy of `offer` gives, read from its mapped bytes.
    pub open spec fn read_outcome(
        offer: Option<ShmOffer>,
        y_invert: bool,
        mapping: Seq<u8>,
        outcome: Result<DibBuffer, FrameError>,
    ) -> bool {
        match offer {
            None => outcome == Err::<DibBuffer, FrameError>(FrameError::ReadyTooSoon),
            Some(o) => if size_fits(o.width, o.height) && rows_fit(
                mapping.len(),
                o.stride as int,
                o.width,
                o.height,
            ) {
                outcome matches Ok(dib) && {
                    &&& dib.wf()
                    &&& dib.width == o.width
                    &&& dib.height == o.height
                    &&& forall|x: int, y: int, c: int|
                        dib.has(x, y) && 0 <= c < 4 ==> #[trigger] dib.chan(x, y, c) == (if c
                            == 3 {
                            255
                        } else {
                            mapping[source_row(y, o.height, y_invert) * o.stride + x * 4 + c]
                        })
                }
            } else {
                outcome == Err::<DibBuffer, FrameError>(FrameError::ShortBuffer)
            },
        }
    }

    /// What an event makes of frame `before`: `after`, and what to do.
    pub open spec fn event_outcome(
        before: FrameProgress,
        event: FrameEvent,
        mapping: Seq<u8>,
        after: FrameProgress,
        action: FrameAction,
    ) -> bool {
        match event {
            FrameEvent::Buffer { offer } => {
                &&& after == (FrameProgress { offers: after.offers, ..before })
                &&& after.offers@ == before.offers@.push(offer)
                &&& action == FrameAction::Nothing
            },
            FrameEvent::BufferDone => match first_compatible(before.offers@, 0) {
                Some(i) => after == before && action == (FrameAction::Allocate {
                    offer: before.offers@[i as int],
                }),
                None => CaptureState::failed_as(before, FrameError::NoFormat, after, action),
            },
            FrameEvent::Flags { y_invert } => after == (FrameProgress { y_invert, ..before })
                && action == FrameAction::Nothing,
            FrameEvent::Ready => {
                &&& after == (FrameProgress {
                    pending: None,
                    outcome: after.outcome,
                    ..before
                })
                &&& match before.outcome {
                    Some(_) => after.outcome == before.outcome && action == FrameAction::Nothing,
                    None => {
                        &&& after.outcome matches Some(outcome) && CaptureState::read_outcome(
                            before.pending,
                            before.y_invert,
                            mapping,
                            outcome,
                        )
                        &&& action == FrameAction::Destroy
                    },
                }
            },
            FrameEvent::Failed => CaptureState::failed_as(
                before,
                FrameError::Failed,
                after,
                action,
            ),
            FrameEvent::Other => after == before && action == FrameAction::Nothing,
        }
    }

    /// The frame resolved to an error, unless it was resolved already.
    pub open spec fn failed_as(
        before: FrameProgress,
        error: FrameError,
        after: FrameProgress,
        action: FrameAction,
    ) -> bool {
        if before.outcome is Some {
            after == before && action == FrameAction::Nothing
        } else {
            after == (FrameProgress { outcome: Some(Err(error)), ..before }) && action
                == FrameAction::Destroy
        }
    }

    /// Apply a protocol event of frame `index`. `mapping` is the frame's mapped
    /// memory, read only when the copy is ready.
    pub fn event(&mut self, index: usize, event: FrameEvent, mapping: &[u8]) -> (r: FrameAction)
        requires
            old(self).wf(),
            index < old(self).frames@.len(),
        ensures
            final(self).wf(),
            old(self).only_frame(index as int, *final(self)),
            CaptureState::event_outcome(
                old(self).frames@[index as int],
                event,
                mapping@,
                final(self).frames@[index as int],
                r,
            ),
    {
        let ghost before = self.frames@;
        match event {
            FrameEvent::Buffer { offer } => {
                self.frames[index].offers.push(offer);
                proof {
                    lemma_unresolved_update(before, self.frames@, index as int, before.len() as int);
                }
                FrameAction::Nothing
            },
            FrameEvent::BufferDone => {
                match choose_shm_format(self.frames[index].offers.as_slice()) {
                    Some(i) => FrameAction::Allocate { offer: self.frames[index].offers[i] },
                    None => self.finish(index, Err(FrameError::NoFormat)),
                }
            },
            FrameEvent::Flags { y_invert } => {
                self.frames[index].y_invert = y_invert;
                proof {
                    lemma_unresolved_update(before, self.frames@, index as int, before.len() as int);
                }
                FrameAction::Nothing
            },
            FrameEvent::Ready => {
                let pending: Option<ShmOffer> = self.frames[index].pending;
                let y_invert: bool = self.frames[index].y_invert;
                self.frames[index].pending = None;
                proof {
                    lemma_unresolved_update(before, self.frames@, index as int, before.len() as int);
                }
                let outcome = read_frame(pending, y_invert, mapping);
                self.finish(index, outcome)
            },
            FrameEvent::Failed => self.finish(index, Err(FrameError::Failed)),
            FrameEvent::Other => FrameAction::Nothing,
        }
    }

    /// Report whether the buffer for an accepted offer could be allocated: the
    /// copy is to be requested, or the frame has failed.
    pub fn allocated(&mut self, index: usize, offer: ShmOffer, result: Result<(), String>) -> (r:
        FrameAction)
        requires
            old(self).wf(),
            index < old(self).frames@.len(),
        ensures
            final(self).wf(),
            old(self).only_frame(index as int, *final(self)),
            match result {
                Ok(_) => r == FrameAction::Copy && final(self).frames@[index as int] == (
                FrameProgress { pending: Some(offer), ..old(self).frames@[index as int] }),
                Err(cause) => CaptureState::failed_as(
                    old(self).frames@[index as int],
                    FrameError::Allocation(cause),
                    final(self).frames@[index as int],
                    r,
                ),
            },
    {
        match result {
            Err(cause) => {
                return self.finish(index, Err(FrameError::Allocation(cause)));
            },
            Ok(_) => {},
        }
        let ghost before = self.frames@;
        self.frames[index].pending = Some(offer);
        proof {
            lemma_unresolved_update(before, self.frames@, index as int, before.len() as int);
        }
        FrameAction::Copy
    }

    /// Whether every frame is resolved.
    pub fn is_done(&self) -> (r: bool)
        ensures
            r == (self.remaining == 0),
    {
        self.remaining == 0
    }
}

/// Resolved means resolved: when nothing remains, every frame has an outcome.
pub proof fn lemma_done_means_resolved(s: CaptureState, i: int)
    requires
        s.wf(),
        s.remaining == 0,
        0 <= i < s.frames@.len(),
    ensures
        s.frames@[i].outcome is Some,
{
    lemma_unresolved_update(s.frames@, s.frames@, i, s.frames@.len() as int);
}

proof fn lemma_unresolved_prefix(before: Seq<FrameProgress>, after: Seq<FrameProgress>, n: int)
    requires
        0 <= n <= before.len(),
        before.len() <= after.len(),
        forall|i: int| 0 <= i < n ==> after[i] == before[i],
    ensures
        unresolved(after, n) == unresolved(before, n),
    decreases n,
{
    if n > 0 {
        lemma_unresolved_prefix(before, after, n - 1);
    }
}

fn read_frame(pending: Option<ShmOffer>, y_invert: bool, mapping: &[u8]) -> (r: Result<
    DibBuffer,
    FrameError,
>)
    ensures
        CaptureState::read_outcome(pending, y_invert, mapping@, r),
{
    match pending {
        None => Err(FrameError::ReadyTooSoon),
        Some(o) => {
            if !fits(o, mapping.len()) {
                return Err(FrameError::ShortBuffer);
            }
            Ok(rows_to_dib(mapping, o.stride as usize, o.width, o.height, y_invert))
        },
    }
}

fn fits(o: ShmOffer, len: usize) -> (r: bool)
    ensures
        r == (size_fits(o.width, o.height) && rows_fit(len as nat, o.stride as int, o.width, o.height)),
{
    if o.width > 0x3fff_ffff {
        return false;
    }
    proof {
        assert(0 <= o.width * 4 * o.height <= 0xffff_ffff * 0xffff_ffff) by (nonlinear_arith)
            requires
                0 <= o.width * 4 <= 0xffff_ffff,
                0 <= o.height <= 0xffff_ffff,
        ;
        assert((o.height - 1) * o.stride <= 0xffff_ffff * 0xffff_ffff) by (nonlinear_arith)
            requires
                0 <= o.stride <= 0xffff_ffff,
                0 <= o.height <= 0xffff_ffff,
        ;
    }
    if o.width as u128 * 4 * o.height as u128 > usize::MAX as u128 {
        return false;
    }
    if o.height == 0 {
        return true;
    }
    proof {
        assert(0 <= (o.height - 1) * o.stride) by (nonlinear_arith)
            requires
                0 < o.height,
                0 <= o.stride,
        ;
    }
    (o.height - 1) as u128 * o.stride as u128 + o.width as u128 * 4 <= len as u128
}

/// A monitor description sized to its captured frame.
pub open spec fn sized(info: MonitorInfo, dib: DibBuffer) -> MonitorInfo {
    MonitorInfo {
        rect: crate::geometry::Rect { width: dib.width, height: dib.height, ..info.rect },
        ..info
    }
}

/// The first frame among `n` that is not an image, and why.
pub open spec fn first_failure(frames: Seq<FrameProgress>, i: int) -> Option<(int, FrameError)>
    decreases frames.len() - i,
{
    if i >= frames.len() {
        None
    } else {
        match frames[i].outcome {
            Some(Ok(_)) => first_failure(frames, i + 1),
            Some(Err(e)) => Some((i, e)),
            None => Some((i, FrameError::Unresolved)),
        }
    }
}

/// Pair every monitor with its captured frame, the monitor's size being the
/// frame's. The first frame without an image makes the whole capture fail, and
/// so do zero outputs.
pub fn capture_all(infos: Vec<MonitorInfo>, state: CaptureState) -> (r: Result<
    Vec<(MonitorInfo, DibBuffer)>,
    String,
>)
    requires
        infos@.len() == state.frames@.len(),
    ensures
        match r {
            Ok(out) => {
                &&& infos@.len() > 0
                &&& first_failure(state.frames@, 0) is None
                &&& out@.len() == infos@.len()
                &&& forall|i: int|
                    0 <= i < out@.len() ==> {
                        &&& state.frames@[i].outcome == Some(
                            Ok::<DibBuffer, FrameError>((#[trigger] out@[i]).1),
                        )
                        &&& out@[i].0 == sized(infos@[i], out@[i].1)
                    }
            },
            Err(message) => if infos@.len() == 0 {
                message@ == "no Wayland outputs to capture"@
            } else {
                first_failure(state.frames@, 0) matches Some(f) && message@ == "capturing "@
                    + infos@[f.0].device_name@ + ": "@ + f.1.text()
            },
        },
{
    let ghost all = infos@;
    let ghost frames = state.frames@;
    if infos.len() == 0 {
        return Err("no Wayland outputs to capture".to_owned());
    }
    let mut infos = infos;
    let mut rest: Vec<FrameProgress> = state.frames;
    let mut out: Vec<(MonitorInfo, DibBuffer)> = Vec::new();
    #[verifier::loop_isolation(false)]
    while infos.len() > 0
        invariant
            all.len() == frames.len(),
            all.len() > 0,
            infos@.len() == rest@.len(),
            out@.len() + infos@.len() == all.len(),
            infos@ == all.skip(out@.len() as int),
            rest@ == frames.skip(out@.len() as int),
            first_failure(frames, 0) == first_failure(frames, out@.len() as int),
            forall|i: int|
                0 <= i < out@.len() ==> {
                    &&& frames[i].outcome == Some(
                        Ok::<DibBuffer, FrameError>((#[trigger] out@[i]).1),
                    )
                    &&& out@[i].0 == sized(all[i], out@[i].1)
                },
        decreases infos@.len(),
    {
        let ghost done = out@.len() as int;
        let mut info: MonitorInfo = infos.remove(0);
        let frame: FrameProgress = rest.remove(0);
        proof {
            assert(info == all[done]);
            assert(frame == frames[done]);
            assert(infos@ =~= all.skip(done + 1));
            assert(rest@ =~= frames.skip(done + 1));
        }
        let failure: FrameError = match frame.outcome {
            Some(Ok(dib)) => {
                info.rect.width = dib.width;
                info.rect.height = dib.height;
                out.push((info, dib));
                continue;
            },
            Some(Err(e)) => e,
            None => FrameError::Unresolved,
        };
        let mut message: String = "capturing ".to_owned();
        push_text(&mut message, info.device_name.as_str());
        push_text(&mut message, ": ");
        push_text(&mut message, failure.message().as_str());
        proof {
            assert(first_failure(frames, done) == Some((done, failure)));
        }
        return Err(message);
    }
    Ok(out)
}

} // verus!
