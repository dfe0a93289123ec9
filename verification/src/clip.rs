//! The clip's in and out points, the timeline's zoom window, and the undo history
//! over both.

use vstd::prelude::*;

use crate::double::Double;

verus! {

/// Cap on retained clip-range edits per undo/redo stack. Every zoom-window
/// placement is an undoable step, so browsing draws on it as well as editing.
pub const CLIP_HISTORY_LIMIT: usize = 1024;

/// The bits of 0.05, the shortest span in seconds that the zoom window or the clip
/// may be narrowed to.
pub const MIN_RANGE_BITS: u64 = 0x3fa9_9999_9999_999a;

/// The shortest span that the zoom window or the clip may be narrowed to.
pub open spec fn min_range() -> Double {
    Double { bits: MIN_RANGE_BITS }
}

/// Narrowing the zoom window trims the clip, so both restore together.
#[derive(Clone, Copy, PartialEq, Eq, Structural, Debug)]
pub struct ClipRange {
    pub in_secs: Double,
    pub out_secs: Double,
    pub view_start_secs: Double,
    pub view_end_secs: Double,
}

impl ClipRange {
    /// Whether every bound is the same number.
    pub open spec fn equals(self, other: ClipRange) -> bool {
        &&& self.in_secs.equals(other.in_secs)
        &&& self.out_secs.equals(other.out_secs)
        &&& self.view_start_secs.equals(other.view_start_secs)
        &&& self.view_end_secs.equals(other.view_end_secs)
    }

    /// The range with nothing in it.
    pub open spec fn zero() -> ClipRange {
        let zero = Double { bits: 0 };
        ClipRange { in_secs: zero, out_secs: zero, view_start_secs: zero, view_end_secs: zero }
    }

    /// Whether every bound is the same number.
    pub fn same(self, other: ClipRange) -> (r: bool)
        ensures
            r == self.equals(other),
    {
        self.in_secs.same(other.in_secs) && self.out_secs.same(other.out_secs)
            && self.view_start_secs.same(other.view_start_secs) && self.view_end_secs.same(
            other.view_end_secs,
        )
    }
}

/// What a drag on the overview moves.
#[derive(Clone, Copy, PartialEq, Eq, Structural, Debug)]
pub enum WindowDrag {
    Start,
    End,
    Pan { grab_offset_secs: Double },
    Draw { anchor_secs: Double },
}

/// What a drag on the timeline moves.
#[derive(Clone, Copy, PartialEq, Eq, Structural, Debug)]
pub enum TimelineDrag {
    In,
    Out,
    Playhead,
}

/// A clip as its history sees it.
#[verifier::ext_equal]
pub struct History {
    pub range: ClipRange,
    pub undo: Seq<ClipRange>,
    pub redo: Seq<ClipRange>,
    /// The range before the gesture under way, if there is one.
    pub pending: Option<ClipRange>,
}

impl History {
    /// With `range` put down as the last thing to go back to, the oldest forgotten
    /// when there are too many, and nothing left to go forward to.
    pub open spec fn pushed(self, range: ClipRange) -> History {
        let all = self.undo.push(range);
        History {
            undo: if all.len() > CLIP_HISTORY_LIMIT {
                all.skip(1)
            } else {
                all
            },
            redo: Seq::empty(),
            ..self
        }
    }

    /// At another range, the history as it is.
    pub open spec fn at(self, range: ClipRange) -> History {
        History { range, ..self }
    }

    /// Edited to `range`, so that one step back undoes it.
    pub open spec fn edited(self, range: ClipRange) -> History {
        self.pushed(self.range).at(range)
    }

    /// One step back.
    pub open spec fn undone(self) -> History {
        if self.undo.len() == 0 {
            self
        } else {
            History {
                range: self.undo.last(),
                undo: self.undo.drop_last(),
                redo: self.redo.push(self.range),
                ..self
            }
        }
    }

    /// One step forward.
    pub open spec fn redone(self) -> History {
        if self.redo.len() == 0 {
            self
        } else {
            History {
                range: self.redo.last(),
                redo: self.redo.drop_last(),
                undo: self.undo.push(self.range),
                ..self
            }
        }
    }

    /// With a gesture under way.
    pub open spec fn begun(self) -> History {
        History {
            pending: if self.pending is None {
                Some(self.range)
            } else {
                self.pending
            },
            ..self
        }
    }

    /// With the gesture under way ended: it counts as one step if it moved anything.
    pub open spec fn committed(self) -> History {
        match self.pending {
            None => self,
            Some(range) => {
                let ended = History { pending: None, ..self };
                if range.equals(self.range) {
                    ended
                } else {
                    ended.pushed(range)
                }
            },
        }
    }
}

/// The clip in/out points, the timeline's zoom window, and the undo history over
/// both. Zoom is view-only: it never moves the in/out points, so they may sit
/// outside the window.
#[derive(Debug)]
pub struct Clip {
    pub in_secs: Double,
    pub out_secs: Double,
    pub view_start_secs: Double,
    pub view_end_secs: Double,
    /// Pre-gesture range stashed by `begin_gesture`, so a continuous drag
    /// records one undo step instead of one per frame.
    pub pending_undo_range: Option<ClipRange>,
    /// Scroll-zoom has no release event, so its gesture closes on this deadline.
    pub scroll_gesture_commit_at: Option<Double>,
    pub window_drag: Option<WindowDrag>,
    pub timeline_drag: Option<TimelineDrag>,
    pub undo_stack: Vec<ClipRange>,
    pub redo_stack: Vec<ClipRange>,
}

impl View for Clip {
    type V = History;

    open spec fn view(&self) -> History {
        History {
            range: self.ends(),
            undo: self.undo_stack@,
            redo: self.redo_stack@,
            pending: self.pending_undo_range,
        }
    }
}

impl Clip {
    /// The four bounds.
    pub open spec fn ends(self) -> ClipRange {
        ClipRange {
            in_secs: self.in_secs,
            out_secs: self.out_secs,
            view_start_secs: self.view_start_secs,
            view_end_secs: self.view_end_secs,
        }
    }

    /// Whether the two stacks together keep within the limit.
    pub open spec fn wf(self) -> bool {
        self.undo_stack@.len() + self.redo_stack@.len() <= CLIP_HISTORY_LIMIT
    }

    /// Whether the drags and the deadline are those of `other`.
    pub open spec fn same_input(self, other: Clip) -> bool {
        &&& self.scroll_gesture_commit_at == other.scroll_gesture_commit_at
        &&& self.window_drag == other.window_drag
        &&& self.timeline_drag == other.timeline_drag
    }

    /// A clip of nothing, with nothing to undo.
    pub fn new() -> (clip: Clip)
        ensures
            clip.wf(),
            clip@ == (History {
                range: ClipRange::zero(),
                undo: Seq::empty(),
                redo: Seq::empty(),
                pending: None,
            }),
            clip.scroll_gesture_commit_at is None,
            clip.window_drag is None,
            clip.timeline_drag is None,
    {
        Clip {
            in_secs: Double::zero(),
            out_secs: Double::zero(),
            view_start_secs: Double::zero(),
            view_end_secs: Double::zero(),
            pending_undo_range: None,
            scroll_gesture_commit_at: None,
            window_drag: None,
            timeline_drag: None,
            undo_stack: Vec::new(),
            redo_stack: Vec::new(),
        }
    }

    /// The four bounds.
    pub fn range(&self) -> (range: ClipRange)
        ensures
            range == self.ends(),
    {
        ClipRange {
            in_secs: self.in_secs,
            out_secs: self.out_secs,
            view_start_secs: self.view_start_secs,
            view_end_secs: self.view_end_secs,
        }
    }

    /// Puts the four bounds back to `range`.
    pub fn restore(&mut self, range: ClipRange)
        ensures
            final(self)@ == old(self)@.at(range),
            final(self).same_input(*old(self)),
            old(self).wf() ==> final(self).wf(),
    {
        self.in_secs = range.in_secs;
        self.out_secs = range.out_secs;
        self.view_start_secs = range.view_start_secs;
        self.view_end_secs = range.view_end_secs;
    }

    fn push_undo(&mut self, range: ClipRange)
        requires
            old(self).wf(),
        ensures
            final(self).wf(),
            final(self)@ == old(self)@.pushed(range),
            final(self).same_input(*old(self)),
    {
        self.undo_stack.push(range);
        if self.undo_stack.len() > CLIP_HISTORY_LIMIT {
            let _ = self.undo_stack.remove(0);
            assert(self.undo_stack@ == old(self).undo_stack@.push(range).skip(1));
        }
        self.redo_stack.clear();
    }

    /// Puts the range as it is down as the last thing to go back to.
    pub fn record_edit(&mut self)
        requires
            old(self).wf(),
        ensures
            final(self).wf(),
            final(self)@ == old(self)@.pushed(old(self)@.range),
            final(self).same_input(*old(self)),
    {
        let range = self.range();
        self.push_undo(range);
    }

    /// Starts a gesture, unless one is under way.
    pub fn begin_gesture(&mut self)
        requires
            old(self).wf(),
        ensures
            final(self).wf(),
            final(self)@ == old(self)@.begun(),
            final(self).same_input(*old(self)),
    {
        if self.pending_undo_range.is_none() {
            self.pending_undo_range = Some(self.range());
        }
    }

    /// Ends the gesture under way, recording it if it moved anything.
    pub fn commit_gesture(&mut self)
        requires
            old(self).wf(),
        ensures
            final(self).wf(),
            final(self)@ == old(self)@.committed(),
            final(self).same_input(*old(self)),
    {
        if let Some(range) = self.pending_undo_range {
            self.pending_undo_range = None;
            if !range.same(self.range()) {
                self.push_undo(range);
            }
        }
    }

    /// Ends a scroll gesture whose deadline has passed at `now`.
    pub fn commit_idle_scroll(&mut self, now: Double)
        requires
            old(self).wf(),
        ensures
            final(self).wf(),
            ({
                let due = old(self).scroll_gesture_commit_at matches Some(deadline)
                    && deadline.at_most(now);
                &&& due ==> final(self)@ == old(self)@.committed()
                    && final(self).scroll_gesture_commit_at is None
                &&& !due ==> final(self)@ == old(self)@ && final(self).scroll_gesture_commit_at
                    == old(self).scroll_gesture_commit_at
            }),
            final(self).window_drag == old(self).window_drag,
            final(self).timeline_drag == old(self).timeline_drag,
    {
        if let Some(deadline) = self.scroll_gesture_commit_at {
            if deadline.le(now) {
                self.scroll_gesture_commit_at = None;
                self.commit_gesture();
            }
        }
    }

    /// Recover the state a missing release would strand. Runs at the end of a
    /// frame, after the bars have applied the drag's last position.
    pub fn commit_abandoned_gesture(&mut self, any_down: bool)
        requires
            old(self).wf(),
        ensures
            final(self).wf(),
            final(self).scroll_gesture_commit_at == old(self).scroll_gesture_commit_at,
            any_down ==> final(self)@ == old(self)@ && final(self).same_input(*old(self)),
            !any_down ==> {
                &&& final(self).window_drag is None
                &&& final(self).timeline_drag is None
                &&& final(self)@ == (if old(self).scroll_gesture_commit_at is None {
                    old(self)@.committed()
                } else {
                    old(self)@
                })
            },
    {
        if any_down {
            return;
        }
        self.window_drag = None;
        self.timeline_drag = None;
        if self.scroll_gesture_commit_at.is_none() {
            self.commit_gesture();
        }
    }

    /// Where an in point asked for at `secs` goes: no later than `latest`, the
    /// shortest span before the out point, and no earlier than the start.
    pub fn clamped_in_secs(secs: Double, latest: Double) -> (r: Double)
        ensures
            r == clamped_in(secs, latest),
    {
        secs.min(latest).max(Double::zero())
    }

    /// Where an out point asked for at `secs` goes: no earlier than `earliest`, the
    /// shortest span after the in point.
    pub fn clamped_out_secs(secs: Double, earliest: Double) -> (r: Double)
        ensures
            r == secs.greater(earliest),
    {
        secs.max(earliest)
    }

    /// How long a zoom window asked to span `span` becomes in a video of `dur`.
    pub fn clamped_span(span: Double, dur: Double) -> (r: Double)
        requires
            !dur.nan(),
        ensures
            // A twentieth of a second.
            r == span.within((Double { bits: 0x3fa9_9999_9999_999a }).lesser(dur), dur),
            r == span.within(min_range().lesser(dur), dur),
    {
        let shortest = Double { bits: MIN_RANGE_BITS }.min(dur);
        span.clamp(shortest, dur)
    }

    /// Where a zoom window asked to start at `start` does, when the video leaves it
    /// `room` to move in.
    pub fn clamped_view_start(start: Double, room: Double) -> (r: Double)
        ensures
            r == start.within(Double { bits: 0 }, room.greater(Double { bits: 0 })),
    {
        start.clamp(Double::zero(), room.max(Double::zero()))
    }

    /// Moves the zoom window. The in and out points stay where they are.
    pub fn set_view(&mut self, start_secs: Double, end_secs: Double)
        ensures
            final(self)@ == old(self)@.at(
                ClipRange {
                    view_start_secs: start_secs,
                    view_end_secs: end_secs,
                    ..old(self)@.range
                },
            ),
            final(self).same_input(*old(self)),
            old(self).wf() ==> final(self).wf(),
    {
        self.view_start_secs = start_secs;
        self.view_end_secs = end_secs;
    }

    /// Moves the in point to `secs`, kept at or before `latest`, as one step that
    /// can be undone; staying put is no step.
    pub fn set_in_secs(&mut self, secs: Double, latest: Double)
        requires
            old(self).wf(),
        ensures
            final(self).wf(),
            final(self).same_input(*old(self)),
            ({
                let to = clamped_in(secs, latest);
                final(self)@ == (if old(self).in_secs.equals(to) {
                    old(self)@
                } else {
                    old(self)@.edited(ClipRange { in_secs: to, ..old(self)@.range })
                })
            }),
    {
        let secs = Clip::clamped_in_secs(secs, latest);
        if !self.in_secs.same(secs) {
            self.record_edit();
            self.in_secs = secs;
        }
    }

    /// Moves the out point to `secs`, kept at or after `earliest`, as one step that
    /// can be undone; staying put is no step.
    pub fn set_out_secs(&mut self, secs: Double, earliest: Double)
        requires
            old(self).wf(),
        ensures
            final(self).wf(),
            final(self).same_input(*old(self)),
            ({
                let to = secs.greater(earliest);
                final(self)@ == (if old(self).out_secs.equals(to) {
                    old(self)@
                } else {
                    old(self)@.edited(ClipRange { out_secs: to, ..old(self)@.range })
                })
            }),
    {
        let secs = Clip::clamped_out_secs(secs, earliest);
        if !self.out_secs.same(secs) {
            self.record_edit();
            self.out_secs = secs;
        }
    }

    /// Takes back the last step.
    pub fn undo(&mut self)
        requires
            old(self).wf(),
        ensures
            final(self).wf(),
            final(self)@ == old(self)@.undone(),
            final(self).same_input(*old(self)),
    {
        if let Some(range) = self.undo_stack.pop() {
            let current = self.range();
            self.redo_stack.push(current);
            self.restore(range);
        }
    }

    /// Makes the last step taken back again.
    pub fn redo(&mut self)
        requires
            old(self).wf(),
        ensures
            final(self).wf(),
            final(self)@ == old(self)@.redone(),
            final(self).same_input(*old(self)),
    {
        if let Some(range) = self.redo_stack.pop() {
            let current = self.range();
            self.undo_stack.push(current);
            self.restore(range);
        }
    }

    /// Forgets every step and any gesture under way.
    pub fn clear_history(&mut self)
        ensures
            final(self).wf(),
            final(self)@ == (History {
                range: old(self)@.range,
                undo: Seq::empty(),
                redo: Seq::empty(),
                pending: None,
            }),
            final(self).scroll_gesture_commit_at is None,
            final(self).window_drag == old(self).window_drag,
            final(self).timeline_drag == old(self).timeline_drag,
    {
        self.undo_stack.clear();
        self.redo_stack.clear();
        self.pending_undo_range = None;
        self.scroll_gesture_commit_at = None;
    }

    /// Covers a newly opened video from start to end, with nothing to undo.
    pub fn cover(&mut self, duration_secs: Double)
        ensures
            final(self).wf(),
            final(self)@ == (History {
                range: ClipRange {
                    in_secs: Double { bits: 0 },
                    out_secs: duration_secs,
                    view_start_secs: Double { bits: 0 },
                    view_end_secs: duration_secs,
                },
                undo: Seq::empty(),
                redo: Seq::empty(),
                pending: None,
            }),
            final(self).scroll_gesture_commit_at is None,
            final(self).window_drag == old(self).window_drag,
            final(self).timeline_drag == old(self).timeline_drag,
    {
        self.in_secs = Double::zero();
        self.out_secs = duration_secs;
        self.view_start_secs = Double::zero();
        self.view_end_secs = duration_secs;
        self.clear_history();
    }
}

/// Where an in point asked for at `secs` goes.
pub open spec fn clamped_in(secs: Double, latest: Double) -> Double {
    secs.lesser(latest).greater(Double { bits: 0 })
}

/// An in point never comes before the start, nor after the latest place for it
/// unless that lies before the start.
pub proof fn law_in_point_stays_inside(secs: Double, latest: Double)
    requires
        !secs.nan(),
        !latest.nan(),
    ensures
        ({
            let r = clamped_in(secs, latest);
            &&& (Double { bits: 0 }).at_most(r)
            &&& r.at_most(latest) || r.equals(Double { bits: 0 })
        }),
{
}

/// Taking back a step and making it again changes nothing.
pub proof fn law_redo_reverses_undo(h: History)
    requires
        h.undo.len() > 0,
    ensures
        h.undone().redone() == h,
{
    assert(h.undone().redone().undo == h.undo);
    assert(h.undone().redone().redo == h.redo);
}

/// Making a step again and taking it back changes nothing.
pub proof fn law_undo_reverses_redo(h: History)
    requires
        h.redo.len() > 0,
    ensures
        h.redone().undone() == h,
{
    assert(h.redone().undone().undo == h.undo);
    assert(h.redone().undone().redo == h.redo);
}

/// A clip edited to each of `ranges` in turn.
pub open spec fn edited_all(h: History, ranges: Seq<ClipRange>) -> History
    decreases ranges.len(),
{
    if ranges.len() == 0 {
        h
    } else {
        edited_all(h, ranges.drop_last()).edited(ranges.last())
    }
}

/// A clip after `n` steps back.
pub open spec fn undone_times(h: History, n: nat) -> History
    decreases n,
{
    if n == 0 {
        h
    } else {
        undone_times(h.undone(), (n - 1) as nat)
    }
}

proof fn lemma_undone_times(h: History, n: nat)
    requires
        n <= h.undo.len(),
    ensures
        undone_times(h, n).range == (if n == 0 {
            h.range
        } else {
            h.undo[h.undo.len() - n]
        }),
    decreases n,
{
    if n > 0 {
        lemma_undone_times(h.undone(), (n - 1) as nat);
    }
}

proof fn lemma_edited_all(h: History, ranges: Seq<ClipRange>)
    requires
        h.undo.len() <= CLIP_HISTORY_LIMIT,
        ranges.len() <= CLIP_HISTORY_LIMIT,
    ensures
        ({
            let end = edited_all(h, ranges);
            &&& end.undo.len() <= CLIP_HISTORY_LIMIT
            &&& end.undo.len() >= ranges.len()
            &&& forall|j: int|
                1 <= j <= ranges.len() ==> end.undo[end.undo.len() - j] == #[trigger] edited_all(
                    h,
                    ranges.take(ranges.len() - j),
                ).range
        }),
    decreases ranges.len(),
{
    if ranges.len() > 0 {
        let shorter = ranges.drop_last();
        lemma_edited_all(h, shorter);
        let before = edited_all(h, shorter);
        let end = edited_all(h, ranges);
        assert forall|j: int| 1 <= j <= ranges.len() implies end.undo[end.undo.len() - j]
            == #[trigger] edited_all(h, ranges.take(ranges.len() - j)).range by {
            if j == 1 {
                assert(ranges.take(ranges.len() - 1) == shorter);
            } else {
                assert(ranges.take(ranges.len() - j) == shorter.take(shorter.len() - (j - 1)));
                assert(end.undo[end.undo.len() - j] == before.undo[before.undo.len() - (j - 1)]);
            }
        }
    }
}

/// As many edits as the history holds can all be taken back: that many steps back
/// from the last of them is the range before the first.
pub proof fn law_undo_takes_back_every_edit(h: History, ranges: Seq<ClipRange>)
    requires
        h.undo.len() <= CLIP_HISTORY_LIMIT,
        ranges.len() <= CLIP_HISTORY_LIMIT,
    ensures
        undone_times(edited_all(h, ranges), ranges.len()).range == h.range,
{
    lemma_edited_all(h, ranges);
    lemma_undone_times(edited_all(h, ranges), ranges.len());
    if ranges.len() > 0 {
        assert(ranges.take(ranges.len() - ranges.len()) == Seq::<ClipRange>::empty());
        assert(edited_all(h, ranges.take(ranges.len() - ranges.len())) == h);
    }
}

/// An edit leaves nothing to make again.
pub proof fn law_edit_clears_redo(h: History, range: ClipRange)
    ensures
        h.edited(range).redo.len() == 0,
        h.edited(range).redone() == h.edited(range),
{
}

/// A gesture counts as one step however many places it passed through, and as none
/// when it ended where it began.
pub proof fn law_gesture_is_one_step(h: History, passed: Seq<ClipRange>, end: ClipRange)
    requires
        h.pending is None,
    ensures
        ({
            let done = placed(h.begun(), passed).at(end).committed();
            &&& done.range == end
            &&& done.pending is None
            &&& !h.range.equals(end) ==> done == h.pushed(h.range).at(end)
            &&& h.range.equals(end) ==> done == h.at(end)
        }),
{
    lemma_placed(h.begun(), passed);
}

/// A clip put to each of `ranges` in turn, none of which counts as a step.
pub open spec fn placed(h: History, ranges: Seq<ClipRange>) -> History
    decreases ranges.len(),
{
    if ranges.len() == 0 {
        h
    } else {
        placed(h, ranges.drop_last()).begun().at(ranges.last())
    }
}

proof fn lemma_placed(h: History, ranges: Seq<ClipRange>)
    requires
        h.pending is Some,
    ensures
        placed(h, ranges) == h.at(placed(h, ranges).range),
    decreases ranges.len(),
{
    if ranges.len() > 0 {
        lemma_placed(h, ranges.drop_last());
    }
}

/// An in point lands where it was asked for wherever there is room for it, and at the
/// nearer end of the room where there is not.
pub proof fn law_in_point_lands_where_asked(secs: Double, latest: Double)
    requires
        !secs.nan(),
        (Double { bits: 0 }).at_most(latest),
    ensures
        (Double { bits: 0 }).at_most(secs) && secs.at_most(latest) ==> clamped_in(secs, latest).equals(
            secs,
        ),
        latest.below(secs) ==> clamped_in(secs, latest).equals(latest),
        secs.below(Double { bits: 0 }) ==> clamped_in(secs, latest).equals(Double { bits: 0 }),
{
}

/// What was put down last is what comes back first, nothing of it is forgotten but the
/// oldest when there are too many, and the range itself stays until then.
pub proof fn law_history_keeps_the_newest(h: History, range: ClipRange)
    requires
        h.undo.len() <= CLIP_HISTORY_LIMIT,
    ensures
        ({
            let after = h.pushed(range);
            &&& after.range == h.range
            &&& after.pending == h.pending
            &&& after.redo.len() == 0
            &&& after.undo.last() == range
            &&& h.undo.len() < 1024 ==> after.undo.drop_last() == h.undo
            &&& h.undo.len() == 1024 ==> after.undo.drop_last() == h.undo.skip(1)
            &&& after.undone().range == range
            &&& after.undone().redo == seq![h.range]
        }),
{
    let after = h.pushed(range);
    if h.undo.len() < CLIP_HISTORY_LIMIT {
        assert(after.undo.drop_last() == h.undo);
    } else {
        assert(after.undo.drop_last() == h.undo.skip(1));
    }
    assert(after.undone().redo =~= seq![h.range]);
}

/// With nothing to go back to, or forward to, nothing changes; and taking a step back
/// leaves a gesture under way as it is.
pub proof fn law_empty_history_changes_nothing(h: History)
    ensures
        h.undo.len() == 0 ==> h.undone() == h,
        h.redo.len() == 0 ==> h.redone() == h,
        h.undone().pending == h.pending,
        h.redone().pending == h.pending,
        h.undo.len() > 0 ==> h.undone().range == h.undo[h.undo.len() - 1],
        h.redo.len() > 0 ==> h.redone().range == h.redo[h.redo.len() - 1],
{
}

/// Two ranges are the same just when each of the four bounds is.
pub proof fn law_same_range_means_same_bounds(a: ClipRange, b: ClipRange)
    ensures
        a.equals(b) <==> {
            &&& a.in_secs.equals(b.in_secs)
            &&& a.out_secs.equals(b.out_secs)
            &&& a.view_start_secs.equals(b.view_start_secs)
            &&& a.view_end_secs.equals(b.view_end_secs)
        },
{
}

/// Moving the range is no step: the history stays as it is. An edit is the one step from
/// where the range was to where it goes.
pub proof fn law_moving_alone_is_no_step(h: History, range: ClipRange)
    ensures
        h.at(range).range == range,
        h.at(range).undo == h.undo,
        h.at(range).redo == h.redo,
        h.at(range).pending == h.pending,
        h.edited(range).range == range,
        h.edited(range).pending == h.pending,
        h.undo.len() < 1024 ==> h.edited(range).undo == h.undo.push(h.range),
        h.edited(range).undone().range == h.range,
{
}

/// A gesture begins where the range is and keeps that place until it ends, however often
/// it is begun; ending it puts that place down only where the range has moved.
pub proof fn law_gesture_keeps_where_it_began(h: History)
    ensures
        h.pending is None ==> h.begun().pending == Some(h.range),
        h.pending is Some ==> h.begun() == h,
        h.begun().range == h.range,
        h.begun().undo == h.undo,
        h.begun().redo == h.redo,
        h.committed().range == h.range,
        h.committed().pending is None,
        h.pending is None ==> h.committed() == h,
        h.pending is Some && h.pending->0.equals(h.range) ==> h.committed().undo == h.undo
            && h.committed().redo == h.redo,
        h.pending is Some && !h.pending->0.equals(h.range) ==> h.committed().redo.len() == 0
            && h.committed().undo.last() == h.pending->0,
{
}

/// A clip of nothing begins and ends at zero, and a clip that is left alone keeps its
/// drags and its deadline.
pub proof fn law_left_alone_means_all_of_it(a: Clip, b: Clip)
    ensures
        ClipRange::zero().in_secs.bits == 0 && ClipRange::zero().out_secs.bits == 0,
        ClipRange::zero().view_start_secs.bits == 0 && ClipRange::zero().view_end_secs.bits == 0,
        a.same_input(b) <==> a.scroll_gesture_commit_at == b.scroll_gesture_commit_at
            && a.window_drag == b.window_drag && a.timeline_drag == b.timeline_drag,
        a@.range.in_secs == a.in_secs && a@.range.out_secs == a.out_secs,
        a@.range.view_start_secs == a.view_start_secs && a@.range.view_end_secs == a.view_end_secs,
        a@.undo == a.undo_stack@ && a@.redo == a.redo_stack@,
        a@.pending == a.pending_undo_range,
{
}

} // verus!
