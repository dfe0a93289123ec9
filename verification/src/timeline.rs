//! The two bars under the preview: the overview that holds the zoom window, and the
//! timeline that holds the in and out points and the playhead. Places along a bar
//! come as seconds; who draws the bars measures them.

use vstd::prelude::*;

use crate::clip::{clamped_in, Clip, ClipRange, History, TimelineDrag, WindowDrag};
use crate::double::{Double, INFINITE};

verus! {

/// The bits of 10, how near in points the pointer must come to a marker or window
/// edge to grab it.
pub const GRAB_RADIUS_BITS: u64 = 0x4024_0000_0000_0000;

/// How far away a handle is; one that is out of sight is infinitely far.
pub open spec fn distance_to(handle: Option<Double>) -> Double {
    match handle {
        Some(distance) => distance,
        None => Double { bits: INFINITE },
    }
}

/// Whether a handle is too far away to grab.
pub open spec fn out_of_reach(handle: Option<Double>) -> bool {
    (Double { bits: GRAB_RADIUS_BITS }).below(distance_to(handle))
}

fn distance_of(handle: Option<Double>) -> (distance: Double)
    ensures
        distance == distance_to(handle),
{
    match handle {
        Some(distance) => distance,
        None => Double { bits: INFINITE },
    }
}

/// The nearer of two handles within reach, by their distances from the pointer, or
/// `None` when neither is. A handle without a distance is scrolled outside the
/// visible span and can never be grabbed. Ties go to the first.
pub fn nearest_handle<T: Copy>(
    first_at: Option<Double>,
    first: T,
    second_at: Option<Double>,
    second: T,
) -> (grabbed: Option<T>)
    ensures
        grabbed == grabs(first_at, first, second_at, second),
        grabbed == (if out_of_reach(first_at) && out_of_reach(second_at) {
            None
        } else if distance_to(first_at).at_most(distance_to(second_at)) {
            Some(first)
        } else {
            Some(second)
        }),
{
    let radius = Double { bits: GRAB_RADIUS_BITS };
    let a = distance_of(first_at);
    let b = distance_of(second_at);
    if radius.lt(a) && radius.lt(b) {
        None
    } else if a.le(b) {
        Some(first)
    } else {
        Some(second)
    }
}

/// What is grabbed is in reach: of two handles at known distances, whichever comes
/// back is no farther than the radius, and no farther than the other.
pub proof fn law_grabbed_handle_is_in_reach(first: Double, second: Double)
    requires
        !first.nan(),
        !second.nan(),
    ensures
        ({
            let radius = Double { bits: GRAB_RADIUS_BITS };
            let neither = out_of_reach(Some(first)) && out_of_reach(Some(second));
            &&& !neither && first.at_most(second) ==> first.at_most(radius)
            &&& !neither && !first.at_most(second) ==> second.at_most(radius) && second.below(first)
        }),
{
}

/// Whether a place lies in the visible span, ends included.
pub fn is_visible(secs: Double, start: Double, end: Double) -> (visible: bool)
    ensures
        visible == (start.at_most(secs) && secs.at_most(end)),
{
    start.le(secs) && secs.le(end)
}

/// What pressing on the overview grabs.
pub open spec fn drag_from(
    edge: Option<WindowDrag>,
    is_inside_window: bool,
    is_spanning_whole_video: bool,
    grab_offset_secs: Double,
    anchor_secs: Double,
) -> WindowDrag {
    match edge {
        Some(edge) => edge,
        None => if is_inside_window && !is_spanning_whole_video {
            WindowDrag::Pan { grab_offset_secs }
        } else {
            WindowDrag::Draw { anchor_secs }
        },
    }
}

/// What pressing on the overview grabs: an edge of the zoom window in reach, else
/// the window itself where it leaves room to be moved, else a new window is drawn
/// from there.
pub fn start_window_drag(
    clip: &mut Clip,
    edge: Option<WindowDrag>,
    is_inside_window: bool,
    is_spanning_whole_video: bool,
    grab_offset_secs: Double,
    anchor_secs: Double,
)
    requires
        old(clip).wf(),
    ensures
        final(clip).wf(),
        final(clip).window_drag == Some(
            drag_from(
                edge,
                is_inside_window,
                is_spanning_whole_video,
                grab_offset_secs,
                anchor_secs,
            ),
        ),
        final(clip)@ == old(clip)@.begun(),
        final(clip).timeline_drag == old(clip).timeline_drag,
        final(clip).scroll_gesture_commit_at == old(clip).scroll_gesture_commit_at,
{
    let drag = match edge {
        Some(edge) => edge,
        None => if is_inside_window && !is_spanning_whole_video {
            WindowDrag::Pan { grab_offset_secs }
        } else {
            WindowDrag::Draw { anchor_secs }
        },
    };
    clip.window_drag = Some(drag);
    clip.begin_gesture();
}

/// Places that a drag on the overview is measured against.
#[derive(Clone, Copy, PartialEq, Eq, Structural, Debug)]
pub struct DragBounds {
    /// The shortest span before the window's end.
    pub latest_start: Double,
    /// The shortest span after the window's start.
    pub earliest_end: Double,
    /// Where the window goes when it is panned.
    pub panned_start: Double,
    pub panned_end: Double,
}

/// The span a drag asks the zoom window to take, with the pointer at `t`.
pub open spec fn asked_view(drag: WindowDrag, t: Double, view: (Double, Double), b: DragBounds) -> (
    Double,
    Double,
) {
    match drag {
        WindowDrag::Start => (t.lesser(b.latest_start), view.1),
        WindowDrag::End => (view.0, t.greater(b.earliest_end)),
        WindowDrag::Pan { .. } => (b.panned_start, b.panned_end),
        WindowDrag::Draw { anchor_secs } => (anchor_secs.lesser(t), anchor_secs.greater(t)),
    }
}

/// The span a drag asks the zoom window to take, before it is kept inside the
/// video: an edge stops short of the other, a new window spans from where the
/// drag began either way.
pub fn dragged_view(drag: WindowDrag, t: Double, clip: &Clip, bounds: DragBounds) -> (asked: (
    Double,
    Double,
))
    ensures
        asked == asked_view(drag, t, (clip.view_start_secs, clip.view_end_secs), bounds),
{
    match drag {
        WindowDrag::Start => (t.min(bounds.latest_start), clip.view_end_secs),
        WindowDrag::End => (clip.view_start_secs, t.max(bounds.earliest_end)),
        WindowDrag::Pan { .. } => (bounds.panned_start, bounds.panned_end),
        WindowDrag::Draw { anchor_secs } => (anchor_secs.min(t), anchor_secs.max(t)),
    }
}

/// A new window never runs backwards, whichever way it is drawn.
pub proof fn law_drawn_window_runs_forward(anchor: Double, t: Double, clip: Clip, b: DragBounds)
    requires
        !anchor.nan(),
        !t.nan(),
    ensures
        ({
            let asked = asked_view(
                WindowDrag::Draw { anchor_secs: anchor },
                t,
                (clip.view_start_secs, clip.view_end_secs),
                b,
            );
            asked.0.at_most(asked.1)
        }),
{
}

/// Lets go of the zoom window.
pub fn stop_window_drag(clip: &mut Clip)
    requires
        old(clip).wf(),
    ensures
        final(clip).wf(),
        final(clip)@ == old(clip)@.committed(),
        final(clip).window_drag is None,
        final(clip).timeline_drag == old(clip).timeline_drag,
        final(clip).scroll_gesture_commit_at == old(clip).scroll_gesture_commit_at,
{
    clip.commit_gesture();
    clip.window_drag = None;
}

/// Zooms to a span while the wheel turns: one gesture until `deadline` passes
/// without another turn.
pub fn scroll_zoom(clip: &mut Clip, start_secs: Double, end_secs: Double, deadline: Double)
    requires
        old(clip).wf(),
    ensures
        final(clip).wf(),
        final(clip)@ == old(clip)@.begun().at(
            ClipRange {
                view_start_secs: start_secs,
                view_end_secs: end_secs,
                ..old(clip)@.range
            },
        ),
        final(clip).scroll_gesture_commit_at == Some(deadline),
        final(clip).window_drag == old(clip).window_drag,
        final(clip).timeline_drag == old(clip).timeline_drag,
{
    clip.begin_gesture();
    clip.set_view(start_secs, end_secs);
    clip.scroll_gesture_commit_at = Some(deadline);
}

/// What the pointer did on the timeline in a frame.
#[derive(Clone, Copy, PartialEq, Eq, Structural, Debug)]
pub struct TimelineInput {
    /// A drag began, on this marker or on none.
    pub started_on: Option<Option<TimelineDrag>>,
    /// The place under the pointer, while it is held on the timeline.
    pub at: Option<Double>,
    pub dragged: bool,
    pub clicked: bool,
    pub drag_stopped: bool,
    /// The latest place for the in point, the shortest span before the out point.
    pub latest_in: Double,
    /// The earliest place for the out point, the shortest span after the in point.
    pub earliest_out: Double,
}

/// What is being dragged, once the input's own start counts.
pub open spec fn dragging(clip: Clip, input: TimelineInput) -> Option<TimelineDrag> {
    match input.started_on {
        Some(Some(marker)) => Some(marker),
        Some(None) => Some(TimelineDrag::Playhead),
        None => clip.timeline_drag,
    }
}

/// Whether a marker rather than the playhead is being dragged.
pub open spec fn on_marker(drag: Option<TimelineDrag>) -> bool {
    drag == Some(TimelineDrag::In) || drag == Some(TimelineDrag::Out)
}

/// Where a clip's history is after the input.
pub open spec fn after_input(clip: Clip, input: TimelineInput) -> History {
    let begun = if input.started_on matches Some(Some(_)) {
        clip@.begun()
    } else {
        clip@
    };
    let moved = match input.at {
        Some(t) => match dragging(clip, input) {
            Some(TimelineDrag::In) => begun.at(
                ClipRange { in_secs: clamped_in(t, input.latest_in), ..begun.range },
            ),
            Some(TimelineDrag::Out) => begun.at(
                ClipRange { out_secs: t.greater(input.earliest_out), ..begun.range },
            ),
            _ => begun,
        },
        None => begun,
    };
    if input.drag_stopped {
        moved.committed()
    } else {
        moved
    }
}

/// Takes what the pointer did on the timeline: a grabbed marker follows it, as one
/// step of the history; anything else is a place to seek to, and whether that is
/// final because the pointer let go.
pub fn timeline_input(clip: &mut Clip, input: TimelineInput) -> (seek: Option<(Double, bool)>)
    requires
        old(clip).wf(),
    ensures
        final(clip).wf(),
        final(clip)@ == after_input(*old(clip), input),
        final(clip).timeline_drag == (if input.drag_stopped {
            None
        } else {
            dragging(*old(clip), input)
        }),
        final(clip).window_drag == old(clip).window_drag,
        final(clip).scroll_gesture_commit_at == old(clip).scroll_gesture_commit_at,
        seek == (if !on_marker(dragging(*old(clip), input)) && (input.dragged || input.clicked
            || input.drag_stopped) && input.at is Some {
            Some((input.at->0, input.drag_stopped || input.clicked))
        } else {
            None
        }),
{
    if let Some(grabbed) = input.started_on {
        match grabbed {
            Some(marker) => {
                clip.timeline_drag = Some(marker);
                clip.begin_gesture();
            },
            None => {
                clip.timeline_drag = Some(TimelineDrag::Playhead);
            },
        }
    }
    let mut seek = None;
    match clip.timeline_drag {
        Some(TimelineDrag::In) => {
            if let Some(t) = input.at {
                clip.in_secs = Clip::clamped_in_secs(t, input.latest_in);
            }
        },
        Some(TimelineDrag::Out) => {
            if let Some(t) = input.at {
                clip.out_secs = Clip::clamped_out_secs(t, input.earliest_out);
            }
        },
        _ => {
            if input.dragged || input.clicked || input.drag_stopped {
                if let Some(t) = input.at {
                    seek = Some((t, input.drag_stopped || input.clicked));
                }
            }
        },
    }
    if input.drag_stopped {
        clip.commit_gesture();
        clip.timeline_drag = None;
    }
    seek
}

/// Dragging on the timeline seeks or moves a marker, never both.
pub proof fn law_seeking_moves_no_marker(clip: Clip, input: TimelineInput)
    requires
        !on_marker(dragging(clip, input)),
        input.started_on !is Some || input.started_on->0 is None,
    ensures
        after_input(clip, input).range == clip@.range,
{
}

/// Where the playhead is drawn: under the pointer while it seeks, at a pending
/// release target until its frame lands, otherwise at the current frame.
pub fn playhead(live: Option<Double>, awaiting: Option<Double>, current: Double) -> (at: Double)
    ensures
        at == (if live is Some {
            live->0
        } else if awaiting is Some {
            awaiting->0
        } else {
            current
        }),
{
    match live {
        Some(at) => at,
        None => match awaiting {
            Some(at) => at,
            None => current,
        },
    }
}

/// A handle can be grabbed when it is in sight and no farther than ten points away.
pub proof fn law_only_near_handles_are_grabbed(distance: Double)
    ensures
        out_of_reach(None),
        !distance.nan() ==> (out_of_reach(Some(distance)) <==> (Double {
            bits: 0x4024_0000_0000_0000,
        }).below(distance)),
{
}

/// What was pressed on decides what a press on the overview grabs: an edge before
/// anything else, the window only inside it and where it has room, and else a new
/// window.
pub proof fn law_press_grabs_the_nearest_thing(
    edge: Option<WindowDrag>,
    inside: bool,
    whole: bool,
    grab: Double,
    anchor: Double,
)
    ensures
        ({
            let drag = drag_from(edge, inside, whole, grab, anchor);
            &&& edge is Some ==> drag == edge->0
            &&& edge is None && inside && !whole ==> drag == (WindowDrag::Pan {
                grab_offset_secs: grab,
            })
            &&& edge is None && (!inside || whole) ==> drag == (WindowDrag::Draw {
                anchor_secs: anchor,
            })
        }),
{
}

/// Dragging an edge of the window moves that edge alone, to the pointer or as far as the
/// other edge lets it; a new window has the pointer at one end and the place where it
/// was begun at the other.
pub proof fn law_dragged_edge_follows_the_pointer(
    t: Double,
    view: (Double, Double),
    b: DragBounds,
    anchor: Double,
)
    requires
        !t.nan(),
        !b.latest_start.nan(),
        !b.earliest_end.nan(),
        !anchor.nan(),
    ensures
        asked_view(WindowDrag::Start, t, view, b).1 == view.1,
        asked_view(WindowDrag::End, t, view, b).0 == view.0,
        t.at_most(b.latest_start) ==> asked_view(WindowDrag::Start, t, view, b).0 == t,
        b.latest_start.below(t) ==> asked_view(WindowDrag::Start, t, view, b).0 == b.latest_start,
        b.earliest_end.at_most(t) ==> asked_view(WindowDrag::End, t, view, b).1 == t,
        t.below(b.earliest_end) ==> asked_view(WindowDrag::End, t, view, b).1 == b.earliest_end,
        anchor.below(t) ==> asked_view(WindowDrag::Draw { anchor_secs: anchor }, t, view, b) == (
            anchor,
            t,
        ),
        t.below(anchor) ==> asked_view(WindowDrag::Draw { anchor_secs: anchor }, t, view, b) == (
            t,
            anchor,
        ),
        asked_view(WindowDrag::Pan { grab_offset_secs: anchor }, t, view, b) == (
            b.panned_start,
            b.panned_end,
        ),
{
}

/// A drag holds on to what it began on: the marker under it, or the playhead where there
/// was none, until another drag begins.
pub proof fn law_drag_keeps_what_it_grabbed(clip: Clip, input: TimelineInput)
    ensures
        input.started_on is None ==> dragging(clip, input) == clip.timeline_drag,
        input.started_on is Some && input.started_on->0 is Some ==> dragging(clip, input)
            == input.started_on->0,
        input.started_on is Some && input.started_on->0 is None ==> dragging(clip, input) == Some(
            TimelineDrag::Playhead,
        ),
        on_marker(dragging(clip, input)) <==> dragging(clip, input) is Some && !(dragging(
            clip,
            input,
        )->0 is Playhead),
{
}

/// A grabbed marker follows the pointer, kept where a clip can have it, and leaves the
/// other marker and the zoom window alone.
pub proof fn law_grabbed_marker_follows_the_pointer(clip: Clip, input: TimelineInput, t: Double)
    requires
        input.at == Some(t),
        !t.nan(),
        (Double { bits: 0 }).at_most(input.latest_in),
        !input.earliest_out.nan(),
    ensures
        ({
            let held = if input.started_on is Some {
                input.started_on->0
            } else {
                clip.timeline_drag
            };
            let zero = Double { bits: 0 };
            let now = after_input(clip, input).range;
            &&& held == Some(TimelineDrag::In) ==> {
                &&& now == (ClipRange { in_secs: now.in_secs, ..clip@.range })
                &&& zero.at_most(t) && t.at_most(input.latest_in) ==> now.in_secs.equals(t)
                &&& input.latest_in.below(t) ==> now.in_secs.equals(input.latest_in)
                &&& t.below(zero) ==> now.in_secs.equals(zero)
            }
            &&& held == Some(TimelineDrag::Out) ==> {
                &&& now == (ClipRange { out_secs: now.out_secs, ..clip@.range })
                &&& input.earliest_out.at_most(t) ==> now.out_secs == t
                &&& t.below(input.earliest_out) ==> now.out_secs == input.earliest_out
            }
            &&& held is None || held == Some(TimelineDrag::Playhead) ==> now == clip@.range
        }),
{
}

/// Letting go of a marker makes the whole drag one step to go back by: it leads to where
/// the drag began, and no gesture is left under way.
pub proof fn law_letting_go_is_one_step(clip: Clip, input: TimelineInput, from: ClipRange)
    requires
        input.drag_stopped,
        input.started_on is None,
        clip@.pending == Some(from),
        clip@.undo.len() < 1024,
    ensures
        ({
            let after = after_input(clip, input);
            &&& after.pending is None
            &&& !from.equals(after.range) ==> after.undo == clip@.undo.push(from)
                && after.redo.len() == 0
            &&& from.equals(after.range) ==> after.undo == clip@.undo && after.redo == clip@.redo
        }),
{
}

/// A marker stays where it is while the pointer is off the timeline; grabbing one begins
/// a gesture, and grabbing the playhead does not.
pub proof fn law_grabbing_begins_the_gesture(clip: Clip, input: TimelineInput)
    requires
        !input.drag_stopped,
    ensures
        ({
            let after = after_input(clip, input);
            let grabbed = input.started_on is Some && input.started_on->0 is Some;
            &&& input.at is None ==> after.range == clip@.range
            &&& after.undo == clip@.undo
            &&& after.redo == clip@.redo
            &&& grabbed && clip@.pending is None ==> after.pending == Some(clip@.range)
            &&& grabbed && clip@.pending is Some ==> after.pending == clip@.pending
            &&& !grabbed ==> after.pending == clip@.pending
        }),
{
}

/// Which of two handles a press grabs.
pub open spec fn grabs<T>(
    first_at: Option<Double>,
    first: T,
    second_at: Option<Double>,
    second: T,
) -> Option<T> {
    if out_of_reach(first_at) && out_of_reach(second_at) {
        None
    } else if distance_to(first_at).at_most(distance_to(second_at)) {
        Some(first)
    } else {
        Some(second)
    }
}

/// A press grabs the nearer of the handles in sight, the first where they are equally
/// near, as long as it is within ten points, and one that is out of sight never.
pub proof fn law_press_grabs_the_nearer_handle<T>(a: Double, first: T, b: Double, second: T)
    requires
        !a.nan(),
        !b.nan(),
    ensures
        ({
            let reach = Double { bits: 0x4024_0000_0000_0000 };
            let both = grabs(Some(a), first, Some(b), second);
            &&& both is None <==> reach.below(a) && reach.below(b)
            &&& both is Some && a.at_most(b) ==> both == Some(first)
            &&& both is Some && b.below(a) ==> both == Some(second)
            &&& a.at_most(reach) ==> grabs(Some(a), first, None, second) == Some(first)
            &&& b.at_most(reach) ==> grabs(None, first, Some(b), second) == Some(second)
            &&& reach.below(a) ==> grabs(Some(a), first, None, second) is None
            &&& reach.below(b) ==> grabs(None, first, Some(b), second) is None
            &&& grabs(None, first, None, second) is None
        }),
{
}

} // verus!
