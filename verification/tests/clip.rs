use yt_dlp_clipper::clip::{Clip, ClipRange, TimelineDrag, WindowDrag, CLIP_HISTORY_LIMIT};
use yt_dlp_clipper::double::Double;
use yt_dlp_clipper::player::{reset_clip, set_end, set_start};
use yt_dlp_clipper::timeline::{
    dragged_view, is_visible, nearest_handle, playhead, scroll_zoom, start_window_drag,
    stop_window_drag, timeline_input, DragBounds, TimelineInput,
};

fn double(value: f64) -> Double {
    Double { bits: value.to_bits() }
}

fn clip_of(in_secs: f64, out_secs: f64) -> Clip {
    let mut clip = Clip::new();
    clip.cover(double(10.0));
    clip.in_secs = double(in_secs);
    clip.out_secs = double(out_secs);
    clip
}

#[test]
fn undo_takes_back_and_redo_makes_again() {
    let mut clip = clip_of(1.0, 9.0);
    clip.set_in_secs(double(2.0), double(8.95));
    clip.set_out_secs(double(7.0), double(2.05));
    assert_eq!((clip.in_secs, clip.out_secs), (double(2.0), double(7.0)));
    clip.undo();
    assert_eq!((clip.in_secs, clip.out_secs), (double(2.0), double(9.0)));
    clip.undo();
    assert_eq!((clip.in_secs, clip.out_secs), (double(1.0), double(9.0)));
    clip.undo();
    assert_eq!(clip.in_secs, double(1.0));
    clip.redo();
    clip.redo();
    clip.redo();
    assert_eq!((clip.in_secs, clip.out_secs), (double(2.0), double(7.0)));
    clip.undo();
    clip.set_in_secs(double(3.0), double(8.95));
    clip.redo();
    assert_eq!((clip.in_secs, clip.out_secs), (double(3.0), double(9.0)));
}

#[test]
fn the_history_forgets_the_oldest() {
    let mut clip = clip_of(0.0, 9000.0);
    for i in 1..=CLIP_HISTORY_LIMIT + 5 {
        clip.set_in_secs(double(i as f64), double(9000.0));
    }
    for _ in 0..CLIP_HISTORY_LIMIT {
        clip.undo();
    }
    assert_eq!(clip.in_secs, double(5.0));
    clip.undo();
    assert_eq!(clip.in_secs, double(5.0));
}

#[test]
fn points_stop_short_of_each_other() {
    let mut clip = clip_of(1.0, 2.0);
    clip.set_in_secs(double(5.0), double(1.95));
    assert_eq!(clip.in_secs, double(1.95));
    clip.set_in_secs(double(-5.0), double(1.95));
    assert_eq!(clip.in_secs, double(0.0));
    clip.set_out_secs(double(-5.0), double(0.05));
    assert_eq!(clip.out_secs, double(0.05));
    assert_eq!(Clip::clamped_in_secs(double(1.0), double(-0.04)), double(0.0));
}

#[test]
fn staying_put_is_no_step() {
    let mut clip = clip_of(1.0, 2.0);
    clip.set_in_secs(double(1.0), double(1.95));
    clip.set_out_secs(double(2.0), double(1.05));
    assert!(clip.undo_stack.is_empty());
    clip.in_secs = double(0.0);
    clip.set_in_secs(double(-0.0), double(1.95));
    assert!(clip.undo_stack.is_empty());
}

#[test]
fn a_gesture_is_one_step() {
    let mut clip = clip_of(1.0, 9.0);
    clip.begin_gesture();
    for i in 0..50 {
        clip.begin_gesture();
        clip.set_view(double(i as f64), double(i as f64 + 5.0));
    }
    clip.commit_gesture();
    assert_eq!(clip.undo_stack.len(), 1);
    clip.undo();
    assert_eq!((clip.view_start_secs, clip.view_end_secs), (double(0.0), double(10.0)));
    clip.begin_gesture();
    clip.commit_gesture();
    assert!(clip.undo_stack.is_empty());
}

#[test]
fn zooming_moves_no_point() {
    let mut clip = clip_of(1.0, 9.0);
    clip.set_view(double(4.0), double(5.0));
    assert_eq!((clip.in_secs, clip.out_secs), (double(1.0), double(9.0)));
}

#[test]
fn windows_stay_inside_the_video() {
    let dur = double(10.0);
    assert_eq!(Clip::clamped_span(double(0.01), dur), double(0.05));
    assert_eq!(Clip::clamped_span(double(4.0), dur), double(4.0));
    assert_eq!(Clip::clamped_span(double(40.0), dur), dur);
    assert_eq!(Clip::clamped_span(double(4.0), double(0.02)), double(0.02));
    assert_eq!(Clip::clamped_view_start(double(-1.0), double(6.0)), double(0.0));
    assert_eq!(Clip::clamped_view_start(double(9.0), double(6.0)), double(6.0));
    assert_eq!(Clip::clamped_view_start(double(9.0), double(-6.0)), double(0.0));
}

#[test]
fn abandoned_gestures_are_committed() {
    let mut clip = clip_of(1.0, 9.0);
    clip.timeline_drag = Some(TimelineDrag::In);
    clip.window_drag = Some(WindowDrag::Start);
    clip.begin_gesture();
    clip.in_secs = double(2.0);
    clip.commit_abandoned_gesture(true);
    assert_eq!(clip.timeline_drag, Some(TimelineDrag::In));
    clip.commit_abandoned_gesture(false);
    assert_eq!((clip.timeline_drag, clip.window_drag), (None, None));
    assert_eq!(clip.undo_stack.len(), 1);
}

#[test]
fn a_scroll_gesture_ends_when_idle() {
    let mut clip = clip_of(1.0, 9.0);
    scroll_zoom(&mut clip, double(2.0), double(4.0), double(100.4));
    scroll_zoom(&mut clip, double(2.5), double(3.5), double(100.6));
    clip.commit_abandoned_gesture(false);
    assert!(clip.undo_stack.is_empty());
    clip.commit_idle_scroll(double(100.5));
    assert!(clip.undo_stack.is_empty());
    clip.commit_idle_scroll(double(100.6));
    assert_eq!(clip.undo_stack.len(), 1);
    assert_eq!(clip.scroll_gesture_commit_at, None);
    clip.undo();
    assert_eq!(clip.view_end_secs, double(10.0));
}

#[test]
fn clearing_forgets_every_step() {
    let mut clip = clip_of(1.0, 9.0);
    clip.set_in_secs(double(2.0), double(8.95));
    clip.begin_gesture();
    clip.clear_history();
    clip.undo();
    assert_eq!(clip.in_secs, double(2.0));
    assert_eq!(clip.pending_undo_range, None);
    reset_clip(&mut clip);
    let zero = double(0.0);
    assert_eq!(
        clip.range(),
        ClipRange { in_secs: zero, out_secs: zero, view_start_secs: zero, view_end_secs: zero }
    );
}

#[test]
fn start_and_end_are_guarded() {
    let mut clip = clip_of(1.0, 2.0);
    set_start(&mut clip, double(2.0), double(1.95));
    assert_eq!(clip.in_secs, double(1.0));
    set_start(&mut clip, double(1.5), double(1.95));
    assert_eq!(clip.in_secs, double(1.5));
    set_end(&mut clip, double(1.5), double(1.55));
    assert_eq!(clip.out_secs, double(2.0));
    set_end(&mut clip, double(1.8), double(1.55));
    assert_eq!(clip.out_secs, double(1.8));
}

#[test]
fn the_nearer_handle_is_grabbed() {
    let at = |d: f64| Some(double(d));
    assert_eq!(nearest_handle(at(3.0), 'a', at(4.0), 'b'), Some('a'));
    assert_eq!(nearest_handle(at(5.0), 'a', at(4.0), 'b'), Some('b'));
    assert_eq!(nearest_handle(at(4.0), 'a', at(4.0), 'b'), Some('a'));
    assert_eq!(nearest_handle(at(10.0), 'a', at(11.0), 'b'), Some('a'));
    assert_eq!(nearest_handle(at(10.5), 'a', at(11.0), 'b'), None);
    assert_eq!(nearest_handle(None, 'a', at(2.0), 'b'), Some('b'));
    assert_eq!(nearest_handle(None, 'a', None, 'b'), None);
}

#[test]
fn visibility_counts_both_ends() {
    assert!(is_visible(double(1.0), double(1.0), double(2.0)));
    assert!(is_visible(double(2.0), double(1.0), double(2.0)));
    assert!(!is_visible(double(2.1), double(1.0), double(2.0)));
    assert!(!is_visible(double(f64::NAN), double(1.0), double(2.0)));
}

#[test]
fn the_overview_grabs_edge_then_window_then_draws() {
    let mut clip = clip_of(1.0, 9.0);
    let (offset, anchor) = (double(0.5), double(4.0));
    start_window_drag(&mut clip, Some(WindowDrag::End), true, false, offset, anchor);
    assert_eq!(clip.window_drag, Some(WindowDrag::End));
    start_window_drag(&mut clip, None, true, false, offset, anchor);
    assert_eq!(clip.window_drag, Some(WindowDrag::Pan { grab_offset_secs: offset }));
    start_window_drag(&mut clip, None, true, true, offset, anchor);
    assert_eq!(clip.window_drag, Some(WindowDrag::Draw { anchor_secs: anchor }));
    start_window_drag(&mut clip, None, false, false, offset, anchor);
    assert_eq!(clip.window_drag, Some(WindowDrag::Draw { anchor_secs: anchor }));
    clip.set_view(double(1.0), double(2.0));
    stop_window_drag(&mut clip);
    assert_eq!(clip.window_drag, None);
    assert_eq!(clip.undo_stack.len(), 1);
}

#[test]
fn drags_ask_for_what_they_hold() {
    let clip = clip_of(1.0, 9.0);
    let bounds = DragBounds {
        latest_start: double(9.95),
        earliest_end: double(0.05),
        panned_start: double(3.0),
        panned_end: double(13.0),
    };
    let t = double(4.0);
    assert_eq!(dragged_view(WindowDrag::Start, t, &clip, bounds), (t, double(10.0)));
    assert_eq!(
        dragged_view(WindowDrag::Start, double(12.0), &clip, bounds),
        (double(9.95), double(10.0))
    );
    assert_eq!(dragged_view(WindowDrag::End, t, &clip, bounds), (double(0.0), t));
    let pan = WindowDrag::Pan { grab_offset_secs: double(1.0) };
    assert_eq!(dragged_view(pan, t, &clip, bounds), (double(3.0), double(13.0)));
    let draw = WindowDrag::Draw { anchor_secs: double(6.0) };
    assert_eq!(dragged_view(draw, t, &clip, bounds), (double(4.0), double(6.0)));
    assert_eq!(dragged_view(draw, double(8.0), &clip, bounds), (double(6.0), double(8.0)));
}

#[test]
fn the_timeline_moves_a_marker_or_seeks() {
    let mut clip = clip_of(1.0, 9.0);
    let idle = TimelineInput {
        started_on: None,
        at: None,
        dragged: false,
        clicked: false,
        drag_stopped: false,
        latest_in: double(8.95),
        earliest_out: double(1.05),
    };
    assert_eq!(timeline_input(&mut clip, idle), None);

    let grab = TimelineInput {
        started_on: Some(Some(TimelineDrag::In)),
        at: Some(double(2.0)),
        dragged: true,
        ..idle
    };
    assert_eq!(timeline_input(&mut clip, grab), None);
    assert_eq!(clip.in_secs, double(2.0));
    let drag = TimelineInput { at: Some(double(20.0)), dragged: true, ..idle };
    assert_eq!(timeline_input(&mut clip, drag), None);
    assert_eq!(clip.in_secs, double(8.95));
    let release = TimelineInput { at: Some(double(3.0)), drag_stopped: true, ..idle };
    assert_eq!(timeline_input(&mut clip, release), None);
    assert_eq!((clip.in_secs, clip.timeline_drag), (double(3.0), None));
    clip.undo();
    assert_eq!(clip.in_secs, double(1.0));

    let scrub = TimelineInput {
        started_on: Some(None),
        at: Some(double(5.0)),
        dragged: true,
        ..idle
    };
    assert_eq!(timeline_input(&mut clip, scrub), Some((double(5.0), false)));
    assert_eq!(clip.timeline_drag, Some(TimelineDrag::Playhead));
    let release = TimelineInput { at: Some(double(6.0)), drag_stopped: true, ..idle };
    assert_eq!(timeline_input(&mut clip, release), Some((double(6.0), true)));
    let click = TimelineInput { at: Some(double(7.0)), clicked: true, ..idle };
    assert_eq!(timeline_input(&mut clip, click), Some((double(7.0), true)));
    assert_eq!((clip.in_secs, clip.out_secs), (double(1.0), double(9.0)));
}

#[test]
fn the_playhead_follows_the_pointer_first() {
    let (live, awaited, current) = (double(1.0), double(2.0), double(3.0));
    assert_eq!(playhead(Some(live), Some(awaited), current), live);
    assert_eq!(playhead(None, Some(awaited), current), awaited);
    assert_eq!(playhead(None, None, current), current);
}
