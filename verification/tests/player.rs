use yt_dlp_clipper::clip::{Clip, TimelineDrag, WindowDrag};
use yt_dlp_clipper::decoder_thread::{
    first_frame, open_failed, Batch, DecodeEvent, DecodeRequest,
};
use yt_dlp_clipper::double::Double;
use yt_dlp_clipper::player::{
    set_end, set_start, Awaited, Drained, Nav, NavRepeat, Opened, Player, Started,
};

fn double(value: f64) -> Double {
    Double { bits: value.to_bits() }
}

fn opened(has_video: bool) -> Opened {
    Opened {
        width: 320,
        height: 240,
        duration_secs: double(10.0),
        fps: double(30.0),
        has_video,
    }
}

fn player(has_video: bool) -> (Player, Clip) {
    let mut player = Player::new();
    let mut clip = Clip::new();
    player.open();
    player.apply_events(&mut clip, false, Some(opened(has_video)), Some(double(4.0)), false);
    (player, clip)
}

fn seek(secs: f64, gen: u64) -> DecodeRequest {
    DecodeRequest::Seek { secs: double(secs), gen }
}

#[test]
fn opening_covers_the_video() {
    let (player, clip) = player(true);
    assert!(player.is_ready() && player.has_video());
    assert_eq!(player.ready_position_secs(), Some(double(4.0)));
    assert_eq!((clip.in_secs, clip.out_secs), (double(0.0), double(10.0)));
    assert_eq!((clip.view_start_secs, clip.view_end_secs), (double(0.0), double(10.0)));
}

#[test]
fn nothing_open_answers_nothing() {
    let mut player = Player::new();
    assert!(!player.is_ready() && !player.has_video());
    assert_eq!(player.ready_position_secs(), None);
    assert_eq!(player.set_position(), None);
    assert_eq!(player.skip_to(double(1.0)), None);
    assert_eq!(player.step_frame(true), None);
    assert_eq!(player.toggle_play(double(0.0)), None);
    assert_eq!(player.apply_nav(Nav::Forward), None);
}

#[test]
fn held_skips_build_on_the_last_target() {
    let (mut player, _) = player(true);
    assert_eq!(player.skip_to(double(9.0)), Some(seek(9.0, 1)));
    assert_eq!(player.set_position(), Some(double(9.0)));
    assert_eq!(player.skip_to(double(14.0)), Some(seek(10.0, 2)));
    assert_eq!(player.playback.awaiting_release, Some(Awaited { gen: 2, pos: double(10.0) }));
    assert_eq!(player.skip_to(double(-3.0)), Some(seek(0.0, 3)));
}

#[test]
fn sound_alone_moves_at_once() {
    let (mut player, _) = player(false);
    assert_eq!(player.skip_to(double(9.0)), None);
    assert_eq!(player.ready_position_secs(), Some(double(9.0)));
    assert_eq!(player.step_frame(true), None);
    assert_eq!(player.apply_nav(Nav::Back), None);
    assert_eq!(player.apply_nav(Nav::Seek { secs: double(99.0), released: false }), None);
    assert_eq!(player.ready_position_secs(), Some(double(10.0)));
}

#[test]
fn steps_and_seeks_are_numbered() {
    let (mut player, _) = player(true);
    assert_eq!(player.step_frame(true), Some(DecodeRequest::StepForward { gen: 1 }));
    assert_eq!(player.step_frame(false), Some(DecodeRequest::StepBackward { gen: 2 }));
    let nav = Nav::Seek { secs: double(2.0), released: false };
    assert_eq!(player.apply_nav(nav), Some(seek(2.0, 3)));
    assert_eq!(player.playback.awaiting_release, None);
    let nav = Nav::Seek { secs: double(3.0), released: true };
    assert_eq!(player.apply_nav(nav), Some(seek(3.0, 4)));
    assert_eq!(player.playback.awaiting_release, Some(Awaited { gen: 4, pos: double(3.0) }));
    assert_eq!(player.apply_nav(Nav::Back), Some(DecodeRequest::StepBackward { gen: 5 }));
    assert_eq!(player.playback.awaiting_release, None);
}

#[test]
fn playing_toggles() {
    let (mut player, _) = player(true);
    let started = player.toggle_play(double(100.0));
    assert_eq!(started, Some(Started { pos: double(4.0), request: None }));
    assert!(player.playback.playing);
    assert_eq!(player.playback.play_start_wall, double(100.0));
    assert_eq!(player.toggle_play(double(101.0)), None);
    assert!(!player.playback.playing);
}

#[test]
fn the_clip_plays_from_inside_or_from_its_start() {
    let (mut player, mut clip) = player(true);
    clip.in_secs = double(3.0);
    clip.out_secs = double(5.0);
    let started = player.toggle_play_clip(&clip, double(0.0)).expect("plays");
    assert_eq!(started, Started { pos: double(4.0), request: Some(seek(4.0, 1)) });
    assert_eq!(player.playback.play_until, Some(double(5.0)));
    player.toggle_play_clip(&clip, double(0.0));
    clip.out_secs = double(4.0);
    let started = player.toggle_play_clip(&clip, double(0.0)).expect("plays");
    assert_eq!(started.pos, double(3.0));
}

#[test]
fn playback_ends_where_told() {
    let (mut player, _) = player(true);
    player.play_from(double(1.0), Some(double(5.0)), double(0.0));
    let request = player.advance(double(5.0), double(5.1), double(4.1), double(1.0));
    assert_eq!(request, Some(seek(5.0, 2)));
    assert!(!player.playback.playing);
    let (mut sound, _) = crate::player(false);
    sound.play_from(double(1.0), Some(double(5.0)), double(0.0));
    assert_eq!(sound.advance(double(6.0), double(6.1), double(4.1), double(2.0)), None);
    assert_eq!(sound.ready_position_secs(), Some(double(5.0)));
    assert!(!sound.playback.playing);
}

#[test]
fn the_picture_chases_the_clock() {
    let (mut player, _) = player(true);
    player.toggle_play(double(0.0));
    // A frame is not due yet.
    assert_eq!(player.advance(double(4.01), double(4.04), double(4.03), double(0.01)), None);
    let request = player.advance(double(4.05), double(4.08), double(4.03), double(0.05));
    assert_eq!(request, Some(DecodeRequest::StepForward { gen: 1 }));
    let request = player.advance(double(4.6), double(4.7), double(4.03), double(0.6));
    assert_eq!(request, Some(seek(4.6, 2)));
    assert_eq!(player.advance(double(9.99), double(10.02), double(4.03), double(5.9)), None);
    assert!(!player.playback.playing);
    assert_eq!(player.advance(double(1.0), double(1.1), double(0.5), double(0.5)), None);
}

#[test]
fn sound_alone_follows_the_clock() {
    let (mut player, _) = player(false);
    player.toggle_play(double(0.0));
    assert_eq!(player.advance(double(6.5), double(6.6), double(4.1), double(2.5)), None);
    assert_eq!(player.ready_position_secs(), Some(double(6.5)));
    player.advance(double(10.0), double(10.1), double(6.6), double(3.5));
    assert!(!player.playback.playing);
    assert_eq!(player.ready_position_secs(), Some(double(6.5)));
}

#[test]
fn superseded_frames_are_dropped() {
    let awaited = Some(Awaited { gen: 7, pos: double(1.0) });
    let frame = |image: char, gen: u64| DecodeEvent::Frame { image, secs: double(1.0), gen };
    let drained = Drained::new().take(frame('a', 5), awaited).take(frame('b', 6), awaited);
    assert!(drained.latest.is_none() && !drained.landed);
    let drained = drained.take(frame('c', 7), awaited).take(frame('d', 8), awaited);
    assert_eq!(drained.latest, Some(('c', double(1.0))));
    assert!(drained.landed);
    let free = Drained::new().take(frame('a', 5), None).take(frame('b', 6), None);
    assert_eq!(free.latest, Some(('b', double(1.0))));
    assert!(!free.landed);
}

#[test]
fn events_tell_what_was_opened() {
    let drained: Drained<char> =
        Drained::new().take(DecodeEvent::OpenedAudioOnly { duration_secs: double(3.0) }, None);
    let opened = drained.opened.expect("opened");
    assert!(!opened.has_video);
    assert_eq!(f64::from_bits(opened.fps.bits), 30.0);
    let event = DecodeEvent::Opened {
        width: 1,
        height: 2,
        duration_secs: double(3.0),
        fps: double(25.0),
    };
    let drained: Drained<char> =
        Drained::new().take(event, None).take(DecodeEvent::Error("broken".into()), None);
    assert!(drained.opened.expect("opened").has_video);
    assert_eq!(drained.error.as_deref(), Some("broken"));
}

#[test]
fn a_failed_file_is_closed() {
    let (mut player, mut clip) = player(true);
    player.skip_to(double(2.0));
    player.apply_events(&mut clip, true, None, Some(double(2.0)), false);
    assert_eq!(player.playback.awaiting_release, None);
    assert_eq!(player.ready_position_secs(), Some(double(2.0)));
    player.apply_events(&mut clip, false, None, None, true);
    assert!(!player.is_ready());
}

#[test]
fn the_decoder_says_why_it_failed() {
    match open_failed::<char>("no video stream found".into(), None) {
        DecodeEvent::Error(e) => assert_eq!(e, "no video stream found"),
        _ => unreachable!(),
    }
    assert!(matches!(
        open_failed::<char>("no video stream found".into(), Some(double(3.0))),
        DecodeEvent::OpenedAudioOnly { .. }
    ));
    match first_frame::<char>(None, double(0.0), "AV1") {
        DecodeEvent::Error(e) => assert_eq!(
            e,
            "Couldn't decode the video stream (codec AV1). This build of \
             yt-dlp-clipper has no decoder for it."
        ),
        _ => unreachable!(),
    }
    assert!(matches!(
        first_frame(Some('x'), double(0.0), "AV1"),
        DecodeEvent::Frame { image: 'x', gen: 0, .. }
    ));
}

#[test]
fn waiting_requests_fold_into_one() {
    let forward = |gen: u64| DecodeRequest::StepForward { gen };
    let backward = |gen: u64| DecodeRequest::StepBackward { gen };
    let fold = |requests: &[DecodeRequest]| {
        let mut batch = Batch::new();
        for request in requests {
            batch.fold(*request);
        }
        batch
    };
    let steps = fold(&[forward(1), forward(2), backward(3), backward(4), backward(5)]);
    assert_eq!(steps, Batch { seek: None, steps: -1, gen: 5 });
    let mixed = fold(&[forward(1), seek(2.0, 2), seek(3.0, 3), forward(4), forward(5)]);
    assert_eq!(mixed, Batch { seek: Some(double(3.0)), steps: 2, gen: 5 });
    assert_eq!(mixed.shown(Some('s'), Some('t')), Some('t'));
    assert_eq!(mixed.shown(Some('s'), None), None);
    let sought = fold(&[forward(1), seek(2.0, 2)]);
    assert_eq!(sought.shown(Some('s'), None), Some('s'));
    assert_eq!(fold(&[forward(1), backward(2)]).shown(Some('s'), Some('t')), None);
}

#[test]
fn held_keys_repeat() {
    let mut repeat = NavRepeat::new();
    let mut poll = |down: bool, now: f64| {
        repeat.poll(down, double(now), double(now + 0.3), double(now + 0.1))
    };
    assert!(poll(true, 10.0));
    assert!(!poll(true, 10.2));
    assert!(poll(true, 10.3));
    assert!(!poll(true, 10.35));
    assert!(poll(true, 10.45));
    assert!(!poll(false, 10.46));
    assert!(poll(true, 10.47));
}

#[test]
fn points_are_set_beside_a_running_gesture() {
    let at = |secs: f64| Double { bits: secs.to_bits() };
    let mut clip = Clip::new();
    clip.cover(at(10.0));
    clip.window_drag = Some(WindowDrag::Start);
    clip.timeline_drag = Some(TimelineDrag::Playhead);
    clip.scroll_gesture_commit_at = Some(at(7.0));
    set_start(&mut clip, at(2.0), at(9.95));
    set_end(&mut clip, at(8.0), at(2.05));
    assert_eq!((clip.in_secs, clip.out_secs), (at(2.0), at(8.0)));
    set_start(&mut clip, at(8.0), at(7.95));
    set_end(&mut clip, at(2.0), at(2.05));
    assert_eq!((clip.in_secs, clip.out_secs), (at(2.0), at(8.0)));
    assert_eq!(clip.window_drag, Some(WindowDrag::Start));
    assert_eq!(clip.timeline_drag, Some(TimelineDrag::Playhead));
    assert_eq!(clip.scroll_gesture_commit_at, Some(at(7.0)));
}

#[test]
fn a_seek_starts_counting_anew_from_any_count() {
    let secs = Double { bits: 1.0f64.to_bits() };
    for steps in [i64::MIN, i64::MAX] {
        let mut batch = Batch { seek: None, steps, gen: 1 };
        batch.fold(DecodeRequest::Seek { secs, gen: 2 });
        assert_eq!(batch, Batch { seek: Some(secs), steps: 0, gen: 2 });
    }
}
