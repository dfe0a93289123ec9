use yt_dlp_clipper::decoder::{
    audio_duration_secs, pick_duration, Ahead, AudioLength, BackSearch, Decoder, ExactSeek,
    FeedStep, FrameReply, FrameStep, OpenError, PacketReply, StepPlan, VideoStreamInfo,
};
use yt_dlp_clipper::double::Double;

const WIDTH: u32 = 320;
const HEIGHT: u32 = 240;
const FPS: f64 = 30.0;
const DURATION_SECS: f64 = 3.0;
const FRAME_SECS: f64 = 1.0 / FPS;

fn double(value: f64) -> Double {
    Double { bits: value.to_bits() }
}

/// A three-second video whose decoder gives out frames at these timestamps, and
/// whose container can be sought to these of them.
struct Film {
    time_base: f64,
    frames: Vec<i64>,
    keys: Vec<usize>,
    decoder: Decoder,
    /// The next frame the codec gives out.
    next: usize,
}

impl Film {
    fn new(time_base: f64, keys: Vec<usize>) -> Film {
        let frames: Vec<i64> = (0..(FPS * DURATION_SECS) as i64)
            .map(|i| (i as f64 * FRAME_SECS / time_base).round() as i64)
            .collect();
        let decoder = Decoder::open(Some(VideoStreamInfo {
            index: 0,
            width: WIDTH,
            height: HEIGHT,
            stream_duration_ts: (DURATION_SECS / time_base).round() as i64,
            container_duration_ts: 0,
            frame_dur_ts: (FRAME_SECS / time_base).round() as i64,
        }))
        .expect("decoder should open the fixture");
        Film { time_base, frames, keys, decoder, next: 0 }
    }

    /// H.264 in MP4, one keyframe for the whole of it.
    fn h264() -> Film {
        Film::new(1.0 / 15360.0, vec![0])
    }

    /// H.264 with a keyframe every eight frames.
    fn h264_short_gop() -> Film {
        Film::new(1.0 / 15360.0, (0..90).step_by(8).collect())
    }

    /// VP9 in WebM, whose millisecond stamps are spaced unevenly.
    fn vp9() -> Film {
        Film::new(0.001, vec![0])
    }

    fn seek_container(&mut self, target: i64) {
        self.next = self
            .keys
            .iter()
            .copied()
            .filter(|k| self.frames[*k] <= target)
            .last()
            .unwrap_or(0);
    }

    fn receive(&mut self) -> Option<i64> {
        let pts = self.frames.get(self.next).copied();
        self.next += 1;
        pts
    }

    fn seek_exact(&mut self, target: i64) -> Option<i64> {
        self.seek_container(target);
        let mut seek = ExactSeek::new(target);
        while let Some(pts) = self.receive() {
            if let Some(pts) = seek.observe(Some(pts)) {
                self.decoder.step_forward(Some(pts));
                return Some(pts);
            }
        }
        None
    }

    fn seek_secs(&mut self, secs: f64) -> Option<i64> {
        let target = (secs / self.time_base).round() as i64;
        let target = self.decoder.seek_target(target);
        self.seek_exact(target)
    }

    fn step_forward(&mut self) -> Option<i64> {
        let pts = self.receive()?;
        self.decoder.step_forward(Some(pts));
        Some(pts)
    }

    fn step_by(&mut self, n: i64) -> Option<i64> {
        match Decoder::step_by(n) {
            StepPlan::Stay => None,
            StepPlan::Forward(n) => {
                let mut shown = None;
                let mut ahead = Ahead::new(n);
                while ahead.wants_more() {
                    let frame = self.step_forward();
                    ahead.advance(frame.is_some());
                    shown = frame.or(shown);
                }
                shown
            }
            StepPlan::Backward(n) => {
                let mut search = BackSearch::new(self.decoder.current_pts, n as usize);
                let target = loop {
                    self.seek_container(search.search_pts());
                    while let Some(pts) = self.receive() {
                        if search.observe(Some(pts)) {
                            break;
                        }
                    }
                    if let Some(found) = search.finish_pass() {
                        break found;
                    }
                };
                self.seek_exact(target)
            }
        }
    }

    fn current_secs(&self) -> f64 {
        self.decoder.current_pts as f64 * self.time_base
    }
}

#[test]
fn reports_dimensions_and_duration() {
    let film = Film::h264();
    assert_eq!(film.decoder.width, WIDTH);
    assert_eq!(film.decoder.height, HEIGHT);
    let secs = film.decoder.duration_ts as f64 * film.time_base;
    assert!((secs - DURATION_SECS).abs() < 0.2, "duration {} not near {}", secs, DURATION_SECS);
}

#[test]
fn step_forward_yields_full_frames() {
    let film = Film::h264();
    let rows = vec![255u8; (WIDTH * HEIGHT * 4) as usize];
    let img = film.decoder.to_image(WIDTH as usize * 4, &rows);
    assert_eq!(img.size, [WIDTH as usize, HEIGHT as usize]);
    assert_eq!(img.pixels.len(), (WIDTH * HEIGHT) as usize);
}

#[test]
fn step_forward_advances_exactly_one_frame() {
    let mut film = Film::h264();
    film.step_forward().expect("frame 0");
    let t0 = film.current_secs();
    film.step_forward().expect("frame 1");
    let dt = film.current_secs() - t0;
    assert!((dt - FRAME_SECS).abs() < 0.005, "frame delta {dt} != {FRAME_SECS}");
}

#[test]
fn seek_lands_near_target() {
    let mut film = Film::h264();
    film.seek_secs(2.0).expect("seek frame");
    assert!((film.current_secs() - 2.0).abs() < FRAME_SECS);
}

#[test]
fn step_backward_goes_back_one_frame() {
    let mut film = Film::h264();
    film.seek_secs(2.0).expect("seek frame");
    let before = film.current_secs();
    film.step_by(-1).expect("previous frame");
    let after = film.current_secs();
    assert!(after < before, "did not move backward: {before} -> {after}");
    assert!(
        (before - after - FRAME_SECS).abs() < 0.01,
        "stepped back {} not one frame ({FRAME_SECS})",
        before - after
    );
}

#[test]
fn repeated_step_backward_keeps_moving_on_sparse_keyframes() {
    let mut film = Film::vp9();
    film.seek_secs(2.9).expect("seek frame");
    let mut before = film.current_secs();
    for i in 0..5 {
        let img = film.step_by(-1);
        let after = film.current_secs();
        assert!(img.is_some(), "step {i} produced no frame");
        assert!(after < before, "step {i} got stuck: {before} -> {after}");
        before = after;
    }
}

#[test]
fn large_backward_jump_crosses_keyframe_boundaries() {
    let mut film = Film::h264_short_gop();
    film.seek_secs(2.5).expect("seek frame");
    let before = film.current_secs();
    film.step_by(-20).expect("frame 20 steps back");
    let after = film.current_secs();
    let expected = before - 20.0 * FRAME_SECS;
    assert!(
        (after - expected).abs() < 0.05,
        "expected near {expected:.4} (20 frames back from {before:.4}), got {after:.4}"
    );
}

#[test]
fn backward_jump_beyond_video_length_clamps_to_start() {
    let mut film = Film::vp9();
    film.seek_secs(1.0).expect("seek frame");
    film.step_by(-1000).expect("clamped first frame");
    assert!(film.current_secs().abs() < 0.05, "expected to clamp to 0, got {}", film.current_secs());
}

#[test]
fn open_rejects_a_source_with_no_video_stream() {
    let refused = Decoder::open(None);
    assert_eq!(refused, Err(OpenError::NoVideoStream));
    assert_eq!(OpenError::NoVideoStream.message(), "no video stream found");
}

#[test]
fn audio_duration_matches_the_source_without_a_stream_duration() {
    let length = AudioLength {
        stream_duration_ts: i64::MIN,
        stream_secs: double(-9e15),
        container_secs: double(DURATION_SECS),
    };
    let secs = audio_duration_secs(Some(length)).expect("webm audio-only duration");
    assert_eq!(f64::from_bits(secs.bits), DURATION_SECS);
}

#[test]
fn audio_duration_matches_the_source_carrying_a_stream_duration() {
    let length = AudioLength {
        stream_duration_ts: 132300,
        stream_secs: double(132300.0 / 44100.0),
        container_secs: double(99.0),
    };
    let secs = audio_duration_secs(Some(length)).expect("m4a audio-only duration");
    assert_eq!(f64::from_bits(secs.bits), DURATION_SECS);
}

#[test]
fn audio_duration_errors_without_an_audio_stream() {
    let refused = audio_duration_secs(None);
    assert_eq!(refused, Err(OpenError::NoAudioStream));
    assert_eq!(OpenError::NoAudioStream.message(), "no audio stream found");
}

#[test]
fn every_step_back_counts_frames() {
    for make in [Film::h264, Film::h264_short_gop, Film::vp9] {
        for from in [0usize, 1, 7, 8, 9, 40, 89] {
            for n in [1usize, 2, 8, 20, 89, 200] {
                let mut film = make();
                let start = film.frames[from];
                film.seek_exact(start);
                let shown = film.step_by(-(n as i64)).expect("a frame");
                assert_eq!(shown, film.frames[from.saturating_sub(n)]);
            }
        }
    }
}

#[test]
fn a_first_frame_after_zero_is_still_reached() {
    let mut film = Film::h264();
    film.frames.retain(|pts| *pts >= 1024);
    let third = film.frames[2];
    film.seek_exact(third);
    assert_eq!(film.step_by(-2), Some(1024));
    assert_eq!(film.step_by(-1), Some(1024));
}

#[test]
fn steps_forward_stop_at_the_end() {
    let mut film = Film::h264();
    let start = film.frames[80];
    film.seek_exact(start);
    assert_eq!(film.step_by(3), Some(film.frames[83]));
    assert_eq!(film.step_by(100), Some(film.frames[89]));
    assert_eq!(film.step_by(1), None);
    assert_eq!(film.step_by(0), None);
}

#[test]
fn frames_without_stamps_keep_the_last_one() {
    let mut seek = ExactSeek::new(0);
    assert_eq!(seek.observe(None), Some(0));
    let mut seek = ExactSeek::new(5);
    assert_eq!(seek.observe(Some(3)), None);
    assert_eq!(seek.observe(None), None);
    assert_eq!(seek.observe(Some(9)), Some(9));
    let mut decoder = Film::h264().decoder;
    decoder.step_forward(Some(7));
    decoder.step_forward(None);
    assert_eq!(decoder.current_pts, 7);
}

#[test]
fn durations_fall_back_to_the_container() {
    assert_eq!(pick_duration(5, 9), 5);
    assert_eq!(pick_duration(0, 9), 9);
    assert_eq!(pick_duration(-1, -9), 0);
    let odd = VideoStreamInfo {
        index: 3,
        width: 1,
        height: 1,
        stream_duration_ts: i64::MIN,
        container_duration_ts: 77,
        frame_dur_ts: 0,
    };
    let decoder = Decoder::open(Some(odd)).unwrap();
    assert_eq!((decoder.stream_index, decoder.duration_ts, decoder.frame_dur_ts), (3, 77, 1));
    assert_eq!(decoder.seek_target(-4), 0);
    assert_eq!(decoder.seek_target(40), 40);
    assert_eq!(decoder.seek_target(400), 77);
}

#[test]
fn frame_rates_fall_back_to_the_usual() {
    assert_eq!(Decoder::fps(double(0.04), double(25.0)), double(25.0));
    assert_eq!(Decoder::fps(double(0.0), double(f64::INFINITY)), double(25.0));
    assert_eq!(Decoder::fps(double(f64::NAN), double(f64::NAN)), double(25.0));
}

#[test]
fn the_codec_is_fed_its_own_packets() {
    assert_eq!(FrameReply::Frame.next(), FrameStep::Deliver);
    assert_eq!(FrameReply::EndOfStream.next(), FrameStep::Finish);
    assert_eq!(FrameReply::NeedsInput.next(), FrameStep::ReadPacket);
    assert_eq!(PacketReply::Packet { stream: 1 }.feed(1), FeedStep::SendPacket);
    assert_eq!(PacketReply::Packet { stream: 0 }.feed(1), FeedStep::Nothing);
    assert_eq!(PacketReply::NoMore.feed(1), FeedStep::SendEof);
}
