use yt_dlp_clipper::double::Double;
use yt_dlp_clipper::export::audio::{
    audio_encoder, filter_chain, open_audio_encoder, pick_rate, source_args, AudioReenc,
    EncoderChoice, AUDIO_BITRATE,
};
use yt_dlp_clipper::export::copy::{CopyStep, CopyTarget, CopyWindow, Remux};
use yt_dlp_clipper::export::plan::{
    container_kind, scaled_dims, AudioSource, CodecId, Container, PixelFormat, Rational, Source,
    StreamPlan, VideoSource,
};
use yt_dlp_clipper::export::transcode::{PacketInfo, Route, Transcode};
use yt_dlp_clipper::export::video::{open_video_encoder, FrameUse, VideoReenc, RC_UNSET};
use yt_dlp_clipper::export::{
    audio_extension, check_cancel, check_request, export, AudioFormat, ExportError, ExportSpec,
    Job, Mode, VideoFormat,
};
use yt_dlp_clipper::paths::{is_faststart_extension, is_video_file, wants_faststart};

const DURATION_SECS: f64 = 3.0;
const RATE: f64 = 44100.0;
const VIDEO_TB: Rational = Rational { num: 1, den: 15360 };
const AUDIO_TB: Rational = Rational { num: 1, den: 44100 };

fn double(value: f64) -> Double {
    Double { bits: value.to_bits() }
}

fn source(video: Option<(CodecId, PixelFormat)>, audio: Option<CodecId>) -> Source {
    Source {
        video: video.map(|(codec, format)| VideoSource {
            index: 0,
            time_base: VIDEO_TB,
            avg_frame_rate: Rational { num: 30, den: 1 },
            codec,
            format,
            height: 240,
        }),
        audio: audio.map(|codec| AudioSource { index: 1, time_base: AUDIO_TB, codec }),
    }
}

fn h264_with_audio() -> Source {
    source(Some((CodecId::H264, PixelFormat::Yuv420p)), Some(CodecId::Aac))
}

fn h264_with_opus() -> Source {
    source(Some((CodecId::H264, PixelFormat::Yuv420p)), Some(CodecId::Opus))
}

fn h264_with_ac3() -> Source {
    source(Some((CodecId::H264, PixelFormat::Yuv420p)), Some(CodecId::Ac3))
}

fn h264_10bit() -> Source {
    source(Some((CodecId::H264, PixelFormat::Other)), Some(CodecId::Aac))
}

fn av1_in_mp4() -> Source {
    source(Some((CodecId::Av1, PixelFormat::Yuv420p)), None)
}

fn vp9() -> Source {
    source(Some((CodecId::Vp9, PixelFormat::Yuv420p)), None)
}

fn opus_audio_only() -> Source {
    source(None, Some(CodecId::Opus))
}

fn spec(mode: Mode, out_name: &str, start: f64, end: f64, compatibility_mode: bool) -> ExportSpec {
    ExportSpec {
        input: "in.mp4".into(),
        output: out_name.into(),
        start_secs: double(start),
        end_secs: double(end),
        mode,
        scale_height: None,
        compatibility_mode,
    }
}

fn run_from(input: Source, mode: Mode, out_name: &str, start: f64, end: f64, compat: bool) -> Job {
    export(&spec(mode, out_name, start, end, compat), &input).expect("export should succeed")
}

/// The codecs of the streams that a job writes, video first.
fn codecs_out(job: Job, input: &Source) -> (Option<CodecId>, Option<CodecId>) {
    let video = input.video.map(|v| v.codec);
    let audio = input.audio.map(|a| a.codec);
    match job {
        Job::Remux => (video, audio),
        Job::CopyAudio { .. } => (None, audio),
        Job::Transcode { plan, .. } => (
            plan.video.map(|v| {
                if !v.reencode {
                    video.unwrap()
                } else if plan.container == Container::Webm {
                    CodecId::Vp9
                } else {
                    CodecId::H264
                }
            }),
            plan.audio.map(|a| a.encode_to.unwrap_or(audio.unwrap())),
        ),
    }
}

fn is_windowed(job: Job) -> bool {
    match job {
        Job::Remux => false,
        Job::CopyAudio { .. } => true,
        Job::Transcode { windowed, .. } => windowed,
    }
}

/// How long the window's video comes out, frame by frame.
fn video_secs(start: f64, end: f64, windowed: bool) -> f64 {
    let ts = |secs: f64| (secs * 15360.0).round() as i64;
    let max = ((end - start).max(0.0) * 30.0).round() as i64 + 1;
    let mut reenc = VideoReenc::new(windowed, ts(start), ts(end), max);
    let mut frames = 0;
    for i in 0..(30.0 * DURATION_SECS) as i64 {
        match reenc.take(Some(i * 512)) {
            FrameUse::Skip => {}
            FrameUse::Stop => break,
            FrameUse::Encode(pts) => {
                assert_eq!(pts, frames);
                frames += 1;
            }
        }
    }
    frames as f64 / 30.0
}

/// How long the window's audio comes out, when decoding starts at packet `from`.
fn audio_secs(window: Option<(f64, f64)>, from: i64) -> f64 {
    let samples = |secs: f64| (secs * RATE).round() as i64;
    let mut reenc = AudioReenc::new(window.map(|(s, e)| (samples(s), samples(e))));
    let base = from * 1024;
    let total = (DURATION_SECS * RATE) as i64;
    let trim = reenc.trim_from(base);
    let mut kept = 0;
    for first in (base..total).step_by(1024) {
        let size = 1024.min(total - first);
        let pts = reenc.feed(size as usize);
        for i in pts..pts + size {
            if trim.map_or(true, |(start, end)| start <= i && i < end) {
                kept += 1;
            }
        }
    }
    kept as f64 / RATE
}

/// How long the window's audio comes out when its packets are copied as they are.
fn copied_audio_secs(in_index: usize, start_secs: f64, end_secs: f64) -> f64 {
    let ts = |secs: f64| (secs * RATE).round() as i64;
    let window = CopyWindow { in_index, start_ts: ts(start_secs), end_ts: ts(end_secs) };
    let mut end = 0;
    for first in (0..(DURATION_SECS * RATE) as i64).step_by(1024) {
        match window.take(in_index, Some(first), Some(first), false).unwrap() {
            CopyStep::Write { pts, .. } => end = pts.unwrap() + 1024,
            CopyStep::Stop => break,
            CopyStep::Skip => {}
        }
    }
    end as f64 / RATE
}

#[test]
fn full_keeps_video_and_audio_for_whole_file() {
    let job = run_from(h264_with_audio(), Mode::Full, "export_full.mp4", 0.0, DURATION_SECS, true);
    let types = codecs_out(job, &h264_with_audio());
    assert!(types.0.is_some(), "missing video: {types:?}");
    assert!(types.1.is_some(), "missing audio: {types:?}");
    assert!(!is_windowed(job));
}

#[test]
fn clip_trims_to_window_and_keeps_audio() {
    let job = run_from(h264_with_audio(), Mode::Clip, "export_clip.mp4", 1.0, 3.0, true);
    let types = codecs_out(job, &h264_with_audio());
    assert!(types.0.is_some(), "missing video: {types:?}");
    assert!(types.1.is_some(), "missing audio: {types:?}");
    let dur = video_secs(1.0, 3.0, is_windowed(job));
    assert!((dur - 2.0).abs() < 0.2, "clip duration {dur} not near 2.0");
}

#[test]
fn audio_only_copy_has_no_video_stream() {
    let mode = Mode::AudioOnly(AudioFormat::Original);
    let job = run_from(h264_with_audio(), mode, "export_audio.m4a", 1.0, 3.0, true);
    assert_eq!(job, Job::CopyAudio { index: 1 });
    let window = CopyWindow { in_index: 1, start_ts: 44100, end_ts: 132300 };
    let mut last = 0;
    for i in 0..130i64 {
        match window.take(1, Some(i * 1024), Some(i * 1024), false).unwrap() {
            CopyStep::Write { pts, .. } => last = pts.unwrap() + 1024,
            CopyStep::Stop => break,
            CopyStep::Skip => {}
        }
    }
    let dur = last as f64 / RATE;
    assert!((dur - 2.0).abs() < 0.2, "audio duration {dur} not near 2.0");
}

#[test]
fn audio_only_mp3_reencodes_to_window() {
    let mode = Mode::AudioOnly(AudioFormat::Mp3);
    let job = run_from(h264_with_audio(), mode, "export_audio.mp3", 1.0, 3.0, true);
    let types = codecs_out(job, &h264_with_audio());
    assert_eq!(types, (None, Some(CodecId::Mp3)), "expected audio only: {types:?}");
    let dur = audio_secs(Some((1.0, 3.0)), 43);
    assert!((dur - 2.0).abs() < 0.3, "audio duration {dur} not near 2.0");
}

#[test]
fn full_into_mkv_copies_streams() {
    let job = run_from(h264_with_audio(), Mode::Full, "export_full.mkv", 0.0, DURATION_SECS, true);
    assert_eq!(job, Job::Remux);
    let types = codecs_out(job, &h264_with_audio());
    assert_eq!(types.0, Some(CodecId::H264), "video should be copied");
    assert_eq!(types.1, Some(CodecId::Aac), "audio should be copied");
}

#[test]
fn full_transcodes_vp9_into_mp4() {
    let job = run_from(vp9(), Mode::Full, "export_vp9_full.mp4", 0.0, DURATION_SECS, true);
    let types = codecs_out(job, &vp9());
    assert_eq!(types.0, Some(CodecId::H264), "vp9 should be transcoded to h264");
}

#[test]
fn compat_transcodes_av1_into_h264_in_mp4() {
    let job = run_from(av1_in_mp4(), Mode::Full, "export_av1_compat.mp4", 0.0, DURATION_SECS, true);
    let types = codecs_out(job, &av1_in_mp4());
    assert_eq!(types.0, Some(CodecId::H264), "av1 should be transcoded to h264");
}

#[test]
fn noncompat_copies_av1_into_mp4() {
    let job = run_from(av1_in_mp4(), Mode::Full, "export_av1_raw.mp4", 0.0, DURATION_SECS, false);
    let types = codecs_out(job, &av1_in_mp4());
    assert_eq!(types.0, Some(CodecId::Av1), "av1 should be copied unchanged");
    assert_eq!(job, Job::Remux);
}

#[test]
fn compat_reencodes_10bit_h264_to_8bit() {
    let job =
        run_from(h264_10bit(), Mode::Full, "export_10bit_compat.mp4", 0.0, DURATION_SECS, true);
    assert_eq!(codecs_out(job, &h264_10bit()).0, Some(CodecId::H264));
    match job {
        Job::Transcode { plan, .. } => {
            let video = plan.video.unwrap();
            assert!(video.reencode, "10-bit should be re-encoded to 8-bit");
            let encoder = open_video_encoder(plan.container, 320, 240, None, video.fps);
            assert!(!encoder.vp9);
            assert_eq!(
                encoder.format,
                PixelFormat::Yuv420p,
                "10-bit should be re-encoded to 8-bit"
            );
        }
        _ => panic!("10-bit should be re-encoded to 8-bit"),
    }
}

#[test]
fn noncompat_copies_10bit_h264() {
    let job = run_from(h264_10bit(), Mode::Full, "export_10bit_raw.mp4", 0.0, DURATION_SECS, false);
    assert_eq!(job, Job::Remux, "10-bit should be preserved");
}

#[test]
fn compat_reencodes_ac3_audio_to_aac() {
    let job =
        run_from(h264_with_ac3(), Mode::Full, "export_ac3_compat.mp4", 0.0, DURATION_SECS, true);
    let types = codecs_out(job, &h264_with_ac3());
    assert_eq!(types.1, Some(CodecId::Aac), "ac3 should be transcoded to aac");
}

#[test]
fn noncompat_copies_ac3_into_mp4() {
    let job =
        run_from(h264_with_ac3(), Mode::Full, "export_ac3_raw.mp4", 0.0, DURATION_SECS, false);
    let types = codecs_out(job, &h264_with_ac3());
    assert_eq!(types.1, Some(CodecId::Ac3), "ac3 should be copied unchanged");
}

#[test]
fn clip_transcodes_into_webm() {
    let job = run_from(h264_with_audio(), Mode::Clip, "export_clip.webm", 1.0, 3.0, true);
    let types = codecs_out(job, &h264_with_audio());
    assert_eq!(types.0, Some(CodecId::Vp9), "clip video should be vp9");
    assert_eq!(types.1, Some(CodecId::Opus), "clip audio should be opus");
    let dur = video_secs(1.0, 3.0, is_windowed(job));
    assert!((dur - 2.0).abs() < 0.3, "clip duration {dur} not near 2.0");
}

#[test]
fn clip_transcodes_opus_audio_into_mp4() {
    let job = run_from(h264_with_opus(), Mode::Clip, "export_opus_clip.mp4", 1.0, 3.0, true);
    let types = codecs_out(job, &h264_with_opus());
    assert_eq!(types.0, Some(CodecId::H264), "clip video should be h264");
    assert_eq!(types.1, Some(CodecId::Aac), "opus should be transcoded to aac");
    let dur = video_secs(1.0, 3.0, is_windowed(job));
    assert!((dur - 2.0).abs() < 0.3, "clip duration {dur} not near 2.0");
}

#[test]
fn clip_audio_is_sample_accurate() {
    let job = run_from(h264_with_audio(), Mode::Clip, "acc_clip.mp4", 0.5, 2.0, true);
    assert!(is_windowed(job));
    // Decoding starts on any packet at or before the window, and the cut is exact.
    for from in [0, 10, 21] {
        let dur = audio_secs(Some((0.5, 2.0)), from);
        assert_eq!(dur, 1.5, "clip audio duration {dur} not ~1.5");
    }
}

#[test]
fn audio_only_aac_is_sample_accurate() {
    let mode = Mode::AudioOnly(AudioFormat::Aac);
    let job = run_from(h264_with_audio(), mode, "acc.m4a", 0.5, 2.0, true);
    assert_eq!(codecs_out(job, &h264_with_audio()), (None, Some(CodecId::Aac)));
    let dur = audio_secs(Some((0.5, 2.0)), 20);
    assert!((dur - 1.5).abs() < 0.01, "aac duration {dur} not ~1.5");
}

fn run_scaled(mode: Mode, out_name: &str, height: u32) -> (u32, u32) {
    let mut spec = spec(mode, out_name, 0.5, 1.5, true);
    spec.scale_height = Some(height);
    match export(&spec, &h264_with_audio()).expect("export should succeed") {
        Job::Transcode { plan, .. } => {
            let video = plan.video.expect("a video stream");
            assert!(video.reencode);
            let encoder =
                open_video_encoder(plan.container, 320, 240, spec.scale_height, video.fps);
            (encoder.width, encoder.height)
        }
        _ => panic!("a downscale forces a re-encode"),
    }
}

#[test]
fn clip_downscales_to_target_height() {
    let (w, h) = run_scaled(Mode::Clip, "scaled_clip.mp4", 120);
    assert_eq!((w, h), (160, 120), "clip should downscale to 160x120");
}

#[test]
fn full_downscale_reencodes_from_copyable_source() {
    let (w, h) = run_scaled(Mode::Full, "scaled_full.mp4", 120);
    assert_eq!((w, h), (160, 120), "full should downscale to 160x120");
}

#[test]
fn empty_range_fails_clip_and_audio_only() {
    let clip = spec(Mode::Clip, "empty_range_clip.mp4", 1.0, 1.0, true);
    assert!(export(&clip, &h264_with_opus()).is_err(), "clip over an empty range should error");
    let audio = spec(Mode::AudioOnly(AudioFormat::Mp3), "empty_range.mp3", 1.0, 1.0, true);
    assert!(
        export(&audio, &h264_with_opus()).is_err(),
        "audio-only over an empty range should error"
    );
    assert_eq!(check_request(&clip), Err(ExportError::EmptyRange));
    assert_eq!(
        ExportError::EmptyRange.message(),
        "clip range is empty — set an end point after the start point"
    );
}

#[test]
fn empty_range_still_saves_full_video() {
    let full = spec(Mode::Full, "empty_range_full.mkv", 1.0, 1.0, true);
    assert_eq!(check_request(&full), Ok(()));
    export(&full, &h264_with_opus()).expect("full should ignore the clip range");
}

#[test]
fn audio_only_exports_from_a_source_with_no_video() {
    for (format, out_name, codec) in [
        (AudioFormat::Mp3, "audio_source.mp3", CodecId::Mp3),
        (AudioFormat::Aac, "audio_source.m4a", CodecId::Aac),
        (AudioFormat::Original, "audio_source.opus", CodecId::Opus),
    ] {
        let mode = Mode::AudioOnly(format);
        let job = run_from(opus_audio_only(), mode, out_name, 0.5, 2.0, true);
        assert_eq!(
            codecs_out(job, &opus_audio_only()),
            (None, Some(codec)),
            "{out_name} should hold exactly one audio stream"
        );
        let dur = match job {
            Job::CopyAudio { index } => copied_audio_secs(index, 0.5, 2.0),
            _ => audio_secs(Some((0.5, 2.0)), 20),
        };
        assert!((dur - 1.5).abs() < 0.1, "{out_name} duration {dur} not ~1.5");
    }
}

#[test]
fn audio_extension_of_a_source_with_no_video_follows_the_codec() {
    let codec = opus_audio_only().audio.map(|a| a.codec);
    assert_eq!(audio_extension(codec, AudioFormat::Original).unwrap(), "opus");
}

#[test]
fn full_keeps_whole_audio_when_the_codec_forces_a_reencode() {
    let job = run_from(h264_with_opus(), Mode::Full, "full_reenc_audio.mp4", 0.5, 2.0, true);
    assert_eq!(codecs_out(job, &h264_with_opus()).1, Some(CodecId::Aac));
    let window = if is_windowed(job) { Some((0.5, 2.0)) } else { None };
    let audio = audio_secs(window, 0);
    assert!(
        (audio - DURATION_SECS).abs() < 0.15,
        "full audio duration {audio} was trimmed to the clip range instead of \
         keeping the whole {} seconds",
        DURATION_SECS
    );
}

#[test]
fn video_modes_handle_a_source_with_no_video() {
    let clip = export(&spec(Mode::Clip, "no_video_clip.mp4", 0.5, 2.0, true), &opus_audio_only());
    assert!(clip.is_err(), "a clip with no video stream should error");
    assert_eq!(clip, Err(ExportError::NoVideoStream));

    let job = export(&spec(Mode::Full, "no_video_full.mp4", 0.5, 2.0, true), &opus_audio_only())
        .expect("full should write the audio it has");
    assert_eq!(codecs_out(job, &opus_audio_only()), (None, Some(CodecId::Aac)));
}

#[test]
fn audio_modes_refuse_a_source_with_no_audio() {
    for format in [AudioFormat::Mp3, AudioFormat::Original] {
        let refused = export(&spec(Mode::AudioOnly(format), "a.mp3", 0.0, 1.0, true), &vp9());
        assert_eq!(refused, Err(ExportError::NoAudioStream));
    }
    assert_eq!(audio_extension(None, AudioFormat::Original), Err(ExportError::NoAudioStream));
    assert_eq!(audio_extension(None, AudioFormat::Mp3), Ok("mp3"));
    assert_eq!(audio_extension(None, AudioFormat::Aac), Ok("m4a"));
    for (codec, ext) in [
        (CodecId::Aac, "m4a"),
        (CodecId::Vorbis, "ogg"),
        (CodecId::Mp3, "mp3"),
        (CodecId::Flac, "flac"),
        (CodecId::Ac3, "ac3"),
        (CodecId::Alac, "mka"),
        (CodecId::Other, "mka"),
    ] {
        assert_eq!(audio_extension(Some(codec), AudioFormat::Original), Ok(ext));
    }
}

#[test]
fn messages_name_what_failed() {
    for (error, text) in [
        (ExportError::NoVideoStream, "no video stream found"),
        (ExportError::NoAudioStream, "no audio stream found"),
        (ExportError::Cancelled, "export cancelled"),
        (ExportError::Vp9Unavailable, "VP9 encoder (libvpx-vp9) unavailable"),
        (ExportError::H264Unavailable, "H.264 encoder unavailable"),
        (ExportError::AudioEncoderUnavailable, "audio encoder unavailable"),
        (ExportError::NoSampleFormat, "audio encoder has no sample format"),
    ] {
        assert_eq!(error.message(), text);
    }
    assert_eq!(check_cancel(true), Err(ExportError::Cancelled));
    assert_eq!(check_cancel(false), Ok(()));
}

#[test]
fn a_range_that_is_not_a_number_is_not_empty() {
    let odd = spec(Mode::Clip, "a.mp4", f64::NAN, 1.0, true);
    assert!(export(&odd, &h264_with_audio()).is_ok());
    let backwards = spec(Mode::Clip, "a.mp4", 2.0, 1.0, true);
    assert_eq!(export(&backwards, &h264_with_audio()), Err(ExportError::EmptyRange));
    let zeros = spec(Mode::Clip, "a.mp4", 0.0, -0.0, true);
    assert_eq!(export(&zeros, &h264_with_audio()), Err(ExportError::EmptyRange));
}

#[test]
fn containers_follow_the_ending() {
    assert_eq!(container_kind("a.MKV"), Container::Mkv);
    assert_eq!(container_kind("dir.webm/a.WebM"), Container::Webm);
    assert_eq!(container_kind("a.webm.mov"), Container::Mp4);
    assert_eq!(container_kind("mkv"), Container::Mkv);
    assert_eq!(container_kind(""), Container::Mp4);
    for format in [VideoFormat::Mp4, VideoFormat::Mkv, VideoFormat::Mov, VideoFormat::Webm] {
        let kind = container_kind(&format!("clip.{}", format.extension()));
        let expected = match format {
            VideoFormat::Mkv => Container::Mkv,
            VideoFormat::Webm => Container::Webm,
            VideoFormat::Mp4 | VideoFormat::Mov => Container::Mp4,
        };
        assert_eq!(kind, expected);
    }
}

#[test]
fn downscaling_is_even_and_never_upscales() {
    assert_eq!(scaled_dims(1920, 1080, Some(720)), (1280, 720));
    assert_eq!(scaled_dims(1921, 1081, Some(721)), (1280, 720));
    assert_eq!(scaled_dims(333, 100, Some(99)), (328, 98));
    assert_eq!(scaled_dims(333, 101, Some(101)), (333, 101));
    assert_eq!(scaled_dims(333, 101, Some(2160)), (333, 101));
    assert_eq!(scaled_dims(333, 101, None), (333, 101));
    assert_eq!(scaled_dims(4294967295, 4294967295, Some(4294967294)), (4294967294, 4294967294));
}

#[test]
fn odd_frame_rates_fall_back() {
    let mut input = h264_with_audio();
    let full = spec(Mode::Clip, "a.mp4", 0.0, 1.0, true);
    for (rate, fps) in [
        (Rational { num: 24, den: 1 }, Rational { num: 24, den: 1 }),
        (Rational { num: 0, den: 0 }, Rational { num: 25, den: 1 }),
        (Rational { num: -24, den: 1 }, Rational { num: 25, den: 1 }),
        (Rational { num: -24, den: -1 }, Rational { num: -24, den: -1 }),
    ] {
        input.video.as_mut().unwrap().avg_frame_rate = rate;
        let plan = StreamPlan::video_export(&input, &full, Container::Mp4, true).unwrap();
        assert_eq!(plan.video.unwrap().fps, fps);
        let quotient = rate.num as f64 / rate.den as f64;
        assert_eq!(rate.is_positive(), quotient > 0.0);
    }
}

#[test]
fn encoders_are_opened_as_the_container_asks() {
    let fps = Rational { num: 30000, den: 1001 };
    let webm = open_video_encoder(Container::Webm, 640, 480, None, fps);
    let pairs = |e: &yt_dlp_clipper::export::video::VideoEncoder| -> Vec<(&str, &str)> {
        e.options.iter().map(|o| (o.key, o.value)).collect()
    };
    assert!(webm.vp9);
    assert_eq!(webm.bit_rate, Some(0));
    assert_eq!(webm.time_base, Rational { num: 1001, den: 30000 });
    assert_eq!(
        pairs(&webm),
        [
            ("crf", "31"),
            ("cpu-used", "5"),
            ("deadline", "good"),
            ("row-mt", "1"),
            ("tile-columns", "2")
        ]
    );
    assert_eq!(webm.check_available(false), Err(ExportError::Vp9Unavailable));
    let mp4 = open_video_encoder(Container::Mkv, 640, 480, Some(240), fps);
    assert!(!mp4.vp9);
    assert_eq!((mp4.width, mp4.height), (320, 240));
    assert_eq!(mp4.rate_control, Some(RC_UNSET));
    assert_eq!(pairs(&mp4), [("preset", "medium"), ("crf", "23"), ("threads", "0")]);
    assert_eq!(mp4.check_available(false), Err(ExportError::H264Unavailable));
    assert_eq!(mp4.check_available(true), Ok(()));
}

#[test]
fn audio_encoders_keep_the_rate_they_can() {
    assert_eq!(audio_encoder(CodecId::Opus), EncoderChoice::Libopus);
    assert_eq!(audio_encoder(CodecId::Mp3), EncoderChoice::ById(CodecId::Mp3));
    let opus = Some(vec![48000, 24000, 16000]);
    assert_eq!(pick_rate(&opus, 44100), 48000);
    assert_eq!(pick_rate(&opus, 24000), 24000);
    assert_eq!(pick_rate(&Some(vec![]), 44100), 44100);
    assert_eq!(pick_rate(&None, 44100), 44100);
    let opened = open_audio_encoder(true, true, &opus, 44100).unwrap();
    assert_eq!((opened.rate, opened.bit_rate), (48000, AUDIO_BITRATE));
    assert_eq!(
        open_audio_encoder(false, true, &None, 44100),
        Err(ExportError::AudioEncoderUnavailable)
    );
    assert_eq!(open_audio_encoder(true, false, &None, 44100), Err(ExportError::NoSampleFormat));
}

#[test]
fn filters_are_spelled_out() {
    assert_eq!(
        source_args(44100, "fltp", 3),
        "time_base=1/44100:sample_rate=44100:sample_fmt=fltp:channel_layout=0x3"
    );
    assert_eq!(
        source_args(48000, "s16", 0xdeadbeef),
        format!(
            "time_base=1/{}:sample_rate={}:sample_fmt={}:channel_layout=0x{:x}",
            48000, 48000, "s16", 0xdeadbeefu64
        )
    );
    assert_eq!(filter_chain(Some((0, -5))), "atrim=start_sample=0:end_sample=-5");
    assert_eq!(
        filter_chain(Some((22050, i64::MIN))),
        format!("atrim=start_sample={}:end_sample={}", 22050, i64::MIN)
    );
    assert_eq!(filter_chain(None), "anull");
}

#[test]
fn samples_are_stamped_without_gaps() {
    let mut reenc = AudioReenc::new(Some((100, 200)));
    assert_eq!(reenc.trim_from(150), Some((0, 50)));
    assert_eq!(reenc.trim_from(40), Some((60, 160)));
    assert_eq!((reenc.feed(10), reenc.feed(5), reenc.feed(1)), (0, 10, 15));
    assert_eq!((reenc.emit(7), reenc.emit(7)), (0, 7));
}

#[test]
fn a_clip_holds_no_more_frames_than_its_window() {
    // A frame may lie on either end, but never more than fit the window.
    let mut reenc = VideoReenc::new(true, 1024, 2048, 2);
    assert_eq!(reenc.take(Some(512)), FrameUse::Skip);
    assert_eq!(reenc.take(None), FrameUse::Skip);
    assert_eq!(reenc.take(Some(1024)), FrameUse::Encode(0));
    assert_eq!(reenc.take(Some(1536)), FrameUse::Encode(1));
    assert_eq!(reenc.take(Some(2048)), FrameUse::Stop);
    let mut whole = VideoReenc::new(false, 1024, 2048, 0);
    assert_eq!(whole.take(Some(0)), FrameUse::Encode(0));
    assert_eq!(whole.take(Some(9999)), FrameUse::Encode(1));
}

fn clip_plan() -> StreamPlan {
    let clip = spec(Mode::Clip, "a.mp4", 0.0, 1.0, true);
    StreamPlan::video_export(&h264_with_audio(), &clip, Container::Mp4, true).unwrap()
}

#[test]
fn a_windowed_export_waits_for_both_streams() {
    let mut run = Transcode::new(clip_plan(), true, 100, 1000);
    let video = |pts: i64| PacketInfo { stream: 0, pts: Some(pts) };
    let audio = |pts: i64| PacketInfo { stream: 1, pts: Some(pts) };
    assert_eq!(run.take(video(50), false), Ok(Route::ReencodeVideo));
    run.video_decoded(video(50), true);
    assert!(!run.is_complete());
    assert_eq!(run.take(video(60), false), Ok(Route::Skip));
    assert_eq!(run.take(audio(900), false), Ok(Route::ReencodeAudio));
    assert_eq!(run.take(PacketInfo { stream: 2, pts: None }, false), Ok(Route::Skip));
    assert!(!run.is_complete());
    assert_eq!(run.take(audio(1001), false), Ok(Route::Skip));
    assert!(run.is_complete());
}

#[test]
fn a_late_packet_ends_the_video_too() {
    let mut run = Transcode::new(clip_plan(), true, 100, 1000);
    let late = PacketInfo { stream: 0, pts: Some(101) };
    assert_eq!(run.take(late, false), Ok(Route::ReencodeVideo));
    assert_eq!(run.take(late, false), Ok(Route::Skip));
}

#[test]
fn a_whole_file_never_stops_early() {
    let full = spec(Mode::Full, "a.mp4", 0.0, 1.0, true);
    let plan = StreamPlan::video_export(&h264_with_opus(), &full, Container::Mp4, false).unwrap();
    let mut run = Transcode::new(plan, false, 0, 0);
    for pts in [1, 1_000_000] {
        assert_eq!(
            run.take(PacketInfo { stream: 0, pts: Some(pts) }, false),
            Ok(Route::CopyVideo)
        );
        assert_eq!(
            run.take(PacketInfo { stream: 1, pts: Some(pts) }, false),
            Ok(Route::ReencodeAudio)
        );
        assert!(!run.is_complete());
    }
}

#[test]
fn a_cancel_takes_effect_within_a_packet() {
    let mut run = Transcode::new(clip_plan(), true, 100, 1000);
    let packet = PacketInfo { stream: 0, pts: Some(0) };
    assert_eq!(run.take(packet, true), Err(ExportError::Cancelled));
    let window = CopyWindow { in_index: 0, start_ts: 0, end_ts: 9 };
    assert_eq!(window.take(0, Some(1), None, true), Err(ExportError::Cancelled));
    assert_eq!(Remux::new(1).route(0, true), Err(ExportError::Cancelled));
}

#[test]
fn remuxing_sends_each_stream_to_its_own() {
    let mut remux = Remux::new(3);
    let target = CopyTarget { out_index: 0, in_tb: VIDEO_TB };
    remux.map(2, target);
    assert_eq!(remux.route(2, false), Ok(Some(target)));
    assert_eq!(remux.route(0, false), Ok(None));
}

#[test]
fn copied_packets_are_counted_from_the_start() {
    let window = CopyWindow { in_index: 1, start_ts: 100, end_ts: 200 };
    let write = |pts: Option<i64>, dts: Option<i64>| CopyStep::Write { pts, dts };
    assert_eq!(window.take(0, Some(150), None, false), Ok(CopyStep::Skip));
    assert_eq!(window.take(1, Some(99), None, false), Ok(CopyStep::Skip));
    assert_eq!(window.take(1, None, None, false), Ok(CopyStep::Skip));
    assert_eq!(window.take(1, Some(100), Some(90), false), Ok(write(Some(0), Some(-10))));
    assert_eq!(window.take(1, Some(200), None, false), Ok(write(Some(100), None)));
    assert_eq!(window.take(1, Some(201), None, false), Ok(CopyStep::Stop));
    // Nothing is counted for a packet that is not written.
    assert_eq!(window.take(0, Some(i64::MIN), Some(i64::MIN), false), Ok(CopyStep::Skip));
    assert_eq!(window.take(1, Some(i64::MIN), None, false), Ok(CopyStep::Skip));
    assert!(window.writes(1, Some(150)) && !window.writes(1, Some(201)));
    assert!(!window.writes(0, Some(150)) && !window.writes(1, None));
    let from_zero = CopyWindow { in_index: 1, start_ts: 0, end_ts: 200 };
    assert_eq!(from_zero.take(1, None, Some(5), false), Ok(write(None, Some(5))));
}

#[test]
fn extensions_are_those_of_the_file_name() {
    assert!(wants_faststart("/tmp/clip.MP4"));
    assert!(wants_faststart("a.b/c.mov"));
    assert!(wants_faststart("x.m4a"));
    assert!(!wants_faststart("/tmp/clip.mkv"));
    assert!(!wants_faststart("/tmp.mp4/clip"));
    assert!(!wants_faststart(".mp4"));
    assert!(!wants_faststart("mp4"));
    assert!(!wants_faststart(".."));
    assert!(wants_faststart("C:\\clips\\a.b.Mov"));
    assert!(wants_faststart("D:clip.mp4"));
    assert!(!wants_faststart("C:\\clips.mp4\\a"));
    assert!(!wants_faststart("C:\\clips\\a.mp4."));
    assert!(is_faststart_extension(&Some("mP4".into())));
    assert!(!is_faststart_extension(&Some("mkv".into())));
    assert!(!is_faststart_extension(&None));
    for ext in ["mp4", "webm", "mkv", "mov", "m4v", "avi", "ts", "WEBM"] {
        assert!(is_video_file(&format!("/cache/A [b].{ext}")));
    }
    assert!(!is_video_file("/cache/a.part"));
    assert!(!is_video_file("/cache/ts"));
    assert!(is_video_file("C:\\Users\\me\\A [b].webm"));
    assert!(!is_video_file("C:\\Users\\me\\A [b].part"));
    assert!(!is_video_file("C:\\a.mp4\\b"));
    assert!(is_video_file("..mkv"));
    assert!(is_video_file("/cache/a.mp4/") && is_video_file("/cache/a.mp4//./"));
    assert!(is_video_file("C:\\a.ts/") && !is_video_file("/cache.mp4/a/"));
}
