//! Exporting a trimmed clip or an audio-only file.
//!
//! A clip's video is re-encoded so the cut begins exactly on the chosen `in`
//! frame, and its audio is re-encoded and trimmed to the exact sample (a stream
//! copy can't split a packet, so an exact `in`/`out` requires re-encoding).
//!
//! [`plan`] decides per stream whether to copy or re-encode; [`transcode`] says
//! what becomes of each packet when something is re-encoded, [`video`] and
//! [`audio`] what becomes of each decoded frame, and [`copy`] covers the paths
//! that move packets without decoding them.

pub mod audio;
pub mod copy;
pub mod plan;
pub mod transcode;
pub mod video;

use vstd::prelude::*;

use crate::double::Double;
use plan::{container_kind, CodecId, Source, StreamPlan};

verus! {

/// Output container for a video export (Full or Clip). Re-encodes target each
/// container's native codecs: H.264/AAC for MP4·MOV·MKV, VP9/Opus for WebM.
#[derive(Clone, Copy, PartialEq, Eq, Structural, Debug)]
pub enum VideoFormat {
    Mp4,
    Mkv,
    Mov,
    Webm,
}

impl VideoFormat {
    /// The file extension, without its dot.
    pub open spec fn ext(self) -> Seq<char> {
        match self {
            VideoFormat::Mp4 => "mp4"@,
            VideoFormat::Mkv => "mkv"@,
            VideoFormat::Mov => "mov"@,
            VideoFormat::Webm => "webm"@,
        }
    }

    /// The file extension, without its dot.
    pub fn extension(self) -> (ext: &'static str)
        ensures
            ext@ == self.ext(),
    {
        match self {
            VideoFormat::Mp4 => "mp4",
            VideoFormat::Mkv => "mkv",
            VideoFormat::Mov => "mov",
            VideoFormat::Webm => "webm",
        }
    }
}

/// Target codec/container for an audio-only export.
#[derive(Clone, Copy, PartialEq, Eq, Structural, Debug)]
pub enum AudioFormat {
    /// Re-encode to MP3 — the most universally playable audio format.
    Mp3,
    /// Re-encode to AAC in an `.m4a` container.
    Aac,
    /// Stream-copy the source audio losslessly into a fitting container.
    Original,
}

/// What to export.
#[derive(Clone, Copy, PartialEq, Eq, Structural, Debug)]
pub enum Mode {
    /// The whole file; what the container holds is copied.
    Full,
    /// The chosen range, re-encoded.
    Clip,
    /// Audio stream only, in the chosen format.
    AudioOnly(AudioFormat),
}

/// One export, as the user asked for it.
#[derive(Debug)]
pub struct ExportSpec {
    pub input: String,
    pub output: String,
    pub start_secs: Double,
    pub end_secs: Double,
    pub mode: Mode,
    /// Downscale video to at most this many lines tall (preserving aspect), when
    /// `Some` and the source is taller. `None` keeps the source resolution. Never
    /// upscales. Ignored for audio-only exports.
    pub scale_height: Option<u32>,
    /// Restrict an MP4/MOV export to codecs and pixel formats that play on every
    /// target device (phones and TVs, not just computers): only H.264 8-bit
    /// 4:2:0 video and AAC/MP3 audio are stream-copied, anything else is
    /// re-encoded. When `false`, any codec the container can hold is copied as-is
    /// (e.g. HEVC/AV1, 10-bit, HDR), trading reach for fidelity. Ignored for the
    /// MKV/WebM containers and for audio-only exports.
    pub compatibility_mode: bool,
}

/// Why an export stopped.
#[derive(Clone, Copy, PartialEq, Eq, Structural, Debug)]
pub enum ExportError {
    NoVideoStream,
    NoAudioStream,
    EmptyRange,
    Cancelled,
    Vp9Unavailable,
    H264Unavailable,
    AudioEncoderUnavailable,
    NoSampleFormat,
}

impl ExportError {
    /// What to tell the user.
    pub open spec fn text(self) -> Seq<char> {
        match self {
            ExportError::NoVideoStream => "no video stream found"@,
            ExportError::NoAudioStream => "no audio stream found"@,
            ExportError::EmptyRange =>
                "clip range is empty — set an end point after the start point"@,
            ExportError::Cancelled => "export cancelled"@,
            ExportError::Vp9Unavailable => "VP9 encoder (libvpx-vp9) unavailable"@,
            ExportError::H264Unavailable => "H.264 encoder unavailable"@,
            ExportError::AudioEncoderUnavailable => "audio encoder unavailable"@,
            ExportError::NoSampleFormat => "audio encoder has no sample format"@,
        }
    }

    /// What to tell the user.
    pub fn message(self) -> (text: &'static str)
        ensures
            text@ == self.text(),
    {
        match self {
            ExportError::NoVideoStream => "no video stream found",
            ExportError::NoAudioStream => "no audio stream found",
            ExportError::EmptyRange =>
                "clip range is empty — set an end point after the start point",
            ExportError::Cancelled => "export cancelled",
            ExportError::Vp9Unavailable => "VP9 encoder (libvpx-vp9) unavailable",
            ExportError::H264Unavailable => "H.264 encoder unavailable",
            ExportError::AudioEncoderUnavailable => "audio encoder unavailable",
            ExportError::NoSampleFormat => "audio encoder has no sample format",
        }
    }
}

/// How an export is carried out.
#[derive(Clone, Copy, PartialEq, Eq, Structural, Debug)]
pub enum Job {
    /// Copy every stream of the file.
    Remux,
    /// Follow the plan, over the chosen range when `windowed`.
    Transcode { plan: StreamPlan, windowed: bool },
    /// Copy the audio packets of the chosen range.
    CopyAudio { index: usize },
}

/// Whether the end of the range is at or before its start.
pub open spec fn is_empty_range(spec: ExportSpec) -> bool {
    spec.end_secs.at_most(spec.start_secs)
}

/// A zero-length range writes a container holding no samples, which players
/// reject as corrupt.
pub fn check_window(spec: &ExportSpec) -> (checked: Result<(), ExportError>)
    ensures
        checked == (if is_empty_range(*spec) {
            Err(ExportError::EmptyRange)
        } else {
            Ok(())
        }),
{
    if spec.end_secs.le(spec.start_secs) {
        Err(ExportError::EmptyRange)
    } else {
        Ok(())
    }
}

/// Stops the export once the user has cancelled it.
pub fn check_cancel(cancel: bool) -> (checked: Result<(), ExportError>)
    ensures
        checked == (if cancel {
            Err(ExportError::Cancelled)
        } else {
            Ok(())
        }),
{
    if cancel {
        Err(ExportError::Cancelled)
    } else {
        Ok(())
    }
}

/// Checks a request before its input is opened: only saving the whole file does
/// without a range.
pub fn check_request(spec: &ExportSpec) -> (checked: Result<(), ExportError>)
    ensures
        checked == (if spec.mode != Mode::Full && is_empty_range(*spec) {
            Err(ExportError::EmptyRange)
        } else {
            Ok(())
        }),
{
    match spec.mode {
        Mode::Full => Ok(()),
        Mode::Clip | Mode::AudioOnly(_) => check_window(spec),
    }
}

/// How `spec` is carried out on a file with these streams, or why it is not.
pub open spec fn job_of(spec: ExportSpec, source: Source) -> Result<Job, ExportError> {
    let container = plan::container_of(spec.output@);
    if spec.mode != Mode::Full && is_empty_range(spec) {
        Err(ExportError::EmptyRange)
    } else {
        match spec.mode {
            Mode::Full => Ok(
                if plan::planned(source, spec, container, false).copies_all() {
                    Job::Remux
                } else {
                    Job::Transcode {
                        plan: plan::planned(source, spec, container, false),
                        windowed: false,
                    }
                },
            ),
            Mode::Clip => if source.video is None {
                Err(ExportError::NoVideoStream)
            } else {
                Ok(
                    Job::Transcode {
                        plan: plan::planned(source, spec, container, true),
                        windowed: true,
                    },
                )
            },
            Mode::AudioOnly(format) => match source.audio {
                None => Err(ExportError::NoAudioStream),
                Some(audio) => Ok(
                    if format == AudioFormat::Original {
                        Job::CopyAudio { index: audio.index }
                    } else {
                        Job::Transcode {
                            plan: StreamPlan {
                                container,
                                video: None,
                                audio: Some(
                                    plan::AudioPlan {
                                        index: audio.index,
                                        in_tb: audio.time_base,
                                        encode_to: Some(
                                            if format == AudioFormat::Mp3 {
                                                CodecId::Mp3
                                            } else {
                                                CodecId::Aac
                                            },
                                        ),
                                    },
                                ),
                            },
                            windowed: true,
                        }
                    },
                ),
            },
        }
    }
}

/// Decides how to export a file with these streams.
pub fn export(spec: &ExportSpec, source: &Source) -> (job: Result<Job, ExportError>)
    ensures
        job == job_of(*spec, *source),
        job is Ok && spec.mode != Mode::Full ==> match job->Ok_0 {
            Job::Remux => false,
            Job::Transcode { windowed, .. } => windowed,
            Job::CopyAudio { .. } => spec.mode == Mode::AudioOnly(AudioFormat::Original),
        },
        job is Ok && spec.mode == Mode::Full ==> match job->Ok_0 {
            Job::Remux => true,
            Job::Transcode { windowed, .. } => !windowed,
            Job::CopyAudio { .. } => false,
        },
{
    match spec.mode {
        Mode::Full => export_full(spec, source),
        Mode::AudioOnly(format) => {
            if let Err(e) = check_window(spec) {
                return Err(e);
            }
            export_audio_only(spec, format, source)
        },
        Mode::Clip => {
            if let Err(e) = check_window(spec) {
                return Err(e);
            }
            export_clip(spec, source)
        },
    }
}

/// Save the whole file in the chosen container, stream-copying every stream that
/// the container can hold and re-encoding only those it cannot.
fn export_full(spec: &ExportSpec, source: &Source) -> (job: Result<Job, ExportError>)
    requires
        spec.mode == Mode::Full,
    ensures
        job == job_of(*spec, *source),
{
    match StreamPlan::video_export(source, spec, container_kind(spec.output.as_str()), false) {
        Ok(plan) => if plan.is_copy_only() {
            Ok(Job::Remux)
        } else {
            Ok(Job::Transcode { plan, windowed: false })
        },
        Err(e) => Err(e),
    }
}

/// Save a frame-accurate clip in the chosen container. Video is always
/// re-encoded for an exact `in` point; audio is re-encoded for an exact cut.
fn export_clip(spec: &ExportSpec, source: &Source) -> (job: Result<Job, ExportError>)
    requires
        spec.mode == Mode::Clip,
        !is_empty_range(*spec),
    ensures
        job == job_of(*spec, *source),
{
    match StreamPlan::video_export(source, spec, container_kind(spec.output.as_str()), true) {
        Ok(plan) => Ok(Job::Transcode { plan, windowed: true }),
        Err(e) => Err(e),
    }
}

/// Save the audio of the chosen range in `format`.
fn export_audio_only(spec: &ExportSpec, format: AudioFormat, source: &Source) -> (job: Result<
    Job,
    ExportError,
>)
    requires
        spec.mode == Mode::AudioOnly(format),
        !is_empty_range(*spec),
    ensures
        job == job_of(*spec, *source),
{
    let codec_id = match format {
        AudioFormat::Original => {
            return match source.audio {
                Some(audio) => Ok(Job::CopyAudio { index: audio.index }),
                None => Err(ExportError::NoAudioStream),
            };
        },
        AudioFormat::Mp3 => CodecId::Mp3,
        AudioFormat::Aac => CodecId::Aac,
    };
    match StreamPlan::audio_export(source, container_kind(spec.output.as_str()), codec_id) {
        Ok(plan) => Ok(Job::Transcode { plan, windowed: true }),
        Err(e) => Err(e),
    }
}

/// The extension of the container that holds a codec's packets as they are.
pub open spec fn copy_ext(codec: CodecId) -> Seq<char> {
    match codec {
        CodecId::Aac => "m4a"@,
        CodecId::Opus => "opus"@,
        CodecId::Vorbis => "ogg"@,
        CodecId::Mp3 => "mp3"@,
        CodecId::Flac => "flac"@,
        CodecId::Ac3 => "ac3"@,
        _ => "mka"@,
    }
}

/// Container extension that can losslessly hold `codec` via stream copy.
/// Matroska audio (`.mka`) is the catch-all for anything without a snug fit.
pub fn copy_container_ext(codec: CodecId) -> (ext: &'static str)
    ensures
        ext@ == copy_ext(codec),
{
    match codec {
        CodecId::Aac => "m4a",
        CodecId::Opus => "opus",
        CodecId::Vorbis => "ogg",
        CodecId::Mp3 => "mp3",
        CodecId::Flac => "flac",
        CodecId::Ac3 => "ac3",
        _ => "mka",
    }
}

/// File extension for an audio-only export in `format` of a file whose best audio
/// stream has the codec `source`. For a lossless copy this is the container that
/// fits the source codec; the other formats don't look at the source.
pub fn audio_extension(source: Option<CodecId>, format: AudioFormat) -> (ext: Result<
    &'static str,
    ExportError,
>)
    ensures
        format == AudioFormat::Mp3 ==> ext is Ok && ext->Ok_0@ == "mp3"@,
        format == AudioFormat::Aac ==> ext is Ok && ext->Ok_0@ == "m4a"@,
        format == AudioFormat::Original ==> match source {
            Some(codec) => ext is Ok && ext->Ok_0@ == copy_ext(codec),
            None => ext == Err::<&'static str, ExportError>(ExportError::NoAudioStream),
        },
{
    match format {
        AudioFormat::Mp3 => Ok("mp3"),
        AudioFormat::Aac => Ok("m4a"),
        AudioFormat::Original => match source {
            Some(codec) => Ok(copy_container_ext(codec)),
            None => Err(ExportError::NoAudioStream),
        },
    }
}

/// Saving the whole file ignores the range: moving its ends changes nothing.
pub proof fn law_full_ignores_the_range(spec: ExportSpec, other: ExportSpec, source: Source)
    requires
        spec.mode == Mode::Full,
        other == (ExportSpec {
            start_secs: other.start_secs,
            end_secs: other.end_secs,
            ..spec
        }),
    ensures
        job_of(spec, source) is Ok,
        job_of(spec, source) == job_of(other, source),
{
}

/// An empty range is refused whatever the file holds, unless the whole of it is
/// wanted, and a refused range is the only reason a file with both streams is.
pub proof fn law_empty_range_is_refused(spec: ExportSpec, source: Source)
    ensures
        spec.mode != Mode::Full && is_empty_range(spec) ==> job_of(spec, source) == Err::<
            Job,
            ExportError,
        >(ExportError::EmptyRange),
        source.video is Some && source.audio is Some && (spec.mode == Mode::Full
            || !is_empty_range(spec)) ==> job_of(spec, source) is Ok,
{
}

/// Only what the container cannot hold is re-encoded when the whole file is saved:
/// a file whose streams all fit at their own height is copied as it is.
pub proof fn law_full_copies_what_fits(spec: ExportSpec, source: Source)
    requires
        spec.mode == Mode::Full,
    ensures
        ({
            let container = plan::container_of(spec.output@);
            let compatible = spec.compatibility_mode;
            job_of(spec, source) == Ok::<Job, ExportError>(Job::Remux) <==> {
                &&& source.video matches Some(video) ==> plan::copies_video(
                    container,
                    video.codec,
                    video.format,
                    compatible,
                ) && !plan::is_too_tall(video.height, spec.scale_height)
                &&& source.audio matches Some(audio) ==> plan::holds_audio(
                    container,
                    audio.codec,
                    compatible,
                )
            }
        }),
{
}

/// Only saving the whole file leaves the chosen range: any other export copies the
/// audio packets of the range or transcodes the range, and a remux, or a transcode
/// that is not limited to the range, saves the whole file.
pub proof fn law_only_full_leaves_the_range(spec: ExportSpec, source: Source)
    ensures
        job_of(spec, source) matches Ok(job) ==> {
            &&& !(spec.mode is Full) ==> (job is CopyAudio || (job is Transcode
                && job->Transcode_windowed))
            &&& spec.mode is Full ==> (job is Remux || (job is Transcode
                && !job->Transcode_windowed))
        },
{
}

/// Which requests are refused, and why: a range that ends at or before its start
/// unless the whole file is saved, then a clip of a file without a picture, and the
/// sound of one without sound.
pub proof fn law_refusals_have_their_reason(spec: ExportSpec, source: Source)
    ensures
        ({
            let job = job_of(spec, source);
            let empty = spec.end_secs.at_most(spec.start_secs);
            &&& spec.mode is Full ==> job is Ok
            &&& spec.mode is Clip ==> {
                &&& job == Err::<Job, ExportError>(ExportError::EmptyRange) <==> empty
                &&& job == Err::<Job, ExportError>(ExportError::NoVideoStream) <==> !empty
                    && source.video is None
                &&& job is Ok <==> !empty && source.video is Some
            }
            &&& spec.mode is AudioOnly ==> {
                &&& job == Err::<Job, ExportError>(ExportError::EmptyRange) <==> empty
                &&& job == Err::<Job, ExportError>(ExportError::NoAudioStream) <==> !empty
                    && source.audio is None
                &&& job is Ok <==> !empty && source.audio is Some
            }
        }),
{
}

/// Audio-only takes the sound of the file alone, in the codec that was asked for, or
/// as it is where the original was.
pub proof fn law_audio_only_takes_the_sound(spec: ExportSpec, source: Source, format: AudioFormat)
    requires
        spec.mode == Mode::AudioOnly(format),
        !spec.end_secs.at_most(spec.start_secs),
        source.audio is Some,
    ensures
        ({
            let job = job_of(spec, source)->Ok_0;
            &&& job is CopyAudio <==> format is Original
            &&& job is CopyAudio ==> job->CopyAudio_index == source.audio->0.index
            &&& job is Transcode ==> {
                let plan = job->Transcode_plan;
                &&& plan.video is None
                &&& plan.audio is Some
                &&& plan.audio->0.index == source.audio->0.index
                &&& plan.audio->0.in_tb == source.audio->0.time_base
                &&& format is Mp3 ==> plan.audio->0.encode_to == Some(CodecId::Mp3)
                &&& format is Aac ==> plan.audio->0.encode_to == Some(CodecId::Aac)
            }
        }),
{
}

/// A clip carries the picture and the sound of the file, both re-encoded, and saving
/// the whole file drops neither.
pub proof fn law_video_exports_carry_both_streams(spec: ExportSpec, source: Source)
    requires
        !(spec.mode is AudioOnly),
        job_of(spec, source) is Ok,
    ensures
        ({
            let job = job_of(spec, source)->Ok_0;
            &&& spec.mode is Clip ==> job is Transcode
            &&& job is Transcode ==> {
                let plan = job->Transcode_plan;
                &&& plan.container == plan::container_of(spec.output@)
                &&& plan.video is Some <==> source.video is Some
                &&& plan.audio is Some <==> source.audio is Some
                &&& plan.video is Some ==> plan.video->0.index == source.video->0.index
                &&& plan.audio is Some ==> plan.audio->0.index == source.audio->0.index
                &&& spec.mode is Clip && plan.video is Some ==> plan.video->0.reencode
                &&& spec.mode is Clip && plan.audio is Some ==> plan.audio->0.encode_to is Some
            }
        }),
{
}

/// Saving the whole file copies it as it is exactly when each stream it has is of a
/// codec that the container takes, by name, and the picture is no taller than asked.
pub proof fn law_full_remuxes_by_codec(spec: ExportSpec, source: Source)
    requires
        spec.mode is Full,
    ensures
        ({
            let container = plan::container_of(spec.output@);
            let reach = spec.compatibility_mode;
            job_of(spec, source)->Ok_0 is Remux <==> {
                &&& source.video matches Some(video) ==> {
                    let codec = video.codec;
                    &&& spec.scale_height is Some ==> video.height <= spec.scale_height->0
                    &&& container is Webm ==> codec is Vp8 || codec is Vp9 || codec is Av1
                    &&& container is Mp4 && !reach ==> codec is H264 || codec is Hevc
                        || codec is Mpeg4 || codec is Av1
                    &&& container is Mp4 && reach ==> codec is H264 && !(video.format is Other)
                }
                &&& source.audio matches Some(audio) ==> {
                    let codec = audio.codec;
                    &&& container is Webm ==> codec is Opus || codec is Vorbis
                    &&& container is Mp4 && !reach ==> codec is Aac || codec is Mp3 || codec is Ac3
                        || codec is Alac
                    &&& container is Mp4 && reach ==> codec is Aac || codec is Mp3
                }
            }
        }),
{
}

/// A copied sound track gets a file that holds it: AAC goes into `m4a`, Vorbis into
/// `ogg`, MP3, Opus, FLAC and AC-3 into files of their own, and no other codec into
/// anything but Matroska audio; two codecs share an ending only there.
pub proof fn law_copied_sound_gets_its_own_ending(codec: CodecId, other: CodecId)
    ensures
        codec is Aac ==> copy_ext(codec) == "m4a"@,
        codec is Mp3 ==> copy_ext(codec) == "mp3"@,
        codec is Opus ==> copy_ext(codec) == "opus"@,
        codec is Vorbis ==> copy_ext(codec) == "ogg"@,
        codec is Flac ==> copy_ext(codec) == "flac"@,
        codec is Ac3 ==> copy_ext(codec) == "ac3"@,
        copy_ext(codec) != "mka"@ <==> codec is Aac || codec is Mp3 || codec is Opus
            || codec is Vorbis || codec is Flac || codec is Ac3,
        copy_ext(codec) == copy_ext(other) ==> codec == other || copy_ext(codec) == "mka"@,
{
    reveal_strlit("m4a");
    reveal_strlit("opus");
    reveal_strlit("ogg");
    reveal_strlit("mp3");
    reveal_strlit("flac");
    reveal_strlit("ac3");
    reveal_strlit("mka");
    assert(copy_ext(codec).len() == 3 || copy_ext(codec).len() == 4);
    assert(copy_ext(codec).len() == copy_ext(other).len() && copy_ext(codec)[0] == copy_ext(
        other,
    )[0] && copy_ext(codec)[1] == copy_ext(other)[1] && copy_ext(codec)[2] == copy_ext(other)[2]
        ==> codec == other || copy_ext(codec) == "mka"@);
    assert("mka"@.len() == 3 && "mka"@[0] == 'm' && "mka"@[1] == 'k');
    assert("m4a"@[1] == '4' && "ogg"@[0] == 'o' && "mp3"@[1] == 'p' && "ac3"@[0] == 'a');
    assert("opus"@.len() == 4 && "flac"@.len() == 4);
}

/// A file saved in a format is written in that format's container: the name it gets
/// leads back to it.
pub proof fn law_formats_name_their_container(stem: Seq<char>, format: VideoFormat)
    ensures
        ({
            let container = plan::container_of(stem + "."@ + format.ext());
            &&& format is Mkv <==> container is Mkv
            &&& format is Webm <==> container is Webm
            &&& format is Mp4 || format is Mov <==> container is Mp4
        }),
        format is Mp4 ==> format.ext() == "mp4"@,
        format is Mov ==> format.ext() == "mov"@,
{
    reveal_strlit("mp4");
    reveal_strlit("mkv");
    reveal_strlit("mov");
    reveal_strlit("webm");
    assert(crate::text::ascii_lowered("mp4"@) =~= "mp4"@);
    assert(crate::text::ascii_lowered("mkv"@) =~= "mkv"@);
    assert(crate::text::ascii_lowered("mov"@) =~= "mov"@);
    assert(crate::text::ascii_lowered("webm"@) =~= "webm"@);
    assert("webm"@.len() == 4 && "mp4"@.len() == 3 && "mov"@.len() == 3 && "mkv"@.len() == 3);
    assert("mkv"@[1] == 'k' && "mp4"@[1] == 'p' && "mov"@[1] == 'o');
    plan::law_container_goes_by_the_ending(stem, format.ext());
}

} // verus!
