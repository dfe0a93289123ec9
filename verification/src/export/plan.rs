//! Which source streams an export carries, and whether each is stream-copied or
//! re-encoded. The decision is made once, up front, so the choice between a pure
//! remux and a transcode rests on the same information the transcode acts on.

use vstd::prelude::*;

use super::{ExportError, ExportSpec};
use crate::text::{
    ascii_lowered, chars_of, find_last, is_word, last_to, lemma_last_to, slice_of, to_ascii_lowercase, Class,
};

verus! {

/// Frame rate assumed when a stream reports an invalid average frame rate.
pub const DEFAULT_FPS: i32 = 25;

/// The codecs the export rules tell apart.
#[derive(Clone, Copy, PartialEq, Eq, Structural, Debug)]
pub enum CodecId {
    H264,
    Hevc,
    Mpeg4,
    Av1,
    Vp8,
    Vp9,
    Aac,
    Mp3,
    Ac3,
    Alac,
    Opus,
    Vorbis,
    Flac,
    Other,
}

/// The pixel formats the export rules tell apart.
#[derive(Clone, Copy, PartialEq, Eq, Structural, Debug)]
pub enum PixelFormat {
    Yuv420p,
    Yuvj420p,
    Nv12,
    Other,
}

/// A fraction, as streams report their rates and time bases.
#[derive(Clone, Copy, PartialEq, Eq, Structural, Debug)]
pub struct Rational {
    pub num: i32,
    pub den: i32,
}

impl Rational {
    /// Whether the quotient is above zero, where anything positive over zero is.
    pub open spec fn positive(self) -> bool {
        (self.num > 0 && self.den >= 0) || (self.num < 0 && self.den < 0)
    }

    /// Whether the quotient is above zero.
    pub fn is_positive(self) -> (positive: bool)
        ensures
            positive == self.positive(),
    {
        (self.num > 0 && self.den >= 0) || (self.num < 0 && self.den < 0)
    }

    /// The fraction turned over.
    pub fn invert(self) -> (inverted: Rational)
        ensures
            inverted == (Rational { num: self.den, den: self.num }),
    {
        Rational { num: self.den, den: self.num }
    }
}

/// Container family of the output path, deciding which codecs can be copied and
/// which codecs a re-encode must target.
#[derive(Clone, Copy, PartialEq, Eq, Structural, Debug)]
pub enum Container {
    /// Matroska (`.mkv`) — accepts essentially any codec.
    Mkv,
    /// MP4/MOV family — a fixed set of codecs only.
    Mp4,
    /// WebM — VP8/VP9/AV1 video, Opus/Vorbis audio only.
    Webm,
}

/// What follows the last dot of `output`, or all of it, in lower case.
pub open spec fn ending(output: Seq<char>) -> Seq<char> {
    ascii_lowered(output.skip(last_to(output, output.len() as int, Class::Is('.'))))
}

/// The container family that a path names by its ending.
pub open spec fn container_of(output: Seq<char>) -> Container {
    if ending(output) == "mkv"@ {
        Container::Mkv
    } else if ending(output) == "webm"@ {
        Container::Webm
    } else {
        Container::Mp4
    }
}

/// The container family of `output`; anything unknown is written as MP4.
pub fn container_kind(output: &str) -> (container: Container)
    ensures
        container == container_of(output@),
{
    let chars = chars_of(output);
    let dot: usize = find_last(&chars, chars.len(), Class::Is('.'));
    let tail = slice_of(&chars, dot, chars.len());
    assert(tail@ == chars@.skip(dot as int));
    let lower = to_ascii_lowercase(&tail);
    if is_word(&lower, "mkv") {
        Container::Mkv
    } else if is_word(&lower, "webm") {
        Container::Webm
    } else {
        Container::Mp4
    }
}

/// Whether a container can hold a codec as a copied video stream.
pub open spec fn holds_video(container: Container, codec: CodecId, compatibility_mode: bool) -> bool {
    match container {
        Container::Mkv => true,
        Container::Mp4 => if compatibility_mode {
            codec == CodecId::H264
        } else {
            codec == CodecId::H264 || codec == CodecId::Hevc || codec == CodecId::Mpeg4 || codec
                == CodecId::Av1
        },
        Container::Webm => codec == CodecId::Vp8 || codec == CodecId::Vp9 || codec == CodecId::Av1,
    }
}

/// Whether a container can hold a codec as a copied audio stream.
pub open spec fn holds_audio(container: Container, codec: CodecId, compatibility_mode: bool) -> bool {
    match container {
        Container::Mkv => true,
        Container::Mp4 => {
            ||| codec == CodecId::Aac
            ||| codec == CodecId::Mp3
            ||| !compatibility_mode && (codec == CodecId::Ac3 || codec == CodecId::Alac)
        },
        Container::Webm => codec == CodecId::Opus || codec == CodecId::Vorbis,
    }
}

/// Whether `container` can hold `codec` as a video stream via stream copy. In
/// `compatibility_mode` the MP4/MOV family is narrowed to H.264 — the one video
/// codec every target device decodes — so HEVC/AV1/MPEG-4 are re-encoded rather
/// than copied into a file phones can't play.
pub fn video_fits(container: Container, codec: CodecId, compatibility_mode: bool) -> (fits: bool)
    ensures
        fits == holds_video(container, codec, compatibility_mode),
{
    match container {
        Container::Mkv => true,
        Container::Mp4 => match codec {
            CodecId::H264 => true,
            CodecId::Hevc | CodecId::Mpeg4 | CodecId::Av1 => !compatibility_mode,
            _ => false,
        },
        Container::Webm => matches!(codec, CodecId::Vp8 | CodecId::Vp9 | CodecId::Av1),
    }
}

/// Whether `container` can hold `codec` as an audio stream via stream copy. In
/// `compatibility_mode` the MP4/MOV family is narrowed to AAC/MP3 (AC-3 doesn't
/// decode on iOS, Apple Lossless doesn't on non-Apple devices), so those
/// re-encode.
pub fn audio_fits(container: Container, codec: CodecId, compatibility_mode: bool) -> (fits: bool)
    ensures
        fits == holds_audio(container, codec, compatibility_mode),
{
    match container {
        Container::Mkv => true,
        Container::Mp4 => match codec {
            CodecId::Aac | CodecId::Mp3 => true,
            CodecId::Ac3 | CodecId::Alac => !compatibility_mode,
            _ => false,
        },
        Container::Webm => matches!(codec, CodecId::Opus | CodecId::Vorbis),
    }
}

/// Whether a format is 8-bit 4:2:0, which phone and TV hardware decodes.
pub open spec fn plays_anywhere(format: PixelFormat) -> bool {
    format == PixelFormat::Yuv420p || format == PixelFormat::Yuvj420p || format == PixelFormat::Nv12
}

/// 8-bit 4:2:0 pixel formats a copied MP4 video stream can use and still decode
/// on phone/TV hardware. 10-bit (and 4:2:2/4:4:4) H.264 plays on computers but
/// not on most mobile decoders, so compatibility mode re-encodes it down to one
/// of these rather than stream-copying it.
pub fn pix_copy_safe(format: PixelFormat) -> (safe: bool)
    ensures
        safe == plays_anywhere(format),
{
    match format {
        PixelFormat::Yuv420p | PixelFormat::Yuvj420p | PixelFormat::Nv12 => true,
        PixelFormat::Other => false,
    }
}

/// Whether a video stream can be copied into a container and still play there.
pub open spec fn copies_video(
    container: Container,
    codec: CodecId,
    format: PixelFormat,
    compatibility_mode: bool,
) -> bool {
    &&& holds_video(container, codec, compatibility_mode)
    &&& compatibility_mode && container == Container::Mp4 ==> plays_anywhere(format)
}

/// Whether a video stream of `codec` in `format` can be stream-copied into
/// `container` and still play on every target device. Layers the
/// `compatibility_mode` pixel-format guard (MP4 only) on top of the container's
/// codec list.
pub fn video_copyable(
    container: Container,
    codec: CodecId,
    format: PixelFormat,
    compatibility_mode: bool,
) -> (copyable: bool)
    ensures
        copyable == copies_video(container, codec, format, compatibility_mode),
{
    video_fits(container, codec, compatibility_mode) && (!(compatibility_mode && matches!(
        container,
        Container::Mp4
    )) || pix_copy_safe(format))
}

/// `n` rounded down to an even number.
pub open spec fn even(n: int) -> int {
    n - n % 2
}

/// Whether a picture `h` lines tall has to be scaled down.
pub open spec fn is_too_tall(h: u32, max_height: Option<u32>) -> bool {
    max_height is Some && h > max_height->0
}

/// The size a picture is exported at.
pub open spec fn scaled(w: u32, h: u32, max_height: Option<u32>) -> (int, int) {
    if is_too_tall(h, max_height) {
        (even(w * max_height->0 / (h as int)), even(max_height->0 as int))
    } else {
        (w as int, h as int)
    }
}

fn even_down(n: u32) -> (even_n: u32)
    ensures
        even_n == even(n as int),
{
    assert(n & !1u32 == n - n % 2) by (bit_vector);
    n & !1
}

/// Output `w`×`h` for a source sized `w`×`h`, downscaled so the height is at
/// most `max_height` (aspect preserved, dimensions rounded down to even for
/// YUV 4:2:0). Returns the source size unchanged when no downscale is needed.
pub fn scaled_dims(w: u32, h: u32, max_height: Option<u32>) -> (dims: (u32, u32))
    ensures
        (dims.0 as int, dims.1 as int) == scaled(w, h, max_height),
{
    match max_height {
        Some(th) => {
            if h > th {
                assert(0 <= w * th <= u32::MAX * u32::MAX) by (nonlinear_arith)
                    requires
                        0 <= w <= u32::MAX,
                        0 <= th <= u32::MAX,
                ;
                assert(0 <= (w * th) / (h as int) <= w) by (nonlinear_arith)
                    requires
                        0 <= th < h,
                        0 <= w,
                ;
                let tw: u32 = (w as u64 * th as u64 / h as u64) as u32;
                (even_down(tw), even_down(th))
            } else {
                (w, h)
            }
        },
        None => (w, h),
    }
}

/// An export never grows the picture, and a picture that is scaled down comes out
/// with even sides and no taller than asked.
pub proof fn law_never_upscales(w: u32, h: u32, max_height: Option<u32>)
    ensures
        scaled(w, h, max_height).0 <= w,
        scaled(w, h, max_height).1 <= h,
        scaled(w, h, max_height) != (w as int, h as int) ==> {
            &&& scaled(w, h, max_height).0 % 2 == 0
            &&& scaled(w, h, max_height).1 % 2 == 0
            &&& scaled(w, h, max_height).1 <= max_height->0
        },
{
    if is_too_tall(h, max_height) {
        let th = max_height->0;
        assert(0 <= (w * th) / (h as int) <= w) by (nonlinear_arith)
            requires
                0 <= th < h,
                0 <= w,
        ;
    }
}

/// Audio codec a re-encode targets for `container`.
pub fn audio_encode_codec(container: Container) -> (codec: CodecId)
    ensures
        codec == encodes_to(container),
{
    match container {
        Container::Webm => CodecId::Opus,
        _ => CodecId::Aac,
    }
}

/// The audio codec native to a container.
pub open spec fn encodes_to(container: Container) -> CodecId {
    if container == Container::Webm {
        CodecId::Opus
    } else {
        CodecId::Aac
    }
}

/// What a source file reports of its best video stream.
#[derive(Clone, Copy, PartialEq, Eq, Structural, Debug)]
pub struct VideoSource {
    pub index: usize,
    pub time_base: Rational,
    pub avg_frame_rate: Rational,
    pub codec: CodecId,
    pub format: PixelFormat,
    pub height: u32,
}

/// What a source file reports of its best audio stream.
#[derive(Clone, Copy, PartialEq, Eq, Structural, Debug)]
pub struct AudioSource {
    pub index: usize,
    pub time_base: Rational,
    pub codec: CodecId,
}

/// The streams of a source file that an export can carry.
#[derive(Clone, Copy, PartialEq, Eq, Structural, Debug)]
pub struct Source {
    pub video: Option<VideoSource>,
    pub audio: Option<AudioSource>,
}

/// A source video stream and what the export does with it.
#[derive(Clone, Copy, PartialEq, Eq, Structural, Debug)]
pub struct VideoPlan {
    pub index: usize,
    pub in_tb: Rational,
    pub fps: Rational,
    /// Re-encode rather than stream-copy: the cut needs an exact `in` frame, the
    /// output is downscaled, or the container can't hold the source codec.
    pub reencode: bool,
}

/// A source audio stream and what the export does with it.
#[derive(Clone, Copy, PartialEq, Eq, Structural, Debug)]
pub struct AudioPlan {
    pub index: usize,
    pub in_tb: Rational,
    /// Codec a re-encode targets; `None` stream-copies the source.
    pub encode_to: Option<CodecId>,
}

/// Per-stream copy/re-encode decisions for one export, derived once from the
/// source so the choice between a pure remux and a transcode rests on the same
/// information the transcode then acts on.
#[derive(Clone, Copy, PartialEq, Eq, Structural, Debug)]
pub struct StreamPlan {
    pub container: Container,
    pub video: Option<VideoPlan>,
    pub audio: Option<AudioPlan>,
}

/// Whether a video stream has to be re-encoded: a clip needs an exact first
/// frame, a copy can't scale, and not every container holds every stream.
pub open spec fn must_reencode(
    source: VideoSource,
    spec: ExportSpec,
    container: Container,
    clip: bool,
) -> bool {
    ||| clip
    ||| is_too_tall(source.height, spec.scale_height)
    ||| !copies_video(container, source.codec, source.format, spec.compatibility_mode)
}

/// The plan for a source's video stream.
pub open spec fn planned_video(
    source: VideoSource,
    spec: ExportSpec,
    container: Container,
    clip: bool,
) -> VideoPlan {
    VideoPlan {
        index: source.index,
        in_tb: source.time_base,
        fps: if source.avg_frame_rate.positive() {
            source.avg_frame_rate
        } else {
            Rational { num: DEFAULT_FPS, den: 1 }
        },
        reencode: must_reencode(source, spec, container, clip),
    }
}

/// The plan for a source's audio stream.
pub open spec fn planned_audio(
    source: AudioSource,
    spec: ExportSpec,
    container: Container,
    clip: bool,
) -> AudioPlan {
    AudioPlan {
        index: source.index,
        in_tb: source.time_base,
        encode_to: if !clip && holds_audio(container, source.codec, spec.compatibility_mode) {
            None
        } else {
            Some(encodes_to(container))
        },
    }
}

/// The plan for a video export of a source.
pub open spec fn planned(source: Source, spec: ExportSpec, container: Container, clip: bool)
    -> StreamPlan {
    StreamPlan {
        container,
        video: match source.video {
            Some(video) => Some(planned_video(video, spec, container, clip)),
            None => None,
        },
        audio: match source.audio {
            Some(audio) => Some(planned_audio(audio, spec, container, clip)),
            None => None,
        },
    }
}

impl StreamPlan {
    /// Plan a Full or Clip export. A clip re-encodes both streams: video for a
    /// frame-accurate `in` point, audio for a sample-accurate one.
    pub fn video_export(
        source: &Source,
        spec: &ExportSpec,
        container: Container,
        clip: bool,
    ) -> (plan: Result<StreamPlan, ExportError>)
        ensures
            plan == (if clip && source.video is None {
                Err(ExportError::NoVideoStream)
            } else {
                Ok(planned(*source, *spec, container, clip))
            }),
            plan is Ok && plan->Ok_0.video is Some && !plan->Ok_0.video->0.reencode ==> {
                let codec = source.video->0.codec;
                &&& container == Container::Webm ==> codec is Vp8 || codec is Vp9 || codec is Av1
                &&& container == Container::Mp4 ==> codec is H264 || (!spec.compatibility_mode && (
                codec is Hevc || codec is Mpeg4 || codec is Av1))
                &&& container == Container::Mp4 && spec.compatibility_mode
                    ==> !(source.video->0.format is Other)
            },
            plan is Ok && plan->Ok_0.audio is Some && plan->Ok_0.audio->0.encode_to is None ==> {
                let codec = source.audio->0.codec;
                &&& container == Container::Webm ==> codec is Opus || codec is Vorbis
                &&& container == Container::Mp4 ==> codec is Aac || codec is Mp3 || (
                !spec.compatibility_mode && (codec is Ac3 || codec is Alac))
            },
    {
        let video = match source.video {
            Some(stream) => {
                let fps = if stream.avg_frame_rate.is_positive() {
                    stream.avg_frame_rate
                } else {
                    Rational { num: DEFAULT_FPS, den: 1 }
                };
                // A stream copy can't scale, so a downscale forces a re-encode.
                let is_downscaling = match spec.scale_height {
                    Some(th) => stream.height > th,
                    None => false,
                };
                let reencode = clip || is_downscaling || !video_copyable(
                    container,
                    stream.codec,
                    stream.format,
                    spec.compatibility_mode,
                );
                Some(VideoPlan { index: stream.index, in_tb: stream.time_base, fps, reencode })
            },
            None => None,
        };
        if clip && video.is_none() {
            return Err(ExportError::NoVideoStream);
        }
        let audio = match source.audio {
            Some(stream) => {
                let copyable = !clip && audio_fits(container, stream.codec, spec.compatibility_mode);
                let encode_to = if copyable {
                    None
                } else {
                    Some(audio_encode_codec(container))
                };
                Some(AudioPlan { index: stream.index, in_tb: stream.time_base, encode_to })
            },
            None => None,
        };
        Ok(StreamPlan { container, video, audio })
    }

    /// Plan an audio-only export re-encoding the audio stream to `codec_id`.
    pub fn audio_export(source: &Source, container: Container, codec_id: CodecId) -> (plan: Result<
        StreamPlan,
        ExportError,
    >)
        ensures
            plan == (match source.audio {
                None => Err(ExportError::NoAudioStream),
                Some(audio) => Ok(
                    StreamPlan {
                        container,
                        video: None,
                        audio: Some(
                            AudioPlan {
                                index: audio.index,
                                in_tb: audio.time_base,
                                encode_to: Some(codec_id),
                            },
                        ),
                    },
                ),
            }),
    {
        match source.audio {
            None => Err(ExportError::NoAudioStream),
            Some(stream) => Ok(
                StreamPlan {
                    container,
                    video: None,
                    audio: Some(
                        AudioPlan {
                            index: stream.index,
                            in_tb: stream.time_base,
                            encode_to: Some(codec_id),
                        },
                    ),
                },
            ),
        }
    }

    /// Whether nothing has to be decoded.
    pub open spec fn copies_all(self) -> bool {
        &&& self.video is Some ==> !self.video->0.reencode
        &&& self.audio is Some ==> self.audio->0.encode_to is None
    }

    /// Whether every stream can be stream-copied, making the export a pure remux.
    pub fn is_copy_only(&self) -> (copy_only: bool)
        ensures
            copy_only == self.copies_all(),
    {
        let video = match self.video {
            Some(video) => !video.reencode,
            None => true,
        };
        let audio = match self.audio {
            Some(audio) => audio.encode_to.is_none(),
            None => true,
        };
        video && audio
    }
}

/// A clip copies nothing: both its streams are re-encoded, so both are cut where
/// asked.
pub proof fn law_clip_reencodes_everything(source: Source, spec: ExportSpec, container: Container)
    ensures
        ({
            let plan = planned(source, spec, container, true);
            &&& plan.video is Some ==> plan.video->0.reencode
            &&& plan.audio is Some ==> plan.audio->0.encode_to == Some(encodes_to(container))
        }),
{
}

/// The video a re-encode makes for `container`, by codec and pixel format.
pub open spec fn encodes_video_to(container: Container) -> (CodecId, PixelFormat) {
    if container == Container::Webm {
        (CodecId::Vp9, PixelFormat::Yuv420p)
    } else {
        (CodecId::H264, PixelFormat::Yuv420p)
    }
}

/// What a re-encode makes fits the container that asked for it, even where every
/// device has to play it, so exporting the result again would copy it.
pub proof fn law_reencodes_to_what_fits(container: Container, compatibility_mode: bool)
    ensures
        holds_audio(container, encodes_to(container), compatibility_mode),
        copies_video(
            container,
            encodes_video_to(container).0,
            encodes_video_to(container).1,
            compatibility_mode,
        ),
{
}

/// Asking for reach copies less, never more: what compatibility mode copies is
/// copied without it too, and outside MP4/MOV it changes nothing.
pub proof fn law_compatibility_only_narrows(
    container: Container,
    codec: CodecId,
    format: PixelFormat,
)
    ensures
        copies_video(container, codec, format, true) ==> copies_video(
            container,
            codec,
            format,
            false,
        ),
        holds_audio(container, codec, true) ==> holds_audio(container, codec, false),
        container != Container::Mp4 ==> copies_video(container, codec, format, true)
            == copies_video(container, codec, format, false) && holds_audio(container, codec, true)
            == holds_audio(container, codec, false),
{
}

/// A Matroska file takes any stream as it is: saving the whole file into one at its
/// own height is a pure remux.
pub proof fn law_matroska_copies_everything(source: Source, spec: ExportSpec)
    requires
        source.video is Some ==> !is_too_tall(source.video->0.height, spec.scale_height),
    ensures
        planned(source, spec, Container::Mkv, false).copies_all(),
{
}

/// What is copied into each container, by codec: VP8, VP9 and AV1 with Opus and Vorbis
/// into WebM; H.264, HEVC, MPEG-4 and AV1 with AAC, MP3, AC-3 and ALAC into MP4/MOV,
/// where compatibility mode leaves H.264 in 8-bit 4:2:0 with AAC and MP3; anything
/// into Matroska. A clip copies nothing, and a picture taller than asked is not
/// copied; everything else on these lists is.
pub proof fn law_copies_by_codec(
    source: Source,
    spec: ExportSpec,
    container: Container,
    clip: bool,
)
    ensures
        ({
            let plan = planned(source, spec, container, clip);
            let reach = spec.compatibility_mode;
            &&& source.video matches Some(video) ==> {
                let codec = video.codec;
                let taller = spec.scale_height is Some && video.height > spec.scale_height->0;
                !plan.video->0.reencode <==> {
                    &&& !clip
                    &&& !taller
                    &&& container is Webm ==> codec is Vp8 || codec is Vp9 || codec is Av1
                    &&& container is Mp4 && !reach ==> codec is H264 || codec is Hevc
                        || codec is Mpeg4 || codec is Av1
                    &&& container is Mp4 && reach ==> codec is H264 && (video.format is Yuv420p
                        || video.format is Yuvj420p || video.format is Nv12)
                }
            }
            &&& source.audio matches Some(audio) ==> {
                let codec = audio.codec;
                plan.audio->0.encode_to is None <==> {
                    &&& !clip
                    &&& container is Webm ==> codec is Opus || codec is Vorbis
                    &&& container is Mp4 && !reach ==> codec is Aac || codec is Mp3 || codec is Ac3
                        || codec is Alac
                    &&& container is Mp4 && reach ==> codec is Aac || codec is Mp3
                }
            }
        }),
{
}

/// A plan carries what the source has and nothing else: each stream keeps its index
/// and its time base, the picture its frame rate unless the source reports none, and
/// re-encoded sound becomes Opus in WebM and AAC anywhere else.
pub proof fn law_plan_carries_the_source(
    source: Source,
    spec: ExportSpec,
    container: Container,
    clip: bool,
)
    ensures
        ({
            let plan = planned(source, spec, container, clip);
            &&& plan.container == container
            &&& plan.video is Some <==> source.video is Some
            &&& plan.audio is Some <==> source.audio is Some
            &&& source.video matches Some(video) ==> {
                let rate = video.avg_frame_rate;
                &&& plan.video->0.index == video.index
                &&& plan.video->0.in_tb == video.time_base
                &&& rate.num > 0 && rate.den > 0 ==> plan.video->0.fps == rate
                &&& rate.num == 0 || (rate.num < 0 && rate.den >= 0) || (rate.num > 0 && rate.den
                    < 0) ==> plan.video->0.fps.num == 25 && plan.video->0.fps.den == 1
            }
            &&& source.audio matches Some(audio) ==> {
                &&& plan.audio->0.index == audio.index
                &&& plan.audio->0.in_tb == audio.time_base
                &&& plan.audio->0.encode_to is Some && container is Webm
                    ==> plan.audio->0.encode_to->0 is Opus
                &&& plan.audio->0.encode_to is Some && !(container is Webm)
                    ==> plan.audio->0.encode_to->0 is Aac
            }
        }),
{
}

/// A picture keeps its shape: no taller than asked it keeps its size, and scaled down
/// it comes out at the height asked for and the width in proportion, each rounded down
/// to an even number.
pub proof fn law_scaling_keeps_the_shape(w: u32, h: u32, max_height: Option<u32>)
    ensures
        max_height is None ==> scaled(w, h, max_height) == (w as int, h as int),
        max_height is Some && h <= max_height->0 ==> scaled(w, h, max_height) == (
            w as int,
            h as int,
        ),
        max_height is Some && h > max_height->0 ==> {
            let (out_w, out_h) = scaled(w, h, max_height);
            &&& out_w % 2 == 0
            &&& out_h % 2 == 0
            &&& max_height->0 - 1 <= out_h <= max_height->0
            &&& out_w * h <= w * max_height->0 < (out_w + 2) * h
        },
{
    if max_height is Some && h > max_height->0 {
        let exact = w * max_height->0;
        let d = h as int;
        let q = exact / d;
        assert(q * d <= exact < (q + 1) * d) by (nonlinear_arith)
            requires
                q == exact / d,
                d > 0,
                exact >= 0,
        ;
        assert(exact >= 0) by (nonlinear_arith)
            requires
                exact == w * max_height->0,
        ;
        let even_q = q - q % 2;
        assert(even_q * d <= q * d) by (nonlinear_arith)
            requires
                even_q <= q,
                d > 0,
        ;
        assert((q + 1) * d <= (even_q + 2) * d) by (nonlinear_arith)
            requires
                q + 1 <= even_q + 2,
                d > 0,
        ;
    }
}

/// The container goes by what follows the last dot of the name, in any letter case,
/// whatever comes before that dot.
pub proof fn law_container_goes_by_the_ending(stem: Seq<char>, ext: Seq<char>)
    requires
        !ext.contains('.'),
    ensures
        container_of(stem + "."@ + ext) is Mkv <==> ascii_lowered(ext) == "mkv"@,
        container_of(stem + "."@ + ext) is Webm <==> ascii_lowered(ext) == "webm"@,
        container_of(stem + "."@ + ext) is Mp4 <==> ascii_lowered(ext) != "mkv"@ && ascii_lowered(
            ext,
        ) != "webm"@,
{
    reveal_strlit(".");
    reveal_strlit("mkv");
    reveal_strlit("webm");
    assert("mkv"@.len() != "webm"@.len());
    let name = stem + "."@ + ext;
    let dot = stem.len() as int;
    let at = last_to(name, name.len() as int, Class::Is('.'));
    lemma_last_to(name, name.len() as int, Class::Is('.'));
    assert(name[dot] == '.');
    if at > dot + 1 {
        assert(name[at - 1] == ext[at - 2 - dot]);
        assert(ext.contains(name[at - 1]));
    }
    assert(at == dot + 1);
    assert(name.skip(at) == ext);
}

} // verus!
