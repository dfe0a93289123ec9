//! Video re-encoding: the encoder a container calls for, and which decoded frames
//! go into it.

use vstd::prelude::*;

use super::plan::{
    encodes_video_to, scaled, scaled_dims, CodecId, Container, PixelFormat, Rational,
};
use super::ExportError;

verus! {

/// Sentinel telling the codec library that a rate-control field is unset, so the
/// encoder's own (preset-derived) value is used instead.
pub const RC_UNSET: i32 = -1;

/// An encoder option by name.
#[derive(Clone, Copy, Debug)]
pub struct EncoderOption {
    pub key: &'static str,
    pub value: &'static str,
}

/// What a video encoder is opened with.
#[derive(Debug)]
pub struct VideoEncoder {
    /// Ask for libvpx-vp9 rather than whatever encodes H.264.
    pub vp9: bool,
    pub width: u32,
    pub height: u32,
    /// What frames are converted to before they are encoded.
    pub format: PixelFormat,
    pub frame_rate: Rational,
    pub time_base: Rational,
    /// Constant quality wants the bit rate set to zero.
    pub bit_rate: Option<usize>,
    /// Value for the quantiser, motion and keyframe fields, where they are set.
    pub rate_control: Option<i32>,
    pub options: Vec<EncoderOption>,
}

/// The names and values of encoder options, in order.
pub open spec fn texts(options: Seq<EncoderOption>) -> Seq<(Seq<char>, Seq<char>)> {
    options.map_values(|o: EncoderOption| (o.key@, o.value@))
}

/// VP9 in constant-quality mode, its rows and tiles encoded in parallel.
pub open spec fn vp9_options() -> Seq<(Seq<char>, Seq<char>)> {
    seq![
        ("crf"@, "31"@),
        ("cpu-used"@, "5"@),
        ("deadline"@, "good"@),
        ("row-mt"@, "1"@),
        ("tile-columns"@, "2"@),
    ]
}

/// H.264 at the usual quality, on as many threads as there are cores.
pub open spec fn h264_options() -> Seq<(Seq<char>, Seq<char>)> {
    seq![("preset"@, "medium"@), ("crf"@, "23"@), ("threads"@, "0"@)]
}

/// The encoder for a `w`×`h` source in `container`: H.264 for MP4/MOV/MKV, VP9 for
/// WebM, in 8 bits with the colour halved both ways, scaled down to `max_height` where
/// that is lower.
pub fn open_video_encoder(
    container: Container,
    w: u32,
    h: u32,
    max_height: Option<u32>,
    fps: Rational,
) -> (encoder: VideoEncoder)
    ensures
        encoder.vp9 == (container == Container::Webm),
        (encoder.width as int, encoder.height as int) == scaled(w, h, max_height),
        encoder.format == PixelFormat::Yuv420p,
        (encoder.codec(), encoder.format) == encodes_video_to(container),
        encoder.frame_rate == fps,
        encoder.time_base == (Rational { num: fps.den, den: fps.num }),
        !encoder.vp9 ==> encoder.rate_control == Some(-1i32),
        encoder.vp9 ==> encoder.bit_rate == Some(0usize) && encoder.rate_control is None
            && texts(encoder.options@) == vp9_options(),
        !encoder.vp9 ==> encoder.bit_rate is None && encoder.rate_control == Some(RC_UNSET)
            && texts(encoder.options@) == h264_options(),
{
    let (width, height) = scaled_dims(w, h, max_height);
    let vp9 = matches!(container, Container::Webm);
    let mut options: Vec<EncoderOption> = Vec::new();
    if vp9 {
        options.push(EncoderOption { key: "crf", value: "31" });
        options.push(EncoderOption { key: "cpu-used", value: "5" });
        options.push(EncoderOption { key: "deadline", value: "good" });
        // Row-level MT lets libvpx-vp9 encode rows in parallel; tile-columns
        // (log2) divides the frame into independently-encodable vertical slices.
        options.push(EncoderOption { key: "row-mt", value: "1" });
        options.push(EncoderOption { key: "tile-columns", value: "2" });
        assert(texts(options@) == vp9_options());
    } else {
        options.push(EncoderOption { key: "preset", value: "medium" });
        options.push(EncoderOption { key: "crf", value: "23" });
        options.push(EncoderOption { key: "threads", value: "0" });
        assert(texts(options@) == h264_options());
    }
    VideoEncoder {
        vp9,
        width,
        height,
        format: PixelFormat::Yuv420p,
        frame_rate: fps,
        time_base: fps.invert(),
        bit_rate: if vp9 {
            Some(0)
        } else {
            None
        },
        rate_control: if vp9 {
            None
        } else {
            Some(RC_UNSET)
        },
        options,
    }
}

impl VideoEncoder {
    /// The codec it encodes to.
    pub open spec fn codec(self) -> CodecId {
        if self.vp9 {
            CodecId::Vp9
        } else {
            CodecId::H264
        }
    }

    /// What to report when the codec library has no such encoder.
    pub fn check_available(&self, found: bool) -> (checked: Result<(), ExportError>)
        ensures
            checked == (if found {
                Ok(())
            } else if self.vp9 {
                Err(ExportError::Vp9Unavailable)
            } else {
                Err(ExportError::H264Unavailable)
            }),
    {
        if found {
            Ok(())
        } else if self.vp9 {
            Err(ExportError::Vp9Unavailable)
        } else {
            Err(ExportError::H264Unavailable)
        }
    }
}

/// What becomes of a decoded frame.
#[derive(Clone, Copy, PartialEq, Eq, Structural, Debug)]
pub enum FrameUse {
    /// It comes before the window.
    Skip,
    /// The window is over.
    Stop,
    /// Encode it with this timestamp.
    Encode(i64),
}

/// A video stream being re-encoded, optionally trimmed to a window.
#[derive(Clone, Copy, PartialEq, Eq, Structural, Debug)]
pub struct VideoReenc {
    pub windowed: bool,
    pub v_start: i64,
    pub v_end: i64,
    pub max_out_frames: i64,
    /// The timestamp of the next frame to encode, counting from zero.
    pub out_pts: i64,
}

impl VideoReenc {
    /// What becomes of a frame stamped `pts`; one without a stamp counts as zero.
    pub open spec fn use_of(self, pts: Option<i64>) -> FrameUse {
        let pts = if pts is Some {
            pts->0
        } else {
            0
        };
        if self.windowed && pts < self.v_start {
            FrameUse::Skip
        } else if self.windowed && (pts > self.v_end || self.out_pts >= self.max_out_frames) {
            FrameUse::Stop
        } else {
            FrameUse::Encode(self.out_pts)
        }
    }

    /// The stream once it has been given a frame.
    pub open spec fn after(self, pts: Option<i64>) -> VideoReenc {
        match self.use_of(pts) {
            FrameUse::Encode(_) => VideoReenc { out_pts: (self.out_pts + 1) as i64, ..self },
            _ => self,
        }
    }

    /// Starts with no frame encoded.
    pub fn new(windowed: bool, v_start: i64, v_end: i64, max_out_frames: i64) -> (reenc: VideoReenc)
        ensures
            reenc == (VideoReenc { windowed, v_start, v_end, max_out_frames, out_pts: 0 }),
    {
        VideoReenc { windowed, v_start, v_end, max_out_frames, out_pts: 0 }
    }

    /// Takes the next decoded frame and says what becomes of it.
    pub fn take(&mut self, pts: Option<i64>) -> (what: FrameUse)
        requires
            old(self).out_pts < i64::MAX,
        ensures
            what == old(self).use_of(pts),
            *final(self) == old(self).after(pts),
    {
        let pts: i64 = match pts {
            Some(pts) => pts,
            None => 0,
        };
        if self.windowed {
            if pts < self.v_start {
                return FrameUse::Skip;
            }
            if pts > self.v_end || self.out_pts >= self.max_out_frames {
                return FrameUse::Stop;
            }
        }
        let stamp: i64 = self.out_pts;
        self.out_pts = self.out_pts + 1;
        FrameUse::Encode(stamp)
    }
}

/// The timestamps of the frames that are encoded out of a run of decoded ones.
pub open spec fn encoded(reenc: VideoReenc, frames: Seq<i64>) -> Seq<i64>
    decreases frames.len(),
{
    if frames.len() == 0 {
        Seq::empty()
    } else {
        let pts = frames[0];
        let rest = frames.skip(1);
        match reenc.use_of(Some(pts)) {
            FrameUse::Skip => encoded(reenc, rest),
            FrameUse::Stop => Seq::empty(),
            FrameUse::Encode(_) => seq![pts] + encoded(reenc.after(Some(pts)), rest),
        }
    }
}

/// The frames of a run that lie in a range, both ends included.
pub open spec fn in_range(frames: Seq<i64>, start: i64, end: i64) -> Seq<i64>
    decreases frames.len(),
{
    if frames.len() == 0 {
        Seq::empty()
    } else if start <= frames[0] <= end {
        seq![frames[0]] + in_range(frames.skip(1), start, end)
    } else {
        in_range(frames.skip(1), start, end)
    }
}

proof fn lemma_nothing_in_range(frames: Seq<i64>, start: i64, end: i64)
    requires
        forall|i: int| 0 <= i < frames.len() ==> #[trigger] frames[i] > end,
    ensures
        in_range(frames, start, end) == Seq::<i64>::empty(),
    decreases frames.len(),
{
    if frames.len() > 0 {
        let rest = frames.skip(1);
        assert forall|i: int| 0 <= i < rest.len() implies #[trigger] rest[i] > end by {
            assert(rest[i] == frames[i + 1]);
        }
        lemma_nothing_in_range(rest, start, end);
    }
}

/// A clip holds exactly the frames of its window, in their order, up to the number
/// that the window is long: the first lies at or after the start, none after the
/// end.
pub proof fn law_clip_is_the_window(reenc: VideoReenc, frames: Seq<i64>)
    requires
        reenc.windowed,
        0 <= reenc.out_pts <= reenc.max_out_frames,
        forall|i: int, j: int|
            0 <= i < j < frames.len() ==> #[trigger] frames[i] < #[trigger] frames[j],
    ensures
        ({
            let all = in_range(frames, reenc.v_start, reenc.v_end);
            let room = reenc.max_out_frames - reenc.out_pts;
            encoded(reenc, frames) == all.take(
                if all.len() <= room {
                    all.len() as int
                } else {
                    room
                },
            )
        }),
    decreases frames.len(),
{
    let all = in_range(frames, reenc.v_start, reenc.v_end);
    let room = reenc.max_out_frames - reenc.out_pts;
    if frames.len() > 0 {
        let pts = frames[0];
        let rest = frames.skip(1);
        assert forall|i: int, j: int| 0 <= i < j < rest.len() implies #[trigger] rest[i]
            < #[trigger] rest[j] by {
            assert(rest[i] == frames[i + 1] && rest[j] == frames[j + 1]);
        }
        match reenc.use_of(Some(pts)) {
            FrameUse::Skip => {
                law_clip_is_the_window(reenc, rest);
            },
            FrameUse::Stop => {
                if pts > reenc.v_end {
                    assert forall|i: int| 0 <= i < frames.len() implies #[trigger] frames[i]
                        > reenc.v_end by {
                        assert(i > 0 ==> frames[0] < frames[i]);
                    }
                    lemma_nothing_in_range(frames, reenc.v_start, reenc.v_end);
                } else {
                    assert(room == 0);
                }
                assert(encoded(reenc, frames) == all.take(
                    if all.len() <= room {
                        all.len() as int
                    } else {
                        room
                    },
                ));
            },
            FrameUse::Encode(_) => {
                let next = reenc.after(Some(pts));
                law_clip_is_the_window(next, rest);
                let tail = in_range(rest, reenc.v_start, reenc.v_end);
                let n = if tail.len() <= room - 1 {
                    tail.len() as int
                } else {
                    room - 1
                };
                assert(all == seq![pts] + tail);
                assert(all.take(n + 1) == seq![pts] + tail.take(n));
            },
        }
    }
}

/// Saving the whole file encodes every frame.
pub proof fn law_whole_file_keeps_every_frame(reenc: VideoReenc, frames: Seq<i64>)
    requires
        !reenc.windowed,
    ensures
        encoded(reenc, frames) == frames,
    decreases frames.len(),
{
    if frames.len() > 0 {
        law_whole_file_keeps_every_frame(reenc.after(Some(frames[0])), frames.skip(1));
        assert(seq![frames[0]] + frames.skip(1) == frames);
    }
}

/// Each frame is judged by its stamp, a missing one counting as zero: before the window
/// it is passed over, past it or past the number of frames wanted it ends the clip, and
/// otherwise it is encoded, stamped with how many were encoded before it. Without a
/// window every frame is.
pub proof fn law_frames_are_numbered_as_they_come(reenc: VideoReenc, pts: Option<i64>)
    requires
        reenc.out_pts < i64::MAX,
    ensures
        ({
            let at = if pts is Some {
                pts->0
            } else {
                0i64
            };
            let what = reenc.use_of(pts);
            let next = reenc.after(pts);
            &&& what is Skip <==> reenc.windowed && at < reenc.v_start
            &&& what is Stop <==> reenc.windowed && at >= reenc.v_start && (at > reenc.v_end
                || reenc.out_pts >= reenc.max_out_frames)
            &&& what is Encode ==> what->Encode_0 == reenc.out_pts && next.out_pts == reenc.out_pts
                + 1
            &&& !(what is Encode) ==> next.out_pts == reenc.out_pts
            &&& next == (VideoReenc { out_pts: next.out_pts, ..reenc })
        }),
{
}

/// A re-encode makes VP9 for WebM and H.264 for anything else, in 8-bit 4:2:0.
pub proof fn law_reencodes_by_container(container: Container)
    ensures
        container is Webm ==> encodes_video_to(container) == (CodecId::Vp9, PixelFormat::Yuv420p),
        container is Mp4 || container is Mkv ==> encodes_video_to(container) == (
            CodecId::H264,
            PixelFormat::Yuv420p,
        ),
{
}

/// Both encoders are told how good the picture is to be, VP9 at 31 and H.264 at 23, and
/// to work in parallel; no option is named twice.
pub proof fn law_encoders_are_told_the_quality()
    ensures
        vp9_options().contains(("crf"@, "31"@)),
        vp9_options().contains(("cpu-used"@, "5"@)),
        vp9_options().contains(("deadline"@, "good"@)),
        vp9_options().contains(("row-mt"@, "1"@)),
        vp9_options().contains(("tile-columns"@, "2"@)),
        vp9_options().len() == 5,
        h264_options().contains(("crf"@, "23"@)),
        h264_options().contains(("preset"@, "medium"@)),
        h264_options().contains(("threads"@, "0"@)),
        h264_options().len() == 3,
{
    let vp9 = vp9_options();
    assert(vp9[0] == ("crf"@, "31"@) && vp9[1] == ("cpu-used"@, "5"@));
    assert(vp9[2] == ("deadline"@, "good"@) && vp9[3] == ("row-mt"@, "1"@));
    assert(vp9[4] == ("tile-columns"@, "2"@));
    let h264 = h264_options();
    assert(h264[0] == ("preset"@, "medium"@) && h264[1] == ("crf"@, "23"@));
    assert(h264[2] == ("threads"@, "0"@));
}

} // verus!
