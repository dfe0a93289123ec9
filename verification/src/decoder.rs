//! Frame-accurate positioning in a video stream.
//!
//! Stepping and scrubbing are built on one primitive: seek to the keyframe at or
//! before a target timestamp, then decode forward to the exact frame. Whoever
//! owns the codec performs the seeks and hands each decoded frame's timestamp
//! back; everything here decides what to ask for next. Timestamps stay in the
//! stream's integer time base, so nothing drifts.

use std::collections::VecDeque;
use vstd::prelude::*;

use crate::double::Double;
use crate::image::{to_image, ColorImage};

verus! {

/// Why a file could not be opened for decoding.
#[derive(Clone, Copy, PartialEq, Eq, Structural, Debug)]
pub enum OpenError {
    NoVideoStream,
    NoAudioStream,
}

impl OpenError {
    /// What to tell the user.
    pub fn message(self) -> (text: &'static str)
        ensures
            text@ == (match self {
                OpenError::NoVideoStream => "no video stream found"@,
                OpenError::NoAudioStream => "no audio stream found"@,
            }),
    {
        match self {
            OpenError::NoVideoStream => "no video stream found",
            OpenError::NoAudioStream => "no audio stream found",
        }
    }
}

/// What a container reports of its best video stream.
#[derive(Clone, Copy, PartialEq, Eq, Structural, Debug)]
pub struct VideoStreamInfo {
    pub index: usize,
    pub width: u32,
    pub height: u32,
    /// The stream's own duration, in time-base units; zero or less when unset.
    pub stream_duration_ts: i64,
    /// The container's duration converted to the same units.
    pub container_duration_ts: i64,
    /// One frame at the average frame rate, rounded to time-base units.
    pub frame_dur_ts: i64,
}

/// A video stream being decoded, and where in it the last frame was.
#[derive(Clone, Copy, PartialEq, Eq, Structural, Debug)]
pub struct Decoder {
    pub stream_index: usize,
    pub width: u32,
    pub height: u32,
    /// one frame's duration, in time-base units
    pub frame_dur_ts: i64,
    /// container duration, in time-base units
    pub duration_ts: i64,
    /// pts of the most recently produced frame, in time-base units
    pub current_pts: i64,
}

/// The larger of `a` and `b`.
pub open spec fn greater(a: int, b: int) -> int {
    if a < b {
        b
    } else {
        a
    }
}

/// A stream's duration: its own when it is set, else the container's, never
/// negative.
pub open spec fn duration_of(stream: int, container: int) -> int {
    if stream > 0 {
        stream
    } else {
        greater(container, 0)
    }
}

/// The duration of a stream, in the units of its arguments. WebM and Matroska
/// leave the per-stream duration unset, so the container's stands in for it.
pub fn pick_duration(stream: i64, container: i64) -> (duration: i64)
    ensures
        duration == duration_of(stream as int, container as int),
{
    if stream > 0 {
        stream
    } else if container > 0 {
        container
    } else {
        0
    }
}

/// The bits of 25, the frame rate assumed when a stream reports an invalid one.
pub const DEFAULT_FPS_BITS: u64 = 0x4039_0000_0000_0000;

/// The length of a file's best audio stream, in seconds: by the stream's own
/// duration, when that is set, and by the container's.
#[derive(Clone, Copy, PartialEq, Eq, Structural, Debug)]
pub struct AudioLength {
    pub stream_duration_ts: i64,
    pub stream_secs: Double,
    pub container_secs: Double,
}

/// Playable length of a file that carries audio but no video, so an audio-only
/// source still gets a timeline to trim against. Errors when the file has no
/// audio stream either.
pub fn audio_duration_secs(audio: Option<AudioLength>) -> (secs: Result<Double, OpenError>)
    ensures
        secs == (match audio {
            None => Err(OpenError::NoAudioStream),
            Some(length) => Ok(
                (if length.stream_duration_ts > 0 {
                    length.stream_secs
                } else {
                    length.container_secs
                }).greater(Double { bits: 0 }),
            ),
        }),
{
    match audio {
        None => Err(OpenError::NoAudioStream),
        Some(length) => {
            let secs = if length.stream_duration_ts > 0 {
                length.stream_secs
            } else {
                length.container_secs
            };
            Ok(secs.max(Double::zero()))
        },
    }
}

/// Which way a request to step `n` frames goes.
#[derive(Clone, Copy, PartialEq, Eq, Structural, Debug)]
pub enum StepPlan {
    /// Decode this many frames ahead, one by one.
    Forward(u64),
    /// Jump back this many frames.
    Backward(u64),
    Stay,
}

impl Decoder {
    /// Starts at the beginning of the best video stream, if there is one.
    pub fn open(info: Option<VideoStreamInfo>) -> (opened: Result<Decoder, OpenError>)
        ensures
            opened == (match info {
                None => Err::<Decoder, OpenError>(OpenError::NoVideoStream),
                Some(info) => Ok(
                    Decoder {
                        stream_index: info.index,
                        width: info.width,
                        height: info.height,
                        frame_dur_ts: greater(info.frame_dur_ts as int, 1) as i64,
                        duration_ts: duration_of(
                            info.stream_duration_ts as int,
                            info.container_duration_ts as int,
                        ) as i64,
                        current_pts: 0,
                    },
                ),
            }),
    {
        match info {
            None => Err(OpenError::NoVideoStream),
            Some(info) => {
                let duration_ts: i64 = pick_duration(
                    info.stream_duration_ts,
                    info.container_duration_ts,
                );
                // At least 1, so stepping always moves.
                let frame_dur_ts: i64 = if info.frame_dur_ts < 1 {
                    1
                } else {
                    info.frame_dur_ts
                };
                Ok(
                    Decoder {
                        stream_index: info.index,
                        width: info.width,
                        height: info.height,
                        frame_dur_ts,
                        duration_ts,
                        current_pts: 0,
                    },
                )
            },
        }
    }

    /// Moves to the frame just decoded, which keeps the position when it carries
    /// no timestamp.
    pub fn step_forward(&mut self, pts: Option<i64>)
        ensures
            *final(self) == (Decoder {
                current_pts: match pts {
                    Some(pts) => pts,
                    None => old(self).current_pts,
                },
                ..*old(self)
            }),
    {
        if let Some(pts) = pts {
            self.current_pts = pts;
        }
    }

    /// How to step `n` frames from the current position: forward decodes ahead
    /// frame by frame, backward jumps in a single search.
    pub fn step_by(n: i64) -> (plan: StepPlan)
        requires
            n > i64::MIN,
        ensures
            plan == (if n > 0 {
                StepPlan::Forward(n as u64)
            } else if n < 0 {
                StepPlan::Backward((-n) as u64)
            } else {
                StepPlan::Stay
            }),
    {
        if n > 0 {
            StepPlan::Forward(n as u64)
        } else if n < 0 {
            StepPlan::Backward((-n) as u64)
        } else {
            StepPlan::Stay
        }
    }

    /// The frame timestamp a scrub to `target` aims for, kept inside the video.
    pub fn seek_target(&self, target: i64) -> (pts: i64)
        ensures
            0 <= pts <= greater(self.duration_ts as int, 0),
            0 <= target <= self.duration_ts ==> pts == target,
            target < 0 ==> pts == 0,
            target > self.duration_ts ==> pts == greater(self.duration_ts as int, 0),
    {
        let last: i64 = if self.duration_ts < 0 {
            0
        } else {
            self.duration_ts
        };
        if target < 0 {
            0
        } else if target > last {
            last
        } else {
            target
        }
    }

    /// The frame rate, given how long one frame lasts and how many of that fit in a
    /// second.
    pub fn fps(interval_secs: Double, per_sec: Double) -> (fps: Double)
        ensures
            // 25 frames a second.
            !(Double { bits: 0 }).below(interval_secs) ==> fps.bits == 0x4039_0000_0000_0000,
            fps == (if (Double { bits: 0 }).below(interval_secs) {
                per_sec
            } else {
                Double { bits: DEFAULT_FPS_BITS }
            }),
    {
        if Double::zero().lt(interval_secs) {
            per_sec
        } else {
            Double { bits: DEFAULT_FPS_BITS }
        }
    }

    /// The picture in a decoded frame's packed RGBA rows.
    pub fn to_image(&self, stride: usize, data: &[u8]) -> (image: ColorImage)
        requires
            crate::image::rows_fit(
                self.width as int,
                self.height as int,
                stride as int,
                data@.len() as int,
            ),
            self.width * self.height <= usize::MAX,
            self.width * 4 <= usize::MAX,
        ensures
            image.wf(),
            image.width() == self.width,
            image.height() == self.height,
            forall|x: int, y: int|
                0 <= x < self.width && 0 <= y < self.height ==> crate::image::is_frame_pixel(
                    data@,
                    stride as int,
                    x,
                    y,
                    #[trigger] image.at(x, y),
                ),
    {
        to_image(self.width, self.height, stride, data)
    }
}

/// What the codec answers when asked for a frame.
#[derive(Clone, Copy, PartialEq, Eq, Structural, Debug)]
pub enum FrameReply {
    Frame,
    EndOfStream,
    /// It has to be fed a packet first.
    NeedsInput,
}

/// What the container answers when asked for a packet.
#[derive(Clone, Copy, PartialEq, Eq, Structural, Debug)]
pub enum PacketReply {
    Packet { stream: usize },
    NoMore,
}

/// What to do with a frame request's answer.
#[derive(Clone, Copy, PartialEq, Eq, Structural, Debug)]
pub enum FrameStep {
    Deliver,
    Finish,
    ReadPacket,
}

/// What to feed the codec before asking it again.
#[derive(Clone, Copy, PartialEq, Eq, Structural, Debug)]
pub enum FeedStep {
    SendPacket,
    /// The packet belongs to another stream.
    Nothing,
    /// Tell the codec that the stream ended, so it gives up the frames it holds.
    SendEof,
}

impl FrameReply {
    /// What to do next while waiting for a frame.
    pub fn next(self) -> (step: FrameStep)
        ensures
            step == (match self {
                FrameReply::Frame => FrameStep::Deliver,
                FrameReply::EndOfStream => FrameStep::Finish,
                FrameReply::NeedsInput => FrameStep::ReadPacket,
            }),
    {
        match self {
            FrameReply::Frame => FrameStep::Deliver,
            FrameReply::EndOfStream => FrameStep::Finish,
            FrameReply::NeedsInput => FrameStep::ReadPacket,
        }
    }
}

impl PacketReply {
    /// What to feed the codec of `stream_index` with this answer.
    pub fn feed(self, stream_index: usize) -> (step: FeedStep)
        ensures
            step == (match self {
                PacketReply::NoMore => FeedStep::SendEof,
                PacketReply::Packet { stream } => if stream == stream_index {
                    FeedStep::SendPacket
                } else {
                    FeedStep::Nothing
                },
            }),
    {
        match self {
            PacketReply::NoMore => FeedStep::SendEof,
            PacketReply::Packet { stream } => if stream == stream_index {
                FeedStep::SendPacket
            } else {
                FeedStep::Nothing
            },
        }
    }
}

/// A frame's timestamp, or the one before it when the frame carries none.
pub open spec fn stamped(pts: Option<i64>, last: i64) -> i64 {
    match pts {
        Some(pts) => pts,
        None => last,
    }
}

/// Decoding forward from a container seek to the first frame at or after a target.
#[derive(Clone, Copy, PartialEq, Eq, Structural, Debug)]
pub struct ExactSeek {
    pub target: i64,
    pub last_pts: i64,
}

impl ExactSeek {
    /// The search once it has seen a frame stamped `pts`.
    pub open spec fn observed(self, pts: Option<i64>) -> ExactSeek {
        ExactSeek { target: self.target, last_pts: stamped(pts, self.last_pts) }
    }

    /// Whether the frame seen last is the one to show.
    pub open spec fn arrived(self) -> bool {
        self.last_pts >= self.target
    }

    /// Starts right after a container seek to `target`.
    pub fn new(target: i64) -> (seek: ExactSeek)
        ensures
            seek == (ExactSeek { target, last_pts: 0 }),
    {
        ExactSeek { target, last_pts: 0 }
    }

    /// Takes the next decoded frame; gives its timestamp when it is the one.
    pub fn observe(&mut self, pts: Option<i64>) -> (landed: Option<i64>)
        ensures
            *final(self) == old(self).observed(pts),
            landed == (if final(self).arrived() {
                Some(final(self).last_pts)
            } else {
                None
            }),
    {
        let pts: i64 = match pts {
            Some(pts) => pts,
            None => self.last_pts,
        };
        self.last_pts = pts;
        if pts >= self.target {
            Some(pts)
        } else {
            None
        }
    }
}

/// Stepping forward, one decoded frame after another.
#[derive(Clone, Copy, PartialEq, Eq, Structural, Debug)]
pub struct Ahead {
    /// How many more frames are wanted.
    pub left: u64,
    /// How many came out, the last of which is the one to show.
    pub shown: u64,
}

impl Ahead {
    /// Whether the frames counted stay countable.
    pub open spec fn wf(self) -> bool {
        self.left + self.shown <= u64::MAX
    }

    /// Starts stepping `n` frames forward.
    pub fn new(n: u64) -> (ahead: Ahead)
        ensures
            ahead == (Ahead { left: n, shown: 0 }),
    {
        Ahead { left: n, shown: 0 }
    }

    /// Whether another frame has to be decoded.
    pub fn wants_more(&self) -> (more: bool)
        ensures
            more == (self.left > 0),
    {
        self.left > 0
    }

    /// Counts a frame that came out; when none did, the run is over.
    pub fn advance(&mut self, came: bool)
        requires
            old(self).wf(),
            old(self).left > 0,
        ensures
            final(self).wf(),
            *final(self) == (if came {
                Ahead { left: (old(self).left - 1) as u64, shown: (old(self).shown + 1) as u64 }
            } else {
                Ahead { left: 0, shown: old(self).shown }
            }),
    {
        if came {
            self.left = self.left - 1;
            self.shown = self.shown + 1;
        } else {
            self.left = 0;
        }
    }
}

/// The last `n` items of `s`, or all of them.
pub open spec fn last_n(s: Seq<i64>, n: int) -> Seq<i64> {
    if s.len() <= n {
        s
    } else {
        s.skip(s.len() - n)
    }
}

/// Where a search for an earlier frame stands.
#[verifier::ext_equal]
pub struct BackState {
    /// The timestamp of the frame to step back from.
    pub current: i64,
    /// How many frames to go back.
    pub steps: int,
    /// Where the container has to be sought for this pass.
    pub search: i64,
    /// Where the pass before this one landed, if there was one.
    pub prev_landed: i64,
    /// Where this pass landed, once it has seen a frame.
    pub landed: Option<i64>,
    /// The last timestamp seen in this pass.
    pub last: i64,
    /// The frames before the current one that this pass has seen, in order.
    pub seen: Seq<i64>,
}

impl BackState {
    /// A search that is about to make its first pass.
    pub open spec fn start(current: i64, steps: int) -> BackState {
        BackState {
            current,
            steps,
            search: current,
            prev_landed: i64::MAX,
            landed: None,
            last: 0,
            seen: Seq::empty(),
        }
    }

    /// The search once it has seen a frame stamped `pts`.
    pub open spec fn observed(self, pts: Option<i64>) -> BackState {
        let pts = stamped(pts, self.last);
        BackState {
            last: pts,
            landed: Some(stamped(self.landed, pts)),
            seen: if pts >= self.current {
                self.seen
            } else {
                self.seen.push(pts)
            },
            ..self
        }
    }

    /// Whether the frame seen last is the current one or a later one.
    pub open spec fn reached(self) -> bool {
        self.last >= self.current
    }

    /// The timestamp to land on, if the frames of this pass settle it: the one far
    /// enough back, or the first there is when no keyframe lies before it.
    pub open spec fn found(self) -> Option<i64> {
        let landed = stamped(self.landed, 0);
        if self.seen.len() >= self.steps {
            Some(self.seen[self.seen.len() - self.steps])
        } else if landed <= 0 || landed >= self.prev_landed {
            Some(
                if self.seen.len() > 0 {
                    self.seen[0]
                } else {
                    0
                },
            )
        } else {
            None
        }
    }

    /// The search about to make another pass, from the keyframe before the one it
    /// landed on.
    pub open spec fn retried(self) -> BackState {
        let landed = stamped(self.landed, 0);
        BackState {
            search: (landed - 1) as i64,
            prev_landed: landed,
            landed: None,
            last: 0,
            seen: Seq::empty(),
            ..self
        }
    }
}

/// Finding the frame some number of frames before the current one.
///
/// Frames are spaced unevenly, so subtracting multiples of the nominal frame
/// duration can land back on the current frame; the frames themselves are counted
/// instead. One keyframe interval may hold too few of them, so the search starts
/// over from the keyframe before, until it has enough or reaches the start.
pub struct BackSearch {
    current_pts: i64,
    steps_back: usize,
    search_pts: i64,
    prev_landed_pts: i64,
    landed_pts: Option<i64>,
    last_pts: i64,
    /// The last frames seen, as many as there are steps to go back.
    history: VecDeque<i64>,
    seen: Ghost<Seq<i64>>,
}

impl View for BackSearch {
    type V = BackState;

    closed spec fn view(&self) -> BackState {
        BackState {
            current: self.current_pts,
            steps: self.steps_back as int,
            search: self.search_pts,
            prev_landed: self.prev_landed_pts,
            landed: self.landed_pts,
            last: self.last_pts,
            seen: self.seen@,
        }
    }
}

impl BackSearch {
    /// Whether the frames kept are the last ones the pass has seen.
    pub closed spec fn wf(self) -> bool {
        &&& self.steps_back >= 1
        &&& self.history@ == last_n(self.seen@, self.steps_back as int)
    }

    /// Starts looking for the frame `steps_back` frames before `current_pts`.
    pub fn new(current_pts: i64, steps_back: usize) -> (search: BackSearch)
        requires
            steps_back >= 1,
        ensures
            search.wf(),
            search@ == BackState::start(current_pts, steps_back as int),
    {
        let search = BackSearch {
            current_pts,
            steps_back,
            search_pts: current_pts,
            prev_landed_pts: i64::MAX,
            landed_pts: None,
            last_pts: 0,
            history: VecDeque::new(),
            seen: Ghost(Seq::empty()),
        };
        assert(search.history@ == Seq::<i64>::empty());
        search
    }

    /// Where to seek the container before feeding this pass its frames.
    pub fn search_pts(&self) -> (pts: i64)
        ensures
            pts == self@.search,
    {
        self.search_pts
    }

    /// Takes the next decoded frame; true once it is the current frame or later,
    /// which ends the pass.
    pub fn observe(&mut self, pts: Option<i64>) -> (reached: bool)
        requires
            old(self).wf(),
        ensures
            final(self).wf(),
            final(self)@ == old(self)@.observed(pts),
            reached == final(self)@.reached(),
    {
        let pts: i64 = match pts {
            Some(pts) => pts,
            None => self.last_pts,
        };
        self.last_pts = pts;
        if self.landed_pts.is_none() {
            self.landed_pts = Some(pts);
        }
        if pts >= self.current_pts {
            return true;
        }
        if self.history.len() == self.steps_back {
            let _ = self.history.pop_front();
        }
        self.history.push_back(pts);
        self.seen = Ghost(self.seen@.push(pts));
        assert(self.history@ == last_n(self.seen@, self.steps_back as int));
        false
    }

    /// Ends a pass, because the current frame was reached or the stream ended:
    /// the timestamp to land on, or `None` when another pass has to be made from
    /// `search_pts`.
    pub fn finish_pass(&mut self) -> (found: Option<i64>)
        requires
            old(self).wf(),
        ensures
            final(self).wf(),
            found == old(self)@.found(),
            final(self)@ == (if found is Some {
                old(self)@
            } else {
                old(self)@.retried()
            }),
    {
        if self.history.len() >= self.steps_back {
            return Some(self.history[0]);
        }
        let landed: i64 = match self.landed_pts {
            Some(pts) => pts,
            None => 0,
        };
        if landed <= 0 || landed >= self.prev_landed_pts {
            // Already at the earliest keyframe: this is as far back as it goes.
            if self.history.len() > 0 {
                return Some(self.history[0]);
            }
            return Some(0);
        }
        self.prev_landed_pts = landed;
        self.search_pts = landed - 1;
        self.landed_pts = None;
        self.last_pts = 0;
        self.history = VecDeque::new();
        self.seen = Ghost(Seq::empty());
        assert(self.history@ == Seq::<i64>::empty());
        None
    }
}

/// A video as its decoder gives it out: the timestamps of its frames in
/// presentation order, and which of them a seek can start from.
pub struct Film {
    pub frames: Seq<i64>,
    pub keys: Set<int>,
}

impl Film {
    /// Whether time moves on from frame to frame, from a keyframe on.
    pub open spec fn wf(self) -> bool {
        &&& self.frames.len() > 0
        &&& forall|i: int, j: int|
            0 <= i < j < self.frames.len() ==> #[trigger] self.frames[i] < #[trigger] self.frames[j]
        &&& self.keys.contains(0)
    }

    /// Whether a search `n` frames back from frame `c` meets neither end of time
    /// before it is done. A keyframe at or before zero is taken for the first frame
    /// and one at the very end for none, so of the keyframes less than `n` frames
    /// back only the first frame may lie that early, and the current frame that
    /// late only where it is no keyframe. This holds of every film that starts at or
    /// after zero and ends before the last timestamp.
    pub open spec fn is_searchable(self, c: int, n: int) -> bool {
        &&& c == 0 ==> self.frames[0] >= 0
        &&& self.keys.contains(c) ==> self.frames[c] < i64::MAX
        &&& forall|j: int|
            0 < j <= c && c - j < n && self.keys.contains(j) ==> #[trigger] self.frames[j] > 0
    }

    /// Whether a seek to `target` continues from frame `k`: the last keyframe at or
    /// before it, or the start when there is none.
    pub open spec fn lands(self, target: i64, k: int) -> bool {
        &&& 0 <= k < self.frames.len()
        &&& self.keys.contains(k)
        &&& self.frames[k] <= target || k == 0
        &&& forall|j: int|
            k < j < self.frames.len() && self.keys.contains(j) ==> #[trigger] self.frames[j]
                > target
    }

    /// The frame an exact search ends on that is given the frames from `k` on.
    pub open spec fn exact_from(self, seek: ExactSeek, k: int) -> Option<i64>
        decreases self.frames.len() - k,
    {
        if k < 0 || k >= self.frames.len() {
            None
        } else {
            let next = seek.observed(Some(self.frames[k]));
            if next.arrived() {
                Some(next.last_pts)
            } else {
                self.exact_from(next, k + 1)
            }
        }
    }

    /// A backward search's pass that is given the frames from `k` on, at its end.
    pub open spec fn pass_from(self, state: BackState, k: int) -> BackState
        decreases self.frames.len() - k,
    {
        if k < 0 || k >= self.frames.len() {
            state
        } else {
            let next = state.observed(Some(self.frames[k]));
            if next.reached() {
                next
            } else {
                self.pass_from(next, k + 1)
            }
        }
    }

    /// What a backward search finds that may still make `passes` passes.
    pub open spec fn back_within(self, state: BackState, passes: nat) -> Option<i64>
        decreases passes,
    {
        if passes == 0 {
            None
        } else {
            let k = choose|k: int| self.lands(state.search, k);
            let ended = self.pass_from(state, k);
            match ended.found() {
                Some(pts) => Some(pts),
                None => self.back_within(ended.retried(), (passes - 1) as nat),
            }
        }
    }
}

/// There is a keyframe that a seek lands on.
proof fn lemma_lands(film: Film, target: i64, from: int) -> (k: int)
    requires
        film.wf(),
        0 <= from < film.frames.len(),
        forall|j: int|
            from < j < film.frames.len() && film.keys.contains(j) ==> #[trigger] film.frames[j]
                > target,
    ensures
        film.lands(target, k),
    decreases from,
{
    if from == 0 || (film.keys.contains(from) && film.frames[from] <= target) {
        from
    } else {
        lemma_lands(film, target, from - 1)
    }
}

/// An exact search that starts at or before the first frame at or after its
/// target ends on that frame.
proof fn lemma_exact_from(film: Film, seek: ExactSeek, k: int, f: int)
    requires
        film.wf(),
        0 <= k <= f < film.frames.len(),
        film.frames[f] >= seek.target,
        f > 0 ==> film.frames[f - 1] < seek.target,
    ensures
        film.exact_from(seek, k) == Some(film.frames[f]),
    decreases f - k,
{
    if k < f {
        assert(film.frames[k] <= film.frames[f - 1]);
        lemma_exact_from(film, seek.observed(Some(film.frames[k])), k + 1, f);
    }
}

/// A scrub shows the first frame at or after its target, wherever the keyframe it
/// starts from lies.
pub proof fn law_seek_is_exact(film: Film, target: i64, k: int, f: int)
    requires
        film.wf(),
        film.lands(target, k),
        0 <= f < film.frames.len(),
        film.frames[f] >= target,
        f > 0 ==> film.frames[f - 1] < target,
    ensures
        film.exact_from((ExactSeek { target, last_pts: 0 }), k) == Some(film.frames[f]),
{
    if k > f {
        assert(film.frames[f] < film.frames[k]);
    }
    lemma_exact_from(film, ExactSeek { target, last_pts: 0 }, k, f);
}

/// A pass from frame `k` sees exactly the frames between it and the current one.
proof fn lemma_pass_from(film: Film, state: BackState, first: int, k: int, c: int)
    requires
        film.wf(),
        0 <= first <= k <= c < film.frames.len(),
        state.current == film.frames[c],
        state.seen == film.frames.subrange(first, k),
        state.landed == (if k == first {
            None
        } else {
            Some(film.frames[first])
        }),
    ensures
        ({
            let ended = film.pass_from(state, k);
            &&& ended.seen == film.frames.subrange(first, c)
            &&& ended.landed == Some(film.frames[first])
            &&& ended.current == state.current
            &&& ended.steps == state.steps
            &&& ended.prev_landed == state.prev_landed
        }),
    decreases c - k,
{
    if k < c {
        assert(film.frames[k] < film.frames[c]);
        let next = state.observed(Some(film.frames[k]));
        assert(next.seen == film.frames.subrange(first, k + 1));
        lemma_pass_from(film, next, first, k + 1, c);
    }
}

/// What a pass over the frames from `k` on makes of a search that is about to
/// start it.
proof fn lemma_pass_found(film: Film, state: BackState, k: int, c: int)
    requires
        film.wf(),
        film.lands(state.search, k),
        0 <= c < film.frames.len(),
        state.search <= film.frames[c],
        state.current == film.frames[c],
        state.steps >= 1,
        state.landed is None,
        state.seen == Seq::<i64>::empty(),
    ensures
        k <= c,
        ({
            let ended = film.pass_from(state, k);
            let n = state.steps;
            &&& c - k >= n ==> ended.found() == Some(film.frames[c - n])
            &&& c - k < n && (film.frames[k] <= 0 || film.frames[k] >= state.prev_landed)
                ==> ended.found() == Some(
                if c > k {
                    film.frames[k]
                } else {
                    0
                },
            )
            &&& c - k < n && 0 < film.frames[k] < state.prev_landed ==> ended.found() is None
                && ended.retried() == (BackState {
                search: (film.frames[k] - 1) as i64,
                prev_landed: film.frames[k],
                landed: None,
                last: 0,
                seen: Seq::empty(),
                ..state
            })
        }),
{
    if k > c {
        assert(film.frames[c] < film.frames[k]);
    }
    assert(film.frames.subrange(k, k) == Seq::<i64>::empty());
    lemma_pass_from(film, state, k, k, c);
}

/// A search that landed on frame `p` and makes another pass finds its frame, after
/// at most as many passes as there are frames up to `p`.
proof fn lemma_back_within(film: Film, state: BackState, c: int, p: int, passes: nat)
    requires
        film.wf(),
        0 <= p <= c < film.frames.len(),
        film.is_searchable(c, state.steps),
        film.frames[p] > 0,
        passes > p,
        state.current == film.frames[c],
        state.steps >= 1,
        state.landed is None,
        state.seen == Seq::<i64>::empty(),
        state.search == film.frames[p] - 1,
        state.prev_landed == film.frames[p],
    ensures
        film.back_within(state, passes) == Some(
            if c >= state.steps {
                film.frames[c - state.steps]
            } else if c > 0 {
                film.frames[0]
            } else {
                0
            },
        ),
    decreases p,
{
    let _ = lemma_lands(film, state.search, film.frames.len() - 1);
    let k = choose|k: int| film.lands(state.search, k);
    assert(p < c ==> film.frames[p] < film.frames[c]);
    lemma_pass_found(film, state, k, c);
    if k >= p {
        assert(k > p ==> film.frames[p] < film.frames[k]);
        assert(k == 0);
    } else {
        assert(film.frames[k] < film.frames[p]);
    }
    if k > 0 {
        assert(film.frames[0] < film.frames[k]);
    }
    if c - k < state.steps && 0 < film.frames[k] < state.prev_landed {
        let next = film.pass_from(state, k).retried();
        lemma_back_within(film, next, c, k, (passes - 1) as nat);
    }
}

/// Stepping back `n` frames from frame `c` shows the frame exactly `n` before it, or
/// the first one when there are not that many: the frames are counted, however
/// they are spaced and wherever the keyframes lie.
pub proof fn law_step_back_counts_frames(film: Film, c: int, n: int, passes: nat, k: int)
    requires
        film.wf(),
        0 <= c < film.frames.len(),
        n >= 1,
        film.is_searchable(c, n),
        passes >= c + 2,
        film.back_within(BackState::start(film.frames[c], n), passes) matches Some(target)
            ==> film.lands(target, k),
    ensures
        ({
            let shown = if c >= n {
                c - n
            } else {
                0
            };
            film.back_within(BackState::start(film.frames[c], n), passes) matches Some(target)
                && film.exact_from((ExactSeek { target, last_pts: 0 }), k) == Some(
                film.frames[shown],
            )
        }),
{
    let state = BackState::start(film.frames[c], n);
    let _ = lemma_lands(film, state.search, film.frames.len() - 1);
    let land = choose|k: int| film.lands(state.search, k);
    lemma_pass_found(film, state, land, c);
    assert(land < c ==> film.frames[land] < film.frames[c]);
    if land > 0 {
        assert(film.frames[0] < film.frames[land]);
    }
    if c - land < n && 0 < film.frames[land] {
        let next = film.pass_from(state, land).retried();
        lemma_back_within(film, next, c, land, (passes - 1) as nat);
    }
    let shown = if c >= n {
        c - n
    } else {
        0
    };
    let target = film.back_within(state, passes)->0;
    law_seek_is_exact(film, target, k, shown);
}

/// Every step back is searchable in a film that starts at or after zero and ends
/// before the last timestamp there is.
pub proof fn law_usual_films_are_searchable(film: Film, c: int, n: int)
    requires
        film.wf(),
        0 <= c < film.frames.len(),
        film.frames[0] >= 0,
        film.frames.last() < i64::MAX,
    ensures
        film.is_searchable(c, n),
{
    assert(c < film.frames.len() - 1 ==> film.frames[c] < film.frames[film.frames.len() - 1]);
    assert forall|j: int| 0 < j <= c implies #[trigger] film.frames[j] > 0 by {
        assert(film.frames[0] < film.frames[j]);
    }
}

/// What a run of steps forward shows when `coming` more frames can be decoded.
pub open spec fn steps_shown(ahead: Ahead, coming: nat) -> nat
    decreases ahead.left,
{
    if ahead.left == 0 || coming == 0 {
        ahead.shown as nat
    } else {
        steps_shown(
            Ahead { left: (ahead.left - 1) as u64, shown: (ahead.shown + 1) as u64 },
            (coming - 1) as nat,
        )
    }
}

proof fn lemma_steps_shown(ahead: Ahead, coming: nat)
    requires
        ahead.wf(),
    ensures
        steps_shown(ahead, coming) == ahead.shown + (if ahead.left < coming {
            ahead.left as nat
        } else {
            coming
        }),
    decreases ahead.left,
{
    if ahead.left != 0 && coming != 0 {
        lemma_steps_shown(
            Ahead { left: (ahead.left - 1) as u64, shown: (ahead.shown + 1) as u64 },
            (coming - 1) as nat,
        );
    }
}

/// Stepping forward `n` frames goes exactly `n` frames on, or to the last frame when
/// fewer are left.
pub proof fn law_step_forward_counts_frames(n: u64, coming: nat)
    ensures
        steps_shown((Ahead { left: n, shown: 0 }), coming) == (if n < coming {
            n as nat
        } else {
            coming
        }),
{
    lemma_steps_shown(Ahead { left: n, shown: 0 }, coming);
}

/// A length that the stream gives counts before the container's, and none is negative.
pub proof fn law_stream_length_comes_first(stream: int, container: int)
    ensures
        stream > 0 ==> duration_of(stream, container) == stream,
        stream <= 0 && container > 0 ==> duration_of(stream, container) == container,
        stream <= 0 && container <= 0 ==> duration_of(stream, container) == 0,
        greater(stream, container) >= stream,
        greater(stream, container) >= container,
        greater(stream, container) == stream || greater(stream, container) == container,
{
}

/// A seek goes by the stamp of the frame seen last, which a frame without a stamp leaves
/// as it is, and is over as soon as that is at or after the target.
pub proof fn law_seek_goes_by_the_last_stamp(seek: ExactSeek, pts: i64)
    ensures
        seek.observed(None) == seek,
        seek.observed(Some(pts)).last_pts == pts,
        seek.observed(Some(pts)).target == seek.target,
        seek.observed(Some(pts)).arrived() <==> pts >= seek.target,
        seek.arrived() <==> seek.last_pts >= seek.target,
{
}

/// A pass back counts each frame before the current one, one without a stamp as the frame
/// before it, remembers where it landed, and ends on the current frame.
pub proof fn law_pass_counts_the_frames_before(state: BackState, pts: Option<i64>)
    ensures
        ({
            let at = if pts is Some {
                pts->0
            } else {
                state.last
            };
            let next = state.observed(pts);
            &&& next.last == at
            &&& at < state.current ==> next.seen == state.seen.push(at)
            &&& at >= state.current ==> next.seen == state.seen
            &&& next.reached() <==> at >= state.current
            &&& state.landed is None ==> next.landed == Some(at)
            &&& state.landed is Some ==> next.landed == state.landed
            &&& next == (BackState {
                last: next.last,
                seen: next.seen,
                landed: next.landed,
                ..state
            })
        }),
{
}

/// A pass back is settled once it has seen frames enough, and then by counting from its
/// end, or once it started from the earliest keyframe, and then by the first frame it
/// saw. Else the next pass starts before the keyframe that this one started from.
pub proof fn law_pass_back_settles(state: BackState)
    requires
        state.steps >= 1,
        state.landed is Some,
    ensures
        ({
            let landed = state.landed->0;
            let n = state.seen.len();
            let earliest = landed <= 0 || landed >= state.prev_landed;
            &&& n >= state.steps ==> state.found() == Some(state.seen[n - state.steps])
            &&& 0 < n < state.steps && earliest ==> state.found() == Some(state.seen[0])
            &&& n == 0 && earliest ==> state.found() == Some(0i64)
            &&& n < state.steps && !earliest ==> {
                &&& state.found() is None
                &&& state.retried().search == landed - 1
                &&& state.retried().prev_landed == landed
                &&& state.retried().landed is None
                &&& state.retried().seen.len() == 0
                &&& state.retried().current == state.current
                &&& state.retried().steps == state.steps
            }
        }),
{
}

/// A search starts from the current frame, with nothing seen and no pass behind it.
pub proof fn law_search_starts_at_the_current_frame(current: i64, steps: int)
    ensures
        ({
            let state = BackState::start(current, steps);
            &&& state.current == current
            &&& state.steps == steps
            &&& state.search == current
            &&& state.prev_landed == i64::MAX
            &&& state.landed is None
            &&& state.last == 0
            &&& state.seen.len() == 0
        }),
{
}

} // verus!
