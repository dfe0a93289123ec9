//! The copy-or-re-encode writer every video export and every re-encoded audio-only
//! export routes through: what becomes of each packet read from the source.

use vstd::prelude::*;

use super::plan::StreamPlan;
use super::{check_cancel, ExportError};

verus! {

/// Where a packet goes.
#[derive(Clone, Copy, PartialEq, Eq, Structural, Debug)]
pub enum Route {
    /// Decode it, and report back whether that reached the end of the window.
    ReencodeVideo,
    ReencodeAudio,
    /// Write it as it is.
    CopyVideo,
    CopyAudio,
    /// It belongs to no planned stream, or lies past the end of the window.
    Skip,
}

/// A packet as it comes from the source.
#[derive(Clone, Copy, PartialEq, Eq, Structural, Debug)]
pub struct PacketInfo {
    pub stream: usize,
    pub pts: Option<i64>,
}

/// How far a transcode has come.
#[derive(Clone, Copy, PartialEq, Eq, Structural, Debug)]
pub struct Transcode {
    pub plan: StreamPlan,
    /// Only the chosen range is wanted.
    pub windowed: bool,
    /// The end of the range in the video stream's time base.
    pub video_end_ts: i64,
    /// The end of the range in the audio stream's time base.
    pub audio_end_ts: i64,
    pub is_video_done: bool,
    pub is_audio_done: bool,
}

impl Transcode {
    /// Whether the video stream is re-encoded.
    pub open spec fn reencodes_video(self) -> bool {
        self.plan.video is Some && self.plan.video->0.reencode
    }

    /// Whether the audio stream is re-encoded.
    pub open spec fn reencodes_audio(self) -> bool {
        self.plan.audio is Some && self.plan.audio->0.encode_to is Some
    }

    /// Whether `stream` is the planned video stream.
    pub open spec fn is_video(self, stream: usize) -> bool {
        self.plan.video is Some && self.plan.video->0.index == stream
    }

    /// Whether `stream` is the planned audio stream.
    pub open spec fn is_audio(self, stream: usize) -> bool {
        !self.is_video(stream) && self.plan.audio is Some && self.plan.audio->0.index == stream
    }

    /// Whether a stream that is not re-encoded counts as done, and without a window
    /// nothing else does.
    pub open spec fn wf(self) -> bool {
        &&& !self.reencodes_video() ==> self.is_video_done
        &&& !self.reencodes_audio() ==> self.is_audio_done
        &&& !self.windowed ==> self.is_video_done == !self.reencodes_video()
        &&& !self.windowed ==> self.is_audio_done == !self.reencodes_audio()
    }

    /// A transcode that has read nothing yet.
    pub open spec fn start(
        plan: StreamPlan,
        windowed: bool,
        video_end_ts: i64,
        audio_end_ts: i64,
    ) -> Transcode {
        Transcode {
            plan,
            windowed,
            video_end_ts,
            audio_end_ts,
            is_video_done: !(plan.video is Some && plan.video->0.reencode),
            is_audio_done: !(plan.audio is Some && plan.audio->0.encode_to is Some),
        }
    }

    /// Whether a video packet lies past the end of the range. Frames may carry no
    /// timestamps, so the packets bound the read as well.
    pub open spec fn past_video_end(self, pts: Option<i64>) -> bool {
        self.windowed && pts is Some && pts->0 > self.video_end_ts
    }

    /// Whether an audio packet lies past the end of the range.
    pub open spec fn past_audio_end(self, pts: Option<i64>) -> bool {
        self.windowed && (if pts is Some {
            pts->0 as int
        } else {
            0
        }) > self.audio_end_ts
    }

    /// Where a packet goes.
    pub open spec fn route_of(self, packet: PacketInfo) -> Route {
        if self.is_video(packet.stream) {
            if !self.reencodes_video() {
                Route::CopyVideo
            } else if self.is_video_done {
                Route::Skip
            } else {
                Route::ReencodeVideo
            }
        } else if self.is_audio(packet.stream) {
            if !self.reencodes_audio() {
                Route::CopyAudio
            } else if self.is_audio_done || self.past_audio_end(packet.pts) {
                Route::Skip
            } else {
                Route::ReencodeAudio
            }
        } else {
            Route::Skip
        }
    }

    /// The transcode once a packet has been read, and for a decoded video packet
    /// once that has told whether it reached the end of the window.
    pub open spec fn after(self, packet: PacketInfo, reached_end: bool) -> Transcode {
        Transcode {
            is_video_done: self.is_video_done || (self.is_video(packet.stream)
                && self.reencodes_video() && (reached_end || self.past_video_end(packet.pts))),
            is_audio_done: self.is_audio_done || (self.is_audio(packet.stream)
                && self.reencodes_audio() && self.past_audio_end(packet.pts)),
            ..self
        }
    }

    /// Whether nothing more has to be read.
    pub open spec fn complete(self) -> bool {
        self.windowed && self.is_video_done && self.is_audio_done
    }

    /// Starts following `plan`.
    pub fn new(plan: StreamPlan, windowed: bool, video_end_ts: i64, audio_end_ts: i64) -> (t:
        Transcode)
        ensures
            t == Transcode::start(plan, windowed, video_end_ts, audio_end_ts),
            t.wf(),
    {
        let is_video_done = match plan.video {
            Some(video) => !video.reencode,
            None => true,
        };
        let is_audio_done = match plan.audio {
            Some(audio) => audio.encode_to.is_none(),
            None => true,
        };
        Transcode { plan, windowed, video_end_ts, audio_end_ts, is_video_done, is_audio_done }
    }

    /// Takes a packet that was read, and says where it goes; once the user has
    /// cancelled, nothing goes anywhere.
    pub fn take(&mut self, packet: PacketInfo, cancel: bool) -> (route: Result<Route, ExportError>)
        requires
            old(self).wf(),
        ensures
            final(self).wf(),
            route == (if cancel {
                Err(ExportError::Cancelled)
            } else {
                Ok(old(self).route_of(packet))
            }),
            *final(self) == (if cancel {
                *old(self)
            } else {
                old(self).after(packet, false)
            }),
    {
        if let Err(e) = check_cancel(cancel) {
            return Err(e);
        }
        if let Some(video) = self.plan.video {
            if video.index == packet.stream {
                if !video.reencode {
                    return Ok(Route::CopyVideo);
                }
                let was_done = self.is_video_done;
                if let Some(pts) = packet.pts {
                    if self.windowed && pts > self.video_end_ts {
                        self.is_video_done = true;
                    }
                }
                return Ok(
                    if was_done {
                        Route::Skip
                    } else {
                        Route::ReencodeVideo
                    },
                );
            }
        }
        if let Some(audio) = self.plan.audio {
            if audio.index == packet.stream {
                if audio.encode_to.is_none() {
                    return Ok(Route::CopyAudio);
                }
                let pts: i64 = match packet.pts {
                    Some(pts) => pts,
                    None => 0,
                };
                if self.windowed && pts > self.audio_end_ts {
                    self.is_audio_done = true;
                    return Ok(Route::Skip);
                }
                return Ok(
                    if self.is_audio_done {
                        Route::Skip
                    } else {
                        Route::ReencodeAudio
                    },
                );
            }
        }
        Ok(Route::Skip)
    }

    /// Takes note of whether decoding a video packet reached the end of the window.
    pub fn video_decoded(&mut self, packet: PacketInfo, reached_end: bool)
        requires
            old(self).wf(),
            old(self).is_video(packet.stream),
            old(self).reencodes_video(),
            reached_end ==> old(self).windowed,
        ensures
            final(self).wf(),
            *final(self) == (Transcode {
                is_video_done: old(self).is_video_done || reached_end,
                ..*old(self)
            }),
    {
        if reached_end {
            self.is_video_done = true;
        }
    }

    /// Whether reading can stop. Audio packets can lag the matching video in the
    /// interleave, so a windowed export keeps reading until both have ended; one of
    /// the whole file reads it to the end.
    pub fn is_complete(&self) -> (done: bool)
        ensures
            done == self.complete(),
    {
        self.windowed && self.is_video_done && self.is_audio_done
    }
}

/// The transcode after a run of packets, none of which was cancelled.
pub open spec fn after_all(t: Transcode, packets: Seq<(PacketInfo, bool)>) -> Transcode
    decreases packets.len(),
{
    if packets.len() == 0 {
        t
    } else {
        after_all(t, packets.drop_last()).after(packets.last().0, packets.last().1)
    }
}

/// Taking a packet and then reporting on its decoding is one step.
pub proof fn law_decoding_completes_the_step(t: Transcode, packet: PacketInfo, reached_end: bool)
    requires
        t.is_video(packet.stream),
        t.reencodes_video(),
    ensures
        t.after(packet, reached_end) == (Transcode {
            is_video_done: t.after(packet, false).is_video_done || reached_end,
            ..t.after(packet, false)
        }),
{
}

/// A run of packets changes neither the plan nor the window, and without a window it
/// changes nothing at all.
proof fn lemma_after_all(t: Transcode, packets: Seq<(PacketInfo, bool)>)
    requires
        t.wf(),
        forall|i: int|
            0 <= i < packets.len() ==> (#[trigger] packets[i]).1 ==> t.windowed,
    ensures
        ({
            let end = after_all(t, packets);
            &&& end.wf()
            &&& end.plan == t.plan
            &&& end.windowed == t.windowed
            &&& end.video_end_ts == t.video_end_ts
            &&& end.audio_end_ts == t.audio_end_ts
            &&& t.is_video_done ==> end.is_video_done
            &&& t.is_audio_done ==> end.is_audio_done
            &&& !t.windowed ==> end == t
        }),
    decreases packets.len(),
{
    if packets.len() > 0 {
        lemma_after_all(t, packets.drop_last());
        assert(packets[packets.len() - 1] == packets.last());
    }
}

/// Saving the whole file drops nothing of a planned stream and never stops early:
/// whatever came before, a packet goes where the plan sends its stream.
pub proof fn law_whole_file_keeps_every_packet(
    t: Transcode,
    packets: Seq<(PacketInfo, bool)>,
    next: PacketInfo,
)
    requires
        t == Transcode::start(t.plan, false, t.video_end_ts, t.audio_end_ts),
        forall|i: int| 0 <= i < packets.len() ==> !(#[trigger] packets[i]).1,
    ensures
        !after_all(t, packets).complete(),
        t.is_video(next.stream) ==> after_all(t, packets).route_of(next) == (
        if t.reencodes_video() {
            Route::ReencodeVideo
        } else {
            Route::CopyVideo
        }),
        t.is_audio(next.stream) ==> after_all(t, packets).route_of(next) == (
        if t.reencodes_audio() {
            Route::ReencodeAudio
        } else {
            Route::CopyAudio
        }),
{
    lemma_after_all(t, packets);
}

/// A windowed export goes on reading until each re-encoded stream has been seen to
/// pass the end of the range: the audio stream by a packet of its own, the video
/// stream by a packet or by what was decoded from one.
pub proof fn law_window_waits_for_both_streams(t: Transcode, packets: Seq<(PacketInfo, bool)>)
    requires
        t == Transcode::start(t.plan, true, t.video_end_ts, t.audio_end_ts),
        after_all(t, packets).complete(),
    ensures
        t.reencodes_audio() ==> exists|i: int|
            0 <= i < packets.len() && t.is_audio((#[trigger] packets[i]).0.stream)
                && t.past_audio_end(packets[i].0.pts),
        t.reencodes_video() ==> exists|i: int|
            0 <= i < packets.len() && t.is_video((#[trigger] packets[i]).0.stream) && (
            packets[i].1 || t.past_video_end(packets[i].0.pts)),
{
    lemma_ends_seen(t, packets);
}

proof fn lemma_ends_seen(t: Transcode, packets: Seq<(PacketInfo, bool)>)
    requires
        t == Transcode::start(t.plan, true, t.video_end_ts, t.audio_end_ts),
    ensures
        t.reencodes_audio() && after_all(t, packets).is_audio_done ==> exists|i: int|
            0 <= i < packets.len() && t.is_audio((#[trigger] packets[i]).0.stream)
                && t.past_audio_end(packets[i].0.pts),
        t.reencodes_video() && after_all(t, packets).is_video_done ==> exists|i: int|
            0 <= i < packets.len() && t.is_video((#[trigger] packets[i]).0.stream) && (
            packets[i].1 || t.past_video_end(packets[i].0.pts)),
    decreases packets.len(),
{
    if packets.len() > 0 {
        let shorter = packets.drop_last();
        lemma_ends_seen(t, shorter);
        lemma_after_all(t, shorter);
        assert forall|i: int| 0 <= i < shorter.len() implies #[trigger] shorter[i] == packets[i] by {
        }
        assert(packets[packets.len() - 1] == packets.last());
        let before = after_all(t, shorter);
        if t.reencodes_audio() && before.is_audio_done {
            let i = choose|i: int|
                0 <= i < shorter.len() && t.is_audio((#[trigger] shorter[i]).0.stream)
                    && t.past_audio_end(shorter[i].0.pts);
            assert(packets[i] == shorter[i]);
        }
        if t.reencodes_video() && before.is_video_done {
            let i = choose|i: int|
                0 <= i < shorter.len() && t.is_video((#[trigger] shorter[i]).0.stream) && (
                shorter[i].1 || t.past_video_end(shorter[i].0.pts));
            assert(packets[i] == shorter[i]);
        }
    }
}

/// Whether each re-encoded stream of a run has passed the end of the range is told by
/// its own packets alone.
proof fn lemma_done_by_own_packets(
    plan: StreamPlan,
    video_end: i64,
    audio_end: i64,
    packets: Seq<(PacketInfo, bool)>,
)
    ensures
        ({
            let end = after_all(Transcode::start(plan, true, video_end, audio_end), packets);
            &&& end.plan == plan
            &&& end.windowed
            &&& end.video_end_ts == video_end
            &&& end.audio_end_ts == audio_end
            &&& plan.video is Some && plan.video->0.reencode ==> (end.is_video_done <==> exists|
                i: int,
            |
                0 <= i < packets.len() && (#[trigger] packets[i]).0.stream == plan.video->0.index
                    && (packets[i].1 || (packets[i].0.pts is Some && packets[i].0.pts->0
                    > video_end)))
            &&& plan.audio is Some && plan.audio->0.encode_to is Some && !(plan.video is Some
                && plan.video->0.index == plan.audio->0.index) ==> (end.is_audio_done <==> exists|
                i: int,
            |
                0 <= i < packets.len() && (#[trigger] packets[i]).0.stream == plan.audio->0.index
                    && (if packets[i].0.pts is Some {
                    packets[i].0.pts->0
                } else {
                    0i64
                }) > audio_end)
            &&& !(plan.video is Some && plan.video->0.reencode) ==> end.is_video_done
            &&& !(plan.audio is Some && plan.audio->0.encode_to is Some) ==> end.is_audio_done
        }),
    decreases packets.len(),
{
    if packets.len() > 0 {
        let shorter = packets.drop_last();
        let n = packets.len() - 1;
        lemma_done_by_own_packets(plan, video_end, audio_end, shorter);
        assert(packets[n] == packets.last());
        assert forall|i: int| 0 <= i < n implies #[trigger] packets[i] == shorter[i] by {
        }
        assert forall|i: int| 0 <= i < n implies #[trigger] shorter[i] == packets[i] by {
        }
    }
}

/// A range is kept whole: until a packet of the re-encoded audio stream has come from
/// past the end of the range, each of its packets at or before the end is decoded,
/// and until a packet of the re-encoded video stream, or what was decoded from one,
/// has passed the end, each of its packets is decoded. Neither waits for the other.
pub proof fn law_window_keeps_what_lies_in_it(
    plan: StreamPlan,
    video_end: i64,
    audio_end: i64,
    packets: Seq<(PacketInfo, bool)>,
    next: PacketInfo,
)
    ensures
        ({
            let t = after_all(Transcode::start(plan, true, video_end, audio_end), packets);
            let stamp = |p: PacketInfo|
                if p.pts is Some {
                    p.pts->0
                } else {
                    0i64
                };
            let video_at = |s: usize| plan.video is Some && plan.video->0.index == s;
            let audio_at = |s: usize|
                plan.audio is Some && plan.audio->0.index == s && !video_at(s);
            &&& audio_at(next.stream) && plan.audio->0.encode_to is Some && stamp(next)
                <= audio_end && (forall|i: int|
                0 <= i < packets.len() && audio_at((#[trigger] packets[i]).0.stream) ==> stamp(
                    packets[i].0,
                ) <= audio_end) ==> t.route_of(next) == Route::ReencodeAudio
            &&& video_at(next.stream) && plan.video->0.reencode && (forall|i: int|
                0 <= i < packets.len() && video_at((#[trigger] packets[i]).0.stream)
                    ==> !packets[i].1 && (packets[i].0.pts is Some ==> packets[i].0.pts->0
                    <= video_end)) ==> t.route_of(next) == Route::ReencodeVideo
        }),
{
    lemma_done_by_own_packets(plan, video_end, audio_end, packets);
}

/// Nothing past a range is kept: an audio packet from past the end is not decoded, nor
/// is any packet of a re-encoded stream once the stream has passed the end.
pub proof fn law_window_drops_what_lies_past_it(
    plan: StreamPlan,
    video_end: i64,
    audio_end: i64,
    packets: Seq<(PacketInfo, bool)>,
    next: PacketInfo,
    i: int,
)
    ensures
        ({
            let t = after_all(Transcode::start(plan, true, video_end, audio_end), packets);
            let stamp = |p: PacketInfo|
                if p.pts is Some {
                    p.pts->0
                } else {
                    0i64
                };
            let video_at = |s: usize| plan.video is Some && plan.video->0.index == s;
            let audio_at = |s: usize|
                plan.audio is Some && plan.audio->0.index == s && !video_at(s);
            &&& audio_at(next.stream) && plan.audio->0.encode_to is Some && stamp(next)
                > audio_end ==> t.route_of(next) == Route::Skip
            &&& 0 <= i < packets.len() && audio_at(next.stream) && plan.audio->0.encode_to is Some
                && packets[i].0.stream == next.stream && stamp(packets[i].0) > audio_end
                ==> t.route_of(next) == Route::Skip
            &&& 0 <= i < packets.len() && video_at(next.stream) && plan.video->0.reencode
                && packets[i].0.stream == next.stream && (packets[i].1 || (packets[i].0.pts is Some
                && packets[i].0.pts->0 > video_end)) ==> t.route_of(next) == Route::Skip
        }),
{
    lemma_done_by_own_packets(plan, video_end, audio_end, packets);
}

/// A copied stream is copied packet by packet, and what belongs to neither stream is
/// left out, whether or not only a range is wanted and whatever came before.
pub proof fn law_copies_are_whole(
    plan: StreamPlan,
    windowed: bool,
    video_end: i64,
    audio_end: i64,
    packets: Seq<(PacketInfo, bool)>,
    next: PacketInfo,
)
    requires
        forall|i: int| 0 <= i < packets.len() ==> (#[trigger] packets[i]).1 ==> windowed,
    ensures
        ({
            let t = after_all(Transcode::start(plan, windowed, video_end, audio_end), packets);
            let video_at = plan.video is Some && plan.video->0.index == next.stream;
            let audio_at = plan.audio is Some && plan.audio->0.index == next.stream;
            &&& video_at && !plan.video->0.reencode ==> t.route_of(next) == Route::CopyVideo
            &&& audio_at && !video_at && plan.audio->0.encode_to is None ==> t.route_of(next)
                == Route::CopyAudio
            &&& !video_at && !audio_at ==> t.route_of(next) == Route::Skip
            &&& !windowed && video_at && plan.video->0.reencode ==> t.route_of(next)
                == Route::ReencodeVideo
            &&& !windowed && audio_at && !video_at && plan.audio->0.encode_to is Some
                ==> t.route_of(next) == Route::ReencodeAudio
        }),
{
    lemma_after_all(Transcode::start(plan, windowed, video_end, audio_end), packets);
}

/// Reading stops as soon as each re-encoded stream has passed the end of the range,
/// and no sooner; without a range it goes on to the end of the file.
pub proof fn law_reading_stops_at_the_end_of_the_range(
    plan: StreamPlan,
    windowed: bool,
    video_end: i64,
    audio_end: i64,
    packets: Seq<(PacketInfo, bool)>,
)
    requires
        plan.video is Some && plan.audio is Some ==> plan.video->0.index != plan.audio->0.index,
        forall|i: int| 0 <= i < packets.len() ==> (#[trigger] packets[i]).1 ==> windowed,
    ensures
        after_all(Transcode::start(plan, windowed, video_end, audio_end), packets).complete()
            <==> {
            &&& windowed
            &&& plan.video is Some && plan.video->0.reencode ==> exists|i: int|
                0 <= i < packets.len() && (#[trigger] packets[i]).0.stream == plan.video->0.index
                    && (packets[i].1 || (packets[i].0.pts is Some && packets[i].0.pts->0
                    > video_end))
            &&& plan.audio is Some && plan.audio->0.encode_to is Some ==> exists|i: int|
                0 <= i < packets.len() && (#[trigger] packets[i]).0.stream == plan.audio->0.index
                    && (if packets[i].0.pts is Some {
                    packets[i].0.pts->0
                } else {
                    0i64
                }) > audio_end
        },
{
    lemma_after_all(Transcode::start(plan, windowed, video_end, audio_end), packets);
    lemma_done_by_own_packets(plan, video_end, audio_end, packets);
}

} // verus!
