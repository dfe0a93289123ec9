//! The open file and its playback: where the playhead is, what the decoder is asked
//! for, and when playback stops. Sound and picture themselves are played elsewhere;
//! the clock they keep comes in as a number.

use vstd::prelude::*;

use crate::clip::Clip;
use crate::decoder_thread::{DecodeEvent, DecodeRequest};
use crate::double::Double;

verus! {

/// The bits of 30, the frame rate assumed until a file reports its own, and of one
/// that has no frames. It only sets the granularity of the timeline arithmetic.
pub const FALLBACK_FPS_BITS: u64 = 0x403e_0000_0000_0000;

/// The bits of 0.5, how many seconds the picture may fall behind before it is sought
/// rather than stepped.
pub const RESYNC_BITS: u64 = 0x3fe0_0000_0000_0000;

/// Zero.
pub open spec fn zero() -> Double {
    Double { bits: 0 }
}

/// A file that was handed to a decoder.
#[derive(Clone, Copy, PartialEq, Eq, Structural, Debug)]
pub struct OpenSource {
    pub width: u32,
    pub height: u32,
    pub duration_secs: Double,
    pub fps: Double,
    pub current_secs: Double,
    /// The decoder has reported what the file holds.
    pub ready: bool,
    /// False for an audio-only file, which still gets a timeline and an audio
    /// export but no frames.
    pub has_video: bool,
    /// The number of the next request.
    pub next_gen: u64,
}

/// A seek whose frame has not landed yet.
#[derive(Clone, Copy, PartialEq, Eq, Structural, Debug)]
pub struct Awaited {
    pub gen: u64,
    pub pos: Double,
}

/// Playback clock. Video chases the master clock, which is the audio device when one
/// is open and wall time otherwise.
#[derive(Clone, Copy, PartialEq, Eq, Structural, Debug)]
pub struct Playback {
    pub playing: bool,
    /// When set, playback stops once the master clock reaches this position;
    /// `None` plays to the end.
    pub play_until: Option<Double>,
    /// Master-clock origin for video-only playback: the time and the video position
    /// captured when playback started.
    pub play_start_wall: Double,
    pub play_start_pos: Double,
    /// After releasing a timeline drag: the seek we're waiting to land on. The
    /// playhead stays here and earlier decodes are dropped until its frame arrives.
    pub awaiting_release: Option<Awaited>,
}

impl Playback {
    /// Nothing playing.
    pub open spec fn idle() -> Playback {
        Playback {
            playing: false,
            play_until: None,
            play_start_wall: zero(),
            play_start_pos: zero(),
            awaiting_release: None,
        }
    }

    /// Playback that was stopped.
    pub open spec fn stopped(self) -> Playback {
        Playback { playing: false, play_until: None, awaiting_release: None, ..self }
    }

    /// Playback that was started.
    pub open spec fn started(self, pos: Double, until: Option<Double>, now: Double) -> Playback {
        Playback {
            playing: true,
            play_until: until,
            play_start_wall: now,
            play_start_pos: pos,
            awaiting_release: None,
        }
    }

    /// Nothing playing.
    pub fn new() -> (playback: Playback)
        ensures
            playback == Playback::idle(),
    {
        Playback {
            playing: false,
            play_until: None,
            play_start_wall: Double::zero(),
            play_start_pos: Double::zero(),
            awaiting_release: None,
        }
    }

    /// Stop playback.
    pub fn stop(&mut self)
        ensures
            *final(self) == old(self).stopped(),
    {
        self.playing = false;
        self.play_until = None;
        self.awaiting_release = None;
    }

    /// Begin playing from `pos`, stopping at `until` if given.
    pub fn start(&mut self, pos: Double, until: Option<Double>, now: Double)
        ensures
            *final(self) == old(self).started(pos, until, now),
    {
        self.awaiting_release = None;
        self.playing = true;
        self.play_until = until;
        self.play_start_wall = now;
        self.play_start_pos = pos;
    }
}

/// The number after `gen`, going round at the end.
pub open spec fn gen_after(gen: u64) -> u64 {
    if gen == u64::MAX {
        0
    } else {
        (gen + 1) as u64
    }
}

impl OpenSource {
    /// A file just handed to a decoder, of which nothing is known.
    pub open spec fn fresh() -> OpenSource {
        OpenSource {
            width: 0,
            height: 0,
            duration_secs: zero(),
            fps: Double { bits: FALLBACK_FPS_BITS },
            current_secs: zero(),
            ready: false,
            has_video: false,
            next_gen: 1,
        }
    }

    /// Whether the length is a number no less than zero.
    pub open spec fn wf(self) -> bool {
        zero().at_most(self.duration_secs)
    }

    /// Once a request was sent.
    pub open spec fn asked(self) -> OpenSource {
        OpenSource { next_gen: gen_after(self.next_gen), ..self }
    }

    /// A file just handed to a decoder.
    pub fn new() -> (source: OpenSource)
        ensures
            source == OpenSource::fresh(),
            source.wf(),
    {
        OpenSource {
            width: 0,
            height: 0,
            duration_secs: Double::zero(),
            fps: Double { bits: FALLBACK_FPS_BITS },
            current_secs: Double::zero(),
            ready: false,
            has_video: false,
            next_gen: 1,
        }
    }

    fn take_gen(&mut self) -> (gen: u64)
        ensures
            gen == old(self).next_gen,
            *final(self) == old(self).asked(),
    {
        let gen: u64 = self.next_gen;
        self.next_gen = if gen == u64::MAX {
            0
        } else {
            gen + 1
        };
        gen
    }

    /// Asks for the frame at `secs`.
    pub fn seek_secs(&mut self, secs: Double) -> (request: DecodeRequest)
        ensures
            request == (DecodeRequest::Seek { secs, gen: old(self).next_gen }),
            *final(self) == old(self).asked(),
    {
        let gen: u64 = self.take_gen();
        DecodeRequest::Seek { secs, gen }
    }

    /// Asks for the frame after or before the current one.
    pub fn step(&mut self, forward: bool) -> (request: DecodeRequest)
        ensures
            request == (if forward {
                DecodeRequest::StepForward { gen: old(self).next_gen }
            } else {
                DecodeRequest::StepBackward { gen: old(self).next_gen }
            }),
            *final(self) == old(self).asked(),
    {
        let gen: u64 = self.take_gen();
        if forward {
            DecodeRequest::StepForward { gen }
        } else {
            DecodeRequest::StepBackward { gen }
        }
    }
}

/// A preview navigation: what the panels ask the decoder to do.
#[derive(Clone, Copy, PartialEq, Eq, Structural, Debug)]
pub enum Nav {
    Back,
    Forward,
    Seek { secs: Double, released: bool },
}

/// The open file, if there is one, and its playback.
#[derive(Clone, Copy, PartialEq, Eq, Structural, Debug)]
pub struct Player {
    pub source: Option<OpenSource>,
    pub playback: Playback,
}

/// What starting playback takes: where the sound starts, and what the decoder is
/// asked for first.
#[derive(Clone, Copy, PartialEq, Eq, Structural, Debug)]
pub struct Started {
    pub pos: Double,
    pub request: Option<DecodeRequest>,
}

impl Player {
    /// Whether the open file's length is a number no less than zero.
    pub open spec fn wf(self) -> bool {
        self.source is Some ==> self.source->0.wf()
    }

    /// Whether a file is open that the decoder has reported on.
    pub open spec fn ready(self) -> bool {
        self.source is Some && self.source->0.ready
    }

    /// Whether the open file has a picture.
    pub open spec fn video(self) -> bool {
        self.source is Some && self.source->0.has_video
    }

    /// Where the playhead is taken to be: at a seek that has not landed, else at the
    /// current frame.
    pub open spec fn position(self) -> Double {
        match self.playback.awaiting_release {
            Some(awaited) => awaited.pos,
            None => if self.source is Some {
                self.source->0.current_secs
            } else {
                zero()
            },
        }
    }

    /// With playback stopped.
    pub open spec fn stopped(self) -> Player {
        Player { playback: self.playback.stopped(), ..self }
    }

    /// With the playhead of an audio-only file put to `secs`.
    pub open spec fn placed(self, secs: Double) -> Player {
        Player {
            playback: self.playback.stopped(),
            source: match self.source {
                Some(source) => Some(
                    OpenSource {
                        current_secs: secs.within(zero(), source.duration_secs),
                        ..source
                    },
                ),
                None => None,
            },
        }
    }

    /// The player once it was sent to `secs`, and what the decoder is asked for.
    pub open spec fn skipped(self, secs: Double) -> (Player, Option<DecodeRequest>) {
        match self.source {
            None => (self, None),
            Some(source) => {
                let target = secs.within(zero(), source.duration_secs);
                let gen = source.next_gen;
                if source.has_video {
                    (
                        Player {
                            source: Some(source.asked()),
                            playback: Playback {
                                awaiting_release: Some(Awaited { gen, pos: target }),
                                ..self.playback.stopped()
                            },
                        },
                        Some(DecodeRequest::Seek { secs: target, gen }),
                    )
                } else {
                    (self.placed(target), None)
                }
            },
        }
    }

    /// The player once it was stepped by a frame, and what the decoder is asked for.
    pub open spec fn stepped(self, forward: bool) -> (Player, Option<DecodeRequest>) {
        if self.video() {
            let gen = self.source->0.next_gen;
            (
                Player {
                    source: Some(self.source->0.asked()),
                    playback: self.playback.stopped(),
                },
                Some(
                    if forward {
                        DecodeRequest::StepForward { gen }
                    } else {
                        DecodeRequest::StepBackward { gen }
                    },
                ),
            )
        } else {
            (self, None)
        }
    }

    /// The player once a navigation was carried out, and what the decoder is asked for.
    pub open spec fn navigated(self, nav: Nav) -> (Player, Option<DecodeRequest>) {
        if self.video() {
            let gen = self.source->0.next_gen;
            let awaiting = match nav {
                Nav::Seek { secs, released: true } => Some(Awaited { gen, pos: secs }),
                _ => None,
            };
            (
                Player {
                    source: Some(self.source->0.asked()),
                    playback: Playback { awaiting_release: awaiting, ..self.playback },
                },
                Some(
                    match nav {
                        Nav::Back => DecodeRequest::StepBackward { gen },
                        Nav::Forward => DecodeRequest::StepForward { gen },
                        Nav::Seek { secs, .. } => DecodeRequest::Seek { secs, gen },
                    },
                ),
            )
        } else {
            (
                match nav {
                    Nav::Seek { secs, .. } => self.placed(secs),
                    _ => self,
                },
                None,
            )
        }
    }

    /// The player once playback was started where it is, or stopped.
    pub open spec fn toggled(self, now: Double) -> Player {
        if self.playback.playing {
            self.stopped()
        } else if self.ready() {
            Player {
                playback: self.playback.started(self.source->0.current_secs, None, now),
                ..self
            }
        } else {
            self
        }
    }

    /// The player once the clip from `from` to `to` was started, or playback stopped.
    pub open spec fn clip_toggled(self, from: Double, to: Double, now: Double) -> Player {
        if self.playback.playing {
            self.stopped()
        } else if self.ready() {
            let cur = self.source->0.current_secs;
            let pos = if from.at_most(cur) && cur.below(to) {
                cur
            } else {
                from
            };
            Player {
                source: Some(self.source->0.asked()),
                playback: self.playback.started(pos, Some(to), now),
            }
        } else {
            self
        }
    }

    /// Nothing open.
    pub fn new() -> (player: Player)
        ensures
            player == (Player { source: None, playback: Playback::idle() }),
            player.wf(),
    {
        Player { source: None, playback: Playback::new() }
    }

    /// Closes the file.
    pub fn close(&mut self)
        ensures
            *final(self) == (Player { source: None, playback: Playback::idle() }),
            final(self).wf(),
    {
        self.playback = Playback::new();
        self.source = None;
    }

    /// Hands another file to a decoder.
    pub fn open(&mut self)
        ensures
            *final(self) == (Player {
                source: Some(OpenSource::fresh()),
                playback: Playback::idle(),
            }),
            final(self).wf(),
    {
        self.close();
        self.source = Some(OpenSource::new());
    }

    /// True once the decoder has reported its metadata.
    pub fn is_ready(&self) -> (ready: bool)
        ensures
            ready == self.ready(),
    {
        match self.source {
            Some(source) => source.ready,
            None => false,
        }
    }

    /// True while the open source has a video stream.
    pub fn has_video(&self) -> (yes: bool)
        ensures
            yes == self.video(),
    {
        match self.source {
            Some(source) => source.has_video,
            None => false,
        }
    }

    /// Current playhead position, once the decoder is ready to report one.
    pub fn ready_position_secs(&self) -> (secs: Option<Double>)
        ensures
            secs == (if self.ready() {
                Some(self.source->0.current_secs)
            } else {
                None
            }),
    {
        match self.source {
            Some(source) => if source.ready {
                Some(source.current_secs)
            } else {
                None
            },
            None => None,
        }
    }

    /// Where a skip or a new in or out point starts from: the last requested target
    /// (a still-in-flight seek), not the decoder's reported position, which lags on
    /// long videos — so a held key keeps advancing instead of stalling.
    pub fn set_position(&self) -> (secs: Option<Double>)
        ensures
            secs == (if self.source is Some {
                Some(self.position())
            } else {
                None
            }),
    {
        match self.source {
            Some(source) => Some(
                match self.playback.awaiting_release {
                    Some(awaited) => awaited.pos,
                    None => source.current_secs,
                },
            ),
            None => None,
        }
    }

    /// Seeks to `secs`, kept inside the video, and pins the playhead there until
    /// that frame lands. An audio-only file's playhead moves at once.
    pub fn skip_to(&mut self, secs: Double) -> (request: Option<DecodeRequest>)
        requires
            old(self).wf(),
        ensures
            final(self).wf(),
            (*final(self), request) == old(self).skipped(secs),
            match old(self).source {
                None => *final(self) == *old(self) && request is None,
                Some(source) => {
                    let target = secs.within(zero(), source.duration_secs);
                    if source.has_video {
                        &&& request == Some(
                            DecodeRequest::Seek { secs: target, gen: source.next_gen },
                        )
                        &&& *final(self) == (Player {
                            source: Some(source.asked()),
                            playback: Playback {
                                awaiting_release: Some(
                                    Awaited { gen: source.next_gen, pos: target },
                                ),
                                ..old(self).playback.stopped()
                            },
                        })
                    } else {
                        &&& request is None
                        &&& *final(self) == old(self).placed(target)
                    }
                },
            },
    {
        match self.source {
            None => None,
            Some(source) => {
                let target = secs.clamp(Double::zero(), source.duration_secs);
                if !source.has_video {
                    self.move_audio_only_playhead(target);
                    return None;
                }
                self.playback.stop();
                let mut source = source;
                let gen: u64 = source.next_gen;
                let request = source.seek_secs(target);
                self.source = Some(source);
                self.playback.awaiting_release = Some(Awaited { gen, pos: target });
                Some(request)
            },
        }
    }

    /// Step exactly one frame forward or backward. An audio-only source has no
    /// frames to land on, so stepping does nothing there.
    pub fn step_frame(&mut self, forward: bool) -> (request: Option<DecodeRequest>)
        requires
            old(self).wf(),
        ensures
            final(self).wf(),
            (*final(self), request) == old(self).stepped(forward),
            !old(self).video() ==> *final(self) == *old(self) && request is None,
            old(self).video() ==> {
                &&& request == Some(
                    if forward {
                        DecodeRequest::StepForward { gen: old(self).source->0.next_gen }
                    } else {
                        DecodeRequest::StepBackward { gen: old(self).source->0.next_gen }
                    },
                )
                &&& *final(self) == (Player {
                    source: Some(old(self).source->0.asked()),
                    playback: old(self).playback.stopped(),
                })
            },
    {
        if !self.has_video() {
            return None;
        }
        self.playback.stop();
        match self.source {
            Some(source) => {
                let mut source = source;
                let request = source.step(forward);
                self.source = Some(source);
                Some(request)
            },
            None => None,
        }
    }

    /// Place the playhead of an audio-only source, which has no decoded frame
    /// arriving to carry the position. Playback stops so the audio clock can't
    /// immediately overwrite the new spot.
    pub fn move_audio_only_playhead(&mut self, secs: Double)
        requires
            old(self).wf(),
        ensures
            final(self).wf(),
            *final(self) == old(self).placed(secs),
    {
        self.playback.stop();
        if let Some(source) = self.source {
            let mut source = source;
            source.current_secs = secs.clamp(Double::zero(), source.duration_secs);
            self.source = Some(source);
        }
    }

    /// Start playback from the current position, or stop if already playing.
    pub fn toggle_play(&mut self, now: Double) -> (started: Option<Started>)
        requires
            old(self).wf(),
        ensures
            final(self).wf(),
            *final(self) == old(self).toggled(now),
            final(self).source == old(self).source,
            old(self).playback.playing ==> started is None && final(self).playback
                == old(self).playback.stopped(),
            !old(self).playback.playing && !old(self).ready() ==> started is None && *final(self)
                == *old(self),
            !old(self).playback.playing && old(self).ready() ==> {
                let pos = old(self).source->0.current_secs;
                &&& started == Some(Started { pos, request: None })
                &&& final(self).playback == old(self).playback.started(pos, None, now)
            },
    {
        if self.playback.playing {
            self.playback.stop();
            return None;
        }
        match self.ready_position_secs() {
            Some(pos) => {
                self.playback.start(pos, None, now);
                Some(Started { pos, request: None })
            },
            None => None,
        }
    }

    /// Play/pause within the clip: pause if playing, else play to the out point,
    /// resuming from the current spot when it's inside the clip and otherwise
    /// starting from the in point.
    pub fn toggle_play_clip(&mut self, clip: &Clip, now: Double) -> (started: Option<Started>)
        requires
            old(self).wf(),
        ensures
            final(self).wf(),
            *final(self) == old(self).clip_toggled(clip.in_secs, clip.out_secs, now),
            old(self).playback.playing ==> started is None && *final(self) == old(self).stopped(),
            !old(self).playback.playing && !old(self).ready() ==> started is None && *final(self)
                == *old(self),
            !old(self).playback.playing && old(self).ready() ==> {
                let cur = old(self).source->0.current_secs;
                let pos = if clip.in_secs.at_most(cur) && cur.below(clip.out_secs) {
                    cur
                } else {
                    clip.in_secs
                };
                old(self).plays_from(*final(self), started, pos, Some(clip.out_secs), now)
            },
    {
        if self.playback.playing {
            self.playback.stop();
            return None;
        }
        match self.ready_position_secs() {
            Some(cur) => {
                let pos = if clip.in_secs.le(cur) && cur.lt(clip.out_secs) {
                    cur
                } else {
                    clip.in_secs
                };
                self.play_from(pos, Some(clip.out_secs), now)
            },
            None => None,
        }
    }

    /// Whether playing from `pos` leads from this to `after`: the decoder is sent
    /// there and playback starts there.
    pub open spec fn plays_from(
        self,
        after: Player,
        started: Option<Started>,
        pos: Double,
        until: Option<Double>,
        now: Double,
    ) -> bool {
        let gen = self.source->0.next_gen;
        &&& started == Some(
            Started { pos, request: Some(DecodeRequest::Seek { secs: pos, gen }) },
        )
        &&& after == Player {
            source: Some(self.source->0.asked()),
            playback: self.playback.started(pos, until, now),
        }
    }

    /// Jump to `pos` and start playing from exactly there, stopping at `until`
    /// (the clip out point) if given, otherwise at the end of the video.
    pub fn play_from(&mut self, pos: Double, until: Option<Double>, now: Double) -> (started: Option<
        Started,
    >)
        requires
            old(self).wf(),
        ensures
            final(self).wf(),
            !old(self).ready() ==> started is None && *final(self) == *old(self),
            old(self).ready() ==> old(self).plays_from(*final(self), started, pos, until, now),
    {
        if !self.is_ready() {
            return None;
        }
        match self.source {
            Some(source) => {
                let mut source = source;
                let request = source.seek_secs(pos);
                self.source = Some(source);
                self.playback.start(pos, until, now);
                Some(Started { pos, request: Some(request) })
            },
            None => None,
        }
    }

    /// Carries a navigation out. Requests are non-blocking; a released seek records
    /// its number so the playhead pins there until that exact frame lands, and
    /// everything else clears any pending release. An audio-only file decodes no
    /// frames, so its playhead moves here, and stepping has nothing to land on.
    pub fn apply_nav(&mut self, nav: Nav) -> (request: Option<DecodeRequest>)
        requires
            old(self).wf(),
        ensures
            final(self).wf(),
            (*final(self), request) == old(self).navigated(nav),
            !old(self).video() ==> request is None && *final(self) == (match nav {
                Nav::Seek { secs, .. } => old(self).placed(secs),
                _ => *old(self),
            }),
            old(self).video() ==> {
                let source = old(self).source->0;
                let gen = source.next_gen;
                &&& final(self).source == Some(source.asked())
                &&& request == Some(
                    match nav {
                        Nav::Back => DecodeRequest::StepBackward { gen },
                        Nav::Forward => DecodeRequest::StepForward { gen },
                        Nav::Seek { secs, .. } => DecodeRequest::Seek { secs, gen },
                    },
                )
                &&& final(self).playback == (Playback {
                    awaiting_release: match nav {
                        Nav::Seek { secs, released } => if released {
                            Some(Awaited { gen, pos: secs })
                        } else {
                            None
                        },
                        _ => None,
                    },
                    ..old(self).playback
                })
            },
    {
        if !self.has_video() {
            if let Nav::Seek { secs, .. } = nav {
                self.move_audio_only_playhead(secs);
            }
            return None;
        }
        match self.source {
            Some(source) => {
                let mut source = source;
                let gen: u64 = source.next_gen;
                let mut awaiting = None;
                let request = match nav {
                    Nav::Back => source.step(false),
                    Nav::Forward => source.step(true),
                    Nav::Seek { secs, released } => {
                        if released {
                            awaiting = Some(Awaited { gen, pos: secs });
                        }
                        source.seek_secs(secs)
                    },
                };
                self.source = Some(source);
                self.playback.awaiting_release = awaiting;
                Some(request)
            },
            None => None,
        }
    }

    /// Advances the picture toward the master clock while playing. `clock` is where
    /// sound is, `clock_next` a frame after it, `video_next` a frame after the
    /// picture, and `behind` how far the picture lags. At the end of the selection
    /// playback stops on its last frame; near the end of the video it stops; else
    /// the picture is stepped when a frame is due, and sought when it has fallen far
    /// behind (e.g. a slow codec dropping frames). With no picture the playhead
    /// follows the clock.
    pub fn advance(
        &mut self,
        clock: Double,
        clock_next: Double,
        video_next: Double,
        behind: Double,
    ) -> (request: Option<DecodeRequest>)
        requires
            old(self).wf(),
        ensures
            final(self).wf(),
            old(self).advances(*final(self), request, clock, clock_next, video_next, behind),
    {
        if !self.playback.playing {
            return None;
        }
        if let Some(end) = self.playback.play_until {
            if end.le(clock) {
                if !self.has_video() {
                    self.move_audio_only_playhead(end);
                    return None;
                }
                self.playback.stop();
                return match self.source {
                    Some(source) => {
                        let mut source = source;
                        let request = source.seek_secs(end);
                        self.source = Some(source);
                        Some(request)
                    },
                    None => None,
                };
            }
        }
        match self.source {
            None => {
                // Nothing is zero seconds long.
                if Double::zero().le(clock) {
                    self.playback.stop();
                }
                None
            },
            Some(source) => {
                let mut source = source;
                if !source.has_video {
                    if source.duration_secs.le(clock) {
                        self.playback.stop();
                    } else {
                        source.current_secs = clock;
                        self.source = Some(source);
                    }
                    None
                } else if source.ready && clock_next.lt(source.duration_secs) {
                    if video_next.le(clock) {
                        let request = if (Double { bits: RESYNC_BITS }).lt(behind) {
                            source.seek_secs(clock)
                        } else {
                            source.step(true)
                        };
                        self.source = Some(source);
                        Some(request)
                    } else {
                        None
                    }
                } else {
                    self.playback.stop();
                    None
                }
            },
        }
    }

    /// Whether advancing toward the clock leads from this to `after`, with this
    /// request.
    pub open spec fn advances(
        self,
        after: Player,
        request: Option<DecodeRequest>,
        clock: Double,
        clock_next: Double,
        video_next: Double,
        behind: Double,
    ) -> bool {
        let at_end = self.playback.play_until matches Some(end) && end.at_most(clock);
        if !self.playback.playing {
            after == self && request is None
        } else if at_end {
            let end = self.playback.play_until->0;
            if self.video() {
                &&& request == Some(
                    DecodeRequest::Seek { secs: end, gen: self.source->0.next_gen },
                )
                &&& after == Player {
                    source: Some(self.source->0.asked()),
                    playback: self.playback.stopped(),
                }
            } else {
                request is None && after == self.placed(end)
            }
        } else {
            match self.source {
                None => request is None && after == (if zero().at_most(clock) {
                    self.stopped()
                } else {
                    self
                }),
                Some(source) => if !source.has_video {
                    request is None && after == (if source.duration_secs.at_most(clock) {
                        self.stopped()
                    } else {
                        Player {
                            source: Some(OpenSource { current_secs: clock, ..source }),
                            ..self
                        }
                    })
                } else if source.ready && clock_next.below(source.duration_secs) {
                    if video_next.at_most(clock) {
                        &&& request == Some(
                            if (Double { bits: RESYNC_BITS }).below(behind) {
                                DecodeRequest::Seek { secs: clock, gen: source.next_gen }
                            } else {
                                DecodeRequest::StepForward { gen: source.next_gen }
                            },
                        )
                        &&& after == Player { source: Some(source.asked()), ..self }
                    } else {
                        request is None && after == self
                    }
                } else {
                    request is None && after == self.stopped()
                },
            }
        }
    }
}

/// Playback never runs past the end it was given: once the clock is there it stops,
/// and a picture is left on exactly that spot.
pub proof fn law_playback_ends_where_told(
    before: Player,
    after: Player,
    request: Option<DecodeRequest>,
    clock: Double,
    clock_next: Double,
    video_next: Double,
    behind: Double,
)
    requires
        before.advances(after, request, clock, clock_next, video_next, behind),
        before.playback.playing,
        before.playback.play_until is Some,
        before.playback.play_until->0.at_most(clock),
    ensures
        !after.playback.playing,
        before.video() ==> request is Some && request->0 is Seek && request->0->secs
            == before.playback.play_until->0,
{
}

/// While a video plays and neither end is reached, the picture chases the clock: with a
/// frame due it steps on when it is at most half a second behind and is sent to the
/// clock when it is further behind, with none due it waits, and playback goes on.
pub proof fn law_picture_chases_the_clock(
    before: Player,
    after: Player,
    request: Option<DecodeRequest>,
    clock: Double,
    clock_next: Double,
    video_next: Double,
    behind: Double,
)
    requires
        before.advances(after, request, clock, clock_next, video_next, behind),
        before.playback.playing,
        before.source is Some,
        before.source->0.ready,
        before.source->0.has_video,
        before.playback.play_until is Some ==> !before.playback.play_until->0.at_most(clock),
        clock_next.below(before.source->0.duration_secs),
    ensures
        after.playback == before.playback,
        after.source is Some,
        after.source == Some(
            OpenSource { next_gen: after.source->0.next_gen, ..before.source->0 },
        ),
        request is Some <==> video_next.at_most(clock),
        request is Some ==> {
            // Half a second.
            let far = (Double { bits: 0x3fe0_0000_0000_0000 }).below(behind);
            let gen = before.source->0.next_gen;
            &&& far ==> request->0 == (DecodeRequest::Seek { secs: clock, gen })
            &&& !far ==> request->0 == (DecodeRequest::StepForward { gen })
            &&& after.source->0.next_gen != gen
        },
        request is None ==> after == before,
{
}

/// A place to stop at changes nothing before it is reached: two players that differ in
/// that place alone ask for the same and go on alike.
pub proof fn law_stop_ahead_changes_nothing(
    one: (Player, Player, Option<DecodeRequest>),
    other: (Player, Player, Option<DecodeRequest>),
    clock: Double,
    clock_next: Double,
    video_next: Double,
    behind: Double,
)
    requires
        one.0.advances(one.1, one.2, clock, clock_next, video_next, behind),
        other.0.advances(other.1, other.2, clock, clock_next, video_next, behind),
        one.0.playback.play_until is Some ==> !one.0.playback.play_until->0.at_most(clock),
        other.0.playback.play_until is Some ==> !other.0.playback.play_until->0.at_most(clock),
        other.0 == (Player {
            playback: Playback {
                play_until: other.0.playback.play_until,
                ..one.0.playback
            },
            ..one.0
        }),
    ensures
        one.2 == other.2,
        one.1.source == other.1.source,
        one.1.playback.playing == other.1.playback.playing,
        one.1.playback.playing ==> one.1.playback.play_until == one.0.playback.play_until
            && other.1.playback.play_until == other.0.playback.play_until,
{
}

/// A video stops playing, with nothing more asked for, as soon as a frame after the
/// clock would not come before its end, or where the decoder has not reported on it.
pub proof fn law_playback_stops_at_the_end_of_the_video(
    before: Player,
    after: Player,
    request: Option<DecodeRequest>,
    clock: Double,
    clock_next: Double,
    video_next: Double,
    behind: Double,
)
    requires
        before.advances(after, request, clock, clock_next, video_next, behind),
        before.playback.playing,
        before.source is Some,
        before.source->0.has_video,
        before.playback.play_until is Some ==> !before.playback.play_until->0.at_most(clock),
        !before.source->0.ready || !clock_next.below(before.source->0.duration_secs),
    ensures
        !after.playback.playing,
        request is None,
        after.source == before.source,
{
}

/// Without a picture the playhead is where the clock is until the sound ends, which
/// stops playback where it was; told to stop earlier, it ends on that place, kept
/// inside the file. Nothing is ever asked of the decoder.
pub proof fn law_sound_alone_follows_the_clock(
    before: Player,
    after: Player,
    request: Option<DecodeRequest>,
    clock: Double,
    clock_next: Double,
    video_next: Double,
    behind: Double,
)
    requires
        before.wf(),
        before.advances(after, request, clock, clock_next, video_next, behind),
        before.playback.playing,
        before.source is Some,
        !before.source->0.has_video,
    ensures
        request is None,
        after.source is Some,
        ({
            let length = before.source->0.duration_secs;
            let until = before.playback.play_until;
            let told = until is Some && until->0.at_most(clock);
            let ended = length.at_most(clock);
            let end = after.source->0.current_secs;
            &&& after.playback.playing <==> !told && !ended
            &&& !told && !ended ==> end == clock && after.playback == before.playback
            &&& !told && ended ==> after.source == before.source
            &&& told && (Double { bits: 0 }).at_most(until->0) && until->0.at_most(length) ==> end
                == until->0
            &&& told ==> (Double { bits: 0 }).at_most(end) && end.at_most(length)
            &&& after.source->0.duration_secs == length
            &&& after.source->0.next_gen == before.source->0.next_gen
        }),
{
}

/// While nothing plays the clock moves nothing.
pub proof fn law_paused_player_stays_put(
    before: Player,
    after: Player,
    request: Option<DecodeRequest>,
    clock: Double,
    clock_next: Double,
    video_next: Double,
    behind: Double,
)
    requires
        before.advances(after, request, clock, clock_next, video_next, behind),
        !before.playback.playing,
    ensures
        after == before,
        request is None,
{
}

/// Stopping ends playback and forgets where it was to stop and what was waited for;
/// starting plays from the given place to the given end with nothing waited for.
pub proof fn law_stopping_and_starting(
    playback: Playback,
    pos: Double,
    until: Option<Double>,
    now: Double,
)
    ensures
        !playback.stopped().playing,
        playback.stopped().play_until is None,
        playback.stopped().awaiting_release is None,
        playback.started(pos, until, now).playing,
        playback.started(pos, until, now).play_until == until,
        playback.started(pos, until, now).play_start_pos == pos,
        playback.started(pos, until, now).play_start_wall == now,
        playback.started(pos, until, now).awaiting_release is None,
        !Playback::idle().playing,
        Playback::idle().awaiting_release is None,
        Playback::idle().play_until is None,
{
}

/// Playing from a place sends the decoder there and starts the clock there, the file
/// otherwise as it was.
pub proof fn law_playing_starts_where_asked(
    before: Player,
    after: Player,
    started: Option<Started>,
    pos: Double,
    until: Option<Double>,
    now: Double,
)
    requires
        before.source is Some,
        before.plays_from(after, started, pos, until, now),
    ensures
        started is Some,
        started->0.pos == pos,
        started->0.request == Some(
            DecodeRequest::Seek { secs: pos, gen: before.source->0.next_gen },
        ),
        after.playback.playing,
        after.playback.play_until == until,
        after.playback.play_start_pos == pos,
        after.playback.play_start_wall == now,
        after.playback.awaiting_release is None,
        after.source is Some,
        after.source == Some(
            OpenSource { next_gen: after.source->0.next_gen, ..before.source->0 },
        ),
        after.source->0.next_gen != before.source->0.next_gen,
{
}

/// A sound file's playhead goes where it is put, or to the nearer end where that lies
/// outside the file, and playback stops; nothing else of the file changes.
pub proof fn law_playhead_stays_in_the_file(player: Player, secs: Double)
    requires
        player.wf(),
        player.source is Some,
        !secs.nan(),
    ensures
        ({
            let zero = Double { bits: 0 };
            let length = player.source->0.duration_secs;
            let after = player.placed(secs);
            let at = after.source->0.current_secs;
            &&& after.source is Some
            &&& after.source == Some(OpenSource { current_secs: at, ..player.source->0 })
            &&& zero.at_most(secs) && secs.at_most(length) ==> at == secs
            &&& secs.below(zero) ==> at == zero
            &&& length.below(secs) ==> at == length
            &&& !after.playback.playing
            &&& after.playback.awaiting_release is None
        }),
{
}

/// The playhead is taken to be at the seek that is waited for, and else where the last
/// frame was; what was waited for no longer counts once playback is stopped.
pub proof fn law_playhead_is_where_it_was_sent(player: Player)
    requires
        player.source is Some,
    ensures
        player.playback.awaiting_release is Some ==> player.position()
            == player.playback.awaiting_release->0.pos,
        player.playback.awaiting_release is None ==> player.position()
            == player.source->0.current_secs,
        player.stopped().position() == player.source->0.current_secs,
        player.stopped().source == player.source,
        !player.stopped().playback.playing,
{
}

/// What the decoder has said of the open file in a frame, put together.
#[derive(Debug)]
pub struct Drained<I> {
    /// The newest frame worth showing.
    pub latest: Option<(I, Double)>,
    pub opened: Option<Opened>,
    pub error: Option<String>,
    /// The frame that was waited for is here.
    pub landed: bool,
}

/// What a newly opened file holds.
#[derive(Clone, Copy, PartialEq, Eq, Structural, Debug)]
pub struct Opened {
    pub width: u32,
    pub height: u32,
    pub duration_secs: Double,
    pub fps: Double,
    pub has_video: bool,
}

impl<I> Drained<I> {
    /// Nothing said yet.
    pub open spec fn nothing() -> Drained<I> {
        Drained { latest: None, opened: None, error: None, landed: false }
    }

    /// With one more event put in, while `awaiting` is waited for: then only its
    /// frame counts, and frames of superseded seeks are dropped.
    pub open spec fn with(self, event: DecodeEvent<I>, awaiting: Option<Awaited>) -> Drained<I> {
        match event {
            DecodeEvent::Opened { width, height, duration_secs, fps } => Drained {
                opened: Some(Opened { width, height, duration_secs, fps, has_video: true }),
                ..self
            },
            DecodeEvent::OpenedAudioOnly { duration_secs } => Drained {
                opened: Some(
                    Opened {
                        width: 0,
                        height: 0,
                        duration_secs,
                        fps: Double { bits: FALLBACK_FPS_BITS },
                        has_video: false,
                    },
                ),
                ..self
            },
            DecodeEvent::Frame { image, secs, gen } => match awaiting {
                Some(awaited) => if gen == awaited.gen {
                    Drained { latest: Some((image, secs)), landed: true, ..self }
                } else {
                    self
                },
                None => Drained { latest: Some((image, secs)), ..self },
            },
            DecodeEvent::Error(e) => Drained { error: Some(e), ..self },
        }
    }

    /// Nothing said yet.
    pub fn new() -> (drained: Drained<I>)
        ensures
            drained == Drained::<I>::nothing(),
    {
        Drained { latest: None, opened: None, error: None, landed: false }
    }

    /// Puts an event in.
    pub fn take(self, event: DecodeEvent<I>, awaiting: Option<Awaited>) -> (drained: Drained<I>)
        ensures
            drained == self.with(event, awaiting),
    {
        match event {
            DecodeEvent::Opened { width, height, duration_secs, fps } => Drained {
                opened: Some(Opened { width, height, duration_secs, fps, has_video: true }),
                ..self
            },
            DecodeEvent::OpenedAudioOnly { duration_secs } => Drained {
                opened: Some(
                    Opened {
                        width: 0,
                        height: 0,
                        duration_secs,
                        fps: Double { bits: FALLBACK_FPS_BITS },
                        has_video: false,
                    },
                ),
                ..self
            },
            DecodeEvent::Frame { image, secs, gen } => match awaiting {
                Some(awaited) => if gen == awaited.gen {
                    Drained { latest: Some((image, secs)), landed: true, ..self }
                } else {
                    self
                },
                None => Drained { latest: Some((image, secs)), ..self },
            },
            DecodeEvent::Error(e) => Drained { error: Some(e), ..self },
        }
    }
}

/// Every event put in.
pub open spec fn drained_all<I>(
    events: Seq<DecodeEvent<I>>,
    awaiting: Option<Awaited>,
) -> Drained<I>
    decreases events.len(),
{
    if events.len() == 0 {
        Drained::nothing()
    } else {
        drained_all(events.drop_last(), awaiting).with(events.last(), awaiting)
    }
}

/// While a seek is waited for, no frame of another request is ever shown: whatever
/// the decoder still sends, the picture stays until that seek's frame lands.
pub proof fn law_superseded_frames_are_dropped<I>(events: Seq<DecodeEvent<I>>, awaited: Awaited)
    requires
        forall|i: int|
            0 <= i < events.len() ==> (#[trigger] events[i] matches DecodeEvent::Frame { gen, .. }
                ==> gen != awaited.gen),
    ensures
        drained_all(events, Some(awaited)).latest is None,
        !drained_all(events, Some(awaited)).landed,
    decreases events.len(),
{
    if events.len() > 0 {
        let shorter = events.drop_last();
        assert forall|i: int| 0 <= i < shorter.len() implies (
        #[trigger] shorter[i] matches DecodeEvent::Frame { gen, .. } ==> gen != awaited.gen) by {
            assert(shorter[i] == events[i]);
        }
        law_superseded_frames_are_dropped(shorter, awaited);
        assert(events[events.len() - 1] == events.last());
    }
}

/// The newest frame that counts is the one shown: with nothing waited for any frame
/// does, else that of the seek alone, which has then landed.
pub proof fn law_newest_frame_is_shown<I>(
    events: Seq<DecodeEvent<I>>,
    awaiting: Option<Awaited>,
    at: int,
)
    requires
        0 <= at < events.len(),
        events[at] is Frame,
        awaiting is Some ==> events[at]->Frame_gen == awaiting->0.gen,
        forall|i: int| at < i < events.len() ==> !(#[trigger] events[i] is Frame),
    ensures
        drained_all(events, awaiting).latest == Some(
            (events[at]->Frame_image, events[at]->Frame_secs),
        ),
        awaiting is Some ==> drained_all(events, awaiting).landed,
    decreases events.len(),
{
    let shorter = events.drop_last();
    assert(events[events.len() - 1] == events.last());
    if at < shorter.len() {
        assert(shorter[at] == events[at]);
        assert forall|i: int| at < i < shorter.len() implies !(#[trigger] shorter[i] is Frame) by {
            assert(shorter[i] == events[i]);
        }
        law_newest_frame_is_shown(shorter, awaiting, at);
    }
}

/// What the decoder last said of opening the file is what holds, whatever frames come
/// with it, and so is the last error; neither comes from nothing.
pub proof fn law_openings_and_errors_are_kept<I>(
    events: Seq<DecodeEvent<I>>,
    awaiting: Option<Awaited>,
    at: int,
)
    requires
        0 <= at < events.len(),
    ensures
        events[at] is Opened && (forall|i: int|
            at < i < events.len() ==> !(#[trigger] events[i] is Opened
                || events[i] is OpenedAudioOnly)) ==> {
            let opened = drained_all(events, awaiting).opened;
            &&& opened is Some
            &&& opened->0.width == events[at]->Opened_width
            &&& opened->0.height == events[at]->Opened_height
            &&& opened->0.duration_secs == events[at]->Opened_duration_secs
            &&& opened->0.fps == events[at]->Opened_fps
            &&& opened->0.has_video
        },
        events[at] is OpenedAudioOnly && (forall|i: int|
            at < i < events.len() ==> !(#[trigger] events[i] is Opened
                || events[i] is OpenedAudioOnly)) ==> {
            let opened = drained_all(events, awaiting).opened;
            &&& opened is Some
            &&& opened->0.duration_secs == events[at]->OpenedAudioOnly_duration_secs
            &&& !opened->0.has_video
            &&& opened->0.width == 0 && opened->0.height == 0
            &&& opened->0.fps.bits == 0x403e_0000_0000_0000
        },
        events[at] is Error && (forall|i: int|
            at < i < events.len() ==> !(#[trigger] events[i] is Error)) ==> drained_all(
            events,
            awaiting,
        ).error == Some(events[at]->Error_0),
        drained_all(events, awaiting).error is Some ==> exists|i: int|
            0 <= i < events.len() && #[trigger] events[i] is Error,
        drained_all(events, awaiting).opened is Some ==> exists|i: int|
            0 <= i < events.len() && (#[trigger] events[i] is Opened
                || events[i] is OpenedAudioOnly),
    decreases events.len(),
{
    let shorter = events.drop_last();
    let n = events.len() - 1;
    assert(events[n] == events.last());
    assert forall|i: int| 0 <= i < n implies #[trigger] shorter[i] == events[i] by {
    }
    assert forall|i: int| 0 <= i < n implies #[trigger] events[i] == shorter[i] by {
    }
    if at < n {
        law_openings_and_errors_are_kept(shorter, awaiting, at);
    } else if n > 0 {
        law_openings_and_errors_are_kept(shorter, awaiting, 0);
    }
}

/// What the decoder said changes just what it speaks of: a landed seek is no longer
/// waited for, an opened file gets its size, length and rate and is ready, a frame
/// moves the playhead, and a failure closes the file.
pub proof fn law_each_word_changes_its_part(
    player: Player,
    landed: bool,
    opened: Option<Opened>,
    frame_secs: Option<Double>,
    failed: bool,
)
    requires
        player.source is Some,
    ensures
        ({
            let after = player.told(landed, opened, frame_secs, failed);
            let was = player.source->0;
            let is = after.source->0;
            &&& failed <==> after.source is None
            &&& after.playback == (Playback {
                awaiting_release: after.playback.awaiting_release,
                ..player.playback
            })
            &&& landed ==> after.playback.awaiting_release is None
            &&& !landed ==> after.playback.awaiting_release == player.playback.awaiting_release
            &&& !failed ==> is.next_gen == was.next_gen
            &&& !failed && opened is Some ==> {
                &&& is.ready
                &&& is.width == opened->0.width
                &&& is.height == opened->0.height
                &&& is.duration_secs == opened->0.duration_secs
                &&& is.fps == opened->0.fps
                &&& is.has_video == opened->0.has_video
            }
            &&& !failed && opened is None ==> is == (OpenSource {
                current_secs: is.current_secs,
                ..was
            })
            &&& !failed && frame_secs is Some ==> is.current_secs == frame_secs->0
            &&& !failed && frame_secs is None ==> is.current_secs == was.current_secs
        }),
{
}

impl Player {
    /// The player once what the decoder said is taken in.
    pub open spec fn told(
        self,
        landed: bool,
        opened: Option<Opened>,
        frame_secs: Option<Double>,
        failed: bool,
    ) -> Player {
        let playback = if landed {
            Playback { awaiting_release: None, ..self.playback }
        } else {
            self.playback
        };
        let source = match self.source {
            None => None,
            Some(source) => {
                let source = match opened {
                    Some(o) => OpenSource {
                        width: o.width,
                        height: o.height,
                        duration_secs: o.duration_secs,
                        fps: o.fps,
                        has_video: o.has_video,
                        ready: true,
                        ..source
                    },
                    None => source,
                };
                Some(
                    match frame_secs {
                        Some(secs) => OpenSource { current_secs: secs, ..source },
                        None => source,
                    },
                )
            },
        };
        Player {
            source: if failed {
                None
            } else {
                source
            },
            playback,
        }
    }

    /// Takes in what the decoder said. A newly opened file is covered by the clip
    /// from start to end; a file that failed is closed.
    pub fn apply_events(
        &mut self,
        clip: &mut Clip,
        landed: bool,
        opened: Option<Opened>,
        frame_secs: Option<Double>,
        failed: bool,
    )
        requires
            old(self).wf(),
            opened is Some ==> zero().at_most(opened->0.duration_secs),
            old(clip).wf(),
        ensures
            final(self).wf(),
            *final(self) == old(self).told(landed, opened, frame_secs, failed),
            final(clip).wf(),
            opened is None ==> *final(clip) == *old(clip),
            opened is Some ==> {
                &&& final(clip).in_secs == zero()
                &&& final(clip).out_secs == opened->0.duration_secs
                &&& final(clip).view_start_secs == zero()
                &&& final(clip).view_end_secs == opened->0.duration_secs
                &&& final(clip)@.undo.len() == 0
                &&& final(clip)@.redo.len() == 0
                &&& final(clip)@.pending is None
                &&& final(clip).scroll_gesture_commit_at is None
                &&& final(clip).window_drag == old(clip).window_drag
                &&& final(clip).timeline_drag == old(clip).timeline_drag
            },
    {
        if landed {
            self.playback.awaiting_release = None;
        }
        if let Some(o) = opened {
            if let Some(source) = self.source {
                let mut source = source;
                source.width = o.width;
                source.height = o.height;
                source.duration_secs = o.duration_secs;
                source.fps = o.fps;
                source.has_video = o.has_video;
                source.ready = true;
                self.source = Some(source);
            }
            clip.cover(o.duration_secs);
        }
        if let Some(secs) = frame_secs {
            if let Some(source) = self.source {
                let mut source = source;
                source.current_secs = secs;
                self.source = Some(source);
            }
        }
        if failed {
            self.source = None;
        }
    }
}

/// A clip reset for a new video: nothing selected, nothing grabbed, nothing to undo.
pub fn reset_clip(clip: &mut Clip)
    ensures
        final(clip).wf(),
        final(clip).in_secs == zero(),
        final(clip).out_secs == zero(),
        final(clip).view_start_secs == zero(),
        final(clip).view_end_secs == zero(),
        final(clip).window_drag is None,
        final(clip).timeline_drag is None,
        final(clip).scroll_gesture_commit_at is None,
        final(clip)@.undo.len() == 0,
        final(clip)@.redo.len() == 0,
        final(clip)@.pending is None,
{
    clip.window_drag = None;
    clip.timeline_drag = None;
    clip.cover(Double::zero());
}

/// Moves the in point to the playhead, which has to lie before the out point.
pub fn set_start(clip: &mut Clip, pos: Double, latest: Double)
    requires
        old(clip).wf(),
    ensures
        final(clip).wf(),
        final(clip).same_input(*old(clip)),
        !pos.below(old(clip).out_secs) ==> *final(clip) == *old(clip),
        pos.below(old(clip).out_secs) ==> {
            let to = crate::clip::clamped_in(pos, latest);
            final(clip)@ == (if old(clip).in_secs.equals(to) {
                old(clip)@
            } else {
                old(clip)@.edited(crate::clip::ClipRange { in_secs: to, ..old(clip)@.range })
            })
        },
{
    if pos.lt(clip.out_secs) {
        clip.set_in_secs(pos, latest);
    }
}

/// Moves the out point to the playhead, which has to lie after the in point.
pub fn set_end(clip: &mut Clip, pos: Double, earliest: Double)
    requires
        old(clip).wf(),
    ensures
        final(clip).wf(),
        final(clip).same_input(*old(clip)),
        !old(clip).in_secs.below(pos) ==> *final(clip) == *old(clip),
        old(clip).in_secs.below(pos) ==> {
            let to = pos.greater(earliest);
            final(clip)@ == (if old(clip).out_secs.equals(to) {
                old(clip)@
            } else {
                old(clip)@.edited(crate::clip::ClipRange { out_secs: to, ..old(clip)@.range })
            })
        },
{
    if clip.in_secs.lt(pos) {
        clip.set_out_secs(pos, earliest);
    }
}

/// A key that repeats while it is held: when it may next fire, or zero when it is
/// not held, so that the next press fires at once.
#[derive(Clone, Copy, PartialEq, Eq, Structural, Debug)]
pub struct NavRepeat {
    pub at: Double,
}

impl NavRepeat {
    /// Not held.
    pub fn new() -> (repeat: NavRepeat)
        ensures
            repeat.at == zero(),
    {
        NavRepeat { at: Double::zero() }
    }

    /// Takes whether the key is down at `now`, and says whether it fires: on press,
    /// then after a delay, then at every interval. `after_delay` and
    /// `after_interval` are those times counted from now.
    pub fn poll(&mut self, down: bool, now: Double, after_delay: Double, after_interval: Double)
        -> (fires: bool)
        ensures
            fires == (down && old(self).at.at_most(now)),
            final(self).at == (if !down {
                zero()
            } else if !fires {
                old(self).at
            } else if old(self).at.equals(zero()) {
                after_delay
            } else {
                after_interval
            }),
    {
        if !down {
            self.at = Double::zero();
            return false;
        }
        if !self.at.le(now) {
            return false;
        }
        self.at = if self.at.same(Double::zero()) {
            after_delay
        } else {
            after_interval
        };
        true
    }
}

/// A file just opened is not ready and has nothing to show, and no request of it goes by
/// the number of the first frame, which comes unasked.
pub proof fn law_fresh_file_awaits_its_decoder()
    ensures
        ({
            let source = OpenSource::fresh();
            &&& !source.ready
            &&& !source.has_video
            &&& source.next_gen == 1
            &&& source.width == 0 && source.height == 0
            &&& source.current_secs.bits == 0
            &&& source.duration_secs.bits == 0
            &&& source.fps.bits == 0x403e_0000_0000_0000
        }),
{
}

/// Requests are numbered one after the other, and asking changes nothing else.
pub proof fn law_requests_are_numbered(source: OpenSource)
    ensures
        source.next_gen < u64::MAX ==> source.asked().next_gen == source.next_gen + 1,
        source.next_gen == u64::MAX ==> source.asked().next_gen == 0,
        source.asked() == (OpenSource { next_gen: source.asked().next_gen, ..source }),
{
}

/// A skip ends playback and puts the playhead where it was sent, or at the nearer end of
/// the file, at once and until the frame is there, so that skips one after another add
/// up. Exactly a file with a picture asks the decoder for that place.
pub proof fn law_skip_takes_the_playhead_along(player: Player, secs: Double)
    requires
        player.wf(),
        player.source is Some,
        !secs.nan(),
    ensures
        ({
            let (after, request) = player.skipped(secs);
            let zero = Double { bits: 0 };
            let length = player.source->0.duration_secs;
            &&& !after.playback.playing
            &&& zero.at_most(secs) && secs.at_most(length) ==> after.position() == secs
            &&& secs.below(zero) ==> after.position() == zero
            &&& length.below(secs) ==> after.position() == length
            &&& request is Some <==> player.source->0.has_video
            &&& request is Some ==> request->0 == (DecodeRequest::Seek {
                secs: after.position(),
                gen: player.source->0.next_gen,
            })
            &&& after.source is Some && after.source->0.duration_secs == length
        }),
{
}

/// The frame that a skip or a released drag asked for is the one waited for: it lands by
/// the number of the request, and from then on the playhead is where that frame is.
pub proof fn law_sought_frame_ends_the_wait(player: Player, secs: Double, frame: Double)
    requires
        player.source is Some,
        player.source->0.has_video,
    ensures
        ({
            let gen = player.source->0.next_gen;
            let skipped = player.skipped(secs).0;
            let released = player.navigated(Nav::Seek { secs, released: true }).0;
            let held = player.navigated(Nav::Seek { secs, released: false }).0;
            &&& skipped.playback.awaiting_release is Some
            &&& skipped.playback.awaiting_release->0.gen == gen
            &&& skipped.told(true, None, Some(frame), false).position() == frame
            &&& released.playback.awaiting_release == Some(Awaited { gen, pos: secs })
            &&& released.position() == secs
            &&& released.told(true, None, Some(frame), false).position() == frame
            &&& held.playback.awaiting_release is None
            &&& held.told(false, None, Some(frame), false).position() == frame
        }),
{
}

/// A navigation asks a picture's decoder for just what it says, without touching the
/// clock, and moves a sound file's playhead only where it names a place.
pub proof fn law_navigation_asks_for_what_it_says(player: Player, secs: Double, released: bool)
    requires
        player.wf(),
        player.source is Some,
    ensures
        ({
            let gen = player.source->0.next_gen;
            let back = player.navigated(Nav::Back);
            let forward = player.navigated(Nav::Forward);
            let sought = player.navigated(Nav::Seek { secs, released });
            &&& player.source->0.has_video ==> {
                &&& back.1 == Some(DecodeRequest::StepBackward { gen })
                &&& forward.1 == Some(DecodeRequest::StepForward { gen })
                &&& sought.1 == Some(DecodeRequest::Seek { secs, gen })
                &&& back.0.playback.awaiting_release is None
                &&& forward.0.playback.awaiting_release is None
                &&& sought.0.playback.playing == player.playback.playing
                &&& sought.0.playback.play_until == player.playback.play_until
                &&& sought.0.source->0.next_gen != gen
            }
            &&& !player.source->0.has_video ==> {
                &&& back == (player, None::<DecodeRequest>)
                &&& forward == (player, None::<DecodeRequest>)
                &&& sought.1 is None
                &&& !sought.0.playback.playing
                &&& (Double { bits: 0 }).at_most(secs) && secs.at_most(
                    player.source->0.duration_secs,
                ) ==> sought.0.position() == secs
            }
        }),
{
}

/// A step stops playback and asks for the next frame or the one before; a sound file has
/// no frames, and a step leaves it as it is.
pub proof fn law_step_asks_for_one_frame(player: Player, forward: bool)
    requires
        player.source is Some,
    ensures
        ({
            let (after, request) = player.stepped(forward);
            let gen = player.source->0.next_gen;
            &&& !player.source->0.has_video ==> after == player && request is None
            &&& player.source->0.has_video ==> {
                &&& !after.playback.playing
                &&& after.playback.awaiting_release is None
                &&& forward ==> request == Some(DecodeRequest::StepForward { gen })
                &&& !forward ==> request == Some(DecodeRequest::StepBackward { gen })
                &&& after.source->0.current_secs == player.source->0.current_secs
            }
        }),
{
}

/// Play and pause take turns: what plays stops where it is, what does not starts from
/// where it is and plays to the end, and what is not ready stays as it is.
pub proof fn law_play_and_pause_take_turns(player: Player, now: Double, later: Double)
    ensures
        player.playback.playing ==> !player.toggled(now).playback.playing,
        !player.playback.playing && player.source is Some && player.source->0.ready ==> {
            let after = player.toggled(now);
            &&& after.playback.playing
            &&& after.playback.play_until is None
            &&& after.playback.play_start_pos == player.source->0.current_secs
            &&& after.playback.play_start_wall == now
            &&& !after.toggled(later).playback.playing
        },
        !player.playback.playing && (player.source is None || !player.source->0.ready)
            ==> player.toggled(now) == player,
        player.toggled(now).source == player.source,
{
}

/// The clip plays to its out point, from the playhead where that is inside the clip and
/// from the in point where it is not; what plays stops.
pub proof fn law_clip_plays_inside_itself(
    player: Player,
    from: Double,
    to: Double,
    now: Double,
)
    requires
        player.source is Some,
        player.source->0.ready,
    ensures
        ({
            let after = player.clip_toggled(from, to, now);
            let cur = player.source->0.current_secs;
            let inside = from.at_most(cur) && cur.below(to);
            &&& player.playback.playing ==> !after.playback.playing && after.source
                == player.source
            &&& !player.playback.playing ==> {
                &&& after.playback.playing
                &&& after.playback.play_until == Some(to)
                &&& inside ==> after.playback.play_start_pos == cur
                &&& !inside ==> after.playback.play_start_pos == from
            }
        }),
{
}

/// Nothing is ever asked of a file that is not open: what the decoder says no longer
/// counts, and playback ends as soon as its clock is at or past zero.
pub proof fn law_closed_file_stays_closed(
    before: Player,
    after: Player,
    request: Option<DecodeRequest>,
    clock: Double,
    landed: bool,
    opened: Option<Opened>,
    frame_secs: Option<Double>,
    nav: Nav,
)
    requires
        before.source is None,
    ensures
        before.told(landed, opened, frame_secs, false).source is None,
        before.skipped(clock).1 is None && before.skipped(clock).0.source is None,
        before.stepped(true).1 is None && before.stepped(false).1 is None,
        before.navigated(nav).1 is None && before.navigated(nav).0.source is None,
        before.advances(after, request, clock, clock, clock, clock) ==> request is None
            && after.source is None && ((Double { bits: 0 }).at_most(clock)
            ==> !after.playback.playing),
{
}

} // verus!
