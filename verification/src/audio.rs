//! Audio playback: the buffer between the decoder and the device, how many samples
//! have reached the device, and which decoded samples come before the in point.
//! Samples are carried by their bits.

use std::collections::VecDeque;
use vstd::prelude::*;

use crate::decoder::PacketReply;

verus! {

/// Roughly how much audio to keep buffered ahead, in seconds.
pub const BUFFER_SECS: usize = 1;

/// Bytes per sample as it comes from the resampler.
pub const SAMPLE_BYTES: usize = 4;

/// Why a file's sound can't be played. Its picture then plays without.
#[derive(Clone, Copy, PartialEq, Eq, Structural, Debug)]
pub enum AudioError {
    NoDevice,
    WrongFormat,
    NoStream,
}

impl AudioError {
    /// What to tell the user.
    pub fn message(self) -> (text: &'static str)
        ensures
            text@ == (match self {
                AudioError::NoDevice => "no audio output device"@,
                AudioError::WrongFormat => "audio device is not f32"@,
                AudioError::NoStream => "no audio stream"@,
            }),
    {
        match self {
            AudioError::NoDevice => "no audio output device",
            AudioError::WrongFormat => "audio device is not f32",
            AudioError::NoStream => "no audio stream",
        }
    }
}

/// Whether a device can be played on: there is one, and it takes the samples as they
/// are.
pub fn check_device(found: bool, takes_floats: bool) -> (checked: Result<(), AudioError>)
    ensures
        checked == (if !found {
            Err(AudioError::NoDevice)
        } else if !takes_floats {
            Err(AudioError::WrongFormat)
        } else {
            Ok(())
        }),
{
    if !found {
        Err(AudioError::NoDevice)
    } else if !takes_floats {
        Err(AudioError::WrongFormat)
    } else {
        Ok(())
    }
}

/// Samples on their way to the device.
pub struct Ring {
    buffer: VecDeque<u32>,
    /// How many samples have been sent to the device.
    consumed: u64,
    pushed: Ghost<Seq<u32>>,
}

impl Ring {
    /// Whether what is buffered is what was put in and not yet taken out.
    pub closed spec fn wf(self) -> bool {
        &&& self.consumed <= self.pushed@.len()
        &&& self.buffer@ == self.pushed@.skip(self.consumed as int)
    }

    /// Every sample put in.
    pub closed spec fn put_in(self) -> Seq<u32> {
        self.pushed@
    }

    /// How many of them were taken out.
    pub closed spec fn taken(self) -> nat {
        self.consumed as nat
    }

    /// What the device has heard: the samples in the order they were put in, none
    /// twice and none left out.
    pub open spec fn heard(self) -> Seq<u32> {
        self.put_in().take(self.taken() as int)
    }

    /// An empty buffer.
    pub fn new() -> (ring: Ring)
        ensures
            ring.wf(),
            ring.heard() == Seq::<u32>::empty(),
            ring.put_in() == Seq::<u32>::empty(),
            ring.taken() == 0,
    {
        let ring = Ring { buffer: VecDeque::new(), consumed: 0, pushed: Ghost(Seq::empty()) };
        assert(ring.buffer@ == ring.pushed@.skip(0));
        ring
    }

    /// How many samples have reached the device, which is what the clock counts.
    pub fn consumed(&self) -> (n: u64)
        ensures
            n == self.taken(),
    {
        self.consumed
    }

    /// How many samples wait.
    pub fn len(&self) -> (n: usize)
        requires
            self.wf(),
        ensures
            n == self.put_in().len() - self.taken(),
    {
        self.buffer.len()
    }

    /// Puts samples in, from `offset` on.
    pub fn extend(&mut self, samples: &Vec<u32>, offset: usize)
        requires
            old(self).wf(),
            offset <= samples@.len(),
        ensures
            final(self).wf(),
            final(self).put_in() == old(self).put_in() + samples@.skip(offset as int),
            final(self).taken() == old(self).taken(),
            final(self).heard() == old(self).heard(),
    {
        let mut i: usize = offset;
        let ghost before = self.pushed@;
        assert(before + samples@.subrange(offset as int, offset as int) == before);
        while i < samples.len()
            invariant
                offset <= i <= samples@.len(),
                self.wf(),
                self.pushed@ == before + samples@.subrange(offset as int, i as int),
                self.consumed == old(self).consumed,
            decreases samples@.len() - i,
        {
            let s: u32 = samples[i];
            self.buffer.push_back(s);
            self.pushed = Ghost(self.pushed@.push(s));
            i = i + 1;
            assert(samples@.subrange(offset as int, i as int) == samples@.subrange(
                offset as int,
                i - 1,
            ).push(s));
            assert(self.buffer@ == self.pushed@.skip(self.consumed as int));
        }
        assert(samples@.subrange(offset as int, samples@.len() as int) == samples@.skip(
            offset as int,
        ));
    }

    /// Takes the next sample out for the device; `None` is silence, and is not
    /// counted.
    pub fn pop(&mut self) -> (sample: Option<u32>)
        requires
            old(self).wf(),
            old(self).taken() < u64::MAX,
        ensures
            final(self).wf(),
            final(self).put_in() == old(self).put_in(),
            old(self).taken() < old(self).put_in().len() ==> sample == Some(
                old(self).put_in()[old(self).taken() as int],
            ) && final(self).taken() == old(self).taken() + 1,
            old(self).taken() >= old(self).put_in().len() ==> sample is None
                && final(self).taken() == old(self).taken(),
            final(self).heard() == (match sample {
                Some(sample) => old(self).heard().push(sample),
                None => old(self).heard(),
            }),
    {
        match self.buffer.pop_front() {
            Some(sample) => {
                self.consumed = self.consumed + 1;
                assert(self.buffer@ == self.pushed@.skip(self.consumed as int));
                Some(sample)
            },
            None => None,
        }
    }

    /// Fills a request of the device for `wanted` samples, silence where there are
    /// not enough.
    pub fn fill(&mut self, wanted: usize) -> (out: Vec<Option<u32>>)
        requires
            old(self).wf(),
            old(self).taken() + wanted <= u64::MAX,
        ensures
            final(self).wf(),
            final(self).put_in() == old(self).put_in(),
            out@.len() == wanted,
            ({
                let there = old(self).put_in().len() - old(self).taken();
                let played = if wanted <= there {
                    wanted as int
                } else {
                    there
                };
                &&& final(self).taken() == old(self).taken() + played
                &&& forall|i: int|
                    0 <= i < wanted ==> #[trigger] out@[i] == (if i < played {
                        Some(old(self).put_in()[old(self).taken() + i])
                    } else {
                        None
                    })
            }),
    {
        let mut out: Vec<Option<u32>> = Vec::new();
        let ghost start = self.taken();
        let ghost all = self.put_in();
        while out.len() < wanted
            invariant
                out@.len() <= wanted,
                self.wf(),
                self.put_in() == all,
                start <= all.len(),
                start + wanted <= u64::MAX,
                self.taken() == start + (if out@.len() <= all.len() - start {
                    out@.len() as int
                } else {
                    all.len() - start
                }),
                forall|i: int|
                    0 <= i < out@.len() ==> #[trigger] out@[i] == (if i < all.len() - start {
                        Some(all[start + i])
                    } else {
                        None
                    }),
            decreases wanted - out@.len(),
        {
            let sample = self.pop();
            out.push(sample);
        }
        out
    }
}

/// The decoded frames that come before the in point. A seek lands on a packet
/// boundary at or before it, so the first samples precede it; they are dropped so
/// that the preview starts on the same sample the export does.
#[derive(Clone, Copy, PartialEq, Eq, Structural, Debug)]
pub struct LeadSkip {
    /// Frames still to drop, known once the first frame's stamp is.
    pub frames: Option<i64>,
}

/// What is taken of a resampled frame: `count` samples, of which those from `offset`
/// on are played.
#[derive(Clone, Copy, PartialEq, Eq, Structural, Debug)]
pub struct Taken {
    pub offset: usize,
    pub count: usize,
}

/// How many of `frames` frames are dropped when `skip` still have to be.
pub open spec fn dropped(skip: int, frames: int) -> int {
    if skip <= 0 {
        0
    } else if skip < frames {
        skip
    } else {
        frames
    }
}

impl LeadSkip {
    /// Not known yet.
    pub fn new() -> (skip: LeadSkip)
        ensures
            skip.frames is None,
    {
        LeadSkip { frames: None }
    }

    /// Takes the lead that the first frame's stamp gives; later ones change nothing.
    pub fn note_first(&mut self, lead: i64)
        ensures
            final(self).frames == (if old(self).frames is None {
                Some(lead)
            } else {
                old(self).frames
            }),
    {
        if self.frames.is_none() {
            self.frames = Some(lead);
        }
    }

    /// Takes a resampled frame of `samples` samples on each of `channels` channels,
    /// in `bytes` bytes. Nothing is taken of one that is empty or holds fewer bytes
    /// than it says.
    pub fn take(&mut self, samples: usize, channels: usize, bytes: usize) -> (taken: Option<Taken>)
        requires
            samples * channels * 4 <= usize::MAX,
            samples <= i64::MAX,
        ensures
            ({
                let count = samples * channels;
                let skip = if old(self).frames is Some {
                    old(self).frames->0 as int
                } else {
                    0
                };
                if count == 0 || count * 4 > bytes {
                    taken is None && *final(self) == *old(self)
                } else {
                    let drop = dropped(skip, samples as int);
                    &&& taken == Some(
                        Taken { offset: (drop * channels) as usize, count: count as usize },
                    )
                    &&& drop * channels <= count
                    &&& final(self).frames == (match old(self).frames {
                        Some(skip) => Some((skip - drop) as i64),
                        None => None,
                    })
                }
            }),
    {
        assert(samples * channels <= samples * channels * 4) by (nonlinear_arith)
            requires
                samples >= 0,
                channels >= 0,
        ;
        let count: usize = samples * channels;
        if count == 0 || count * SAMPLE_BYTES > bytes {
            return None;
        }
        let skip: i64 = match self.frames {
            Some(skip) => skip,
            None => 0,
        };
        let frames: i64 = samples as i64;
        let drop: i64 = if skip <= 0 {
            0
        } else if skip < frames {
            skip
        } else {
            frames
        };
        if let Some(left) = self.frames {
            self.frames = Some(left - drop);
        }
        assert(0 <= drop * channels <= samples * channels) by (nonlinear_arith)
            requires
                0 <= drop <= samples,
                channels >= 0,
        ;
        Some(Taken { offset: drop as usize * channels, count })
    }
}

/// Frames of these sizes, taken in turn, lose this many from the front.
pub open spec fn dropped_all(skip: int, sizes: Seq<nat>) -> int
    decreases sizes.len(),
{
    if sizes.len() == 0 {
        0
    } else {
        let drop = dropped(skip, sizes[0] as int);
        drop + dropped_all(skip - drop, sizes.skip(1))
    }
}

/// How many frames there are in all.
pub open spec fn frames_in(sizes: Seq<nat>) -> nat
    decreases sizes.len(),
{
    if sizes.len() == 0 {
        0
    } else {
        sizes[0] + frames_in(sizes.skip(1))
    }
}

/// Exactly the lead is dropped, however the frames are cut up, and nothing after
/// it: all of them when there are not more.
pub proof fn law_exactly_the_lead_is_dropped(skip: int, sizes: Seq<nat>)
    requires
        skip >= 0,
    ensures
        dropped_all(skip, sizes) == (if skip < frames_in(sizes) {
            skip
        } else {
            frames_in(sizes) as int
        }),
    decreases sizes.len(),
{
    if sizes.len() > 0 {
        let drop = dropped(skip, sizes[0] as int);
        law_exactly_the_lead_is_dropped(skip - drop, sizes.skip(1));
    }
}

/// How far the decoding thread has come.
#[derive(Clone, Copy, PartialEq, Eq, Structural, Debug)]
pub enum Phase {
    /// Reading packets.
    Reading,
    /// The packets are over; the decoder may still hold frames back.
    Tail,
    /// The decoder is empty; the resampler may still hold samples back.
    Flushing,
    Over,
}

/// What the decoding thread does next.
#[derive(Clone, Copy, PartialEq, Eq, Structural, Debug)]
pub enum AudioStep {
    /// Playback was stopped.
    Quit,
    /// Enough is buffered.
    Sleep,
    /// Read a packet.
    Read,
    /// Tell the decoder that the stream ended, and take every frame it holds.
    DrainTail,
    /// Take what the resampler holds.
    Flush,
    Done,
}

/// The thread that decodes a file's sound.
#[derive(Clone, Copy, PartialEq, Eq, Structural, Debug)]
pub struct AudioPump {
    /// The audio stream.
    pub index: usize,
    pub phase: Phase,
    /// The device's sample rate.
    pub rate: u32,
    /// The device's channels.
    pub channels: usize,
}

impl AudioPump {
    /// Whether about a second of samples can be counted.
    pub open spec fn wf(self) -> bool {
        self.rate * self.channels * BUFFER_SECS <= usize::MAX
    }

    /// Starts reading packets.
    pub fn new(index: usize, rate: u32, channels: usize) -> (pump: AudioPump)
        ensures
            pump == (AudioPump { index, phase: Phase::Reading, rate, channels }),
    {
        AudioPump { index, phase: Phase::Reading, rate, channels }
    }

    /// What to do next, with this many samples buffered.
    pub open spec fn step_of(self, stop: bool, buffered: usize) -> AudioStep {
        match self.phase {
            Phase::Reading => if stop {
                AudioStep::Quit
            } else if buffered > self.rate * self.channels * BUFFER_SECS {
                AudioStep::Sleep
            } else {
                AudioStep::Read
            },
            Phase::Tail => AudioStep::DrainTail,
            Phase::Flushing => AudioStep::Flush,
            Phase::Over => AudioStep::Done,
        }
    }

    /// What to do next: while reading, nothing once told to stop and nothing for now
    /// while about a second is buffered; then whatever is still held back, so the
    /// last few milliseconds aren't dropped.
    pub fn next(&self, stop: bool, buffered: usize) -> (step: AudioStep)
        requires
            self.wf(),
        ensures
            step == self.step_of(stop, buffered),
            step == (match self.phase {
                Phase::Reading => if stop {
                    AudioStep::Quit
                } else if buffered > self.rate * self.channels * BUFFER_SECS {
                    AudioStep::Sleep
                } else {
                    AudioStep::Read
                },
                Phase::Tail => AudioStep::DrainTail,
                Phase::Flushing => AudioStep::Flush,
                Phase::Over => AudioStep::Done,
            }),
    {
        match self.phase {
            Phase::Reading => {
                if stop {
                    return AudioStep::Quit;
                }
                let max_buffered: usize = self.rate as usize * self.channels * BUFFER_SECS;
                if buffered > max_buffered {
                    AudioStep::Sleep
                } else {
                    AudioStep::Read
                }
            },
            Phase::Tail => AudioStep::DrainTail,
            Phase::Flushing => AudioStep::Flush,
            Phase::Over => AudioStep::Done,
        }
    }

    /// Takes the answer to a read; true when the packet goes to the decoder.
    pub fn packet(&mut self, reply: PacketReply) -> (send: bool)
        ensures
            send == (reply matches PacketReply::Packet { stream } && stream == old(self).index),
            *final(self) == (if reply == PacketReply::NoMore {
                AudioPump { phase: Phase::Tail, ..*old(self) }
            } else {
                *old(self)
            }),
    {
        match reply {
            PacketReply::Packet { stream } => stream == self.index,
            PacketReply::NoMore => {
                self.phase = Phase::Tail;
                false
            },
        }
    }

    /// Takes note that the decoder is empty. A stream that gave no frame at all left
    /// nothing in the resampler either.
    pub fn tail_drained(&mut self, skip: &LeadSkip)
        ensures
            *final(self) == (AudioPump {
                phase: if skip.frames is Some {
                    Phase::Flushing
                } else {
                    Phase::Over
                },
                ..*old(self)
            }),
    {
        self.phase = if skip.frames.is_some() {
            Phase::Flushing
        } else {
            Phase::Over
        };
    }

    /// Takes note of how many samples a flush of the resampler gave; true when they
    /// are played.
    pub fn flushed(&mut self, samples: Option<usize>) -> (play: bool)
        ensures
            play == (samples is Some && samples->0 > 0),
            *final(self) == (if play {
                *old(self)
            } else {
                AudioPump { phase: Phase::Over, ..*old(self) }
            }),
    {
        let play = match samples {
            Some(n) => n > 0,
            None => false,
        };
        if !play {
            self.phase = Phase::Over;
        }
        play
    }
}

/// A first frame at or after the in point has no lead, and then nothing is dropped.
pub proof fn law_no_lead_drops_nothing(skip: int, sizes: Seq<nat>)
    requires
        skip <= 0,
    ensures
        dropped_all(skip, sizes) == 0,
    decreases sizes.len(),
{
    if sizes.len() > 0 {
        law_no_lead_drops_nothing(skip, sizes.skip(1));
    }
}

/// Reading goes on until about a second is buffered and stops at once when told to; once
/// the packets are over, whatever is still held back comes out whatever is buffered.
pub proof fn law_sound_is_read_a_second_ahead(pump: AudioPump, stop: bool, buffered: usize)
    ensures
        ({
            let step = pump.step_of(stop, buffered);
            let second = pump.rate * pump.channels;
            &&& step is Quit <==> pump.phase is Reading && stop
            &&& step is Sleep <==> pump.phase is Reading && !stop && buffered > second
            &&& step is Read <==> pump.phase is Reading && !stop && buffered <= second
            &&& step is DrainTail <==> pump.phase is Tail
            &&& step is Flush <==> pump.phase is Flushing
            &&& step is Done <==> pump.phase is Over
        }),
{
}

} // verus!
