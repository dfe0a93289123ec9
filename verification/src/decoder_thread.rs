//! The thread that owns the decoder: how it answers when a file is opened, and how
//! it folds the requests waiting for it into one piece of work.

use vstd::prelude::*;

use crate::double::Double;
use crate::text::concat;

verus! {

/// What the window asks of the decoder. `gen` numbers the requests.
#[derive(Clone, Copy, PartialEq, Eq, Structural, Debug)]
pub enum DecodeRequest {
    Seek { secs: Double, gen: u64 },
    StepForward { gen: u64 },
    StepBackward { gen: u64 },
}

/// What the decoder tells the window.
#[derive(Debug)]
pub enum DecodeEvent<I> {
    Opened { width: u32, height: u32, duration_secs: Double, fps: Double },
    /// The file has sound but no picture.
    OpenedAudioOnly { duration_secs: Double },
    /// `gen` echoes the request that produced this frame, so the window can ignore
    /// frames from superseded seeks (e.g. mid-drag decodes after a release).
    Frame { image: I, secs: Double, gen: u64 },
    Error(String),
}

/// What to tell the window of a file whose video can't be opened: that it plays as
/// sound alone, when it has that, else why not.
pub fn open_failed<I>(error: String, audio_duration: Option<Double>) -> (event: DecodeEvent<I>)
    ensures
        match audio_duration {
            Some(secs) => event == (DecodeEvent::<I>::OpenedAudioOnly { duration_secs: secs }),
            None => event is Error && event->Error_0@ == error@,
        },
{
    match audio_duration {
        Some(duration_secs) => DecodeEvent::OpenedAudioOnly { duration_secs },
        None => DecodeEvent::Error(error),
    }
}

/// What to tell the window once a video is open: its first frame, or that no decoder
/// in this build can handle the codec, which otherwise shows only a blank preview.
pub fn first_frame<I>(image: Option<I>, secs: Double, codec_name: &str) -> (event: DecodeEvent<I>)
    ensures
        match image {
            Some(image) => event == (DecodeEvent::<I>::Frame { image, secs, gen: 0 }),
            None => event is Error && event->Error_0@
                == "Couldn't decode the video stream (codec "@ + codec_name@
                + "). This build of yt-dlp-clipper has no decoder for it."@,
        },
{
    match image {
        Some(image) => DecodeEvent::Frame { image, secs, gen: 0 },
        None => {
            let mut text = concat("Couldn't decode the video stream (codec ", codec_name);
            text.append("). This build of yt-dlp-clipper has no decoder for it.");
            DecodeEvent::Error(text)
        },
    }
}

/// The waiting requests folded into one: a seek, and steps from where it lands.
#[derive(Clone, Copy, PartialEq, Eq, Structural, Debug)]
pub struct Batch {
    pub seek: Option<Double>,
    pub steps: i64,
    pub gen: u64,
}

impl DecodeRequest {
    /// The request's number.
    pub open spec fn number(self) -> u64 {
        match self {
            DecodeRequest::Seek { gen, .. } => gen,
            DecodeRequest::StepForward { gen } => gen,
            DecodeRequest::StepBackward { gen } => gen,
        }
    }

    /// How many frames the request moves by, on its own.
    pub open spec fn step(self) -> int {
        match self {
            DecodeRequest::Seek { .. } => 0,
            DecodeRequest::StepForward { .. } => 1,
            DecodeRequest::StepBackward { .. } => -1,
        }
    }
}

impl Batch {
    /// With one more request folded in.
    pub open spec fn with(self, request: DecodeRequest) -> Batch {
        match request {
            DecodeRequest::Seek { secs, gen } => Batch { seek: Some(secs), steps: 0, gen },
            _ => Batch {
                steps: (self.steps + request.step()) as i64,
                gen: request.number(),
                ..self
            },
        }
    }

    /// Nothing folded in yet.
    pub fn new() -> (batch: Batch)
        ensures
            batch == (Batch { seek: None, steps: 0, gen: 0 }),
    {
        Batch { seek: None, steps: 0, gen: 0 }
    }

    /// Folds a request in. Seeks collapse to the latest, so a fast drag never
    /// backlogs; steps add up, so rapid or held stepping isn't dropped, and a
    /// backward run becomes a single search rather than one per frame.
    pub fn fold(&mut self, request: DecodeRequest)
        requires
            request is StepForward ==> old(self).steps < i64::MAX,
            request is StepBackward ==> old(self).steps > i64::MIN,
        ensures
            *final(self) == old(self).with(request),
    {
        match request {
            DecodeRequest::Seek { secs, gen } => {
                self.seek = Some(secs);
                self.steps = 0;
                self.gen = gen;
            },
            DecodeRequest::StepForward { gen } => {
                self.steps = self.steps + 1;
                self.gen = gen;
            },
            DecodeRequest::StepBackward { gen } => {
                self.steps = self.steps - 1;
                self.gen = gen;
            },
        }
    }

    /// What to show, given what the seek and the steps produced: the steps come
    /// last, so where there are any it is what they produced.
    pub fn shown<I>(&self, sought: Option<I>, stepped: Option<I>) -> (image: Option<I>)
        ensures
            image == (if self.steps != 0 {
                stepped
            } else if self.seek is Some {
                sought
            } else {
                None
            }),
    {
        if self.steps != 0 {
            stepped
        } else if self.seek.is_some() {
            sought
        } else {
            None
        }
    }
}

/// Every request folded into an empty batch.
pub open spec fn folded(requests: Seq<DecodeRequest>) -> Batch
    decreases requests.len(),
{
    if requests.len() == 0 {
        Batch { seek: None, steps: 0, gen: 0 }
    } else {
        folded(requests.drop_last()).with(requests.last())
    }
}

/// The frames that requests move by in all.
pub open spec fn net_steps(requests: Seq<DecodeRequest>) -> int
    decreases requests.len(),
{
    if requests.len() == 0 {
        0
    } else {
        net_steps(requests.drop_last()) + requests.last().step()
    }
}

proof fn lemma_net_steps(requests: Seq<DecodeRequest>)
    ensures
        -requests.len() <= net_steps(requests) <= requests.len(),
    decreases requests.len(),
{
    if requests.len() > 0 {
        lemma_net_steps(requests.drop_last());
    }
}

/// Of the requests waiting, the last seek counts and every step after it, none
/// lost; the answer carries the number of the last request.
pub proof fn law_batch_keeps_the_last_seek_and_all_steps(requests: Seq<DecodeRequest>, k: int)
    requires
        0 < requests.len() <= i64::MAX,
        -1 <= k < requests.len(),
        k >= 0 ==> requests[k] is Seek,
        forall|i: int| k < i < requests.len() ==> !(#[trigger] requests[i] is Seek),
    ensures
        folded(requests).gen == requests.last().number(),
        folded(requests).steps == net_steps(requests.skip(k + 1)),
        folded(requests).seek == (if k >= 0 {
            Some(requests[k]->secs)
        } else {
            None
        }),
    decreases requests.len(),
{
    let shorter = requests.drop_last();
    if k == requests.len() - 1 {
        assert(requests.skip(k + 1) == Seq::<DecodeRequest>::empty());
    } else {
        let tail = requests.skip(k + 1);
        assert(tail.last() == requests.last());
        assert(tail.drop_last() == shorter.skip(k + 1));
        lemma_net_steps(tail);
        lemma_net_steps(tail.drop_last());
        if shorter.len() > 0 {
            assert forall|i: int| k < i < shorter.len() implies !(#[trigger] shorter[i] is Seek) by {
                assert(shorter[i] == requests[i]);
            }
            law_batch_keeps_the_last_seek_and_all_steps(shorter, k);
        } else {
            assert(shorter.skip(k + 1) == Seq::<DecodeRequest>::empty());
        }
    }
}

/// A step forward adds a frame to what waits and a step back takes one off, a seek starts
/// over from its place, and each leaves its number.
pub proof fn law_each_request_counts_once(batch: Batch, secs: Double, gen: u64)
    ensures
        batch.steps < i64::MAX ==> batch.with(DecodeRequest::StepForward { gen }) == (Batch {
            seek: batch.seek,
            steps: (batch.steps + 1) as i64,
            gen,
        }),
        batch.steps > i64::MIN ==> batch.with(DecodeRequest::StepBackward { gen }) == (Batch {
            seek: batch.seek,
            steps: (batch.steps - 1) as i64,
            gen,
        }),
        batch.with(DecodeRequest::Seek { secs, gen }) == (Batch {
            seek: Some(secs),
            steps: 0,
            gen,
        }),
{
}

} // verus!
