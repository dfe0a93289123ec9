//! Stream copying: which packets are written and where their timestamps move, when
//! nothing is decoded.

use vstd::prelude::*;

use super::plan::Rational;
use super::{check_cancel, ExportError};

verus! {

/// Where the packets of an input stream go.
#[derive(Clone, Copy, PartialEq, Eq, Structural, Debug)]
pub struct CopyTarget {
    pub out_index: usize,
    pub in_tb: Rational,
}

/// Remuxing every stream of a file. Unlike a transcode this carries subtitle and
/// data streams through too, since nothing has to be decoded.
#[derive(Debug)]
pub struct Remux {
    /// By input stream.
    pub mapping: Vec<Option<CopyTarget>>,
}

impl Remux {
    /// Starts with none of `nb_streams` streams mapped.
    pub fn new(nb_streams: usize) -> (remux: Remux)
        ensures
            remux.mapping@.len() == nb_streams,
            forall|i: int| 0 <= i < nb_streams ==> #[trigger] remux.mapping@[i] is None,
    {
        let mut mapping: Vec<Option<CopyTarget>> = Vec::new();
        let mut i: usize = 0;
        while i < nb_streams
            invariant
                i <= nb_streams,
                mapping@.len() == i,
                forall|j: int| 0 <= j < i ==> #[trigger] mapping@[j] is None,
            decreases nb_streams - i,
        {
            mapping.push(None);
            i = i + 1;
        }
        Remux { mapping }
    }

    /// Maps an input stream to the output stream that was added for it.
    pub fn map(&mut self, in_index: usize, target: CopyTarget)
        requires
            in_index < old(self).mapping@.len(),
        ensures
            final(self).mapping@ == old(self).mapping@.update(in_index as int, Some(target)),
    {
        self.mapping.set(in_index, Some(target));
    }

    /// Where a packet of `stream` is written, if its stream is mapped; once the user
    /// has cancelled, nowhere.
    pub fn route(&self, stream: usize, cancel: bool) -> (target: Result<
        Option<CopyTarget>,
        ExportError,
    >)
        requires
            stream < self.mapping@.len(),
        ensures
            target == (if cancel {
                Err(ExportError::Cancelled)
            } else {
                Ok(self.mapping@[stream as int])
            }),
    {
        match check_cancel(cancel) {
            Ok(()) => Ok(self.mapping[stream]),
            Err(e) => Err(e),
        }
    }
}

/// What becomes of a packet.
#[derive(Clone, Copy, PartialEq, Eq, Structural, Debug)]
pub enum CopyStep {
    /// It is of another stream, or before the window.
    Skip,
    /// The window is over.
    Stop,
    /// Write it with these timestamps.
    Write { pts: Option<i64>, dts: Option<i64> },
}

/// Copying one stream's packets out of a window.
#[derive(Clone, Copy, PartialEq, Eq, Structural, Debug)]
pub struct CopyWindow {
    pub in_index: usize,
    pub start_ts: i64,
    pub end_ts: i64,
}

/// Whether a timestamp, where there is one, can be counted from `offset`.
pub open spec fn can_rebase(ts: Option<i64>, offset: i64) -> bool {
    ts is Some ==> i64::MIN <= ts->0 - offset <= i64::MAX
}

/// A timestamp counted from `offset`.
pub open spec fn rebased(ts: Option<i64>, offset: i64) -> Option<i64> {
    match ts {
        Some(v) => Some((v - offset) as i64),
        None => None,
    }
}

/// Shifts a copied packet's timestamp so the clip starts at zero.
pub fn rebase(ts: Option<i64>, offset: i64) -> (out: Option<i64>)
    requires
        can_rebase(ts, offset),
    ensures
        out == rebased(ts, offset),
{
    match ts {
        Some(v) => Some(v - offset),
        None => None,
    }
}

impl CopyWindow {
    /// What becomes of a packet; one without a timestamp counts as zero.
    pub open spec fn step_of(self, stream: usize, pts: Option<i64>, dts: Option<i64>) -> CopyStep {
        let at = if pts is Some {
            pts->0
        } else {
            0
        };
        if stream != self.in_index || at < self.start_ts {
            CopyStep::Skip
        } else if at > self.end_ts {
            CopyStep::Stop
        } else {
            CopyStep::Write {
                pts: rebased(pts, self.start_ts),
                dts: rebased(dts, self.start_ts),
            }
        }
    }

    /// Whether a packet is of the stream and starts inside the window.
    pub fn writes(&self, stream: usize, pts: Option<i64>) -> (yes: bool)
        ensures
            yes == (self.step_of(stream, pts, None) is Write),
    {
        let at: i64 = match pts {
            Some(pts) => pts,
            None => 0,
        };
        stream == self.in_index && self.start_ts <= at && at <= self.end_ts
    }

    /// Takes a packet that was read and says what becomes of it.
    pub fn take(&self, stream: usize, pts: Option<i64>, dts: Option<i64>, cancel: bool) -> (step:
        Result<CopyStep, ExportError>)
        requires
            !cancel && self.step_of(stream, pts, dts) is Write ==> can_rebase(pts, self.start_ts)
                && can_rebase(dts, self.start_ts),
        ensures
            step == (if cancel {
                Err(ExportError::Cancelled)
            } else {
                Ok(self.step_of(stream, pts, dts))
            }),
    {
        if let Err(e) = check_cancel(cancel) {
            return Err(e);
        }
        if self.writes(stream, pts) {
            return Ok(
                CopyStep::Write {
                    pts: rebase(pts, self.start_ts),
                    dts: rebase(dts, self.start_ts),
                },
            );
        }
        let at: i64 = match pts {
            Some(pts) => pts,
            None => 0,
        };
        if stream != self.in_index || at < self.start_ts {
            Ok(CopyStep::Skip)
        } else {
            Ok(CopyStep::Stop)
        }
    }
}

/// A packet is written exactly when it is of the stream and starts inside the
/// window, and then it lies between zero and the length of the window; the
/// distance between its two timestamps stays what it was.
pub proof fn law_copied_packets_start_in_the_window(
    window: CopyWindow,
    stream: usize,
    pts: i64,
    dts: Option<i64>,
)
    requires
        window.step_of(stream, Some(pts), dts) is Write ==> can_rebase(Some(pts), window.start_ts)
            && can_rebase(dts, window.start_ts),
    ensures
        ({
            let step = window.step_of(stream, Some(pts), dts);
            &&& step is Write <==> stream == window.in_index && window.start_ts <= pts
                <= window.end_ts
            &&& step is Write ==> {
                &&& step->pts is Some
                &&& 0 <= step->pts->0 <= window.end_ts - window.start_ts
                &&& dts is Some ==> step->dts is Some && step->pts->0 - step->dts->0 == pts
                    - dts->0
            }
        }),
{
}

/// What becomes of each packet: one of another stream, or from before the window, is
/// passed over, the first one of the stream from past the window ends the copy, and any
/// other is written with its stamps counted from the start of the window. A packet
/// without a stamp counts as zero and is written without one.
pub proof fn law_only_the_stream_ends_the_copy(
    window: CopyWindow,
    stream: usize,
    pts: Option<i64>,
    dts: Option<i64>,
)
    ensures
        ({
            let step = window.step_of(stream, pts, dts);
            let at = if pts is Some {
                pts->0
            } else {
                0i64
            };
            &&& step is Skip <==> stream != window.in_index || at < window.start_ts
            &&& step is Stop <==> stream == window.in_index && at >= window.start_ts && at
                > window.end_ts
            &&& step is Write ==> {
                &&& step->pts is Some <==> pts is Some
                &&& step->dts is Some <==> dts is Some
                &&& pts is Some && can_rebase(pts, window.start_ts) ==> step->pts->0 == pts->0
                    - window.start_ts
                &&& dts is Some && can_rebase(dts, window.start_ts) ==> step->dts->0 == dts->0
                    - window.start_ts
            }
        }),
{
}

} // verus!
