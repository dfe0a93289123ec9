//! Audio re-encoding: the encoder to ask for, the filter that cuts the window to
//! the exact sample, and the stamps of the samples that go in and out of it.

use vstd::prelude::*;

use super::plan::CodecId;
use super::ExportError;
use crate::text::{
    concat, decimal, decimal_of, hexadecimal, hexadecimal_of, signed_decimal, signed_decimal_of,
    string_of,
};

verus! {

/// Bitrate for re-encoded audio (MP3/AAC), in bits per second.
pub const AUDIO_BITRATE: usize = 192_000;

/// How to find an encoder.
#[derive(Clone, Copy, PartialEq, Eq, Structural, Debug)]
pub enum EncoderChoice {
    /// The library's own encoder for a codec.
    ById(CodecId),
    /// libopus, by its name.
    Libopus,
}

/// The encoder for `codec_id`. The native Opus encoder is experimental, so libopus
/// is asked for when targeting Opus.
pub fn audio_encoder(codec_id: CodecId) -> (choice: EncoderChoice)
    ensures
        choice == (if codec_id == CodecId::Opus {
            EncoderChoice::Libopus
        } else {
            EncoderChoice::ById(codec_id)
        }),
{
    match codec_id {
        CodecId::Opus => EncoderChoice::Libopus,
        _ => EncoderChoice::ById(codec_id),
    }
}

/// Whether a rate is the one to encode at: the source's where the encoder takes it
/// or takes any, else the highest it takes.
pub open spec fn is_best_rate(supported: Option<Seq<i32>>, src_rate: i32, rate: i32) -> bool {
    match supported {
        None => rate == src_rate,
        Some(rates) => if rates.contains(src_rate) || rates.len() == 0 {
            rate == src_rate
        } else {
            rates.contains(rate) && forall|i: int|
                0 <= i < rates.len() ==> #[trigger] rates[i] <= rate
        },
    }
}

/// The sample rate to encode at. Keeps the source rate if the encoder allows it
/// (Opus rejects e.g. 44100), otherwise picks the highest supported rate.
pub fn pick_rate(supported: &Option<Vec<i32>>, src_rate: i32) -> (rate: i32)
    ensures
        is_best_rate(
            (match *supported {
                Some(rates) => Some(rates@),
                None => None,
            }),
            src_rate,
            rate,
        ),
{
    match supported {
        None => src_rate,
        Some(rates) => {
            if rates.len() == 0 {
                return src_rate;
            }
            let mut best: i32 = rates[0];
            let mut i: usize = 0;
            while i < rates.len()
                invariant
                    i <= rates@.len(),
                    *supported is Some && supported->0@ == rates@,
                    rates@.contains(best),
                    forall|j: int| 0 <= j < i ==> #[trigger] rates@[j] <= best,
                    forall|j: int| 0 <= j < i ==> #[trigger] rates@[j] != src_rate,
                decreases rates@.len() - i,
            {
                let r: i32 = rates[i];
                assert(rates@.contains(r)) by {
                    assert(rates@[i as int] == r);
                }
                if r == src_rate {
                    return src_rate;
                }
                if r > best {
                    best = r;
                }
                i = i + 1;
            }
            assert(!rates@.contains(src_rate));
            best
        },
    }
}

/// What an audio encoder is opened with, once the codec library has said what it
/// can do.
#[derive(Clone, Copy, PartialEq, Eq, Structural, Debug)]
pub struct AudioEncoder {
    pub rate: i32,
    pub bit_rate: usize,
}

/// Settles how to open an encoder that was looked up, or why it can't be.
pub fn open_audio_encoder(
    found: bool,
    has_sample_format: bool,
    supported: &Option<Vec<i32>>,
    src_rate: i32,
) -> (encoder: Result<AudioEncoder, ExportError>)
    ensures
        !found ==> encoder == Err::<AudioEncoder, ExportError>(
            ExportError::AudioEncoderUnavailable,
        ),
        found && !has_sample_format ==> encoder == Err::<AudioEncoder, ExportError>(
            ExportError::NoSampleFormat,
        ),
        encoder is Ok <==> found && has_sample_format,
        encoder is Ok ==> encoder->Ok_0.bit_rate == 192_000,
        found && has_sample_format ==> encoder is Ok && encoder->Ok_0.bit_rate == AUDIO_BITRATE
            && is_best_rate(
            (match *supported {
                Some(rates) => Some(rates@),
                None => None,
            }),
            src_rate,
            encoder->Ok_0.rate,
        ),
{
    if !found {
        return Err(ExportError::AudioEncoderUnavailable);
    }
    let rate: i32 = pick_rate(supported, src_rate);
    if !has_sample_format {
        return Err(ExportError::NoSampleFormat);
    }
    Ok(AudioEncoder { rate, bit_rate: AUDIO_BITRATE })
}

/// How the filter graph's source is described: samples at `rate`, stamped in
/// samples.
pub open spec fn source_args_text(rate: nat, format: Seq<char>, layout: nat) -> Seq<char> {
    "time_base=1/"@ + decimal(rate) + ":sample_rate="@ + decimal(rate) + ":sample_fmt="@ + format
        + ":channel_layout=0x"@ + hexadecimal(layout)
}

/// Describes the filter graph's source. Frames are fed with stamps in sample units,
/// so the time base is one over the sample rate to match.
pub fn source_args(rate: u32, format: &str, layout: u64) -> (args: String)
    ensures
        args@ == source_args_text(rate as nat, format@, layout as nat),
{
    let rate_text = string_of(&decimal_of(rate as u64));
    let mut args = concat("time_base=1/", rate_text.as_str());
    args.append(":sample_rate=");
    args.append(rate_text.as_str());
    args.append(":sample_fmt=");
    args.append(format);
    args.append(":channel_layout=0x");
    args.append(hexadecimal_of(layout).as_str());
    args
}

/// The filter between source and sink.
pub open spec fn chain_text(trim: Option<(i64, i64)>) -> Seq<char> {
    match trim {
        Some((start, end)) => "atrim=start_sample="@ + signed_decimal(start as int)
            + ":end_sample="@ + signed_decimal(end as int),
        None => "anull"@,
    }
}

/// The filter between source and sink: `atrim` keeps `[start, end)` at sample
/// precision so the cut is exact rather than rounded to a packet boundary.
pub fn filter_chain(trim: Option<(i64, i64)>) -> (chain: String)
    ensures
        chain@ == chain_text(trim),
{
    match trim {
        Some((start, end)) => {
            let mut chain = concat("atrim=start_sample=", signed_decimal_of(start).as_str());
            chain.append(":end_sample=");
            chain.append(signed_decimal_of(end).as_str());
            chain
        },
        None => "anull".to_owned(),
    }
}

/// An audio stream being re-encoded (to AAC/MP3/Opus), trimmed to the exact sample
/// window. The filter is built on the first decoded frame, once its stamp reveals
/// where the run after the seek begins.
#[derive(Clone, Copy, Debug)]
pub struct AudioReenc {
    /// Window bounds as absolute sample indices in the source. `None` re-encodes
    /// the stream end to end, which is what saving the full file wants.
    pub window_samples: Option<(i64, i64)>,
    /// How many samples went into the filter.
    pub in_samples: i64,
    /// How many came out of it.
    pub out_samples: i64,
}

impl AudioReenc {
    /// The bounds of the window counted from sample `base` of the source.
    pub open spec fn trim(self, base: i64) -> Option<(i64, i64)> {
        match self.window_samples {
            Some((start, end)) => Some(
                (
                    if start < base {
                        0
                    } else {
                        (start - base) as i64
                    },
                    (end - base) as i64,
                ),
            ),
            None => None,
        }
    }

    /// Whether the bounds can be counted from `base`.
    pub open spec fn in_reach(self, base: i64) -> bool {
        self.window_samples matches Some((start, end)) ==> i64::MIN <= start - base <= i64::MAX
            && i64::MIN <= end - base <= i64::MAX
    }

    /// Starts with nothing fed.
    pub fn new(window_samples: Option<(i64, i64)>) -> (reenc: AudioReenc)
        ensures
            reenc == (AudioReenc { window_samples, in_samples: 0, out_samples: 0 }),
    {
        AudioReenc { window_samples, in_samples: 0, out_samples: 0 }
    }

    /// The bounds the filter is built with, when the first fed sample is sample
    /// `base` of the source: `atrim` counts from the first sample it is fed.
    pub fn trim_from(&self, base: i64) -> (trim: Option<(i64, i64)>)
        requires
            self.in_reach(base),
        ensures
            trim == self.trim(base),
    {
        match self.window_samples {
            Some((start, end)) => {
                let first: i64 = start - base;
                Some(
                    (
                        if first < 0 {
                            0
                        } else {
                            first
                        },
                        end - base,
                    ),
                )
            },
            None => None,
        }
    }

    /// Stamps a decoded frame of `samples` samples that is fed to the filter.
    pub fn feed(&mut self, samples: usize) -> (pts: i64)
        requires
            old(self).in_samples + samples <= i64::MAX,
            old(self).in_samples >= 0,
        ensures
            pts == old(self).in_samples,
            *final(self) == (AudioReenc {
                in_samples: (old(self).in_samples + samples) as i64,
                ..*old(self)
            }),
    {
        let pts: i64 = self.in_samples;
        self.in_samples = self.in_samples + samples as i64;
        pts
    }

    /// Stamps a frame of `samples` samples that came out of the filter.
    pub fn emit(&mut self, samples: usize) -> (pts: i64)
        requires
            old(self).out_samples + samples <= i64::MAX,
            old(self).out_samples >= 0,
        ensures
            pts == old(self).out_samples,
            *final(self) == (AudioReenc {
                out_samples: (old(self).out_samples + samples) as i64,
                ..*old(self)
            }),
    {
        let pts: i64 = self.out_samples;
        self.out_samples = self.out_samples + samples as i64;
        pts
    }
}

/// The cut is exact to the sample: of the samples fed, counted from the first, the
/// trimmed range holds those whose place in the source lies in the window and no
/// others.
pub proof fn law_audio_cut_is_sample_exact(reenc: AudioReenc, base: i64, i: int)
    requires
        reenc.in_reach(base),
        reenc.window_samples is Some,
        0 <= i,
    ensures
        ({
            let window = reenc.window_samples->0;
            let trim = reenc.trim(base)->0;
            trim.0 <= i < trim.1 <==> window.0 <= base + i < window.1
        }),
{
}

/// The stamps of what comes out of the filter, frame sizes given, from zero.
pub open spec fn stamps(sizes: Seq<nat>) -> Seq<nat>
    decreases sizes.len(),
{
    if sizes.len() == 0 {
        Seq::empty()
    } else {
        stamps(sizes.drop_last()).push(total(sizes.drop_last()))
    }
}

/// How many samples frames of these sizes hold.
pub open spec fn total(sizes: Seq<nat>) -> nat
    decreases sizes.len(),
{
    if sizes.len() == 0 {
        0
    } else {
        total(sizes.drop_last()) + sizes.last()
    }
}

/// Frames follow each other without a gap: each is stamped where the one before it
/// ended.
pub proof fn law_stamps_are_gapless(sizes: Seq<nat>, i: int)
    requires
        0 <= i,
        i + 1 < sizes.len(),
    ensures
        stamps(sizes).len() == sizes.len(),
        stamps(sizes)[0] == 0,
        stamps(sizes)[i + 1] == stamps(sizes)[i] + sizes[i],
    decreases sizes.len(),
{
    let shorter = sizes.drop_last();
    lemma_stamps(sizes);
    lemma_stamps(shorter);
    assert(shorter.take(i) == sizes.take(i));
    assert(sizes.take(i + 1).drop_last() == sizes.take(i));
    assert(sizes.take(0) == Seq::<nat>::empty());
}

proof fn lemma_stamps(sizes: Seq<nat>)
    ensures
        stamps(sizes).len() == sizes.len(),
        forall|i: int|
            0 <= i < sizes.len() ==> #[trigger] stamps(sizes)[i] == total(sizes.take(i)),
    decreases sizes.len(),
{
    if sizes.len() > 0 {
        let shorter = sizes.drop_last();
        lemma_stamps(shorter);
        assert forall|i: int| 0 <= i < sizes.len() implies #[trigger] stamps(sizes)[i] == total(
            sizes.take(i),
        ) by {
            if i < shorter.len() {
                assert(shorter.take(i) == sizes.take(i));
            } else {
                assert(shorter == sizes.take(i));
            }
        }
    }
}

/// The rate is one that the encoder takes, the source's wherever the encoder takes that
/// or leaves the choice open, and no rate that it takes is higher than one chosen in the
/// source's place.
pub proof fn law_rate_is_one_the_encoder_takes(
    supported: Option<Seq<i32>>,
    src_rate: i32,
    rate: i32,
    other: i32,
)
    requires
        is_best_rate(supported, src_rate, rate),
    ensures
        supported is None ==> rate == src_rate,
        supported is Some && supported->0.len() > 0 ==> supported->0.contains(rate),
        supported is Some && supported->0.contains(src_rate) ==> rate == src_rate,
        rate != src_rate && supported->0.contains(other) ==> other <= rate,
{
}

/// What is fed to the filter is cut only where a range was asked for, never before the
/// first sample fed, and to the length of the range where the range starts after that.
pub proof fn law_cut_has_the_length_of_the_range(reenc: AudioReenc, base: i64)
    requires
        reenc.in_reach(base),
    ensures
        reenc.trim(base) is Some <==> reenc.window_samples is Some,
        reenc.window_samples matches Some((start, end)) ==> {
            let trim = reenc.trim(base)->0;
            &&& trim.0 >= 0
            &&& start >= base ==> trim.1 - trim.0 == end - start
            &&& start < base ==> trim.0 == 0 && trim.1 == end - base
        },
{
}

/// The filter names the range it is given, sample by sample, and nothing is cut where
/// there is none.
pub proof fn law_filter_names_the_range(start: i64, end: i64)
    ensures
        chain_text(None) == "anull"@,
        0 <= start && 0 <= end ==> chain_text(Some((start, end))) == "atrim=start_sample="@
            + decimal(start as nat) + ":end_sample="@ + decimal(end as nat),
{
}

/// The filter's source counts time in samples: its time base is one over its rate.
pub proof fn law_filter_counts_in_samples(rate: nat, format: Seq<char>, layout: nat)
    ensures
        ("time_base=1/"@ + decimal(rate) + ":sample_rate="@ + decimal(rate)
            + ":sample_fmt="@).is_prefix_of(source_args_text(rate, format, layout)),
        (format + ":channel_layout=0x"@ + hexadecimal(layout)).is_suffix_of(
            source_args_text(rate, format, layout),
        ),
{
    let head = "time_base=1/"@ + decimal(rate) + ":sample_rate="@ + decimal(rate)
        + ":sample_fmt="@;
    let tail = format + ":channel_layout=0x"@ + hexadecimal(layout);
    let text = source_args_text(rate, format, layout);
    assert(text == head + tail);
    assert(text.take(head.len() as int) == head);
    assert(text.skip(text.len() - tail.len()) == tail);
}

} // verus!
