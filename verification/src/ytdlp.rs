//! Driving the `yt-dlp` program: what to ask it for, the arguments to run it with,
//! and how to read what it prints.

use vstd::prelude::*;

use crate::cookies::{chosen, CookieSource, CookieText};
use crate::double::Double;
use crate::sizes::{fmt_megabytes, megabytes_text};
use crate::text::{
    after_prefix, all_digits, ascii_lowered, ascii_uppered, chars_of, concat, contains, decimal,
    decimal_of, first_from, is_ascii_text, is_digit, is_solid, is_white, law_decimal_reads_back,
    law_trim_takes_the_blanks, lemma_first_word, lowercase, occurs, occurs_at, pad_left,
    pad_right, padded_left, padded_right, parse_max, parsed, same_text, split_words, string_of,
    strip_prefix, to_lowercase, trim, trim_spec, views, words_from, Class,
};

verus! {

/// The programs to run, by their absolute paths. Resolving them up front stops the
/// system from searching for one that was planted.
#[derive(Debug)]
pub struct Tools {
    pub ytdlp: Option<String>,
    /// What yt-dlp merges video and audio with.
    pub ffmpeg: Option<String>,
    /// What yt-dlp runs a site's scripts with.
    pub quickjs: Option<String>,
}

/// A text that may be absent.
pub open spec fn opt(s: Option<String>) -> Option<Seq<char>> {
    match s {
        Some(s) => Some(s@),
        None => None,
    }
}

/// What a setting holds after it is set: the first value it was given stays.
pub open spec fn set_once(before: Option<String>, path: Seq<char>) -> Option<Seq<char>> {
    match before {
        Some(s) => Some(s@),
        None => Some(path),
    }
}

impl Tools {
    /// No program resolved yet.
    pub fn new() -> (tools: Tools)
        ensures
            tools.ytdlp is None,
            tools.ffmpeg is None,
            tools.quickjs is None,
    {
        Tools { ytdlp: None, ffmpeg: None, quickjs: None }
    }

    /// The program to run: the one resolved, or whatever is on the `PATH`.
    pub fn binary(&self) -> (path: String)
        ensures
            path@ == (match self.ytdlp {
                Some(path) => path@,
                None => "yt-dlp"@,
            }),
    {
        match &self.ytdlp {
            Some(path) => path.clone(),
            None => "yt-dlp".to_owned(),
        }
    }
}

/// Point every yt-dlp invocation at this exact binary. Only the first call counts.
pub fn set_binary(tools: &mut Tools, path: String)
    ensures
        opt(final(tools).ytdlp) == set_once(old(tools).ytdlp, path@),
        final(tools).ffmpeg == old(tools).ffmpeg,
        final(tools).quickjs == old(tools).quickjs,
{
    if tools.ytdlp.is_none() {
        tools.ytdlp = Some(path);
    }
}

/// Tell yt-dlp which ffmpeg to merge with. Only the first call counts.
pub fn set_ffmpeg(tools: &mut Tools, path: String)
    ensures
        opt(final(tools).ffmpeg) == set_once(old(tools).ffmpeg, path@),
        final(tools).ytdlp == old(tools).ytdlp,
        final(tools).quickjs == old(tools).quickjs,
{
    if tools.ffmpeg.is_none() {
        tools.ffmpeg = Some(path);
    }
}

/// Tell yt-dlp which QuickJS to run a site's scripts with. Only the first call
/// counts.
pub fn set_js_runtime(tools: &mut Tools, path: String)
    ensures
        opt(final(tools).quickjs) == set_once(old(tools).quickjs, path@),
        final(tools).ytdlp == old(tools).ytdlp,
        final(tools).ffmpeg == old(tools).ffmpeg,
{
    if tools.quickjs.is_none() {
        tools.quickjs = Some(path);
    }
}

/// One downloadable format as reported by `yt-dlp -J`.
#[derive(Debug)]
pub struct Format {
    pub format_id: String,
    pub ext: String,
    pub resolution: Option<String>,
    pub vcodec: Option<String>,
    pub acodec: Option<String>,
    pub filesize: Option<u64>,
    pub filesize_approx: Option<u64>,
    pub height: Option<u32>,
    pub abr: Option<Double>,
}

/// Whether a codec is named, and not as `none`.
pub open spec fn is_present(codec: Option<String>) -> bool {
    codec is Some && codec->0@ != "none"@
}

fn present(codec: &Option<String>) -> (yes: bool)
    ensures
        yes == is_present(*codec),
{
    match codec {
        Some(codec) => !same_text(codec.as_str(), "none"),
        None => false,
    }
}

/// A text, or another where it is absent.
pub open spec fn text_or(s: Option<String>, other: Seq<char>) -> Seq<char> {
    match s {
        Some(s) => s@,
        None => other,
    }
}

impl Format {
    /// Whether there is a picture.
    pub open spec fn video(self) -> bool {
        is_present(self.vcodec)
    }

    /// Whether there is sound.
    pub open spec fn audio(self) -> bool {
        is_present(self.acodec)
    }

    /// The exact size if known, otherwise the estimate.
    pub open spec fn bytes(self) -> Option<u64> {
        if self.filesize is Some {
            self.filesize
        } else {
            self.filesize_approx
        }
    }

    /// Whether there is a picture.
    pub fn has_video(&self) -> (yes: bool)
        ensures
            yes == self.video(),
    {
        present(&self.vcodec)
    }

    /// Whether there is sound.
    pub fn has_audio(&self) -> (yes: bool)
        ensures
            yes == self.audio(),
    {
        present(&self.acodec)
    }

    /// Exact size if known, otherwise yt-dlp's approximate estimate.
    pub fn size(&self) -> (bytes: Option<u64>)
        ensures
            bytes == self.bytes(),
    {
        match self.filesize {
            Some(bytes) => Some(bytes),
            None => self.filesize_approx,
        }
    }

    /// The format in one line.
    pub open spec fn line(self) -> Seq<char> {
        padded_left(self.format_id@, 6) + "  "@ + padded_right(self.ext@, 5) + " "@ + padded_right(
            text_or(self.resolution, "—"@),
            10,
        ) + " v:"@ + text_or(self.vcodec, "none"@) + " a:"@ + text_or(self.acodec, "none"@) + " "@
            + (match self.bytes() {
            Some(bytes) => megabytes_text(bytes as nat) + "MB"@,
            None => "?"@,
        })
    }

    /// The format in one line.
    pub fn label(&self) -> (label: String)
        ensures
            label@ == self.line(),
    {
        let mut label = concat(pad_left(self.format_id.as_str(), 6).as_str(), "  ");
        label.append(pad_right(self.ext.as_str(), 5).as_str());
        label.append(" ");
        label.append(
            pad_right(
                match &self.resolution {
                    Some(res) => res.as_str(),
                    None => "—",
                },
                10,
            ).as_str(),
        );
        label.append(" v:");
        label.append(
            match &self.vcodec {
                Some(codec) => codec.as_str(),
                None => "none",
            },
        );
        label.append(" a:");
        label.append(
            match &self.acodec {
                Some(codec) => codec.as_str(),
                None => "none",
            },
        );
        label.append(" ");
        match self.size() {
            Some(bytes) => {
                label.append(concat(fmt_megabytes(bytes).as_str(), "MB").as_str());
            },
            None => {
                label.append("?");
            },
        }
        label
    }
}

/// What yt-dlp reports of a video.
#[derive(Debug)]
pub struct VideoInfo {
    pub title: String,
    pub formats: Vec<Format>,
}

/// A format's height, or zero where it gives none.
pub open spec fn height_of(f: Format) -> int {
    match f.height {
        Some(h) => h as int,
        None => 0,
    }
}

/// Whether a format has a picture no taller than `max_height`.
pub open spec fn fits_height(f: Format, max_height: Option<u32>) -> bool {
    f.video() && (max_height is Some ==> f.height is Some && f.height->0 <= max_height->0)
}

/// Whether format `i` is the tallest that fits, the last of them where several are.
pub open spec fn is_tallest(fs: Seq<Format>, max_height: Option<u32>, i: int) -> bool {
    &&& 0 <= i < fs.len()
    &&& fits_height(fs[i], max_height)
    &&& forall|j: int|
        0 <= j < fs.len() && fits_height(#[trigger] fs[j], max_height) ==> height_of(fs[j])
            <= height_of(fs[i]) && (j > i ==> height_of(fs[j]) < height_of(fs[i]))
}

/// The tallest format that fits, if any does.
pub open spec fn tallest(fs: Seq<Format>, max_height: Option<u32>) -> Option<int> {
    if exists|i: int| is_tallest(fs, max_height, i) {
        Some(choose|i: int| is_tallest(fs, max_height, i))
    } else {
        None
    }
}

/// The bit rate a format counts with when the best sound is picked.
pub open spec fn rate_of(f: Format) -> int {
    match f.abr {
        Some(abr) => abr.total_order(),
        None => 0,
    }
}

/// Whether a format has sound alone.
pub open spec fn is_audio_only(f: Format) -> bool {
    f.audio() && !f.video()
}

/// Whether format `i` sounds best, the last of them where several do.
pub open spec fn is_best_sound(fs: Seq<Format>, i: int) -> bool {
    &&& 0 <= i < fs.len()
    &&& is_audio_only(fs[i])
    &&& forall|j: int|
        0 <= j < fs.len() && is_audio_only(#[trigger] fs[j]) ==> rate_of(fs[j]) <= rate_of(fs[i])
            && (j > i ==> rate_of(fs[j]) < rate_of(fs[i]))
}

/// The best-sounding format with sound alone, if there is one.
pub open spec fn best_sound(fs: Seq<Format>) -> Option<int> {
    if exists|i: int| is_best_sound(fs, i) {
        Some(choose|i: int| is_best_sound(fs, i))
    } else {
        None
    }
}

/// Where the tallest video format no taller than `max_height` is (any height when
/// `None`).
pub fn best_video(formats: &Vec<Format>, max_height: Option<u32>) -> (best: Option<usize>)
    ensures
        best is Some == tallest(formats@, max_height) is Some,
        best is Some ==> best->0 == tallest(formats@, max_height)->0 && is_tallest(
            formats@,
            max_height,
            best->0 as int,
        ),
        best is None ==> forall|i: int|
            0 <= i < formats@.len() ==> !fits_height(#[trigger] formats@[i], max_height),
{
    let mut best: Option<usize> = None;
    let mut best_height: u32 = 0;
    let mut i: usize = 0;
    while i < formats.len()
        invariant
            i <= formats@.len(),
            best is None ==> forall|j: int|
                0 <= j < i ==> !fits_height(#[trigger] formats@[j], max_height),
            best is Some ==> {
                &&& best->0 < i
                &&& fits_height(formats@[best->0 as int], max_height)
                &&& best_height == height_of(formats@[best->0 as int])
                &&& forall|j: int|
                    0 <= j < i && fits_height(#[trigger] formats@[j], max_height) ==> height_of(
                        formats@[j],
                    ) <= best_height && (j > best->0 ==> height_of(formats@[j]) < best_height)
            },
        decreases formats@.len() - i,
    {
        let f = &formats[i];
        let short_enough = match max_height {
            None => true,
            Some(th) => match f.height {
                Some(h) => h <= th,
                None => false,
            },
        };
        if f.has_video() && short_enough {
            let h: u32 = match f.height {
                Some(h) => h,
                None => 0,
            };
            if best.is_none() || best_height <= h {
                best = Some(i);
                best_height = h;
            }
        }
        i = i + 1;
    }
    proof {
        if let Some(b) = best {
            assert(is_tallest(formats@, max_height, b as int));
            let t = tallest(formats@, max_height)->0;
            assert(is_tallest(formats@, max_height, t));
            assert(formats@[t] == formats@[t]);
            assert(formats@[b as int] == formats@[b as int]);
        }
    }
    best
}

/// Where the best-sounding format with sound alone is.
pub fn best_audio(formats: &Vec<Format>) -> (best: Option<usize>)
    ensures
        best is Some == best_sound(formats@) is Some,
        best is Some ==> best->0 == best_sound(formats@)->0 && is_best_sound(
            formats@,
            best->0 as int,
        ),
        best is None ==> forall|i: int|
            0 <= i < formats@.len() ==> !is_audio_only(#[trigger] formats@[i]),
{
    let mut best: Option<usize> = None;
    let mut best_rate = Double::zero();
    let mut i: usize = 0;
    while i < formats.len()
        invariant
            i <= formats@.len(),
            best is None ==> forall|j: int|
                0 <= j < i ==> !is_audio_only(#[trigger] formats@[j]),
            best is Some ==> {
                &&& best->0 < i
                &&& is_audio_only(formats@[best->0 as int])
                &&& best_rate.total_order() == rate_of(formats@[best->0 as int])
                &&& forall|j: int|
                    0 <= j < i && is_audio_only(#[trigger] formats@[j]) ==> rate_of(formats@[j])
                        <= best_rate.total_order() && (j > best->0 ==> rate_of(formats@[j])
                        < best_rate.total_order())
            },
        decreases formats@.len() - i,
    {
        let f = &formats[i];
        if f.has_audio() && !f.has_video() {
            let rate = match f.abr {
                Some(abr) => abr,
                None => Double::zero(),
            };
            if best.is_none() || best_rate.total_le(rate) {
                best = Some(i);
                best_rate = rate;
            }
        }
        i = i + 1;
    }
    proof {
        if let Some(b) = best {
            assert(is_best_sound(formats@, b as int));
            let t = best_sound(formats@)->0;
            assert(is_best_sound(formats@, t));
            assert(formats@[t] == formats@[t]);
            assert(formats@[b as int] == formats@[b as int]);
        }
    }
    best
}

/// Whether some format offers a picture `h` lines tall.
pub open spec fn offers(fs: Seq<Format>, h: u32) -> bool {
    exists|i: int| 0 <= i < fs.len() && offers_at(fs, h, i)
}

/// Whether format `i` offers a picture `h` lines tall.
pub open spec fn offers_at(fs: Seq<Format>, h: u32, i: int) -> bool {
    fs[i].video() && fs[i].height == Some(h)
}

/// Adds `h` to heights in falling order, unless it is among them.
fn insert_height(heights: &mut Vec<u32>, h: u32)
    requires
        forall|i: int, j: int|
            0 <= i < j < old(heights)@.len() ==> #[trigger] old(heights)@[i]
                > #[trigger] old(heights)@[j],
    ensures
        forall|i: int, j: int|
            0 <= i < j < final(heights)@.len() ==> #[trigger] final(heights)@[i]
                > #[trigger] final(heights)@[j],
        forall|x: u32| #[trigger]
            final(heights)@.contains(x) <==> old(heights)@.contains(x) || x == h,
{
    let mut i: usize = 0;
    while i < heights.len() && heights[i] > h
        invariant
            i <= heights@.len(),
            heights@ == old(heights)@,
            forall|j: int| 0 <= j < i ==> #[trigger] heights@[j] > h,
        decreases heights@.len() - i,
    {
        i = i + 1;
    }
    if i < heights.len() && heights[i] == h {
        assert(heights@[i as int] == h);
        return;
    }
    let ghost before = heights@;
    heights.insert(i, h);
    proof {
        let after = heights@;
        assert(after == before.insert(i as int, h));
        assert forall|x: u32| #[trigger] after.contains(x) <==> before.contains(x) || x == h by {
            assert(after[i as int] == h);
            if before.contains(x) {
                let k = before.index_of(x);
                if k < i {
                    assert(after[k] == x);
                } else {
                    assert(after[k + 1] == x);
                }
            }
            if after.contains(x) && x != h {
                let k = after.index_of(x);
                if k < i {
                    assert(before[k] == x);
                } else {
                    assert(before[k - 1] == x);
                }
            }
        }
        assert forall|a: int, b: int| 0 <= a < b < after.len() implies #[trigger] after[a]
            > #[trigger] after[b] by {
            if a < i && b == i {
                assert(before[a] > h);
            } else if a == i {
                assert(before[i as int] < h);
                if b > i + 1 {
                    assert(before[i as int] > before[b - 1]);
                }
            } else {
                let x = if a < i {
                    a
                } else {
                    a - 1
                };
                let y = if b < i {
                    b
                } else {
                    b - 1
                };
                assert(before[x] > before[y]);
            }
        }
    }
}

/// Distinct video heights the source offers, tallest first. The download/save
/// resolution menus are built from this, so they never exceed what exists.
pub fn available_heights(info: &VideoInfo) -> (heights: Vec<u32>)
    ensures
        forall|i: int, j: int|
            0 <= i < j < heights@.len() ==> #[trigger] heights@[i] > #[trigger] heights@[j],
        forall|h: u32| #[trigger]
            heights@.contains(h) <==> h > 0 && offers(info.formats@, h),
        is_menu(info.formats@, heights@),
        forall|i: int|
            0 <= i < info.formats@.len() && (#[trigger] info.formats@[i]).vcodec is Some
                && info.formats@[i].vcodec->0@ != "none"@ && info.formats@[i].height is Some
                && info.formats@[i].height->0 > 0 ==> heights@.contains(
                info.formats@[i].height->0,
            ),
        forall|k: int|
            0 <= k < heights@.len() ==> #[trigger] heights@[k] > 0 && exists|i: int|
                0 <= i < info.formats@.len() && (#[trigger] info.formats@[i]).vcodec is Some
                    && info.formats@[i].vcodec->0@ != "none"@ && info.formats@[i].height == Some(
                    heights@[k],
                ),
{
    let mut heights: Vec<u32> = Vec::new();
    let mut i: usize = 0;
    while i < info.formats.len()
        invariant
            i <= info.formats@.len(),
            forall|a: int, b: int|
                0 <= a < b < heights@.len() ==> #[trigger] heights@[a] > #[trigger] heights@[b],
            forall|h: u32| #[trigger]
                heights@.contains(h) <==> h > 0 && exists|j: int|
                    0 <= j < i && offers_at(info.formats@, h, j),
        decreases info.formats@.len() - i,
    {
        let f = &info.formats[i];
        let ghost before = heights@;
        if f.has_video() {
            if let Some(h) = f.height {
                if h > 0 {
                    insert_height(&mut heights, h);
                }
            }
        }
        proof {
            assert forall|h: u32| #[trigger] heights@.contains(h) <==> h > 0 && exists|j: int|
                0 <= j < i + 1 && offers_at(info.formats@, h, j) by {
                let here = offers_at(info.formats@, h, i as int);
                assert(heights@.contains(h) <==> before.contains(h) || (h > 0 && here));
                if h > 0 && (exists|j: int| 0 <= j < i + 1 && offers_at(info.formats@, h, j)) {
                    let j = choose|j: int| 0 <= j < i + 1 && offers_at(info.formats@, h, j);
                    if j == i {
                        assert(here);
                    } else {
                        assert(0 <= j < i && offers_at(info.formats@, h, j));
                    }
                }
            }
        }
        i = i + 1;
    }
    proof {
        law_menu_lists_every_picture(info.formats@, heights@);
    }
    heights
}

/// The heights that `fs` offers, tallest first and each once.
pub open spec fn is_menu(fs: Seq<Format>, heights: Seq<u32>) -> bool {
    &&& forall|i: int, j: int|
        0 <= i < j < heights.len() ==> #[trigger] heights[i] > #[trigger] heights[j]
    &&& forall|h: u32| #[trigger] heights.contains(h) <==> h > 0 && offers(fs, h)
}

/// The menu leaves no picture out and makes none up: the height of every format whose
/// video codec is named other than `none` is on it, whatever the format's sound, and
/// every height on it is that of such a format. Each is there once, the tallest first.
pub proof fn law_menu_lists_every_picture(fs: Seq<Format>, heights: Seq<u32>)
    requires
        is_menu(fs, heights),
    ensures
        forall|i: int, j: int|
            0 <= i < j < heights.len() ==> #[trigger] heights[i] > #[trigger] heights[j],
        forall|i: int|
            0 <= i < fs.len() && (#[trigger] fs[i]).vcodec is Some && fs[i].vcodec->0@ != "none"@
                && fs[i].height is Some && fs[i].height->0 > 0 ==> heights.contains(
                fs[i].height->0,
            ),
        forall|k: int|
            0 <= k < heights.len() ==> #[trigger] heights[k] > 0 && exists|i: int|
                0 <= i < fs.len() && (#[trigger] fs[i]).vcodec is Some && fs[i].vcodec->0@
                    != "none"@ && fs[i].height == Some(heights[k]),
{
    assert forall|i: int|
        0 <= i < fs.len() && (#[trigger] fs[i]).vcodec is Some && fs[i].vcodec->0@ != "none"@
            && fs[i].height is Some && fs[i].height->0 > 0 implies heights.contains(
        fs[i].height->0,
    ) by {
        assert(offers_at(fs, fs[i].height->0, i));
    }
    assert forall|k: int| 0 <= k < heights.len() implies #[trigger] heights[k] > 0 && exists|
        i: int,
    |
        0 <= i < fs.len() && (#[trigger] fs[i]).vcodec is Some && fs[i].vcodec->0@ != "none"@
            && fs[i].height == Some(heights[k]) by {
        assert(heights.contains(heights[k]));
        let i = choose|i: int| 0 <= i < fs.len() && offers_at(fs, heights[k], i);
        assert(fs[i].height == Some(heights[k]));
    }
}

/// Some format is the tallest that fits where any fits.
proof fn lemma_has_tallest(fs: Seq<Format>, max_height: Option<u32>)
    requires
        exists|k: int| 0 <= k < fs.len() && fits_height(#[trigger] fs[k], max_height),
    ensures
        exists|i: int| is_tallest(fs, max_height, i),
    decreases fs.len(),
{
    let n = fs.len() - 1;
    let fewer = fs.drop_last();
    assert(forall|k: int| 0 <= k < n ==> #[trigger] fewer[k] == fs[k]);
    if exists|k: int| 0 <= k < fewer.len() && fits_height(#[trigger] fewer[k], max_height) {
        lemma_has_tallest(fewer, max_height);
        let best = choose|i: int| is_tallest(fewer, max_height, i);
        assert(fewer[best] == fs[best]);
        assert forall|j: int|
            0 <= j < n && fits_height(#[trigger] fs[j], max_height) implies height_of(fs[j])
            <= height_of(fs[best]) && (j > best ==> height_of(fs[j]) < height_of(fs[best])) by {
            assert(fewer[j] == fs[j]);
        }
        if fits_height(fs[n], max_height) && height_of(fs[best]) <= height_of(fs[n]) {
            assert(is_tallest(fs, max_height, n));
        } else {
            assert(is_tallest(fs, max_height, best));
        }
    } else {
        let k = choose|k: int| 0 <= k < fs.len() && fits_height(#[trigger] fs[k], max_height);
        assert(k < n ==> fits_height(fewer[k], max_height));
        assert forall|j: int| 0 <= j < n implies !fits_height(#[trigger] fs[j], max_height) by {
            assert(fewer[j] == fs[j]);
        }
        assert(is_tallest(fs, max_height, n));
    }
}

/// The picture that is fetched is of a format that has one and no taller than asked,
/// and no such format is taller; one is found wherever there is one.
pub proof fn law_best_video_is_the_tallest_allowed(
    fs: Seq<Format>,
    max_height: Option<u32>,
    j: int,
)
    requires
        0 <= j < fs.len(),
        fs[j].vcodec is Some,
        fs[j].vcodec->0@ != "none"@,
        max_height is Some ==> fs[j].height is Some && fs[j].height->0 <= max_height->0,
    ensures
        tallest(fs, max_height) is Some,
        ({
            let best = fs[tallest(fs, max_height)->0];
            &&& 0 <= tallest(fs, max_height)->0 < fs.len()
            &&& best.vcodec is Some
            &&& best.vcodec->0@ != "none"@
            &&& max_height is Some ==> best.height is Some && best.height->0 <= max_height->0
            &&& fs[j].height is Some && fs[j].height->0 > 0 ==> best.height is Some
                && fs[j].height->0 <= best.height->0
            // The last of those that are equally tall.
            &&& fs[j].height == best.height ==> j <= tallest(fs, max_height)->0
        }),
{
    assert(fits_height(fs[j], max_height));
    lemma_has_tallest(fs, max_height);
    let best = tallest(fs, max_height)->0;
    assert(is_tallest(fs, max_height, best));
    assert(height_of(fs[j]) <= height_of(fs[best]));
}

/// Some format sounds best where any has sound alone.
proof fn lemma_has_best_sound(fs: Seq<Format>)
    requires
        exists|k: int| 0 <= k < fs.len() && is_audio_only(#[trigger] fs[k]),
    ensures
        exists|i: int| is_best_sound(fs, i),
    decreases fs.len(),
{
    let n = fs.len() - 1;
    let fewer = fs.drop_last();
    assert(forall|k: int| 0 <= k < n ==> #[trigger] fewer[k] == fs[k]);
    if exists|k: int| 0 <= k < fewer.len() && is_audio_only(#[trigger] fewer[k]) {
        lemma_has_best_sound(fewer);
        let best = choose|i: int| is_best_sound(fewer, i);
        assert(fewer[best] == fs[best]);
        assert forall|j: int| 0 <= j < n && is_audio_only(#[trigger] fs[j]) implies rate_of(fs[j])
            <= rate_of(fs[best]) && (j > best ==> rate_of(fs[j]) < rate_of(fs[best])) by {
            assert(fewer[j] == fs[j]);
        }
        if is_audio_only(fs[n]) && rate_of(fs[best]) <= rate_of(fs[n]) {
            assert(is_best_sound(fs, n));
        } else {
            assert(is_best_sound(fs, best));
        }
    } else {
        let k = choose|k: int| 0 <= k < fs.len() && is_audio_only(#[trigger] fs[k]);
        assert(k < n ==> is_audio_only(fewer[k]));
        assert forall|j: int| 0 <= j < n implies !is_audio_only(#[trigger] fs[j]) by {
            assert(fewer[j] == fs[j]);
        }
        assert(is_best_sound(fs, n));
    }
}

/// The sound that is fetched is of a format that has sound and no picture, and no such
/// format has a higher bit rate; one is found wherever there is one.
pub proof fn law_best_audio_has_the_highest_rate(fs: Seq<Format>, j: int)
    requires
        0 <= j < fs.len(),
        fs[j].acodec is Some,
        fs[j].acodec->0@ != "none"@,
        fs[j].vcodec is None || fs[j].vcodec->0@ == "none"@,
    ensures
        best_sound(fs) is Some,
        ({
            let best = fs[best_sound(fs)->0];
            &&& 0 <= best_sound(fs)->0 < fs.len()
            &&& best.acodec is Some
            &&& best.acodec->0@ != "none"@
            &&& best.vcodec is None || best.vcodec->0@ == "none"@
            &&& fs[j].abr is Some && best.abr is Some ==> !best.abr->0.below(fs[j].abr->0)
            &&& fs[j].abr is Some && best.abr is None ==> !(Double { bits: 0 }).below(
                fs[j].abr->0,
            )
            &&& fs[j].abr is None && best.abr is Some ==> !best.abr->0.below(Double { bits: 0 })
            // The last of those with the same rate.
            &&& fs[j].abr == best.abr ==> j <= best_sound(fs)->0
        }),
{
    assert(is_audio_only(fs[j]));
    lemma_has_best_sound(fs);
    let best = best_sound(fs)->0;
    assert(is_best_sound(fs, best));
    assert(rate_of(fs[j]) <= rate_of(fs[best]));
}

/// What to ask yt-dlp for.
pub open spec fn selector_text(height: Option<u32>, want_video: bool, want_audio: bool) -> Option<
    Seq<char>,
> {
    if want_video && want_audio {
        Some(
            match height {
                Some(h) => "bestvideo[height<="@ + decimal(h as nat) + "]+bestaudio/best[height<="@
                    + decimal(h as nat) + "]"@,
                None => "bestvideo+bestaudio/best"@,
            },
        )
    } else if want_video {
        Some(
            match height {
                Some(h) => "bestvideo[height<="@ + decimal(h as nat) + "]"@,
                None => "bestvideo"@,
            },
        )
    } else if want_audio {
        Some("bestaudio"@)
    } else {
        None
    }
}

/// yt-dlp `-f` selector for a download capped at `height` (best when `None`),
/// merging best audio into a video-only pick. `None` means "let yt-dlp decide".
pub fn resolution_selector(height: Option<u32>, want_video: bool, want_audio: bool) -> (selector:
    Option<String>)
    ensures
        opt(selector) == selector_text(height, want_video, want_audio),
{
    if want_video {
        let mut selector = match height {
            Some(h) => {
                let digits = string_of(&decimal_of(h as u64));
                let mut selector = concat("bestvideo[height<=", digits.as_str());
                if want_audio {
                    selector.append("]+bestaudio/best[height<=");
                    selector.append(digits.as_str());
                }
                selector.append("]");
                selector
            },
            None => if want_audio {
                "bestvideo+bestaudio/best".to_owned()
            } else {
                "bestvideo".to_owned()
            },
        };
        Some(selector)
    } else if want_audio {
        Some("bestaudio".to_owned())
    } else {
        None
    }
}

/// The size of a pick, where there is one and it is known.
pub open spec fn picked_bytes(fs: Seq<Format>, pick: Option<int>) -> Option<u64> {
    match pick {
        Some(i) => fs[i].bytes(),
        None => None,
    }
}

/// The two sizes a download adds up to.
pub open spec fn wanted_bytes(
    fs: Seq<Format>,
    height: Option<u32>,
    want_video: bool,
    want_audio: bool,
) -> (Option<u64>, Option<u64>) {
    (
        if want_video {
            picked_bytes(fs, tallest(fs, height))
        } else {
            None
        },
        if want_audio {
            picked_bytes(fs, best_sound(fs))
        } else {
            None
        },
    )
}

/// The sum of the sizes that are known, if one is.
pub open spec fn known_sum(sizes: (Option<u64>, Option<u64>)) -> Option<int> {
    match sizes {
        (None, None) => None,
        (Some(a), None) => Some(a as int),
        (None, Some(b)) => Some(b as int),
        (Some(a), Some(b)) => Some(a + b),
    }
}

/// Estimate the download size for a resolution selection, mirroring what
/// `resolution_selector` would fetch: the tallest video within `height` plus
/// best audio, per the Video/Audio toggles. `None` if no size is known.
pub fn estimated_size(info: &VideoInfo, height: Option<u32>, want_video: bool, want_audio: bool)
    -> (total: Option<u64>)
    requires
        known_sum(wanted_bytes(info.formats@, height, want_video, want_audio)) is Some
            ==> known_sum(wanted_bytes(info.formats@, height, want_video, want_audio))->0
            <= u64::MAX,
    ensures
        match total {
            Some(bytes) => known_sum(
                wanted_bytes(info.formats@, height, want_video, want_audio),
            ) == Some(bytes as int),
            None => known_sum(wanted_bytes(info.formats@, height, want_video, want_audio)) is None,
        },
{
    let mut total: u64 = 0;
    let mut known = false;
    let ghost sizes = wanted_bytes(info.formats@, height, want_video, want_audio);
    if want_video {
        if let Some(i) = best_video(&info.formats, height) {
            if let Some(bytes) = info.formats[i].size() {
                assert(sizes.0 == Some(bytes));
                total = bytes;
                known = true;
            }
        }
    }
    assert(known == (sizes.0 is Some));
    if want_audio {
        if let Some(i) = best_audio(&info.formats) {
            if let Some(bytes) = info.formats[i].size() {
                assert(sizes.1 == Some(bytes));
                total = total + bytes;
                known = true;
            }
        }
    }
    if known {
        Some(total)
    } else {
        None
    }
}

/// Whether lower-case output names an outdated program as the likely cause.
pub open spec fn names_update(lower: Seq<char>) -> bool {
    ||| occurs(lower, "yt-dlp -u"@)
    ||| occurs(lower, "please update"@)
    ||| occurs(lower, "outdated version"@)
    ||| occurs(lower, "latest version"@)
}

/// Whether output that is in lower case names an outdated program.
pub fn mentions_update(lower: &str) -> (yes: bool)
    ensures
        yes == names_update(lower@),
{
    let text = chars_of(lower);
    contains(&text, &chars_of("yt-dlp -u")) || contains(&text, &chars_of("please update"))
        || contains(&text, &chars_of("outdated version")) || contains(
        &text,
        &chars_of("latest version"),
    )
}

/// True when yt-dlp's output looks like the failure is (likely) an outdated
/// binary — a site changed and the installed yt-dlp can't keep up. yt-dlp tells
/// users to run `yt-dlp -U` in these cases, so the GUI offers that action.
pub fn suggests_update(text: &str) -> (yes: bool)
    ensures
        yes == names_update(lowercase(text@)),
        is_ascii_text(text@) ==> yes == names_update(ascii_lowered(text@)),
{
    mentions_update(to_lowercase(text).as_str())
}

/// What occurs in a text still occurs with other text around it.
proof fn lemma_occurs_inside(a: Seq<char>, s: Seq<char>, b: Seq<char>, part: Seq<char>)
    requires
        occurs(s, part),
    ensures
        occurs(a + s + b, part),
{
    let at = choose|at: int| occurs_at(s, part, at);
    let all = a + s + b;
    assert(all.subrange(a.len() + at, a.len() + at + part.len()) == s.subrange(
        at,
        at + part.len(),
    ));
    assert(occurs_at(all, part, a.len() + at));
}

/// Text around an update hint never hides it: neither text that is in lower case,
/// nor ASCII text before it is put there.
pub proof fn law_surrounding_text_hides_no_hint(a: Seq<char>, s: Seq<char>, b: Seq<char>)
    ensures
        names_update(s) ==> names_update(a + s + b),
        names_update(ascii_lowered(s)) ==> names_update(ascii_lowered(a + s + b)),
{
    lemma_hint_inside(a, s, b);
    lemma_hint_inside(ascii_lowered(a), ascii_lowered(s), ascii_lowered(b));
    assert(ascii_lowered(a + s + b) == ascii_lowered(a) + ascii_lowered(s) + ascii_lowered(b));
}

proof fn lemma_hint_inside(a: Seq<char>, lower: Seq<char>, b: Seq<char>)
    ensures
        names_update(lower) ==> names_update(a + lower + b),
{
    if occurs(lower, "yt-dlp -u"@) {
        lemma_occurs_inside(a, lower, b, "yt-dlp -u"@);
    }
    if occurs(lower, "please update"@) {
        lemma_occurs_inside(a, lower, b, "please update"@);
    }
    if occurs(lower, "outdated version"@) {
        lemma_occurs_inside(a, lower, b, "outdated version"@);
    }
    if occurs(lower, "latest version"@) {
        lemma_occurs_inside(a, lower, b, "latest version"@);
    }
}

/// However the letters of ASCII text are cased, it is the same hint.
pub proof fn law_hints_ignore_case(s: Seq<char>)
    requires
        is_ascii_text(s),
    ensures
        is_ascii_text(ascii_uppered(s)),
        names_update(ascii_lowered(ascii_uppered(s))) == names_update(ascii_lowered(s)),
{
    assert(ascii_lowered(ascii_uppered(s)) == ascii_lowered(s));
}

/// The texts of a list of arguments.
pub open spec fn arg_texts(args: Seq<String>) -> Seq<Seq<char>> {
    args.map_values(|s: String| s@)
}

/// The arguments that point yt-dlp at a QuickJS, where one was resolved.
pub open spec fn js_runtime_args(tools: Tools) -> Seq<Seq<char>> {
    match tools.quickjs {
        Some(path) => seq!["--js-runtimes"@, "quickjs:"@ + path@],
        None => Seq::empty(),
    }
}

/// The arguments that point yt-dlp at an ffmpeg, where one was resolved.
pub open spec fn ffmpeg_args(tools: Tools) -> Seq<Seq<char>> {
    match tools.ffmpeg {
        Some(path) => seq!["--ffmpeg-location"@, path@],
        None => Seq::empty(),
    }
}

/// The arguments that say where cookies come from, where that was chosen.
pub open spec fn cookie_args(cookies: Option<CookieText>) -> Seq<Seq<char>> {
    match cookies {
        Some(CookieText::Browser(browser)) => seq!["--cookies-from-browser"@, browser.called()],
        Some(CookieText::File(path)) => seq!["--cookies"@, path],
        None => Seq::empty(),
    }
}

/// The arguments that ask for a selection, where there is one.
pub open spec fn selector_args(selector: Option<String>) -> Seq<Seq<char>> {
    match selector {
        Some(selector) => seq!["-f"@, selector@],
        None => Seq::empty(),
    }
}

/// The URL after `--`, which ends option parsing.
pub open spec fn url_args(url: Seq<char>) -> Seq<Seq<char>> {
    seq!["--"@, url]
}

/// What a progress line is made of.
pub open spec fn progress_template() -> Seq<char> {
    "PROGRESS %(progress.downloaded_bytes)s %(progress.total_bytes)s %(progress.total_bytes_estimate)s"@
}

/// The arguments that fetch a video's description.
pub open spec fn fetch_args(tools: Tools, url: Seq<char>, cookies: Option<CookieText>) -> Seq<
    Seq<char>,
> {
    seq!["-J"@, "--no-playlist"@] + js_runtime_args(tools) + cookie_args(cookies) + url_args(url)
}

/// The arguments that download a video.
pub open spec fn all_download_args(
    tools: Tools,
    url: Seq<char>,
    selector: Option<String>,
    cookies: Option<CookieText>,
    template: Seq<char>,
) -> Seq<Seq<char>> {
    seq!["--no-playlist"@, "--newline"@, "--progress"@] + selector_args(selector) + ffmpeg_args(
        tools,
    ) + js_runtime_args(tools) + cookie_args(cookies) + seq![
        "-o"@,
        template,
        "--progress-template"@,
        progress_template(),
        "--print"@,
        "after_move:OUTPUT %(filepath)s"@,
    ] + url_args(url)
}

fn push_arg(args: &mut Vec<String>, arg: &str)
    ensures
        arg_texts(final(args)@) == arg_texts(old(args)@).push(arg@),
{
    args.push(arg.to_owned());
    assert(arg_texts(args@) == arg_texts(old(args)@).push(arg@));
}

fn push_js_runtime(args: &mut Vec<String>, tools: &Tools)
    ensures
        arg_texts(final(args)@) == arg_texts(old(args)@) + js_runtime_args(*tools),
{
    if let Some(path) = &tools.quickjs {
        push_arg(args, "--js-runtimes");
        push_arg(args, concat("quickjs:", path.as_str()).as_str());
    }
    assert(arg_texts(args@) == arg_texts(old(args)@) + js_runtime_args(*tools));
}

fn push_cookies(args: &mut Vec<String>, cookies: &Option<CookieSource>)
    ensures
        arg_texts(final(args)@) == arg_texts(old(args)@) + cookie_args(chosen(*cookies)),
{
    match cookies {
        Some(CookieSource::Browser(browser)) => {
            push_arg(args, "--cookies-from-browser");
            push_arg(args, browser.name());
        },
        Some(CookieSource::File(path)) => {
            push_arg(args, "--cookies");
            push_arg(args, path.as_str());
        },
        None => {},
    }
    assert(arg_texts(args@) == arg_texts(old(args)@) + cookie_args(chosen(*cookies)));
}

fn push_url(args: &mut Vec<String>, url: &str)
    ensures
        arg_texts(final(args)@) == arg_texts(old(args)@) + url_args(url@),
{
    push_arg(args, "--");
    push_arg(args, url);
    assert(arg_texts(args@) == arg_texts(old(args)@) + url_args(url@));
}

/// The arguments that fetch a video's description (`yt-dlp -J <url>`) without
/// downloading anything. `--` ends option parsing so a URL starting with `-` can't
/// be taken as a yt-dlp flag (e.g. `--exec`, `--config-location`).
pub fn fetch_info_args(tools: &Tools, url: &str, cookies: &Option<CookieSource>) -> (args: Vec<
    String,
>)
    ensures
        arg_texts(args@) == fetch_args(*tools, url@, chosen(*cookies)),
{
    let mut args: Vec<String> = Vec::new();
    push_arg(&mut args, "-J");
    push_arg(&mut args, "--no-playlist");
    assert(arg_texts(args@) == seq!["-J"@, "--no-playlist"@]);
    push_js_runtime(&mut args, tools);
    push_cookies(&mut args, cookies);
    push_url(&mut args, url);
    args
}

/// What downloaded files are called in their folder: by title, with the id to keep
/// them unique. The path that a file ends up at is read back from what is printed, so
/// it need not be predictable.
pub const OUTPUT_NAME: &'static str = "%(title)s [%(id)s].%(ext)s";

/// The arguments that download into files named after `template`, which is
/// `OUTPUT_NAME` in the folder that was chosen. A `selector` of
/// `None` lets yt-dlp use its default (best video + audio merged); otherwise it is
/// passed verbatim to `-f`. Prefixed progress and output lines keep what is printed
/// unambiguous, and the ffmpeg used for the merge is the one resolved.
pub fn download_args(
    tools: &Tools,
    url: &str,
    selector: &Option<String>,
    cookies: &Option<CookieSource>,
    template: &str,
) -> (args: Vec<String>)
    ensures
        arg_texts(args@) == all_download_args(
            *tools,
            url@,
            *selector,
            chosen(*cookies),
            template@,
        ),
{
    let mut args: Vec<String> = Vec::new();
    push_arg(&mut args, "--no-playlist");
    push_arg(&mut args, "--newline");
    // `--print` silences progress unless `--progress` forces it.
    push_arg(&mut args, "--progress");
    assert(arg_texts(args@) == seq!["--no-playlist"@, "--newline"@, "--progress"@]);
    let ghost head = arg_texts(args@);
    if let Some(sel) = selector {
        push_arg(&mut args, "-f");
        push_arg(&mut args, sel.as_str());
    }
    assert(arg_texts(args@) == head + selector_args(*selector));
    let ghost selected = arg_texts(args@);
    if let Some(loc) = &tools.ffmpeg {
        push_arg(&mut args, "--ffmpeg-location");
        push_arg(&mut args, loc.as_str());
    }
    assert(arg_texts(args@) == selected + ffmpeg_args(*tools));
    push_js_runtime(&mut args, tools);
    push_cookies(&mut args, cookies);
    let ghost tooled = arg_texts(args@);
    push_arg(&mut args, "-o");
    push_arg(&mut args, template);
    push_arg(&mut args, "--progress-template");
    push_arg(
        &mut args,
        "PROGRESS %(progress.downloaded_bytes)s %(progress.total_bytes)s %(progress.total_bytes_estimate)s",
    );
    push_arg(&mut args, "--print");
    push_arg(&mut args, "after_move:OUTPUT %(filepath)s");
    assert(arg_texts(args@) == tooled + seq![
        "-o"@,
        template@,
        "--progress-template"@,
        progress_template(),
        "--print"@,
        "after_move:OUTPUT %(filepath)s"@,
    ]);
    push_url(&mut args, url);
    args
}

/// Whatever the URL is, it comes last and right after the end of the options, so it
/// is never taken for one.
pub proof fn law_url_is_never_an_option(
    tools: Tools,
    url: Seq<char>,
    selector: Option<String>,
    cookies: Option<CookieText>,
    template: Seq<char>,
)
    ensures
        ({
            let args = fetch_args(tools, url, cookies);
            args.len() >= 2 && args.last() == url && args[args.len() - 2] == "--"@
        }),
        ({
            let args = all_download_args(tools, url, selector, cookies, template);
            args.len() >= 2 && args.last() == url && args[args.len() - 2] == "--"@
        }),
{
}

/// Whether `flag` stands in `args` with `value` right behind it.
pub open spec fn passes(args: Seq<Seq<char>>, flag: Seq<char>, value: Seq<char>) -> bool {
    exists|i: int| 0 <= i < args.len() - 1 && #[trigger] args[i] == flag && args[i + 1] == value
}

/// A download merges with exactly the ffmpeg that was resolved, and both commands
/// run scripts with exactly the QuickJS that was.
pub proof fn law_resolved_tools_are_passed(
    tools: Tools,
    url: Seq<char>,
    selector: Option<String>,
    cookies: Option<CookieText>,
    template: Seq<char>,
)
    ensures
        tools.ffmpeg is Some ==> passes(
            all_download_args(tools, url, selector, cookies, template),
            "--ffmpeg-location"@,
            tools.ffmpeg->0@,
        ),
        tools.quickjs is Some ==> passes(
            all_download_args(tools, url, selector, cookies, template),
            "--js-runtimes"@,
            "quickjs:"@ + tools.quickjs->0@,
        ),
        tools.quickjs is Some ==> passes(
            fetch_args(tools, url, cookies),
            "--js-runtimes"@,
            "quickjs:"@ + tools.quickjs->0@,
        ),
{
    let args = all_download_args(tools, url, selector, cookies, template);
    let fetching = fetch_args(tools, url, cookies);
    let at: int = 3 + selector_args(selector).len() as int;
    if tools.ffmpeg is Some {
        assert(args[at] == "--ffmpeg-location"@);
        assert(args[at + 1] == tools.ffmpeg->0@);
    }
    if tools.quickjs is Some {
        let js: int = at + ffmpeg_args(tools).len();
        assert(args[js] == "--js-runtimes"@);
        assert(args[js + 1] == "quickjs:"@ + tools.quickjs->0@);
        assert(fetching[2] == "--js-runtimes"@);
        assert(fetching[3] == "quickjs:"@ + tools.quickjs->0@);
    }
}

/// Both commands take their cookies from exactly the source that was chosen.
pub proof fn law_chosen_cookies_are_passed(
    tools: Tools,
    url: Seq<char>,
    selector: Option<String>,
    source: CookieText,
    template: Seq<char>,
)
    ensures
        ({
            let flag = cookie_args(Some(source))[0];
            let value = cookie_args(Some(source))[1];
            &&& passes(fetch_args(tools, url, Some(source)), flag, value)
            &&& passes(
                all_download_args(tools, url, selector, Some(source), template),
                flag,
                value,
            )
            &&& match source {
                CookieText::Browser(browser) => flag == "--cookies-from-browser"@ && value
                    == browser.called(),
                CookieText::File(path) => flag == "--cookies"@ && value == path,
            }
        }),
{
    let asked = cookie_args(Some(source));
    let js = js_runtime_args(tools).len() as int;
    let fetching = fetch_args(tools, url, Some(source));
    assert(fetching[2 + js] == asked[0] && fetching[3 + js] == asked[1]);
    let at: int = 3 + selector_args(selector).len() + ffmpeg_args(tools).len() + js;
    let args = all_download_args(tools, url, selector, Some(source), template);
    assert(args[at] == asked[0] && args[at + 1] == asked[1]);
}

/// The bytes fetched and the bytes to fetch that the words of a progress line give.
pub open spec fn progress_of(words: Seq<Seq<char>>) -> Option<(nat, nat)> {
    if words.len() != 3 {
        None
    } else {
        let total = if parsed(words[1], u64::MAX as nat) is Some {
            parsed(words[1], u64::MAX as nat)
        } else {
            parsed(words[2], u64::MAX as nat)
        };
        if parsed(words[0], u64::MAX as nat) is Some && total is Some && total->0 > 0 {
            Some((parsed(words[0], u64::MAX as nat)->0, total->0))
        } else {
            None
        }
    }
}

/// What a line that yt-dlp prints says.
pub enum LineText {
    Progress(nat, nat),
    Output(Seq<char>),
    Nothing,
}

/// What a line says: progress, the path of the file that was made, or nothing of
/// interest.
pub open spec fn line_of(line: Seq<char>) -> LineText {
    match after_prefix(line, "PROGRESS "@) {
        Some(rest) => match progress_of(words_from(rest, 0)) {
            Some((done, total)) => LineText::Progress(done, total),
            None => LineText::Nothing,
        },
        None => match after_prefix(line, "OUTPUT "@) {
            Some(path) => LineText::Output(trim_spec(path)),
            None => LineText::Nothing,
        },
    }
}

/// What a line that yt-dlp prints says.
#[derive(Debug)]
pub enum Line {
    /// Bytes fetched so far, and in all, of the file being fetched.
    Progress(u64, u64),
    /// The path of the file that was made.
    Output(String),
    Nothing,
}

impl View for Line {
    type V = LineText;

    open spec fn view(&self) -> LineText {
        match self {
            Line::Progress(done, total) => LineText::Progress(*done as nat, *total as nat),
            Line::Output(path) => LineText::Output(path@),
            Line::Nothing => LineText::Nothing,
        }
    }
}

fn read_progress(rest: &Vec<char>) -> (progress: Option<(u64, u64)>)
    ensures
        match progress {
            Some((done, total)) => progress_of(words_from(rest@, 0)) == Some(
                (done as nat, total as nat),
            ),
            None => progress_of(words_from(rest@, 0)) is None,
        },
{
    let words = split_words(rest);
    let ghost texts = words_from(rest@, 0);
    assert(views(words@).len() == words@.len());
    if words.len() != 3 {
        return None;
    }
    assert(texts[0] == words@[0]@ && texts[1] == words@[1]@ && texts[2] == words@[2]@);
    let done: u64 = match parse_max(&words[0], u64::MAX) {
        Some(done) => done,
        None => {
            return None;
        },
    };
    let total = match parse_max(&words[1], u64::MAX) {
        Some(total) => Some(total),
        None => parse_max(&words[2], u64::MAX),
    };
    match total {
        Some(total) => if total > 0 {
            Some((done, total))
        } else {
            None
        },
        None => None,
    }
}

/// Reads a line that yt-dlp printed.
pub fn read_line(line: &str) -> (said: Line)
    ensures
        said@ == line_of(line@),
{
    let chars = chars_of(line);
    if let Some(rest) = strip_prefix(&chars, "PROGRESS ") {
        return match read_progress(&rest) {
            Some((done, total)) => Line::Progress(done, total),
            None => Line::Nothing,
        };
    }
    match strip_prefix(&chars, "OUTPUT ") {
        Some(path) => Line::Output(string_of(&trim(&path))),
        None => Line::Nothing,
    }
}

/// A line made from the progress template.
pub open spec fn progress_line(done: Seq<char>, total: Seq<char>, estimate: Seq<char>) -> Seq<char> {
    "PROGRESS "@ + (done + " "@ + total + " "@ + estimate)
}

/// A progress line says what was put in it: the bytes fetched and those in all, or
/// their estimate where the total is not a number.
pub proof fn law_progress_reads_back(done: u64, total: u64, other: Seq<char>)
    requires
        total > 0,
        other.len() > 0,
        is_solid(other),
    ensures
        line_of(progress_line(decimal(done as nat), decimal(total as nat), other))
            == LineText::Progress(done as nat, total as nat),
        parsed(other, u64::MAX as nat) is None ==> line_of(
            progress_line(decimal(done as nat), other, decimal(total as nat)),
        ) == LineText::Progress(done as nat, total as nat),
{
    let d = decimal(done as nat);
    let t = decimal(total as nat);
    law_decimal_reads_back(done as nat);
    law_decimal_reads_back(total as nat);
    lemma_digits_are_solid(d);
    lemma_digits_are_solid(t);
    lemma_three_words(d, t, other);
    lemma_three_words(d, other, t);
    lemma_parses_digits(done);
    lemma_parses_digits(total);
}

proof fn lemma_digits_are_solid(s: Seq<char>)
    requires
        all_digits(s),
    ensures
        is_solid(s),
{
    assert forall|i: int| 0 <= i < s.len() implies !is_white(#[trigger] s[i]) by {
        assert(is_digit(s[i]));
    }
}

proof fn lemma_parses_digits(n: u64)
    ensures
        parsed(decimal(n as nat), u64::MAX as nat) == Some(n as nat),
{
    law_decimal_reads_back(n as nat);
    let s = decimal(n as nat);
    assert(is_digit(s[0]));
}

/// A progress line's words are the three that were put in it.
proof fn lemma_three_words(a: Seq<char>, b: Seq<char>, c: Seq<char>)
    requires
        a.len() > 0,
        b.len() > 0,
        c.len() > 0,
        is_solid(a),
        is_solid(b),
        is_solid(c),
    ensures
        after_prefix(progress_line(a, b, c), "PROGRESS "@) is Some,
        words_from(after_prefix(progress_line(a, b, c), "PROGRESS "@)->0, 0) == seq![a, b, c],
{
    let rest = a + " "@ + b + " "@ + c;
    let prefix = "PROGRESS "@;
    let line = prefix + rest;
    assert(line.subrange(0, prefix.len() as int) == prefix);
    assert(line.skip(prefix.len() as int) == rest);
    lemma_words_of_three(rest, a, b, c);
}

proof fn lemma_words_of_three(rest: Seq<char>, a: Seq<char>, b: Seq<char>, c: Seq<char>)
    requires
        rest == a + " "@ + b + " "@ + c,
        a.len() > 0,
        b.len() > 0,
        c.len() > 0,
        is_solid(a),
        is_solid(b),
        is_solid(c),
    ensures
        words_from(rest, 0) == seq![a, b, c],
{
    reveal_strlit(" ");
    let x = a.len() as int;
    let y = x + 1 + b.len();
    let z = y + 1 + c.len();
    assert(rest.len() == z && rest[x] == ' ' && rest[y] == ' ');
    assert(rest.subrange(0, x) == a);
    assert(rest.subrange(x + 1, y) == b);
    assert(rest.subrange(y + 1, z) == c);
    lemma_words_between(rest, x, y, z);
}

/// The words of a text that has white space at `x` and at `y` alone.
proof fn lemma_words_between(s: Seq<char>, x: int, y: int, z: int)
    requires
        0 < x,
        x + 1 < y,
        y + 1 < z,
        z == s.len(),
        s[x] == ' ',
        s[y] == ' ',
        is_solid(s.subrange(0, x)),
        is_solid(s.subrange(x + 1, y)),
        is_solid(s.subrange(y + 1, z)),
    ensures
        words_from(s, 0) == seq![
            s.subrange(0, x),
            s.subrange(x + 1, y),
            s.subrange(y + 1, z),
        ],
{
    lemma_solid_part(s, 0, x);
    lemma_solid_part(s, x + 1, y);
    lemma_solid_part(s, y + 1, z);
    lemma_first_word(s, 0, 0, x);
    lemma_first_word(s, x, x + 1, y);
    lemma_first_word(s, y, y + 1, z);
    assert(words_from(s, z) == Seq::<Seq<char>>::empty()) by {
        assert(first_from(s, z, Class::NotWhite) == z);
    }
}

proof fn lemma_solid_part(s: Seq<char>, from: int, to: int)
    requires
        0 <= from <= to <= s.len(),
        is_solid(s.subrange(from, to)),
    ensures
        forall|i: int| from <= i < to ==> !is_white(#[trigger] s[i]),
{
    assert forall|i: int| from <= i < to implies !is_white(#[trigger] s[i]) by {
        assert(s.subrange(from, to)[i - from] == s[i]);
    }
}

/// Why running yt-dlp came to nothing.
#[derive(Debug)]
pub enum YtdlpError {
    /// It could not be started.
    NotRunnable,
    /// `--version` failed, with this output.
    Version(String),
    /// `-U` failed, with this output.
    Update(String),
    /// Fetching failed, with this exit status and output.
    Fetch(String, String),
    /// What it printed is no description of a video.
    BadJson,
    /// The user moved on.
    Canceled,
    /// It could not be waited for.
    NotFinished,
    /// Downloading failed, with this output.
    Download(String),
    /// It never said what file it made.
    NoOutput,
}

impl YtdlpError {
    /// What to tell the user.
    pub open spec fn text(self) -> Seq<char> {
        match self {
            YtdlpError::NotRunnable => "failed to run yt-dlp — is it installed and on PATH?"@,
            YtdlpError::Version(err) => "yt-dlp --version failed: "@ + err@,
            YtdlpError::Update(err) => "yt-dlp -U failed: "@ + err@,
            YtdlpError::Fetch(status, err) => "yt-dlp exited with "@ + status@ + ": "@ + err@,
            YtdlpError::BadJson => "could not parse yt-dlp JSON output"@,
            YtdlpError::Canceled => "download canceled"@,
            YtdlpError::NotFinished => "yt-dlp did not finish cleanly"@,
            YtdlpError::Download(err) => "yt-dlp download failed: "@ + err@,
            YtdlpError::NoOutput => "yt-dlp did not report an output path"@,
        }
    }

    /// What to tell the user.
    pub fn message(&self) -> (text: String)
        ensures
            text@ == self.text(),
    {
        match self {
            YtdlpError::NotRunnable =>
                "failed to run yt-dlp — is it installed and on PATH?".to_owned(),
            YtdlpError::Version(err) => concat("yt-dlp --version failed: ", err.as_str()),
            YtdlpError::Update(err) => concat("yt-dlp -U failed: ", err.as_str()),
            YtdlpError::Fetch(status, err) => {
                let mut text = concat("yt-dlp exited with ", status.as_str());
                text.append(": ");
                text.append(err.as_str());
                text
            },
            YtdlpError::BadJson => "could not parse yt-dlp JSON output".to_owned(),
            YtdlpError::Canceled => "download canceled".to_owned(),
            YtdlpError::NotFinished => "yt-dlp did not finish cleanly".to_owned(),
            YtdlpError::Download(err) => concat("yt-dlp download failed: ", err.as_str()),
            YtdlpError::NoOutput => "yt-dlp did not report an output path".to_owned(),
        }
    }
}

/// What a finished program left behind, as text.
#[derive(Debug)]
pub struct Output {
    pub success: bool,
    pub status: String,
    pub stdout: String,
    pub stderr: String,
}

fn trimmed(text: &str) -> (out: String)
    ensures
        out@ == trim_spec(text@),
{
    string_of(&trim(&chars_of(text)))
}

/// The version that `yt-dlp --version` reports, trimmed.
pub fn version(output: &Output) -> (version: Result<String, YtdlpError>)
    ensures
        output.success ==> version is Ok && version->Ok_0@ == trim_spec(output.stdout@),
        !output.success ==> version is Err && version->Err_0 is Version
            && version->Err_0->Version_0@ == output.stderr@,
{
    if !output.success {
        return Err(YtdlpError::Version(output.stderr.clone()));
    }
    Ok(trimmed(output.stdout.as_str()))
}

/// What `yt-dlp -U` reports, trimmed. `-U` is a no-op when already current, so the
/// click itself doubles as the up-to-date check.
pub fn update(output: &Output) -> (report: Result<String, YtdlpError>)
    ensures
        output.success ==> report is Ok && report->Ok_0@ == trim_spec(output.stdout@),
        !output.success ==> report is Err && report->Err_0 is Update
            && report->Err_0->Update_0@ == trim_spec(output.stdout@) + output.stderr@,
{
    let report = trimmed(output.stdout.as_str());
    if !output.success {
        return Err(YtdlpError::Update(concat(report.as_str(), output.stderr.as_str())));
    }
    Ok(report)
}

/// Whether a description was fetched, so that what was printed can be parsed.
pub fn check_fetched(output: &Output) -> (checked: Result<(), YtdlpError>)
    ensures
        output.success ==> checked is Ok,
        !output.success ==> checked is Err && checked->Err_0 is Fetch
            && checked->Err_0->Fetch_0@ == output.status@ && checked->Err_0->Fetch_1@
            == output.stderr@,
{
    if output.success {
        Ok(())
    } else {
        Err(YtdlpError::Fetch(output.status.clone(), output.stderr.clone()))
    }
}

/// A download under way.
#[derive(Debug)]
pub struct Download {
    /// The path of the file that was made, once yt-dlp has said so.
    pub final_path: Option<String>,
}

impl Download {
    /// Nothing was made yet.
    pub fn new() -> (download: Download)
        ensures
            download.final_path is None,
    {
        Download { final_path: None }
    }

    /// Takes a line that was printed; gives the bytes fetched and those in all when
    /// it says so. Once the user has moved on, the program is to be killed.
    pub fn take(&mut self, line: &str, cancel: bool) -> (progress: Result<
        Option<(u64, u64)>,
        YtdlpError,
    >)
        ensures
            cancel ==> progress is Err && progress->Err_0 is Canceled && *final(self) == *old(self),
            !cancel ==> progress is Ok && match line_of(line@) {
                LineText::Progress(done, total) => progress->Ok_0 matches Some((d, t)) && d == done
                    && t == total && *final(self) == *old(self),
                LineText::Output(path) => progress->Ok_0 is None && opt(final(self).final_path)
                    == Some(path),
                LineText::Nothing => progress->Ok_0 is None && *final(self) == *old(self),
            },
    {
        if cancel {
            return Err(YtdlpError::Canceled);
        }
        match read_line(line) {
            Line::Progress(done, total) => Ok(Some((done, total))),
            Line::Output(path) => {
                self.final_path = Some(path);
                Ok(None)
            },
            Line::Nothing => Ok(None),
        }
    }

    /// What a download that ended came to: the file it made.
    pub fn finish(self, success: bool, stderr: String) -> (path: Result<String, YtdlpError>)
        ensures
            !success ==> path is Err && path->Err_0 is Download && path->Err_0->Download_0@
                == stderr@,
            success ==> match self.final_path {
                Some(made) => path is Ok && path->Ok_0@ == made@,
                None => path is Err && path->Err_0 is NoOutput,
            },
    {
        if !success {
            return Err(YtdlpError::Download(stderr));
        }
        match self.final_path {
            Some(path) => Ok(path),
            None => Err(YtdlpError::NoOutput),
        }
    }
}

/// What is fetched follows the two wishes: nothing is asked for where neither picture
/// nor sound is wanted, sound alone is the same whatever the height, and wanting sound
/// with the picture adds it to what the picture alone asks for. A height caps
/// everything that has a picture, and without one there is no cap.
pub proof fn law_selector_follows_the_wishes(height: Option<u32>, other: Option<u32>)
    ensures
        selector_text(height, false, false) is None,
        selector_text(height, false, true) == Some("bestaudio"@),
        selector_text(height, false, true) == selector_text(other, false, true),
        ({
            let cap = match height {
                Some(h) => "[height<="@ + decimal(h as nat) + "]"@,
                None => ""@,
            };
            &&& selector_text(height, true, false) == Some("bestvideo"@ + cap)
            &&& selector_text(height, true, true) == Some(
                selector_text(height, true, false)->0 + "+bestaudio/best"@ + cap,
            )
        }),
{
    reveal_strlit("");
    reveal_strlit("]");
    reveal_strlit("[height<=");
    reveal_strlit("bestvideo");
    reveal_strlit("+bestaudio/best");
    reveal_strlit("bestvideo[height<=");
    reveal_strlit("]+bestaudio/best[height<=");
    reveal_strlit("bestvideo+bestaudio/best");
    assert("bestvideo"@ + ""@ == "bestvideo"@);
    assert("bestvideo"@ + "[height<="@ == "bestvideo[height<="@);
    assert("]"@ + "+bestaudio/best"@ + "[height<="@ == "]+bestaudio/best[height<="@);
    assert("bestvideo"@ + "+bestaudio/best"@ + ""@ == "bestvideo+bestaudio/best"@);
    if let Some(h) = height {
        let d = decimal(h as nat);
        let cap = "[height<="@ + d + "]"@;
        assert("bestvideo[height<="@ + d + "]"@ == "bestvideo"@ + cap);
        assert("bestvideo[height<="@ + d + ("]"@ + "+bestaudio/best"@ + "[height<="@) + d + "]"@
            == "bestvideo"@ + cap + "+bestaudio/best"@ + cap);
    }
}

/// The estimate for picture and sound together is the sum of the estimates for each,
/// what is unknown left out; each is the size of the format that is fetched, exact
/// where the format gives that and approximate where it does not.
pub proof fn law_estimates_add_up(fs: Seq<Format>, height: Option<u32>)
    ensures
        ({
            let both = known_sum(wanted_bytes(fs, height, true, true));
            let picture = known_sum(wanted_bytes(fs, height, true, false));
            let sound = known_sum(wanted_bytes(fs, height, false, true));
            &&& known_sum(wanted_bytes(fs, height, false, false)) is None
            &&& picture is Some && sound is Some ==> both == Some(picture->0 + sound->0)
            &&& picture is Some && sound is None ==> both == picture
            &&& picture is None ==> both == sound
            &&& tallest(fs, height) is None ==> picture is None
            &&& best_sound(fs) is None ==> sound is None
            &&& tallest(fs, height) matches Some(i) ==> {
                &&& fs[i].filesize matches Some(bytes) ==> picture == Some(bytes as int)
                &&& fs[i].filesize is None && fs[i].filesize_approx is Some ==> picture == Some(
                    fs[i].filesize_approx->0 as int,
                )
                &&& fs[i].filesize is None && fs[i].filesize_approx is None ==> picture is None
            }
            &&& best_sound(fs) matches Some(i) ==> {
                &&& fs[i].filesize matches Some(bytes) ==> sound == Some(bytes as int)
                &&& fs[i].filesize is None && fs[i].filesize_approx is Some ==> sound == Some(
                    fs[i].filesize_approx->0 as int,
                )
                &&& fs[i].filesize is None && fs[i].filesize_approx is None ==> sound is None
            }
        }),
{
}

/// Each of yt-dlp's ways to ask for an update is noticed wherever it stands, and
/// nothing else is.
pub proof fn law_every_hint_is_noticed(a: Seq<char>, b: Seq<char>)
    ensures
        names_update(a + "yt-dlp -u"@ + b),
        names_update(a + "please update"@ + b),
        names_update(a + "outdated version"@ + b),
        names_update(a + "latest version"@ + b),
        names_update(a) ==> occurs(a, "yt-dlp -u"@) || occurs(a, "please update"@) || occurs(
            a,
            "outdated version"@,
        ) || occurs(a, "latest version"@),
{
    lemma_holds_itself("yt-dlp -u"@);
    lemma_holds_itself("please update"@);
    lemma_holds_itself("outdated version"@);
    lemma_holds_itself("latest version"@);
    lemma_occurs_inside(a, "yt-dlp -u"@, b, "yt-dlp -u"@);
    lemma_occurs_inside(a, "please update"@, b, "please update"@);
    lemma_occurs_inside(a, "outdated version"@, b, "outdated version"@);
    lemma_occurs_inside(a, "latest version"@, b, "latest version"@);
}

proof fn lemma_holds_itself(s: Seq<char>)
    ensures
        occurs(s, s),
{
    assert(s.subrange(0, s.len() as int) == s);
    assert(occurs_at(s, s, 0));
}

/// A download asks for the selection that was made and puts the file where it was told
/// to, each command is about one video, and nothing is passed beyond what is given:
/// leaving a tool, the cookies or the selection out leaves its two arguments out.
pub proof fn law_nothing_else_is_passed(
    tools: Tools,
    url: Seq<char>,
    selector: Option<String>,
    cookies: Option<CookieText>,
    template: Seq<char>,
)
    ensures
        ({
            let args = all_download_args(tools, url, selector, cookies, template);
            let fetching = fetch_args(tools, url, cookies);
            let js = if tools.quickjs is Some {
                2int
            } else {
                0
            };
            let jar = if cookies is Some {
                2int
            } else {
                0
            };
            let merging = if tools.ffmpeg is Some {
                2int
            } else {
                0
            };
            let selected = if selector is Some {
                2int
            } else {
                0
            };
            &&& fetching.len() == 4 + js + jar
            &&& fetching.contains("-J"@)
            &&& fetching.contains("--no-playlist"@)
            &&& args.len() == 11 + js + jar + merging + selected
            &&& args.contains("--no-playlist"@)
            &&& args.contains("--newline"@)
            &&& args.contains("--progress"@)
            &&& selector is Some ==> passes(args, "-f"@, selector->0@)
            &&& passes(args, "-o"@, template)
            &&& passes(
                args,
                "--progress-template"@,
                progress_line(
                    "%(progress.downloaded_bytes)s"@,
                    "%(progress.total_bytes)s"@,
                    "%(progress.total_bytes_estimate)s"@,
                ),
            )
            &&& passes(args, "--print"@, "after_move:"@ + "OUTPUT "@ + "%(filepath)s"@)
        }),
{
    let args = all_download_args(tools, url, selector, cookies, template);
    let fetching = fetch_args(tools, url, cookies);
    assert(fetching[0] == "-J"@ && fetching[1] == "--no-playlist"@);
    assert(args[0] == "--no-playlist"@ && args[1] == "--newline"@ && args[2] == "--progress"@);
    if selector is Some {
        assert(args[3] == "-f"@ && args[4] == selector->0@);
    }
    let at: int = 3int + selector_args(selector).len() + ffmpeg_args(tools).len() + js_runtime_args(
        tools,
    ).len() + cookie_args(cookies).len();
    assert(args[at] == "-o"@ && args[at + 1] == template);
    assert(args[at + 2] == "--progress-template"@ && args[at + 3] == progress_template());
    assert(args[at + 4] == "--print"@ && args[at + 5] == "after_move:OUTPUT %(filepath)s"@);
    reveal_strlit("after_move:");
    reveal_strlit("OUTPUT ");
    reveal_strlit("%(filepath)s");
    reveal_strlit("after_move:OUTPUT %(filepath)s");
    assert("after_move:"@ + "OUTPUT "@ + "%(filepath)s"@ == "after_move:OUTPUT %(filepath)s"@);
    lemma_progress_template();
}

proof fn lemma_progress_template()
    ensures
        progress_template() == progress_line(
            "%(progress.downloaded_bytes)s"@,
            "%(progress.total_bytes)s"@,
            "%(progress.total_bytes_estimate)s"@,
        ),
{
    reveal_strlit("PROGRESS ");
    reveal_strlit(" ");
    reveal_strlit("%(progress.downloaded_bytes)s");
    reveal_strlit("%(progress.total_bytes)s");
    reveal_strlit("%(progress.total_bytes_estimate)s");
    reveal_strlit(
        "PROGRESS %(progress.downloaded_bytes)s %(progress.total_bytes)s %(progress.total_bytes_estimate)s",
    );
    assert(progress_template() =~= progress_line(
        "%(progress.downloaded_bytes)s"@,
        "%(progress.total_bytes)s"@,
        "%(progress.total_bytes_estimate)s"@,
    ));
}

/// An output line says what path was put in it, blanks round the path left out, and a
/// line that is neither that nor a progress line says nothing.
pub proof fn law_output_reads_back(path: Seq<char>, line: Seq<char>)
    requires
        path.len() > 0,
        !is_white(path[0]),
        !is_white(path.last()),
    ensures
        line_of("OUTPUT "@ + path) == LineText::Output(path),
        line_of("OUTPUT "@ + " "@ + path + " "@) == LineText::Output(path),
        !"PROGRESS "@.is_prefix_of(line) && !"OUTPUT "@.is_prefix_of(line) ==> line_of(line)
            == LineText::Nothing,
{
    reveal_strlit("OUTPUT ");
    reveal_strlit("PROGRESS ");
    reveal_strlit(" ");
    lemma_output_line(path);
    lemma_output_line(" "@ + path + " "@);
    assert("OUTPUT "@ + " "@ + path + " "@ == "OUTPUT "@ + (" "@ + path + " "@));
    reveal_strlit("");
    law_trim_takes_the_blanks(""@, path, ""@);
    law_trim_takes_the_blanks(" "@, path, " "@);
    assert(""@ + path + ""@ == path);
    if occurs_at(line, "PROGRESS "@, 0) {
        assert("PROGRESS "@.is_prefix_of(line));
    }
    if occurs_at(line, "OUTPUT "@, 0) {
        assert("OUTPUT "@.is_prefix_of(line));
    }
}

proof fn lemma_output_line(rest: Seq<char>)
    ensures
        line_of("OUTPUT "@ + rest) == LineText::Output(trim_spec(rest)),
{
    reveal_strlit("OUTPUT ");
    reveal_strlit("PROGRESS ");
    let line = "OUTPUT "@ + rest;
    assert(line[0] == 'O');
    if occurs_at(line, "PROGRESS "@, 0) {
        assert(line.subrange(0, 9)[0] == 'P');
    }
    assert(line.subrange(0, 7) == "OUTPUT "@);
    assert(line.skip(7) == rest);
}

/// The first path that is set for a program stays.
pub proof fn law_first_path_stays(before: Option<String>, path: Seq<char>)
    ensures
        before is None ==> set_once(before, path) == Some(path),
        before is Some ==> set_once(before, path) == Some(before->0@),
{
}

/// What the program said stands in full at the end of what the user is told of its
/// failure.
pub proof fn law_failures_show_the_output(error: YtdlpError)
    ensures
        error matches YtdlpError::Version(err) ==> err@.is_suffix_of(error.text()),
        error matches YtdlpError::Update(err) ==> err@.is_suffix_of(error.text()),
        error matches YtdlpError::Download(err) ==> err@.is_suffix_of(error.text()),
        error matches YtdlpError::Fetch(status, err) ==> err@.is_suffix_of(error.text()) && occurs(
            error.text(),
            status@,
        ),
{
    let text = error.text();
    match error {
        YtdlpError::Version(err) => {
            assert(text.skip(text.len() - err@.len()) == err@);
        },
        YtdlpError::Update(err) => {
            assert(text.skip(text.len() - err@.len()) == err@);
        },
        YtdlpError::Download(err) => {
            assert(text.skip(text.len() - err@.len()) == err@);
        },
        YtdlpError::Fetch(status, err) => {
            assert(text.skip(text.len() - err@.len()) == err@);
            let head = "yt-dlp exited with "@;
            lemma_holds_itself(status@);
            lemma_occurs_inside(head, status@, ": "@ + err@, status@);
            assert(head + status@ + (": "@ + err@) == text);
        },
        _ => {},
    }
}

/// A format's line names both its codecs, `none` where it names none, and ends in its
/// size, exact or approximate, or in a question mark where neither is known.
pub proof fn law_line_names_codecs_and_size(f: Format)
    ensures
        ({
            let vcodec = if f.vcodec is Some {
                f.vcodec->0@
            } else {
                "none"@
            };
            let acodec = if f.acodec is Some {
                f.acodec->0@
            } else {
                "none"@
            };
            &&& occurs(f.line(), " v:"@ + vcodec + " a:"@ + acodec + " "@)
            &&& f.filesize is None && f.filesize_approx is None ==> "?"@.is_suffix_of(f.line())
            &&& f.filesize matches Some(bytes) ==> (megabytes_text(bytes as nat)
                + "MB"@).is_suffix_of(f.line())
            &&& f.filesize is None && f.filesize_approx is Some ==> (megabytes_text(
                f.filesize_approx->0 as nat,
            ) + "MB"@).is_suffix_of(f.line())
        }),
{
    let vcodec = text_or(f.vcodec, "none"@);
    let acodec = text_or(f.acodec, "none"@);
    let middle = " v:"@ + vcodec + " a:"@ + acodec + " "@;
    let head = padded_left(f.format_id@, 6) + "  "@ + padded_right(f.ext@, 5) + " "@ + padded_right(
        text_or(f.resolution, "—"@),
        10,
    );
    let tail = match f.bytes() {
        Some(bytes) => megabytes_text(bytes as nat) + "MB"@,
        None => "?"@,
    };
    assert(f.line() == head + middle + tail);
    lemma_holds_itself(middle);
    lemma_occurs_inside(head, middle, tail, middle);
    assert(f.line().skip(f.line().len() - tail.len()) == tail);
}

/// A progress line says nothing unless what was fetched is a number and so is the total,
/// or its estimate where the total is not, and that is above zero.
pub proof fn law_progress_needs_a_total(done: Seq<char>, total: Seq<char>, estimate: Seq<char>)
    requires
        done.len() > 0 && total.len() > 0 && estimate.len() > 0,
        is_solid(done),
        is_solid(total),
        is_solid(estimate),
    ensures
        ({
            let number = |s: Seq<char>| parsed(s, u64::MAX as nat);
            let said = line_of(progress_line(done, total, estimate));
            &&& number(done) is None ==> said is Nothing
            &&& number(total) == Some(0nat) ==> said is Nothing
            &&& number(total) is None && number(estimate) is None ==> said is Nothing
            &&& number(total) is None && number(estimate) == Some(0nat) ==> said is Nothing
        }),
{
    lemma_three_words(done, total, estimate);
}

} // verus!
