//! The save buttons: what they offer for the open file, and the exports they ask
//! for.

use vstd::prelude::*;

use crate::clip::Clip;
use crate::export::{AudioFormat, ExportError, ExportSpec, Mode, VideoFormat};
use crate::format::{sanitize_filename, sanitized};
use crate::text::{
    concat, decimal, decimal_of, decimal_value, law_decimal_reads_back, string_of,
};

verus! {

/// What the save buttons produce: the target containers and an optional downscale.
#[derive(Clone, Copy, PartialEq, Eq, Structural, Debug)]
pub struct ExportOptions {
    /// Target format for "Save audio only".
    pub audio_format: AudioFormat,
    /// Target container for "Save clip" / "Save full video".
    pub video_format: VideoFormat,
    /// Downscale height for saved video; `None` keeps the source resolution.
    pub scale_height: Option<u32>,
}

/// Standard heights offered when downscaling a saved video, tallest first.
pub open spec fn height_ladder() -> Seq<u32> {
    seq![2160u32, 1440u32, 1080u32, 720u32, 480u32, 360u32, 240u32, 144u32]
}

/// The heights of the ladder below `height`, from rung `from` on.
pub open spec fn rungs_below(height: u32, from: int) -> Seq<u32>
    decreases height_ladder().len() - from,
{
    if from < 0 || from >= height_ladder().len() {
        Seq::empty()
    } else if height_ladder()[from] < height {
        seq![height_ladder()[from]] + rungs_below(height, from + 1)
    } else {
        rungs_below(height, from + 1)
    }
}

/// The heights a video `src_height` lines tall can be saved at. Only those shorter
/// than the source are offered, so the menu never upscales.
pub fn export_heights(src_height: u32) -> (heights: Vec<u32>)
    ensures
        heights@ == rungs_below(src_height, 0),
{
    let ladder: [u32; 8] = [2160, 1440, 1080, 720, 480, 360, 240, 144];
    assert(ladder@ == height_ladder());
    let mut heights: Vec<u32> = Vec::new();
    let mut i: usize = 0;
    assert(heights@ + rungs_below(src_height, 0) == rungs_below(src_height, 0));
    while i < 8
        invariant
            i <= 8,
            ladder@ == height_ladder(),
            heights@ + rungs_below(src_height, i as int) == rungs_below(src_height, 0),
        decreases 8 - i,
    {
        let h: u32 = ladder[i];
        let ghost before = heights@;
        if h < src_height {
            heights.push(h);
            assert(heights@ + rungs_below(src_height, i + 1) == before + (seq![h] + rungs_below(
                src_height,
                i + 1,
            )));
        }
        i = i + 1;
    }
    assert(heights@ + rungs_below(src_height, 8) == heights@);
    heights
}

proof fn lemma_rungs_below(height: u32, from: int, i: int)
    requires
        0 <= from,
        0 <= i < rungs_below(height, from).len(),
    ensures
        rungs_below(height, from)[i] < height,
        height_ladder().contains(rungs_below(height, from)[i]),
    decreases height_ladder().len() - from,
{
    if from < height_ladder().len() {
        if height_ladder()[from] < height {
            if i > 0 {
                lemma_rungs_below(height, from + 1, i - 1);
            }
        } else {
            lemma_rungs_below(height, from + 1, i);
        }
    }
}

/// The menu never upscales: every height it offers is below the source's.
pub proof fn law_menu_never_upscales(height: u32, i: int)
    requires
        0 <= i < rungs_below(height, 0).len(),
    ensures
        rungs_below(height, 0)[i] < height,
        height_ladder().contains(rungs_below(height, 0)[i]),
{
    lemma_rungs_below(height, 0, i);
}

/// A height as the menus show it.
pub open spec fn lines_text(height: u32) -> Seq<char> {
    decimal(height as nat) + "p"@
}

/// A height as the menus show it.
pub fn height_label(height: u32) -> (label: String)
    ensures
        label@ == lines_text(height),
{
    concat(string_of(&decimal_of(height as u64)).as_str(), "p")
}

/// The label of the first choice in the download menu, which takes the source at its
/// tallest.
pub fn source_label(tallest: Option<u32>) -> (label: String)
    ensures
        label@ == (match tallest {
            Some(h) => "Source ("@ + lines_text(h) + ")"@,
            None => "Source"@,
        }),
{
    match tallest {
        Some(h) => {
            let mut label = concat("Source (", height_label(h).as_str());
            label.append(")");
            label
        },
        None => "Source".to_owned(),
    }
}

impl ExportOptions {
    /// MP3 for sound, MP4 at the source's height for pictures.
    pub fn new() -> (options: ExportOptions)
        ensures
            options == (ExportOptions {
                audio_format: AudioFormat::Mp3,
                video_format: VideoFormat::Mp4,
                scale_height: None,
            }),
    {
        ExportOptions {
            audio_format: AudioFormat::Mp3,
            video_format: VideoFormat::Mp4,
            scale_height: None,
        }
    }

    /// The chosen height as the menu shows it.
    pub fn height_text(&self) -> (text: String)
        ensures
            text@ == (match self.scale_height {
                None => "Original"@,
                Some(h) => lines_text(h),
            }),
    {
        match self.scale_height {
            None => "Original".to_owned(),
            Some(h) => height_label(h),
        }
    }

    /// Whether compatibility makes a difference: it only changes the MP4/MOV path.
    pub fn compat_applies(&self) -> (applies: bool)
        ensures
            applies == (self.video_format == VideoFormat::Mp4 || self.video_format
                == VideoFormat::Mov),
    {
        matches!(self.video_format, VideoFormat::Mp4 | VideoFormat::Mov)
    }
}

/// Which save buttons work.
#[derive(Clone, Copy, PartialEq, Eq, Structural, Debug)]
pub struct CanSave {
    pub audio: bool,
    pub video: bool,
}

/// Which save buttons work: none before the file is ready or while other work
/// reports, and those for video only where there is one.
pub fn can_save(is_ready: bool, is_busy: bool, has_video: bool) -> (can: CanSave)
    ensures
        can.audio == (is_ready && !is_busy),
        can.video == (is_ready && !is_busy && has_video),
{
    let audio = is_ready && !is_busy;
    CanSave { audio, video: audio && has_video }
}

/// The extension of a saved audio file, which is `mp3` when the file's own can't be
/// told.
pub fn saved_audio_extension(ext: Result<&'static str, ExportError>) -> (out: &'static str)
    ensures
        out@ == (match ext {
            Ok(ext) => ext@,
            Err(_) => "mp3"@,
        }),
{
    match ext {
        Ok(ext) => ext,
        Err(_) => "mp3",
    }
}

/// The file name a save starts out with: the video's title, made fit for a name.
pub fn suggested_name(title: &Option<String>, ext: &str) -> (name: String)
    ensures
        name@ == sanitized(
            (match *title {
                Some(title) => title@,
                None => "video"@,
            }),
        ) + "."@ + ext@,
{
    let stem = match title {
        Some(title) => sanitize_filename(title.as_str()),
        None => sanitize_filename("video"),
    };
    let mut name = concat(stem.as_str(), ".");
    name.append(ext);
    name
}

/// The export that a save button asks for. Resolution applies to saved video only;
/// audio-only ignores it.
pub fn export_spec(
    input: String,
    output: String,
    clip: &Clip,
    mode: Mode,
    options: &ExportOptions,
    compatibility_mode: bool,
) -> (spec: ExportSpec)
    ensures
        spec == (ExportSpec {
            input,
            output,
            start_secs: clip.in_secs,
            end_secs: clip.out_secs,
            mode,
            scale_height: if mode is AudioOnly {
                None
            } else {
                options.scale_height
            },
            compatibility_mode,
        }),
{
    let scale_height = if matches!(mode, Mode::AudioOnly(_)) {
        None
    } else {
        options.scale_height
    };
    ExportSpec {
        input,
        output,
        start_secs: clip.in_secs,
        end_secs: clip.out_secs,
        mode,
        scale_height,
        compatibility_mode,
    }
}

/// The title a downloaded video is saved under: what the site calls it, unless that
/// is empty, else what its file is called.
pub fn downloaded_title(info_title: &Option<String>, file_stem: Option<String>) -> (title: Option<
    String,
>)
    ensures
        match *info_title {
            Some(t) => if t@.len() > 0 {
                title is Some && title->0@ == t@
            } else {
                title == file_stem
            },
            None => title == file_stem,
        },
{
    match info_title {
        Some(t) => if crate::text::chars_of(t.as_str()).len() > 0 {
            Some(t.clone())
        } else {
            file_stem
        },
        None => file_stem,
    }
}

proof fn lemma_has_rung(height: u32, from: int, at: int)
    requires
        0 <= from <= at < height_ladder().len(),
        height_ladder()[at] < height,
    ensures
        rungs_below(height, from).contains(height_ladder()[at]),
    decreases at - from,
{
    let h = height_ladder()[at];
    let rungs = rungs_below(height, from);
    let rest = rungs_below(height, from + 1);
    if at == from {
        assert(rungs[0] == h);
    } else {
        lemma_has_rung(height, from + 1, at);
        let i = rest.index_of(h);
        assert(rest[i] == h);
        if height_ladder()[from] < height {
            assert(rungs[i + 1] == h);
        }
    }
}

/// The menu leaves out no usual height below the source's, and offers no other.
pub proof fn law_menu_offers_every_lower_height(height: u32, h: u32)
    ensures
        rungs_below(height, 0).contains(h) <==> h < height && (h == 2160 || h == 1440 || h == 1080
            || h == 720 || h == 480 || h == 360 || h == 240 || h == 144),
{
    let ladder = height_ladder();
    assert(ladder[0] == 2160 && ladder[1] == 1440 && ladder[2] == 1080 && ladder[3] == 720);
    assert(ladder[4] == 480 && ladder[5] == 360 && ladder[6] == 240 && ladder[7] == 144);
    if h < height && ladder.contains(h) {
        lemma_has_rung(height, 0, ladder.index_of(h));
    }
    if rungs_below(height, 0).contains(h) {
        let i = rungs_below(height, 0).index_of(h);
        lemma_rungs_below(height, 0, i);
        let at = ladder.index_of(h);
        assert(ladder[at] == h);
    }
    assert(ladder.contains(2160) && ladder.contains(1440) && ladder.contains(1080)
        && ladder.contains(720) && ladder.contains(480) && ladder.contains(360) && ladder.contains(
        240,
    ) && ladder.contains(144));
}

proof fn lemma_rungs_fall(height: u32, from: int, i: int, j: int)
    requires
        0 <= from,
        0 <= i < j < rungs_below(height, from).len(),
    ensures
        rungs_below(height, from)[i] > rungs_below(height, from)[j],
    decreases height_ladder().len() - from,
{
    if from < height_ladder().len() {
        if height_ladder()[from] < height {
            if i > 0 {
                lemma_rungs_fall(height, from + 1, i - 1, j - 1);
            } else {
                lemma_rungs_under(height, from + 1, j - 1);
            }
        } else {
            lemma_rungs_fall(height, from + 1, i, j);
        }
    }
}

proof fn lemma_rungs_under(height: u32, from: int, i: int)
    requires
        1 <= from,
        0 <= i < rungs_below(height, from).len(),
    ensures
        rungs_below(height, from)[i] < height_ladder()[from - 1],
    decreases height_ladder().len() - from,
{
    if from < height_ladder().len() {
        if height_ladder()[from] < height {
            if i > 0 {
                lemma_rungs_under(height, from + 1, i - 1);
            }
        } else {
            lemma_rungs_under(height, from + 1, i);
        }
    }
}

/// The menu falls from the tallest height to the lowest.
pub proof fn law_menu_falls(height: u32, i: int, j: int)
    requires
        0 <= i < j < rungs_below(height, 0).len(),
    ensures
        rungs_below(height, 0)[i] > rungs_below(height, 0)[j],
{
    lemma_rungs_fall(height, 0, i, j);
}

/// A height reads as its number of lines with a `p` behind it.
pub proof fn law_heights_read_back(height: u32)
    ensures
        lines_text(height).last() == 'p',
        decimal_value(lines_text(height).drop_last()) == height,
{
    reveal_strlit("p");
    law_decimal_reads_back(height as nat);
    assert(lines_text(height).drop_last() == decimal(height as nat));
}

} // verus!
