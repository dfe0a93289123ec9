//! The download form: the URL being fetched, what yt-dlp reported about it, and the
//! choices applied to the next download.

use vstd::prelude::*;

use crate::text::chars_of;
use crate::ytdlp::{
    available_heights, offers, offers_at, opt, resolution_selector, selector_text, VideoInfo,
};

verus! {

/// The download form.
#[derive(Debug)]
pub struct DownloadForm {
    pub url: String,
    pub info: Option<VideoInfo>,
    /// Download resolution cap; `None` means "Best" (the source's tallest).
    pub selected_height: Option<u32>,
    pub want_video: bool,
    pub want_audio: bool,
}

impl DownloadForm {
    /// An empty form that wants both picture and sound.
    pub fn new() -> (form: DownloadForm)
        ensures
            form.url@.len() == 0,
            form.info is None,
            form.selected_height is None,
            form.want_video,
            form.want_audio,
    {
        DownloadForm {
            url: String::new(),
            info: None,
            selected_height: None,
            want_video: true,
            want_audio: true,
        }
    }

    /// Whether asking for the URL's description does anything: there has to be one,
    /// and no other work may be reporting.
    pub fn can_fetch(&self, is_busy: bool) -> (can: bool)
        ensures
            can == (!is_busy && self.url@.len() > 0),
    {
        !is_busy && chars_of(self.url.as_str()).len() > 0
    }

    /// Forgets the description, because another is asked for or a file is opened.
    pub fn forget(&mut self)
        ensures
            final(self).info is None,
            final(self).selected_height is None,
            final(self).url == old(self).url,
            final(self).want_video == old(self).want_video,
            final(self).want_audio == old(self).want_audio,
    {
        self.info = None;
        self.selected_height = None;
    }

    /// Takes a description; the choice of height starts over.
    pub fn describe(&mut self, info: VideoInfo)
        ensures
            final(self).info == Some(info),
            final(self).selected_height is None,
            final(self).url == old(self).url,
            final(self).want_video == old(self).want_video,
            final(self).want_audio == old(self).want_audio,
    {
        self.selected_height = None;
        self.info = Some(info);
    }

    /// Whether the video comes in this height.
    pub open spec fn lists(self, h: u32) -> bool {
        h > 0 && self.info is Some && offers(self.info->0.formats@, h)
    }

    /// The heights to choose from, tallest first.
    pub fn heights(&self) -> (heights: Vec<u32>)
        ensures
            forall|i: int, j: int|
                0 <= i < j < heights@.len() ==> #[trigger] heights@[i] > #[trigger] heights@[j],
            forall|h: u32| #[trigger] heights@.contains(h) <==> self.lists(h),
            self.info matches Some(info) ==> forall|i: int|
                0 <= i < info.formats@.len() && (#[trigger] info.formats@[i]).vcodec is Some
                    && info.formats@[i].vcodec->0@ != "none"@ && info.formats@[i].height is Some
                    && info.formats@[i].height->0 > 0 ==> heights@.contains(
                    info.formats@[i].height->0,
                ),
    {
        match &self.info {
            Some(info) => available_heights(info),
            None => Vec::new(),
        }
    }

    /// The heights that cap a download: all but the tallest, which leaving the choice
    /// open covers already.
    pub fn lower_heights(&self) -> (heights: Vec<u32>)
        ensures
            forall|i: int, j: int|
                0 <= i < j < heights@.len() ==> #[trigger] heights@[i] > #[trigger] heights@[j],
            forall|h: u32| #[trigger]
                heights@.contains(h) <==> self.lists(h) && exists|taller: u32|
                    taller > h && #[trigger] self.lists(taller),
    {
        let all = self.heights();
        let mut lower: Vec<u32> = Vec::new();
        let mut i: usize = 1;
        while i < all.len()
            invariant
                1 <= i,
                i <= all@.len() || (i == 1 && all@.len() == 0),
                all@.len() > 0 ==> lower@ == all@.subrange(1, i as int),
                all@.len() == 0 ==> lower@.len() == 0,
            decreases all@.len() - i,
        {
            lower.push(all[i]);
            i = i + 1;
        }
        assert forall|h: u32| #[trigger] lower@.contains(h) <==> self.lists(h) && exists|taller: u32|
            taller > h && #[trigger] self.lists(taller) by {
            if lower@.contains(h) {
                let at = choose|at: int| 0 <= at < lower@.len() && lower@[at] == h;
                assert(all@[at + 1] == h);
                assert(all@.contains(h));
                assert(all@.contains(all@[0]));
                assert(all@[0] > all@[at + 1]);
            }
            if self.lists(h) && exists|taller: u32| taller > h && #[trigger] self.lists(taller) {
                let taller = choose|taller: u32| taller > h && #[trigger] self.lists(taller);
                assert(all@.contains(h) && all@.contains(taller));
                let at = choose|at: int| 0 <= at < all@.len() && all@[at] == h;
                let above = choose|at: int| 0 <= at < all@.len() && all@[at] == taller;
                assert(at != 0);
                assert(lower@[at - 1] == h);
            }
        }
        lower
    }

    /// What the next download asks for.
    pub fn selector(&self) -> (selector: Option<String>)
        ensures
            opt(selector) == selector_text(
                self.selected_height,
                self.want_video,
                self.want_audio,
            ),
    {
        resolution_selector(self.selected_height, self.want_video, self.want_audio)
    }
}

/// The form lists a height exactly when some format of what was described has a picture
/// that tall, its video codec named other than `none`; with nothing described it lists
/// none.
pub proof fn law_form_lists_every_picture(form: DownloadForm, h: u32)
    ensures
        form.info is None ==> !form.lists(h),
        form.info matches Some(info) ==> (form.lists(h) <==> h > 0 && exists|i: int|
            0 <= i < info.formats@.len() && (#[trigger] info.formats@[i]).vcodec is Some
                && info.formats@[i].vcodec->0@ != "none"@ && info.formats@[i].height == Some(h)),
{
    if let Some(info) = form.info {
        let fs = info.formats@;
        if form.lists(h) {
            let i = choose|i: int| 0 <= i < fs.len() && offers_at(fs, h, i);
            assert(fs[i].height == Some(h));
        }
        assert forall|i: int|
            0 <= i < fs.len() && (#[trigger] fs[i]).vcodec is Some && fs[i].vcodec->0@ != "none"@
                && fs[i].height == Some(h) implies offers(fs, h) by {
            assert(offers_at(fs, h, i));
        }
    }
}

} // verus!
