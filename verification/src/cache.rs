//! The grid of cached downloads: what it lists, and the thumbnails that arrive for
//! it.

use vstd::prelude::*;

use crate::double::Double;
use crate::paths::{
    is_video_file, law_the_last_ending_decides, marks_video, parts, same_path, tells_same,
    tells_video,
};
use crate::ytdlp::arg_texts;

verus! {

/// Pixel width thumbnails decode to.
pub const THUMB_DECODE_WIDTH: usize = 320;

/// One cached video shown in the cache browser.
#[derive(Debug)]
pub struct CacheEntry {
    pub path: String,
    pub name: String,
    pub size: u64,
    /// Known once its thumbnail has been decoded.
    pub duration: Option<Double>,
}

/// The cached-downloads grid.
#[derive(Debug)]
pub struct CacheBrowser {
    pub is_open: bool,
    pub entries: Vec<CacheEntry>,
}

/// Whether none of the first `n` entries is at `path`.
pub open spec fn none_at(entries: Seq<CacheEntry>, path: Seq<char>, n: int) -> bool {
    forall|j: int| 0 <= j < n ==> tells_same((#[trigger] entries[j]).path@, path, false)
}

/// Whether entry `i` is the first at `path`.
pub open spec fn is_first_at(entries: Seq<CacheEntry>, path: Seq<char>, i: int) -> bool {
    &&& 0 <= i < entries.len()
    &&& tells_same(entries[i].path@, path, true)
    &&& none_at(entries, path, i)
}

/// Those of `paths` that `keep` holds of, in their order.
pub open spec fn kept_of(paths: Seq<Seq<char>>, keep: Seq<bool>) -> Seq<Seq<char>>
    decreases paths.len(),
{
    if paths.len() == 0 {
        Seq::empty()
    } else {
        let before = kept_of(paths.drop_last(), keep);
        if keep[paths.len() - 1] {
            before.push(paths.last())
        } else {
            before
        }
    }
}

/// Whether `keep` tells of each of `paths` whether it names a video file.
pub open spec fn tells_videos(paths: Seq<Seq<char>>, keep: Seq<bool>) -> bool {
    &&& keep.len() == paths.len()
    &&& forall|i: int| 0 <= i < paths.len() ==> #[trigger] tells_video(paths[i], keep[i])
}

/// Flags that agree on the paths keep the same ones.
proof fn lemma_kept_of_agrees(paths: Seq<Seq<char>>, a: Seq<bool>, b: Seq<bool>)
    requires
        forall|i: int| 0 <= i < paths.len() ==> #[trigger] a[i] == b[i],
    ensures
        kept_of(paths, a) == kept_of(paths, b),
    decreases paths.len(),
{
    if paths.len() > 0 {
        lemma_kept_of_agrees(paths.drop_last(), a, b);
    }
}

/// The video files among the files of a folder, in their order.
pub fn videos_of(listed: &Vec<String>) -> (kept: Vec<String>)
    ensures
        exists|keep: Seq<bool>| #[trigger]
            tells_videos(arg_texts(listed@), keep) && arg_texts(kept@) == kept_of(
                arg_texts(listed@),
                keep,
            ),
{
    let mut kept: Vec<String> = Vec::new();
    let ghost mut keep: Seq<bool> = Seq::empty();
    let mut i: usize = 0;
    while i < listed.len()
        invariant
            i <= listed@.len(),
            keep.len() == i,
            tells_videos(arg_texts(listed@).take(i as int), keep),
            arg_texts(kept@) == kept_of(arg_texts(listed@).take(i as int), keep),
        decreases listed@.len() - i,
    {
        let ghost seen = arg_texts(listed@).take(i as int);
        let ghost before = keep;
        let ghost all = arg_texts(listed@).take(i + 1);
        let yes = is_video_file(listed[i].as_str());
        let ghost had = arg_texts(kept@);
        if yes {
            let path = listed[i].clone();
            kept.push(path);
            assert(arg_texts(kept@) == had.push(listed@[i as int]@));
        }
        proof {
            keep = before.push(yes);
            assert(all.drop_last() == seen);
            assert(all.last() == listed@[i as int]@);
            lemma_kept_of_agrees(seen, before, keep);
            assert forall|j: int| 0 <= j < all.len() implies #[trigger] tells_video(
                all[j],
                keep[j],
            ) by {
                if j < i {
                    assert(all[j] == seen[j] && keep[j] == before[j]);
                    assert(tells_video(seen[j], before[j]));
                }
            }
        }
        i = i + 1;
    }
    assert(arg_texts(listed@).take(listed@.len() as int) == arg_texts(listed@));
    kept
}

impl CacheBrowser {
    /// Nothing listed.
    pub fn new() -> (browser: CacheBrowser)
        ensures
            !browser.is_open,
            browser.entries@.len() == 0,
    {
        CacheBrowser { is_open: false, entries: Vec::new() }
    }

    /// Lists `entries`.
    pub fn open(&mut self, entries: Vec<CacheEntry>)
        ensures
            final(self).is_open,
            final(self).entries@ == entries@,
    {
        self.entries = entries;
        self.is_open = true;
    }

    /// Close the grid, dropping the listing.
    pub fn close(&mut self)
        ensures
            !final(self).is_open,
            final(self).entries@.len() == 0,
    {
        self.is_open = false;
        self.entries.clear();
    }

    /// Takes a thumbnail that was decoded for `path`; gives the entry it belongs to,
    /// if it is still listed.
    pub fn attach(&mut self, path: &str, duration: Double) -> (at: Option<usize>)
        ensures
            final(self).is_open == old(self).is_open,
            match at {
                Some(i) => {
                    &&& is_first_at(old(self).entries@, path@, i as int)
                    &&& final(self).entries@.len() == old(self).entries@.len()
                    &&& final(self).entries@[i as int] == (CacheEntry {
                        duration: Some(duration),
                        ..old(self).entries@[i as int]
                    })
                    &&& forall|j: int|
                        0 <= j < old(self).entries@.len() && j != i
                            ==> #[trigger] final(self).entries@[j] == old(self).entries@[j]
                },
                None => {
                    &&& final(self).entries@ == old(self).entries@
                    &&& none_at(old(self).entries@, path@, old(self).entries@.len() as int)
                },
            },
    {
        let mut i: usize = 0;
        while i < self.entries.len()
            invariant
                i <= self.entries@.len(),
                *self == *old(self),
                none_at(self.entries@, path@, i as int),
            decreases self.entries@.len() - i,
        {
            if same_path(self.entries[i].path.as_str(), path) {
                self.entries[i].duration = Some(duration);
                return Some(i);
            }
            i = i + 1;
        }
        None
    }
}

/// Every video file of the folder is listed and nothing else is, each as often as it is
/// there.
pub proof fn law_listing_leaves_no_video_out(paths: Seq<Seq<char>>, keep: Seq<bool>, path: Seq<char>)
    requires
        keep.len() == paths.len(),
    ensures
        kept_of(paths, keep).contains(path) <==> exists|i: int|
            0 <= i < paths.len() && #[trigger] paths[i] == path && keep[i],
        (forall|i: int| 0 <= i < keep.len() ==> #[trigger] keep[i]) ==> kept_of(paths, keep)
            == paths,
        (forall|i: int| 0 <= i < keep.len() ==> !#[trigger] keep[i]) ==> kept_of(paths, keep).len()
            == 0,
    decreases paths.len(),
{
    if paths.len() > 0 {
        let n = paths.len() - 1;
        let fewer = paths.drop_last();
        let flags = keep.drop_last();
        law_listing_leaves_no_video_out(fewer, flags, path);
        lemma_kept_of_agrees(fewer, keep, flags);
        let before = kept_of(fewer, keep);
        let all = kept_of(paths, keep);
        assert(forall|i: int| 0 <= i < n ==> #[trigger] fewer[i] == paths[i] && flags[i] == keep[i]);
        assert(forall|i: int| 0 <= i < n ==> #[trigger] flags[i] == keep[i]);
        assert(paths[n] == paths.last());
        if exists|i: int| 0 <= i < paths.len() && #[trigger] paths[i] == path && keep[i] {
            let i = choose|i: int| 0 <= i < paths.len() && #[trigger] paths[i] == path && keep[i];
            if i < n {
                assert(fewer[i] == path && flags[i]);
                let k = before.index_of(path);
                assert(all[k] == path);
            } else {
                assert(all.last() == path);
            }
        }
        if all.contains(path) {
            let k = all.index_of(path);
            if k < before.len() {
                assert(before[k] == path);
                let i = choose|i: int|
                    0 <= i < fewer.len() && #[trigger] fewer[i] == path && flags[i];
                assert(paths[i] == path && keep[i]);
            } else {
                assert(keep[n] && paths[n] == path);
            }
        }
        if forall|i: int| 0 <= i < keep.len() ==> #[trigger] keep[i] {
            assert(forall|i: int| 0 <= i < flags.len() ==> #[trigger] flags[i]);
            assert(keep[n]);
            assert(all == fewer.push(paths.last()));
            assert(all == paths);
        }
        if forall|i: int| 0 <= i < keep.len() ==> !#[trigger] keep[i] {
            assert(forall|i: int| 0 <= i < flags.len() ==> !#[trigger] flags[i]);
            assert(!keep[n]);
        }
    } else {
        assert(kept_of(paths, keep) == paths);
    }
}

/// A thumbnail goes to the first entry with its path and none comes before it; where it
/// goes to none, no entry has its path.
pub proof fn law_thumbnail_goes_to_the_first_entry(
    entries: Seq<CacheEntry>,
    path: Seq<char>,
    i: int,
    j: int,
)
    ensures
        is_first_at(entries, path, i) ==> 0 <= i < entries.len(),
        is_first_at(entries, path, i) && 0 <= j < i ==> entries[j].path@ != path,
        none_at(entries, path, entries.len() as int) && 0 <= j < entries.len()
            ==> entries[j].path@ != path,
        0 <= i < entries.len() && entries[i].path@ == path && none_at(entries, path, i) && tells_same(
            path,
            path,
            true,
        ) ==> is_first_at(entries, path, i),
{
    if 0 <= j < entries.len() && entries[j].path@ == path {
        assert(!tells_same(entries[j].path@, path, false));
    }
}

/// Every file of the folder that ends like a video is listed, whatever else is there, and
/// one that ends otherwise is not.
pub proof fn law_listing_goes_by_the_endings(
    paths: Seq<Seq<char>>,
    keep: Seq<bool>,
    i: int,
    stem: Seq<char>,
    ext: Seq<char>,
)
    requires
        tells_videos(paths, keep),
        0 <= i < paths.len(),
        paths[i] == stem + seq!['.'] + ext,
        stem.len() > 0,
        stem.last() != '/' && stem.last() != '\\' && stem.last() != ':',
        !(stem.len() >= 2 && parts(stem[0]) && parts(stem[1])),
        ext.len() > 0,
        forall|k: int|
            0 <= k < ext.len() ==> #[trigger] ext[k] != '/' && ext[k] != '\\' && ext[k] != ':'
                && ext[k] != '.',
    ensures
        kept_of(paths, keep).contains(paths[i]) <==> marks_video(Some(ext)),
{
    assert(tells_video(paths[i], keep[i]));
    law_the_last_ending_decides(stem, ext, keep[i]);
    law_listing_leaves_no_video_out(paths, keep, paths[i]);
    assert forall|j: int| 0 <= j < paths.len() && #[trigger] paths[j] == paths[i] implies keep[j]
        == marks_video(Some(ext)) by {
        assert(tells_video(paths[j], keep[j]));
        law_the_last_ending_decides(stem, ext, keep[j]);
    }
}

} // verus!
