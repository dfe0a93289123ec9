//! Where the programs that the app runs are found.

use vstd::prelude::*;

use crate::ytdlp::opt;

verus! {

/// A path that was looked at, and whether a file is there.
#[derive(Debug)]
pub struct Candidate {
    pub path: String,
    pub is_file: bool,
}

/// The first candidate that is a file.
pub open spec fn first_file(candidates: Seq<Candidate>) -> Option<Seq<char>>
    decreases candidates.len(),
{
    if candidates.len() == 0 {
        None
    } else if candidates[0].is_file {
        Some(candidates[0].path@)
    } else {
        first_file(candidates.skip(1))
    }
}

/// The first candidate that is a file: beside the app, `bin/` comes before the app's
/// own folder; on the `PATH`, its folders come in their order.
pub fn pick_file(candidates: &Vec<Candidate>) -> (path: Option<String>)
    ensures
        opt(path) == first_file(candidates@),
{
    let mut i: usize = 0;
    assert(candidates@.skip(0) == candidates@);
    while i < candidates.len()
        invariant
            i <= candidates@.len(),
            first_file(candidates@.skip(i as int)) == first_file(candidates@),
        decreases candidates@.len() - i,
    {
        let c = &candidates[i];
        assert(candidates@.skip(i as int)[0] == *c);
        if c.is_file {
            return Some(c.path.clone());
        }
        assert(candidates@.skip(i as int).skip(1) == candidates@.skip(i + 1));
        i = i + 1;
    }
    assert(candidates@.skip(i as int) == Seq::<Candidate>::empty());
    None
}

/// What to do for yt-dlp.
#[derive(Debug)]
pub enum ToolChoice {
    /// Run this.
    Run(String),
    /// Copy `source` to `managed`, where it can update itself; run the copy when
    /// that works, else the source.
    Seed { source: String, managed: String },
    Missing,
}

/// The one of two that is there, the first where both are.
pub open spec fn either(first: Option<Seq<char>>, second: Option<Seq<char>>) -> Option<Seq<char>> {
    if first is Some {
        first
    } else {
        second
    }
}

/// Settles which yt-dlp to run: the managed copy → the one bundled with the app →
/// the one on the `PATH`. Where there is no managed copy yet, one is seeded, so
/// that `yt-dlp -U` works even when the app is installed read-only.
pub fn resolve_ytdlp(
    managed: Option<Candidate>,
    bundled: Option<String>,
    on_path: Option<String>,
) -> (choice: ToolChoice)
    ensures
        settles(managed, opt(bundled), opt(on_path), choice),
        ({
            let source = either(opt(bundled), opt(on_path));
            if managed is Some && managed->0.is_file {
                choice is Run && choice->Run_0@ == managed->0.path@
            } else {
                match source {
                    None => choice is Missing,
                    Some(source) => match managed {
                        Some(m) => choice matches ToolChoice::Seed { source: s, managed: to }
                            && s@ == source && to@ == m.path@,
                        None => choice is Run && choice->Run_0@ == source,
                    },
                }
            }
        }),
{
    if let Some(m) = &managed {
        if m.is_file {
            return ToolChoice::Run(m.path.clone());
        }
    }
    let source = match bundled {
        Some(path) => path,
        None => match on_path {
            Some(path) => path,
            None => {
                return ToolChoice::Missing;
            },
        },
    };
    match managed {
        Some(m) => ToolChoice::Seed { source, managed: m.path },
        None => ToolChoice::Run(source),
    }
}

/// What to run after an attempt to seed the managed copy: by its full path either
/// way, never a bare name.
pub fn seeded(source: String, managed: String, copied: bool) -> (path: String)
    ensures
        path@ == (if copied {
            managed@
        } else {
            source@
        }),
{
    if copied {
        managed
    } else {
        source
    }
}

/// Settles which ffmpeg yt-dlp merges with: the bundled one → the one on the `PATH`.
/// ffmpeg never updates itself, so it needs no managed copy.
pub fn resolve_ffmpeg(bundled: Option<String>, on_path: Option<String>) -> (path: Option<String>)
    ensures
        opt(path) == either(opt(bundled), opt(on_path)),
{
    match bundled {
        Some(path) => Some(path),
        None => on_path,
    }
}

/// An entry of a folder, as far as it could be looked at.
#[derive(Clone, Copy, PartialEq, Eq, Structural, Debug)]
pub struct Entry {
    pub is_file: bool,
    pub len: u64,
}

/// The bytes of the files among entries.
pub open spec fn file_bytes(entries: Seq<Entry>) -> nat
    decreases entries.len(),
{
    if entries.len() == 0 {
        0
    } else {
        file_bytes(entries.drop_last()) + (if entries.last().is_file {
            entries.last().len as nat
        } else {
            0
        })
    }
}

proof fn lemma_file_bytes(entries: Seq<Entry>, n: int)
    requires
        0 <= n <= entries.len(),
    ensures
        file_bytes(entries.take(n)) <= file_bytes(entries),
    decreases entries.len() - n,
{
    if n < entries.len() {
        lemma_file_bytes(entries, n + 1);
        assert(entries.take(n + 1).drop_last() == entries.take(n));
    } else {
        assert(entries.take(n) == entries);
    }
}

/// Total size, in bytes, of the files among a folder's entries.
pub fn dir_size(entries: &Vec<Entry>) -> (bytes: u64)
    requires
        file_bytes(entries@) <= u64::MAX,
    ensures
        bytes == file_bytes(entries@),
{
    let mut total: u64 = 0;
    let mut i: usize = 0;
    assert(entries@.take(0) == Seq::<Entry>::empty());
    while i < entries.len()
        invariant
            i <= entries@.len(),
            file_bytes(entries@) <= u64::MAX,
            total == file_bytes(entries@.take(i as int)),
        decreases entries@.len() - i,
    {
        let e = entries[i];
        proof {
            lemma_file_bytes(entries@, i + 1);
            assert(entries@.take(i + 1).drop_last() == entries@.take(i as int));
        }
        if e.is_file {
            total = total + e.len;
        }
        i = i + 1;
    }
    assert(entries@.take(entries@.len() as int) == entries@);
    total
}

/// The first candidate with a file is taken: those before it have none, and where none
/// has one nothing is taken.
pub proof fn law_first_file_wins(candidates: Seq<Candidate>, at: int)
    ensures
        0 <= at < candidates.len() && candidates[at].is_file && (forall|i: int|
            0 <= i < at ==> !(#[trigger] candidates[i]).is_file) ==> first_file(candidates)
            == Some(candidates[at].path@),
        (forall|i: int| 0 <= i < candidates.len() ==> !(#[trigger] candidates[i]).is_file)
            <==> first_file(candidates) is None,
    decreases candidates.len(),
{
    if candidates.len() > 0 {
        let rest = candidates.skip(1);
        law_first_file_wins(rest, at - 1);
        assert forall|i: int| 0 <= i < rest.len() implies #[trigger] rest[i] == candidates[i + 1] by {
        }
        assert forall|i: int| 1 <= i < candidates.len() implies #[trigger] candidates[i] == rest[i
            - 1] by {
        }
    }
}

/// What comes with the app is taken before what is on the `PATH`.
pub proof fn law_bundled_comes_first(bundled: Seq<char>, on_path: Option<Seq<char>>)
    ensures
        either(Some(bundled), on_path) == Some(bundled),
        either(None, on_path) == on_path,
{
}

/// A folder is as large as its files together, whatever else it holds.
pub proof fn law_sizes_add_up(entries: Seq<Entry>, entry: Entry)
    ensures
        file_bytes(Seq::<Entry>::empty()) == 0,
        entry.is_file ==> file_bytes(entries.push(entry)) == file_bytes(entries) + entry.len,
        !entry.is_file ==> file_bytes(entries.push(entry)) == file_bytes(entries),
{
    assert(entries.push(entry).drop_last() == entries);
}

/// Whether `choice` is what becomes of yt-dlp, given what was found of the managed copy,
/// with the app and on the `PATH`.
pub open spec fn settles(
    managed: Option<Candidate>,
    bundled: Option<Seq<char>>,
    on_path: Option<Seq<char>>,
    choice: ToolChoice,
) -> bool {
    let source = either(bundled, on_path);
    if managed is Some && managed->0.is_file {
        choice is Run && choice->Run_0@ == managed->0.path@
    } else if source is None {
        choice is Missing
    } else if managed is None {
        choice is Run && choice->Run_0@ == source->0
    } else {
        choice is Seed && choice->source@ == source->0 && choice->managed@ == managed->0.path@
    }
}

/// A managed copy is run wherever there is one. Without it the program that comes with
/// the app is taken before that on the `PATH`, and seeds a managed copy where there is a
/// place for one; yt-dlp is missing only where it is nowhere.
pub proof fn law_managed_copy_comes_first(
    managed: Option<Candidate>,
    bundled: Option<Seq<char>>,
    on_path: Option<Seq<char>>,
    choice: ToolChoice,
)
    requires
        settles(managed, bundled, on_path, choice),
    ensures
        ({
            let there = managed is Some && managed->0.is_file;
            &&& there ==> choice is Run && choice->Run_0@ == managed->0.path@
            &&& choice is Missing <==> !there && bundled is None && on_path is None
            &&& choice is Seed <==> !there && managed is Some && (bundled is Some
                || on_path is Some)
            &&& choice is Seed ==> choice->managed@ == managed->0.path@
            &&& choice is Seed && bundled is Some ==> choice->source@ == bundled->0
            &&& choice is Seed && bundled is None ==> choice->source@ == on_path->0
            &&& choice is Run && !there && bundled is Some ==> choice->Run_0@ == bundled->0
            &&& choice is Run && !there && bundled is None ==> choice->Run_0@ == on_path->0
        }),
{
}

} // verus!
