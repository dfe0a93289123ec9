//! File names and their extensions.

use vstd::prelude::*;

use crate::export::VideoFormat;
use crate::text::{
    ascii_lowered, chars_of, is_word, last_to, law_split_takes_piece_by_piece, split_on,
    to_ascii_lowercase, Class,
};

verus! {

/// Whether every system parts `path` alike: at slashes alone, with neither a drive
/// nor a server in front.
pub open spec fn parted_alike(path: Seq<char>) -> bool {
    &&& !(path.len() >= 2 && path[0] == '/' && path[1] == '/')
    &&& forall|i: int| 0 <= i < path.len() ==> #[trigger] path[i] != '\\' && path[i] != ':'
}

/// Whether `path` reads the same on every system and ends in a name rather than in a
/// separator or in the folder itself.
pub open spec fn plain_path(path: Seq<char>) -> bool {
    &&& parted_alike(path)
    &&& path.len() > 0
    &&& path.last() != '/'
    &&& name_of(path) != seq!['.']
}

/// `path` without the slashes at its end, and without a folder's `.` for itself after
/// one, which every system passes over.
pub open spec fn settled(path: Seq<char>) -> Seq<char>
    decreases path.len(),
{
    let n = path.len() as int;
    if (n > 1 && path[n - 1] == '/') || (n > 2 && path[n - 1] == '.' && path[n - 2] == '/') {
        settled(path.drop_last())
    } else {
        path
    }
}

/// What follows the last separator of a plain path.
pub open spec fn name_of(path: Seq<char>) -> Seq<char> {
    path.skip(last_to(path, path.len() as int, Class::Is('/')))
}

/// The extension of a plain path: what follows the last dot of its name, unless
/// nothing comes before that dot or the name is `..`.
pub open spec fn extension_of(path: Seq<char>) -> Option<Seq<char>> {
    let name = name_of(path);
    let dot = last_to(name, name.len() as int, Class::Is('.'));
    if dot <= 1 || name == seq!['.', '.'] {
        None
    } else {
        Some(name.skip(dot))
    }
}

/// Whether some system parts a path at `c`.
pub open spec fn parts(c: char) -> bool {
    c == '/' || c == '\\' || c == ':'
}

/// Whether `path` starts like the path of a server or a device.
pub open spec fn starts_doubled(path: Seq<char>) -> bool {
    path.len() >= 2 && parts(path[0]) && parts(path[1])
}

/// Whether every system takes what follows the dot at `dot` for the extension:
/// there is a name in front of it, however the path is parted, and text without a
/// dot or a separator behind it.
pub open spec fn ends_alike(path: Seq<char>, dot: int) -> bool {
    &&& 0 < dot < path.len() - 1
    &&& path[dot] == '.'
    &&& !parts(path[dot - 1])
    &&& forall|i: int| dot < i < path.len() ==> !parts(#[trigger] path[i]) && path[i] != '.'
    &&& !starts_doubled(path)
}

/// Whether the last part of `path`, from `from` on, has no text behind a dot however
/// the path is parted: it is a name without a dot, or one that ends in a dot.
pub open spec fn ends_bare(path: Seq<char>, from: int) -> bool {
    &&& 0 <= from < path.len()
    &&& from == 0 || parts(path[from - 1])
    &&& path.skip(from) != seq!['.']
    &&& forall|i: int| from <= i < path.len() ==> !parts(#[trigger] path[i])
    &&& path.last() == '.' || forall|i: int| from <= i < path.len() ==> #[trigger] path[i] != '.'
    &&& !starts_doubled(path)
}

/// Whether `ext` is no more than what a dot further up makes of the path: nothing,
/// no text, or text that runs across what another system parts.
pub open spec fn is_no_word(ext: Option<Seq<char>>) -> bool {
    ext is Some && ext->0.len() > 0 ==> exists|i: int|
        0 <= i < ext->0.len() && parts(#[trigger] ext->0[i])
}

/// A text's characters, where there is one.
pub open spec fn text_of(s: Option<String>) -> Option<Seq<char>> {
    match s {
        Some(s) => Some(s@),
        None => None,
    }
}

/// Whether `ext` can be the extension of `path`, as far as systems agree on it.
pub open spec fn fits_path(path: Seq<char>, ext: Option<Seq<char>>) -> bool {
    let path = settled(path);
    &&& plain_path(path) ==> ext == extension_of(path)
    &&& forall|dot: int| #[trigger] ends_alike(path, dot) ==> ext == Some(path.skip(dot + 1))
    &&& forall|from: int| #[trigger] ends_bare(path, from) ==> is_no_word(ext)
}

/// `std::path::Path::extension`, as text: what follows the last dot of the file
/// name, unless the name starts with its only dot or is `..`. Slashes at the end are
/// passed over. Systems part paths differently, so this is stated where they agree: of
/// paths parted by slashes alone, of those whose last part has text before and behind
/// its last dot (`C:\x\a.mp4`), and of those whose last part has no text behind a dot.
/// Left unsaid, beyond that an extension holds no dot, are the rest, such as `C:.mp4` or
/// a server's path.
#[verifier::external_body]
fn path_extension(path: &str) -> (ext: Option<String>)
    ensures
        ext is Some ==> forall|i: int| 0 <= i < ext->0@.len() ==> #[trigger] ext->0@[i] != '.',
        fits_path(path@, text_of(ext)),
{
    std::path::Path::new(path).extension().and_then(|e| e.to_str()).map(|e| e.to_owned())
}

/// Whether an extension marks a file in the MP4 family, whose index can be moved to
/// the front.
pub open spec fn in_mp4_family(ext: Option<Seq<char>>) -> bool {
    ext is Some && {
        let lower = ascii_lowered(ext->0);
        lower == "mp4"@ || lower == "mov"@ || lower == "m4a"@
    }
}

/// Whether an extension marks a video file.
pub open spec fn marks_video(ext: Option<Seq<char>>) -> bool {
    ext is Some && {
        let lower = ascii_lowered(ext->0);
        ||| lower == "mp4"@
        ||| lower == "webm"@
        ||| lower == "mkv"@
        ||| lower == "mov"@
        ||| lower == "m4v"@
        ||| lower == "avi"@
        ||| lower == "ts"@
    }
}

/// Whether a file with this extension gets its index moved to the front.
pub fn is_faststart_extension(ext: &Option<String>) -> (yes: bool)
    ensures
        yes == in_mp4_family(text_of(*ext)),
{
    match ext {
        Some(ext) => {
            let lower = to_ascii_lowercase(&chars_of(ext.as_str()));
            is_word(&lower, "mp4") || is_word(&lower, "mov") || is_word(&lower, "m4a")
        },
        None => false,
    }
}

/// Whether a file with this extension is a video.
pub fn is_video_extension(ext: &Option<String>) -> (yes: bool)
    ensures
        yes == marks_video(text_of(*ext)),
{
    match ext {
        Some(ext) => {
            let lower = to_ascii_lowercase(&chars_of(ext.as_str()));
            is_word(&lower, "mp4") || is_word(&lower, "webm") || is_word(&lower, "mkv") || is_word(
                &lower,
                "mov",
            ) || is_word(&lower, "m4v") || is_word(&lower, "avi") || is_word(&lower, "ts")
        },
        None => false,
    }
}

/// An extension that runs across a separator, or is empty, marks nothing.
proof fn lemma_no_word_marks_nothing(ext: Option<Seq<char>>)
    requires
        is_no_word(ext),
    ensures
        !in_mp4_family(ext),
        !marks_video(ext),
{
    reveal_strlit("mp4");
    reveal_strlit("mov");
    reveal_strlit("m4a");
    reveal_strlit("webm");
    reveal_strlit("mkv");
    reveal_strlit("m4v");
    reveal_strlit("avi");
    reveal_strlit("ts");
    if ext is Some {
        let lower = ascii_lowered(ext->0);
        assert(lower.len() == ext->0.len());
        if lower.len() > 0 {
            let i = choose|i: int| 0 <= i < ext->0.len() && parts(#[trigger] ext->0[i]);
            assert(parts(lower[i]));
        }
    }
}

/// Whether `yes` can be the answer to whether the output at `path` gets its index at
/// the front, as far as systems agree on it.
pub open spec fn tells_faststart(path: Seq<char>, yes: bool) -> bool {
    let path = settled(path);
    &&& plain_path(path) ==> yes == in_mp4_family(extension_of(path))
    &&& forall|dot: int| #[trigger]
        ends_alike(path, dot) ==> yes == in_mp4_family(Some(path.skip(dot + 1)))
    &&& forall|from: int| #[trigger] ends_bare(path, from) ==> !yes
}

/// Whether the output at `path` gets its index at the front, so browsers and chat
/// clients can stream it without downloading the whole file first.
pub fn wants_faststart(path: &str) -> (yes: bool)
    ensures
        tells_faststart(path@, yes),
{
    let ext = path_extension(path);
    proof {
        if is_no_word(text_of(ext)) {
            lemma_no_word_marks_nothing(text_of(ext));
        }
    }
    is_faststart_extension(&ext)
}

/// Whether `yes` can be the answer to whether `path` names a video file, as far as
/// systems agree on it.
pub open spec fn tells_video(path: Seq<char>, yes: bool) -> bool {
    let path = settled(path);
    &&& plain_path(path) ==> yes == marks_video(extension_of(path))
    &&& forall|dot: int| #[trigger]
        ends_alike(path, dot) ==> yes == marks_video(Some(path.skip(dot + 1)))
    &&& forall|from: int| #[trigger] ends_bare(path, from) ==> !yes
}

/// Whether `path` names a video file.
pub fn is_video_file(path: &str) -> (yes: bool)
    ensures
        tells_video(path@, yes),
{
    let ext = path_extension(path);
    proof {
        if is_no_word(text_of(ext)) {
            lemma_no_word_marks_nothing(text_of(ext));
        }
    }
    is_video_extension(&ext)
}

/// The parts of a path among the first `n` pieces between its slashes: empty pieces
/// are passed over, and so is a folder's `.` for itself unless it comes first.
pub open spec fn steps_among(pieces: Seq<Seq<char>>, n: int) -> Seq<Seq<char>>
    decreases n,
{
    if n <= 0 {
        Seq::empty()
    } else {
        let before = steps_among(pieces, n - 1);
        let piece = pieces[n - 1];
        if piece.len() == 0 || (piece == seq!['.'] && n > 1) {
            before
        } else {
            before.push(piece)
        }
    }
}

/// What a path that is parted at slashes says: whether it starts at the root, and its
/// parts.
pub open spec fn place_of(path: Seq<char>) -> (bool, Seq<Seq<char>>) {
    let pieces = split_on(path, Class::Is('/'));
    (path.len() > 0 && path[0] == '/', steps_among(pieces, pieces.len() as int))
}

/// Whether `c` parts folders on some system.
pub open spec fn is_slash(c: char) -> bool {
    c == '/' || c == '\\'
}

/// Whether no system passes over anything in `path`: it has no two slashes in a row,
/// none at its end, and no part that is a folder's `.` for itself.
pub open spec fn is_tidy(path: Seq<char>) -> bool {
    &&& path.len() > 0
    &&& !is_slash(path.last())
    &&& forall|i: int, j: int|
        0 <= i < path.len() && j == i + 1 && j < path.len() ==> !(is_slash(#[trigger] path[i])
            && is_slash(#[trigger] path[j]))
    &&& forall|i: int|
        0 <= i < path.len() && #[trigger] path[i] == '.' && (i == 0 || parts(path[i - 1])) ==> i + 1
            < path.len() && !parts(path[i + 1])
}

/// `path` with its slashes all alike and its letters in lower case.
pub open spec fn leveled(path: Seq<char>) -> Seq<char> {
    ascii_lowered(
        path.map_values(
            |c: char|
                if c == '\\' {
                    '/'
                } else {
                    c
                },
        ),
    )
}

/// Whether `yes` can be the answer to whether two paths are the same, as far as
/// systems agree on it: a path is the same as itself, paths that are parted at
/// slashes alone are the same when their parts are, and paths that nothing is
/// passed over in differ when more than the kind of slash and the case of a drive's
/// letter does.
pub open spec fn tells_same(a: Seq<char>, b: Seq<char>, yes: bool) -> bool {
    &&& a == b ==> yes
    &&& parted_alike(a) && parted_alike(b) ==> yes == (place_of(a) == place_of(b))
    &&& is_tidy(a) && is_tidy(b) && leveled(a) != leveled(b) ==> !yes
}

/// Equality of `std::path::Path`, which compares paths by their components: repeated
/// slashes, slashes at the end and a `.` that does not come first make no difference.
/// Left unsaid is what only some systems take for the same, such as `a\b` and `a/b`.
#[verifier::external_body]
pub(crate) fn same_path(a: &str, b: &str) -> (yes: bool)
    ensures
        tells_same(a@, b@, yes),
{
    std::path::Path::new(a) == std::path::Path::new(b)
}

/// A video file ends in one of seven endings, and a file whose index can be moved in one
/// of three, in any letter case; without an ending it is neither.
pub proof fn law_files_go_by_their_endings(ext: Seq<char>)
    ensures
        ({
            let lower = ascii_lowered(ext);
            &&& marks_video(Some(ext)) <==> (lower == "mp4"@ || lower == "mkv"@ || lower == "webm"@
                || lower == "mov"@ || lower == "m4v"@ || lower == "avi"@ || lower == "ts"@)
            &&& in_mp4_family(Some(ext)) <==> (lower == "mp4"@ || lower == "mov"@ || lower
                == "m4a"@)
        }),
        !marks_video(None),
        !in_mp4_family(None),
        marks_video(Some(ascii_lowered(ext))) == marks_video(Some(ext)),
        in_mp4_family(Some(ascii_lowered(ext))) == in_mp4_family(Some(ext)),
{
    assert(ascii_lowered(ascii_lowered(ext)) =~= ascii_lowered(ext));
}

/// Every video that is saved is listed as one, and its index is moved to the front in
/// the MP4 family alone.
pub proof fn law_saved_videos_are_listed(format: VideoFormat)
    ensures
        marks_video(Some(format.ext())),
        in_mp4_family(Some(format.ext())) <==> format is Mp4 || format is Mov,
{
    reveal_strlit("mp4");
    reveal_strlit("mkv");
    reveal_strlit("mov");
    reveal_strlit("webm");
    reveal_strlit("m4a");
    assert(ascii_lowered("mp4"@) =~= "mp4"@);
    assert(ascii_lowered("mkv"@) =~= "mkv"@);
    assert(ascii_lowered("mov"@) =~= "mov"@);
    assert(ascii_lowered("webm"@) =~= "webm"@);
    assert("webm"@.len() == 4 && "mp4"@.len() == 3 && "mov"@.len() == 3 && "m4a"@.len() == 3);
    assert("mkv"@[1] == 'k' && "mp4"@[1] == 'p' && "mov"@[1] == 'o' && "m4a"@[1] == '4');
}

/// What every system takes for the extension of `stem.ext`.
proof fn lemma_ends_in(stem: Seq<char>, ext: Seq<char>)
    requires
        stem.len() > 0,
        !parts(stem.last()),
        !starts_doubled(stem),
        ext.len() > 0,
        forall|i: int| 0 <= i < ext.len() ==> !parts(#[trigger] ext[i]) && ext[i] != '.',
    ensures
        settled(stem + seq!['.'] + ext) == stem + seq!['.'] + ext,
        ends_alike(stem + seq!['.'] + ext, stem.len() as int),
        (stem + seq!['.'] + ext).skip(stem.len() as int + 1) == ext,
{
    let path = stem + seq!['.'] + ext;
    let dot = stem.len() as int;
    assert(path.last() == ext[ext.len() - 1]);
    assert(path[dot] == '.' && path[dot - 1] == stem.last());
    assert forall|i: int| dot < i < path.len() implies !parts(#[trigger] path[i]) && path[i]
        != '.' by {
        assert(path[i] == ext[i - dot - 1]);
    }
    if stem.len() >= 2 {
        assert(path[0] == stem[0] && path[1] == stem[1]);
    }
    assert(path.skip(dot + 1) == ext);
}

/// A file is told by its ending whatever its folder and its name are: where a name comes
/// before the last dot, what follows that dot decides.
pub proof fn law_the_last_ending_decides(stem: Seq<char>, ext: Seq<char>, yes: bool)
    requires
        stem.len() > 0,
        stem.last() != '/' && stem.last() != '\\' && stem.last() != ':',
        !(stem.len() >= 2 && parts(stem[0]) && parts(stem[1])),
        ext.len() > 0,
        forall|i: int|
            0 <= i < ext.len() ==> #[trigger] ext[i] != '/' && ext[i] != '\\' && ext[i] != ':'
                && ext[i] != '.',
    ensures
        tells_video(stem + seq!['.'] + ext, yes) ==> yes == marks_video(Some(ext)),
        tells_faststart(stem + seq!['.'] + ext, yes) ==> yes == in_mp4_family(Some(ext)),
{
    lemma_ends_in(stem, ext);
}

/// A path is the same as itself, and two names in one folder are the same file only where
/// they are the same.
pub proof fn law_same_path_means_same_name(a: Seq<char>, b: Seq<char>, yes: bool)
    requires
        tells_same(a, b, yes),
    ensures
        a == b ==> yes,
        ({
            let plain = |s: Seq<char>|
                s.len() > 0 && s != seq!['.'] && forall|i: int|
                    0 <= i < s.len() ==> #[trigger] s[i] != '/' && s[i] != '\\' && s[i] != ':';
            plain(a) && plain(b) ==> yes == (a == b)
        }),
{
    let slash = Class::Is('/');
    let plain = |s: Seq<char>|
        s.len() > 0 && s != seq!['.'] && forall|i: int|
            0 <= i < s.len() ==> #[trigger] s[i] != '/' && s[i] != '\\' && s[i] != ':';
    if plain(a) && plain(b) {
        law_split_takes_piece_by_piece(a, '/', a, slash);
        law_split_takes_piece_by_piece(b, '/', b, slash);
        lemma_one_step(a);
        lemma_one_step(b);
        assert(place_of(a).1[0] == a && place_of(b).1[0] == b);
    }
}

proof fn lemma_one_step(name: Seq<char>)
    requires
        name.len() > 0,
        name != seq!['.'],
    ensures
        steps_among(seq![name], 1) == seq![name],
{
    assert(steps_among(seq![name], 0) == Seq::<Seq<char>>::empty());
    assert(steps_among(seq![name], 1) =~= seq![name]);
}

/// A name without an ending, or with nothing behind its last dot, is neither a video file
/// nor one whose index is moved, whatever its folder is.
pub proof fn law_names_without_an_ending_are_no_videos(
    folder: Seq<char>,
    name: Seq<char>,
    yes: bool,
)
    requires
        name.len() > 0,
        forall|i: int| 0 <= i < name.len() ==> !parts(#[trigger] name[i]) && name[i] != '.',
        folder.len() == 0 || folder.last() == '/',
        !starts_doubled(folder + name),
    ensures
        tells_video(folder + name, yes) ==> !yes,
        tells_faststart(folder + name, yes) ==> !yes,
{
    let path = folder + name;
    let from = folder.len() as int;
    assert forall|i: int| from <= i < path.len() implies !parts(#[trigger] path[i]) && path[i]
        != '.' by {
        assert(path[i] == name[i - from]);
    }
    assert(path.last() == path[path.len() - 1]);
    assert(path.skip(from) == name);
    assert(name[0] != '.');
    assert(settled(path) == path);
    assert(ends_bare(path, from));
}

} // verus!
