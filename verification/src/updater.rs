//! Telling whether a published release is newer than the running build.

use vstd::prelude::*;

use crate::text::{
    all_digits, chars_of, decimal, find_from, first_from, is_digit, is_white,
    law_decimal_reads_back, law_numbers_read_back, law_split_takes_piece_by_piece,
    law_trim_takes_the_blanks, lemma_first_from, lemma_found_at, parse_max, parsed, slice_of,
    split, split_on, string_of, trim, trim_spec, views, Class,
};

verus! {

/// The app's own release feed. `/latest` never returns drafts or prereleases, so
/// a release whose assets are still uploading is never offered.
pub const RELEASES_API_URL: &'static str =
    "https://api.github.com/repos/0xTheCrow/yt-dlp-clipper/releases/latest";

/// How long to wait for the feed.
pub const UPDATE_REQUEST_TIMEOUT_SECS: u64 = 15;

/// A published release newer than the running build.
#[derive(Clone, Debug, PartialEq, Eq)]
pub struct AvailableRelease {
    pub version: String,
    pub notes: String,
    pub page_url: String,
}

/// A release as the feed describes it.
#[derive(Debug)]
pub struct ReleaseResponse {
    pub tag_name: String,
    pub body: String,
    pub html_url: String,
}

/// A tag without the white space around it and the `v` in front of it.
pub open spec fn bare(tag: Seq<char>) -> Seq<char> {
    let s = trim_spec(tag);
    s.skip(first_from(s, 0, Class::IsNot('v')))
}

/// The numbers of a tag, up to any prerelease or build suffix.
pub open spec fn components(tag: Seq<char>) -> Seq<Seq<char>> {
    split_on(split_on(bare(tag), Class::Either('-', '+'))[0], Class::Is('.'))
}

/// A component after the first; one that is absent or no number reads as zero.
pub open spec fn component(parts: Seq<Seq<char>>, i: int) -> nat {
    if i < parts.len() && parsed(parts[i], u32::MAX as nat) is Some {
        parsed(parts[i], u32::MAX as nat)->0
    } else {
        0
    }
}

/// The version that a tag names, if its first component is a number.
pub open spec fn version_of(tag: Seq<char>) -> Option<(nat, nat, nat)> {
    let parts = components(tag);
    match parsed(parts[0], u32::MAX as nat) {
        Some(major) => Some((major, component(parts, 1), component(parts, 2))),
        None => None,
    }
}

/// Whether version `a` comes after version `b`.
pub open spec fn is_above(a: (nat, nat, nat), b: (nat, nat, nat)) -> bool {
    a.0 > b.0 || (a.0 == b.0 && (a.1 > b.1 || (a.1 == b.1 && a.2 > b.2)))
}

/// A split has at least one piece.
proof fn lemma_split_on_some(s: Seq<char>, class: Class)
    ensures
        split_on(s, class).len() > 0,
{
}

fn bare_tag(tag: &str) -> (out: Vec<char>)
    ensures
        out@ == bare(tag@),
{
    let s = trim(&chars_of(tag));
    let from: usize = find_from(&s, 0, Class::IsNot('v'));
    let out = slice_of(&s, from, s.len());
    assert(out@ == s@.skip(from as int));
    out
}

fn component_at(parts: &Vec<Vec<char>>, i: usize) -> (n: u32)
    ensures
        n == component(views(parts@), i as int),
{
    assert(views(parts@).len() == parts@.len());
    if i < parts.len() {
        assert(views(parts@)[i as int] == parts@[i as int]@);
        if let Some(n) = parse_max(&parts[i], u32::MAX as u64) {
            return n as u32;
        }
    }
    0
}

/// `major.minor.patch` from a release tag, ignoring a leading `v` and any
/// prerelease or build suffix. Absent components read as zero.
pub fn parse_version(tag: &str) -> (version: Option<(u32, u32, u32)>)
    ensures
        match version {
            Some((major, minor, patch)) => version_of(tag@) == Some(
                (major as nat, minor as nat, patch as nat),
            ),
            None => version_of(tag@) is None,
        },
{
    let core = bare_tag(tag);
    let pieces = split(&core, Class::Either('-', '+'));
    proof {
        lemma_split_on_some(core@, Class::Either('-', '+'));
        assert(views(pieces@).len() == pieces@.len());
        assert(views(pieces@)[0] == pieces@[0]@);
    }
    let parts = split(&pieces[0], Class::Is('.'));
    proof {
        lemma_split_on_some(pieces@[0]@, Class::Is('.'));
        assert(views(parts@).len() == parts@.len());
        assert(views(parts@)[0] == parts@[0]@);
    }
    match parse_max(&parts[0], u32::MAX as u64) {
        Some(major) => Some((major as u32, component_at(&parts, 1), component_at(&parts, 2))),
        None => None,
    }
}

/// Whether a release tagged `tag` is offered to a build of version `running`.
pub open spec fn is_offered(tag: Seq<char>, running: Seq<char>) -> bool {
    &&& version_of(tag) is Some
    &&& version_of(running) is Some
    &&& is_above(version_of(tag)->0, version_of(running)->0)
}

/// The release, when its tag names a version above `running`.
pub fn newer_release(release: &ReleaseResponse, running: &str) -> (offer: Option<AvailableRelease>)
    ensures
        offer is Some == is_offered(release.tag_name@, running@),
        offer is Some ==> {
            &&& offer->0.version@ == bare(release.tag_name@)
            &&& offer->0.notes@ == release.body@
            &&& offer->0.page_url@ == release.html_url@
        },
{
    let (a, b, c) = match parse_version(release.tag_name.as_str()) {
        Some(latest) => latest,
        None => {
            return None;
        },
    };
    let (x, y, z) = match parse_version(running) {
        Some(current) => current,
        None => {
            return None;
        },
    };
    if a > x || (a == x && (b > y || (b == y && c > z))) {
        Some(
            AvailableRelease {
                version: string_of(&bare_tag(release.tag_name.as_str())),
                notes: release.body.clone(),
                page_url: release.html_url.clone(),
            },
        )
    } else {
        None
    }
}

/// A build is never offered its own version, nor one that would offer it back; and
/// what is newer than a newer version is newer still.
pub proof fn law_offers_only_lead_upward(a: Seq<char>, b: Seq<char>, c: Seq<char>)
    ensures
        !is_offered(a, a),
        is_offered(a, b) ==> !is_offered(b, a),
        is_offered(a, b) && is_offered(b, c) ==> is_offered(a, c),
{
}

/// Versions are ordered by their numbers: of two that differ, one is above the
/// other, whatever their digits look like.
pub proof fn law_versions_are_ordered(a: (nat, nat, nat), b: (nat, nat, nat))
    ensures
        a == b || is_above(a, b) || is_above(b, a),
{
}

/// The three numbers of a tag, as it spells them.
pub open spec fn numbers_text(major: u32, minor: u32, patch: u32) -> Seq<char> {
    decimal(major as nat) + "."@ + decimal(minor as nat) + "."@ + decimal(patch as nat)
}

proof fn lemma_digits_have_no(s: Seq<char>, class: Class)
    requires
        all_digits(s),
        class == Class::Is('.') || class == Class::Either('-', '+') || class == Class::White
            || class == Class::Is('v'),
    ensures
        forall|i: int| 0 <= i < s.len() ==> !class.has(#[trigger] s[i]),
{
    assert forall|i: int| 0 <= i < s.len() implies !class.has(#[trigger] s[i]) by {
        assert(is_digit(s[i]));
    }
}

proof fn lemma_numbers_text(major: u32, minor: u32, patch: u32)
    ensures
        ({
            let s = numbers_text(major, minor, patch);
            &&& s.len() > 0
            &&& is_digit(s[0])
            &&& is_digit(s.last())
            &&& forall|i: int| 0 <= i < s.len() ==> !Class::Either('-', '+').has(#[trigger] s[i])
            &&& split_on(s, Class::Is('.')) == seq![
                decimal(major as nat),
                decimal(minor as nat),
                decimal(patch as nat),
            ]
        }),
{
    let dot = Class::Is('.');
    let a = decimal(major as nat);
    let b = decimal(minor as nat);
    let c = decimal(patch as nat);
    reveal_strlit(".");
    assert("."@ == seq!['.']);
    law_decimal_reads_back(major as nat);
    law_decimal_reads_back(minor as nat);
    law_decimal_reads_back(patch as nat);
    lemma_digits_have_no(a, dot);
    lemma_digits_have_no(b, dot);
    lemma_digits_have_no(c, dot);
    let s = numbers_text(major, minor, patch);
    let rest = b + seq!['.'] + c;
    assert(s == a + seq!['.'] + rest);
    law_split_takes_piece_by_piece(a, '.', rest, dot);
    law_split_takes_piece_by_piece(b, '.', c, dot);
    law_split_takes_piece_by_piece(c, '.', c, dot);
    assert(split_on(s, dot) =~= seq![a, b, c]);
    assert(s[0] == a[0] && s.last() == c.last());
    assert(is_digit(a[0]) && is_digit(c[c.len() - 1]));
    assert forall|i: int| 0 <= i < s.len() implies !Class::Either('-', '+').has(#[trigger] s[i]) by {
        if i < a.len() {
            assert(is_digit(a[i]));
        } else if a.len() < i < a.len() + 1 + b.len() {
            assert(s[i] == b[i - a.len() - 1]);
            assert(is_digit(b[i - a.len() - 1]));
        } else if i > a.len() + 1 + b.len() {
            assert(s[i] == c[i - a.len() - b.len() - 2]);
            assert(is_digit(c[i - a.len() - b.len() - 2]));
        }
    }
}

/// A tag with no white space at its ends loses just the `v`.
proof fn lemma_bare(core: Seq<char>)
    requires
        core.len() > 0,
        is_digit(core[0]),
        !is_white(core.last()),
    ensures
        bare(core) == core,
        bare("v"@ + core) == core,
{
    let tagged = "v"@ + core;
    let none = Seq::<char>::empty();
    reveal_strlit("v");
    assert(tagged[0] == 'v' && tagged.last() == core.last() && tagged[1] == core[0]);
    assert(none + core + none == core);
    assert(none + tagged + none == tagged);
    law_trim_takes_the_blanks(none, core, none);
    law_trim_takes_the_blanks(none, tagged, none);
    lemma_found_at(core, 0, Class::IsNot('v'), 0);
    lemma_found_at(tagged, 0, Class::IsNot('v'), 1);
    assert(core.skip(0) == core);
    assert(tagged.skip(1) == core);
}

/// A suffix that starts with a dash or a plus sign is cut off.
proof fn lemma_cut_off(numbers: Seq<char>, suffix: Seq<char>)
    requires
        forall|i: int|
            0 <= i < numbers.len() ==> !Class::Either('-', '+').has(#[trigger] numbers[i]),
        suffix.len() > 0 ==> suffix[0] == '-' || suffix[0] == '+',
    ensures
        split_on(numbers + suffix, Class::Either('-', '+'))[0] == numbers,
{
    let cut = Class::Either('-', '+');
    if suffix.len() > 0 {
        assert(numbers + suffix == numbers + seq![suffix[0]] + suffix.skip(1));
        law_split_takes_piece_by_piece(numbers, suffix[0], suffix.skip(1), cut);
    } else {
        assert(numbers + suffix == numbers);
        law_split_takes_piece_by_piece(numbers, '-', suffix, cut);
    }
}

/// The three numbers between two dots are the version.
proof fn lemma_version_of(tag: Seq<char>, major: u32, minor: u32, patch: u32)
    requires
        components(tag) == seq![
            decimal(major as nat),
            decimal(minor as nat),
            decimal(patch as nat),
        ],
    ensures
        version_of(tag) == Some((major as nat, minor as nat, patch as nat)),
{
    let none = Seq::<char>::empty();
    law_numbers_read_back(major as nat, u32::MAX as nat, none);
    law_numbers_read_back(minor as nat, u32::MAX as nat, none);
    law_numbers_read_back(patch as nat, u32::MAX as nat, none);
}

/// A version is read from its tag as it was put there, with a `v` in front or without,
/// and whatever suffix a dash or a plus sign starts.
pub proof fn law_version_reads_back(major: u32, minor: u32, patch: u32, suffix: Seq<char>)
    requires
        suffix.len() > 0 ==> (suffix[0] == '-' || suffix[0] == '+') && !is_white(suffix.last()),
    ensures
        ({
            let numbers = numbers_text(major, minor, patch);
            let version = Some((major as nat, minor as nat, patch as nat));
            &&& version_of(numbers + suffix) == version
            &&& version_of("v"@ + (numbers + suffix)) == version
            &&& bare("v"@ + (numbers + suffix)) == numbers + suffix
        }),
{
    let numbers = numbers_text(major, minor, patch);
    let core = numbers + suffix;
    lemma_numbers_text(major, minor, patch);
    assert(core[0] == numbers[0]);
    assert(!is_white(core.last())) by {
        if suffix.len() > 0 {
            assert(core.last() == suffix.last());
        } else {
            assert(core.last() == numbers.last());
        }
    }
    lemma_bare(core);
    lemma_cut_off(numbers, suffix);
    lemma_version_of(core, major, minor, patch);
    lemma_version_of("v"@ + core, major, minor, patch);
}

/// A version with a part left out reads as if that part were zero.
pub proof fn law_absent_parts_are_zero(major: u32)
    ensures
        version_of(decimal(major as nat)) == Some((major as nat, 0nat, 0nat)),
{
    let s = decimal(major as nat);
    let none = Seq::<char>::empty();
    law_decimal_reads_back(major as nat);
    assert(is_digit(s[0]) && is_digit(s[s.len() - 1]));
    assert(none + s + none == s);
    law_trim_takes_the_blanks(none, s, none);
    lemma_found_at(s, 0, Class::IsNot('v'), 0);
    assert(s.skip(0) == s);
    lemma_digits_have_no(s, Class::Either('-', '+'));
    lemma_digits_have_no(s, Class::Is('.'));
    law_split_takes_piece_by_piece(s, '-', none, Class::Either('-', '+'));
    law_split_takes_piece_by_piece(s, '.', none, Class::Is('.'));
    law_numbers_read_back(major as nat, u32::MAX as nat, none);
}

/// A release is offered just when its numbers are above those of the running build, the
/// first that differ deciding.
pub proof fn law_offered_when_the_numbers_are_higher(
    tag: Seq<char>,
    running: Seq<char>,
    new: (nat, nat, nat),
    now: (nat, nat, nat),
)
    requires
        version_of(tag) == Some(new),
        version_of(running) == Some(now),
    ensures
        new.0 > now.0 ==> is_offered(tag, running),
        new.0 == now.0 && new.1 > now.1 ==> is_offered(tag, running),
        new.0 == now.0 && new.1 == now.1 && new.2 > now.2 ==> is_offered(tag, running),
        new.0 < now.0 ==> !is_offered(tag, running),
        new.0 == now.0 && new.1 < now.1 ==> !is_offered(tag, running),
        new.0 == now.0 && new.1 == now.1 && new.2 <= now.2 ==> !is_offered(tag, running),
{
}

/// A part that is no number reads as zero, and so does one that is not there; any other
/// reads as the number it is.
pub proof fn law_odd_parts_are_zero(parts: Seq<Seq<char>>, i: int)
    requires
        0 <= i,
    ensures
        i >= parts.len() ==> component(parts, i) == 0,
        i < parts.len() && parsed(parts[i], u32::MAX as nat) is None ==> component(parts, i) == 0,
        i < parts.len() && parsed(parts[i], u32::MAX as nat) is Some ==> Some(component(parts, i))
            == parsed(parts[i], u32::MAX as nat),
{
}

/// However often a `v` stands in front of a tag, it does not count.
pub proof fn law_any_leading_v_is_dropped(tag: Seq<char>)
    requires
        tag.len() > 0,
        !is_white(tag[0]),
        !is_white(tag.last()),
    ensures
        bare("v"@ + tag) == bare(tag),
        version_of("v"@ + tag) == version_of(tag),
{
    let tagged = "v"@ + tag;
    let none = Seq::<char>::empty();
    let class = Class::IsNot('v');
    reveal_strlit("v");
    assert(tagged[0] == 'v' && tagged.last() == tag.last());
    assert(none + tag + none == tag);
    assert(none + tagged + none == tagged);
    law_trim_takes_the_blanks(none, tag, none);
    law_trim_takes_the_blanks(none, tagged, none);
    lemma_first_from(tag, 0, class);
    let at = first_from(tag, 0, class);
    assert forall|i: int| 0 <= i < at + 1 implies !class.has(#[trigger] tagged[i]) by {
        if i > 0 {
            assert(tagged[i] == tag[i - 1]);
        }
    }
    if at < tag.len() {
        assert(tagged[at + 1] == tag[at]);
    }
    lemma_found_at(tagged, 0, class, at + 1);
    assert(tagged.skip(at + 1) == tag.skip(at));
}

} // verus!
