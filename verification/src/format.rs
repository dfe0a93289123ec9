//! Text for people: names for files, labels for choices, lengths of time.

use vstd::prelude::*;

use crate::export::AudioFormat;
use crate::text::{
    chars_of, concat, control, decimal, decimal_of, decimal_value, digit_char, digit_value,
    is_control, is_white, law_decimal_reads_back, law_trim_takes_the_blanks,
    law_trim_takes_the_ends, slice_of, string_of, trim, trim_spec, trim_to, trimmed_to, Class,
};

verus! {

/// How many characters of a name are kept.
pub const NAME_LIMIT: usize = 100;

/// Dropdown label for an audio export format.
pub fn audio_format_label(format: AudioFormat) -> (label: &'static str)
    ensures
        label@ == (match format {
            AudioFormat::Mp3 => "MP3"@,
            AudioFormat::Aac => "AAC (.m4a)"@,
            AudioFormat::Original => "Original (lossless)"@,
        }),
{
    match format {
        AudioFormat::Mp3 => "MP3",
        AudioFormat::Aac => "AAC (.m4a)",
        AudioFormat::Original => "Original (lossless)",
    }
}

/// A number below a hundred in two digits, as those of a clock are.
pub open spec fn two_digits(n: nat) -> Seq<char> {
    if n < 10 {
        seq!['0'] + decimal(n)
    } else {
        decimal(n)
    }
}

/// Compact duration as `M:SS`, of whole seconds.
pub fn fmt_duration(secs: u64) -> (text: String)
    ensures
        text@ == decimal((secs / 60) as nat) + ":"@ + two_digits((secs % 60) as nat),
{
    let mut text = concat(string_of(&decimal_of(secs / 60)).as_str(), ":");
    let rest: u64 = secs % 60;
    let digits = string_of(&decimal_of(rest));
    let ghost head = text@;
    if rest < 10 {
        text.push('0');
    }
    text.append(digits.as_str());
    assert(text@ == head + two_digits(rest as nat));
    text
}

/// Whether a character can't stand in a file name on every system.
pub open spec fn is_forbidden(c: char) -> bool {
    ||| c == '/'
    ||| c == '\\'
    ||| c == ':'
    ||| c == '*'
    ||| c == '?'
    ||| c == '"'
    ||| c == '<'
    ||| c == '>'
    ||| c == '|'
    ||| is_control(c)
}

/// A character as it stands in a file name.
pub open spec fn clean_char(c: char) -> char {
    if is_forbidden(c) {
        '_'
    } else {
        c
    }
}

/// The first characters of a name, each made fit to stand in a file name.
pub open spec fn cleaned(name: Seq<char>) -> Seq<char> {
    let kept = if name.len() > NAME_LIMIT {
        name.take(NAME_LIMIT as int)
    } else {
        name
    };
    kept.map_values(|c: char| clean_char(c))
}

/// A name as a file's: without white space and then dots at either end, and never
/// empty.
pub open spec fn sanitized(name: Seq<char>) -> Seq<char> {
    let trimmed = trimmed_to(trim_spec(cleaned(name)), Class::IsNot('.'));
    if trimmed.len() == 0 {
        "video"@
    } else {
        trimmed
    }
}

fn clean(c: char) -> (out: char)
    ensures
        out == clean_char(c),
{
    if c == '/' || c == '\\' || c == ':' || c == '*' || c == '?' || c == '"' || c == '<' || c == '>'
        || c == '|' || control(c) {
        '_'
    } else {
        c
    }
}

/// Make a string safe to use as a filename across platforms.
pub fn sanitize_filename(name: &str) -> (out: String)
    ensures
        out@ == sanitized(name@),
{
    let chars = chars_of(name);
    let kept = if chars.len() > NAME_LIMIT {
        slice_of(&chars, 0, NAME_LIMIT)
    } else {
        chars
    };
    assert(kept@ == (if name@.len() > NAME_LIMIT {
        name@.take(NAME_LIMIT as int)
    } else {
        name@
    }));
    let mut cleaned_chars: Vec<char> = Vec::new();
    let mut i: usize = 0;
    while i < kept.len()
        invariant
            i <= kept@.len(),
            cleaned_chars@ == kept@.take(i as int).map_values(|c: char| clean_char(c)),
        decreases kept@.len() - i,
    {
        cleaned_chars.push(clean(kept[i]));
        i = i + 1;
        assert(cleaned_chars@ == kept@.take(i as int).map_values(|c: char| clean_char(c)));
    }
    assert(kept@.take(kept@.len() as int) == kept@);
    let trimmed = trim_to(&trim(&cleaned_chars), Class::IsNot('.'));
    if trimmed.len() == 0 {
        "video".to_owned()
    } else {
        string_of(&trimmed)
    }
}

/// Trimming keeps a run of what was there, with nothing of the class's opposite at
/// either end.
proof fn lemma_trimmed(s: Seq<char>, class: Class)
    ensures
        ({
            let t = trimmed_to(s, class);
            &&& t.len() <= s.len()
            &&& forall|i: int| 0 <= i < t.len() ==> s.contains(#[trigger] t[i])
            &&& t.len() > 0 ==> class.has(t[0]) && class.has(t.last())
        }),
{
    crate::text::lemma_first_from(s, 0, class);
    crate::text::lemma_last_to(s, s.len() as int, class);
    let start = crate::text::first_from(s, 0, class);
    let end = crate::text::last_to(s, s.len() as int, class);
    if start < s.len() {
        let t = s.subrange(start, end);
        if start < end {
            assert forall|i: int| 0 <= i < t.len() implies s.contains(#[trigger] t[i]) by {
                assert(t[i] == s[start + i]);
            }
        } else {
            assert(class.has(s[start]));
            assert(false);
        }
    }
}

/// A sanitized name is a file name anywhere: it has a character and no more than the
/// limit, none of them forbidden, and no dot at either end.
pub proof fn law_sanitized_names_are_safe(name: Seq<char>)
    ensures
        0 < sanitized(name).len() <= NAME_LIMIT,
        forall|i: int| 0 <= i < sanitized(name).len() ==> !is_forbidden(#[trigger] sanitized(name)[i]),
        sanitized(name)[0] != '.',
        sanitized(name).last() != '.',
{
    reveal_strlit("video");
    let all = cleaned(name);
    let spaced = trim_spec(all);
    lemma_trimmed(all, Class::NotWhite);
    lemma_trimmed(spaced, Class::IsNot('.'));
    let t = trimmed_to(spaced, Class::IsNot('.'));
    assert forall|i: int| 0 <= i < all.len() implies !is_forbidden(#[trigger] all[i]) by {
    }
    assert forall|i: int| 0 <= i < t.len() implies !is_forbidden(#[trigger] t[i]) by {
        assert(spaced.contains(t[i]));
        let j = spaced.index_of(t[i]);
        assert(all.contains(spaced[j]));
        let k = all.index_of(spaced[j]);
        assert(!is_forbidden(all[k]));
    }
}

/// The seconds of a minute take two digits, and the digits say how many they are.
pub proof fn law_two_digits_read_back(n: nat)
    requires
        n < 100,
    ensures
        two_digits(n).len() == 2,
        decimal_value(two_digits(n)) == n,
{
    law_decimal_reads_back(n);
    let s = two_digits(n);
    if n < 10 {
        assert(s == seq!['0', digit_char(n)]);
    } else {
        assert(decimal(n / 10) == seq![digit_char(n / 10)]);
        assert(s == seq![digit_char(n / 10), digit_char(n % 10)]);
    }
    assert(s.drop_last() == seq![s[0]]);
    assert(s.drop_last().drop_last() == Seq::<char>::empty());
    assert(decimal_value(s.drop_last().drop_last()) == 0);
    assert(decimal_value(s.drop_last()) == digit_value(s[0]));
}

/// A name keeps every character that can stand in a file name where it is, and has an
/// underscore for each that can't; only white space and dots at its ends, and what
/// comes after the first hundred characters, are left out.
pub proof fn law_names_keep_what_they_can(name: Seq<char>, i: int)
    requires
        0 < name.len() <= 100,
        (!is_white(name[0]) && name[0] != '.') || is_control(name[0]),
        (!is_white(name.last()) && name.last() != '.') || is_control(name.last()),
        0 <= i < name.len(),
    ensures
        sanitized(name).len() == name.len(),
        ({
            let c = name[i];
            let fit = !(c == '/' || c == '\\' || c == ':' || c == '*' || c == '?' || c == '"' || c
                == '<' || c == '>' || c == '|' || c < ' ' || '\u{7f}' <= c <= '\u{9f}');
            sanitized(name)[i] == (if fit {
                c
            } else {
                '_'
            })
        }),
{
    lemma_plain_ends(name);
}

proof fn lemma_plain_ends(name: Seq<char>)
    requires
        0 < name.len() <= NAME_LIMIT,
        (!is_white(name[0]) && name[0] != '.') || is_control(name[0]),
        (!is_white(name.last()) && name.last() != '.') || is_control(name.last()),
    ensures
        sanitized(name) == cleaned(name),
{
    let all = cleaned(name);
    let none = Seq::<char>::empty();
    assert(all.len() == name.len());
    assert(all[0] == clean_char(name[0]));
    assert(all.last() == clean_char(name.last()));
    assert(none + all + none == all);
    law_trim_takes_the_blanks(none, all, none);
    law_trim_takes_the_ends(none, all, none, Class::IsNot('.'));
}

/// Blanks, and dots inside them, at the ends of a name are left out; a name of nothing
/// else is called `video`; and only the first hundred characters of a name count.
pub proof fn law_ends_of_names_are_left_out(
    name: Seq<char>,
    blanks: nat,
    dots: nat,
)
    requires
        name.len() + blanks + dots <= 100,
        name.len() > 0 ==> !is_white(name[0]) && name[0] != '.' && !is_white(name.last())
            && name.last() != '.',
    ensures
        ({
            let front = Seq::new(blanks, |i: int| ' ') + Seq::new(dots, |i: int| '.');
            let back = Seq::new(dots, |i: int| '.') + Seq::new(blanks, |i: int| ' ');
            &&& name.len() > 0 ==> sanitized(front + name) == sanitized(name)
            &&& name.len() > 0 ==> sanitized(name + back) == sanitized(name)
            &&& sanitized(front) == "video"@
        }),
{
    let none = Seq::<char>::empty();
    let spaces = Seq::new(blanks, |i: int| ' ');
    let points = Seq::new(dots, |i: int| '.');
    let front = spaces + points;
    let back = points + spaces;
    let core = cleaned(name);
    assert(core.len() == name.len());
    assert(cleaned(front) == front);
    assert(spaces + points + none == front);
    if name.len() > 0 {
        assert(core[0] == clean_char(name[0]) && core.last() == clean_char(name.last()));
        lemma_plain_ends(name);
        assert(cleaned(front + name) =~= spaces + (points + core) + none);
        assert(cleaned(name + back) =~= none + (core + points) + spaces);
        assert((points + core).last() == core.last());
        assert((core + points)[0] == core[0]);
        law_trim_takes_the_blanks(spaces, points + core, none);
        law_trim_takes_the_blanks(none, core + points, spaces);
        assert(points + core + none == points + core);
        assert(none + core + points == core + points);
        law_trim_takes_the_ends(points, core, none, Class::IsNot('.'));
        law_trim_takes_the_ends(none, core, points, Class::IsNot('.'));
    }
    law_trim_takes_the_blanks(spaces, points, none);
    assert(points + none + none == points);
    law_trim_takes_the_ends(points, none, none, Class::IsNot('.'));
}

/// Only the first hundred characters of a name count.
pub proof fn law_long_names_are_cut(name: Seq<char>)
    requires
        name.len() > 100,
    ensures
        sanitized(name) == sanitized(name.take(100)),
{
}

} // verus!
