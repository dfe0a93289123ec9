//! Cut, copy and paste in a single-line text field. Places in the text are counted
//! in characters.

use vstd::prelude::*;

use crate::text::{chars_of, slice_of, string_of, trim, trim_spec};

verus! {

/// What an edit leaves: the text, and where the cursor goes.
#[derive(Debug)]
pub struct Edited {
    pub text: String,
    pub cursor: usize,
}

/// A place in a text of `len` characters; past the end is the end.
pub open spec fn place(len: nat, at: usize) -> int {
    if at < len {
        at as int
    } else {
        len as int
    }
}

/// The bytes that a character takes in UTF-8.
pub open spec fn utf8_len(c: char) -> nat {
    if c as u32 <= 0x7f {
        1
    } else if c as u32 <= 0x7ff {
        2
    } else if c as u32 <= 0xffff {
        3
    } else {
        4
    }
}

/// The bytes that characters take in UTF-8.
pub open spec fn byte_len(s: Seq<char>) -> nat
    decreases s.len(),
{
    if s.len() == 0 {
        0
    } else {
        byte_len(s.drop_last()) + utf8_len(s.last())
    }
}

fn utf8_len_of(c: char) -> (n: usize)
    ensures
        n == utf8_len(c),
{
    let code: u32 = c as u32;
    if code <= 0x7f {
        1
    } else if code <= 0x7ff {
        2
    } else if code <= 0xffff {
        3
    } else {
        4
    }
}

proof fn lemma_byte_len(s: Seq<char>, n: int)
    requires
        0 <= n <= s.len(),
    ensures
        byte_len(s.take(n)) <= byte_len(s),
    decreases s.len() - n,
{
    if n < s.len() {
        lemma_byte_len(s, n + 1);
        assert(s.take(n + 1).drop_last() == s.take(n));
    } else {
        assert(s.take(n) == s);
    }
}

/// Byte offset of the `char_index`-th character in `s` (its end if past the end),
/// for turning cursor places into slice bounds.
pub fn char_to_byte(s: &str, char_index: usize) -> (at: usize)
    requires
        byte_len(s@) <= usize::MAX,
    ensures
        at == byte_len(s@.take(place(s@.len(), char_index))),
{
    let chars = chars_of(s);
    let mut at: usize = 0;
    let mut i: usize = 0;
    assert(s@.take(0) == Seq::<char>::empty());
    while i < char_index && i < chars.len()
        invariant
            i <= char_index,
            i <= chars@.len(),
            chars@ == s@,
            byte_len(s@) <= usize::MAX,
            at == byte_len(s@.take(i as int)),
        decreases chars@.len() - i,
    {
        proof {
            lemma_byte_len(s@, i + 1);
            assert(s@.take(i + 1).drop_last() == s@.take(i as int));
        }
        at = at + utf8_len_of(chars[i]);
        i = i + 1;
    }
    at
}

/// The two ends of a selection in order; the same for a bare caret, and the start
/// of the text without either.
pub fn selection(cursor: Option<(usize, usize)>) -> (range: (usize, usize))
    ensures
        match cursor {
            Some((p, s)) => range == (if p <= s {
                (p, s)
            } else {
                (s, p)
            }),
            None => range == (0usize, 0usize),
        },
{
    match cursor {
        Some((p, s)) => if p <= s {
            (p, s)
        } else {
            (s, p)
        },
        None => (0, 0),
    }
}

/// The text with the characters from `start` to `end` replaced.
pub open spec fn replaced(s: Seq<char>, start: usize, end: usize, with: Seq<char>) -> Seq<char> {
    s.take(place(s.len(), start)) + with + s.skip(place(s.len(), end))
}

/// The characters from `start` to `end`.
pub open spec fn selected(s: Seq<char>, start: usize, end: usize) -> Seq<char> {
    s.subrange(place(s.len(), start), place(s.len(), end))
}

fn place_of(len: usize, at: usize) -> (r: usize)
    ensures
        r == place(len as nat, at),
        r <= len,
{
    if at < len {
        at
    } else {
        len
    }
}

fn replace(text: &str, start: usize, end: usize, with: &Vec<char>) -> (out: String)
    requires
        start <= end,
    ensures
        out@ == replaced(text@, start, end, with@),
{
    let chars = chars_of(text);
    let from: usize = place_of(chars.len(), start);
    let to: usize = place_of(chars.len(), end);
    let head = slice_of(&chars, 0, from);
    let tail = slice_of(&chars, to, chars.len());
    let mut out = string_of(&head);
    out.append(string_of(with).as_str());
    out.append(string_of(&tail).as_str());
    assert(head@ == text@.take(from as int));
    assert(tail@ == text@.skip(to as int));
    out
}

/// Replaces the selection with what the clipboard holds, without the surrounding
/// white space that a single-line field can't hold.
pub fn paste(text: &str, start: usize, end: usize, clipboard: &str) -> (edited: Edited)
    requires
        start <= end,
        start + trim_spec(clipboard@).len() <= usize::MAX,
    ensures
        edited.text@ == replaced(text@, start, end, trim_spec(clipboard@)),
        edited.cursor == start + trim_spec(clipboard@).len(),
{
    let pasted = trim(&chars_of(clipboard));
    let out = replace(text, start, end, &pasted);
    Edited { text: out, cursor: start + pasted.len() }
}

/// Takes the selection out of the text.
pub fn cut(text: &str, start: usize, end: usize) -> (edited: Edited)
    requires
        start <= end,
    ensures
        edited.text@ == replaced(text@, start, end, Seq::<char>::empty()),
        edited.cursor == start,
{
    let nothing: Vec<char> = Vec::new();
    Edited { text: replace(text, start, end, &nothing), cursor: start }
}

/// What is selected.
pub fn copy(text: &str, start: usize, end: usize) -> (out: String)
    requires
        start <= end,
    ensures
        out@ == selected(text@, start, end),
{
    let chars = chars_of(text);
    let from: usize = place_of(chars.len(), start);
    let to: usize = place_of(chars.len(), end);
    string_of(&slice_of(&chars, from, to))
}

/// Pasting back what was cut, where it was cut, restores the text, unless there was
/// white space at either end of it.
pub proof fn law_paste_undoes_cut(s: Seq<char>, start: usize, end: usize)
    requires
        start <= end <= s.len(),
        trim_spec(selected(s, start, end)) == selected(s, start, end),
    ensures
        replaced(
            replaced(s, start, end, Seq::<char>::empty()),
            start,
            start,
            trim_spec(selected(s, start, end)),
        ) == s,
{
    let without = replaced(s, start, end, Seq::<char>::empty());
    assert(without.take(start as int) == s.take(start as int));
    assert(without.skip(start as int) == s.skip(end as int));
    assert(s.take(start as int) + s.subrange(start as int, end as int) + s.skip(end as int) == s);
}

/// An edit leaves everything outside the selection as it was and puts the new text in
/// its place.
pub proof fn law_edits_keep_the_rest(s: Seq<char>, start: usize, end: usize, with: Seq<char>)
    requires
        start <= end <= s.len(),
    ensures
        ({
            let out = replaced(s, start, end, with);
            &&& out.len() == s.len() - (end - start) + with.len()
            &&& out.take(start as int) == s.take(start as int)
            &&& out.subrange(start as int, start + with.len()) == with
            &&& out.skip(start + with.len()) == s.skip(end as int)
        }),
{
    let out = replaced(s, start, end, with);
    assert(out.take(start as int) == s.take(start as int));
    assert(out.subrange(start as int, start + with.len()) == with);
    assert(out.skip(start + with.len()) == s.skip(end as int));
}

/// What is copied is what is selected: put in its own place it changes nothing, and it
/// is as long as the selection. Past the end there is nothing to select.
pub proof fn law_copy_takes_the_selection(s: Seq<char>, start: usize, end: usize)
    requires
        start <= end,
    ensures
        replaced(s, start, end, selected(s, start, end)) == s,
        end <= s.len() ==> selected(s, start, end).len() == end - start,
        start >= s.len() ==> selected(s, start, end).len() == 0,
{
    let from = place(s.len(), start);
    let to = place(s.len(), end);
    assert(s.take(from) + s.subrange(from, to) + s.skip(to) == s);
}

/// Bytes are counted as UTF-8 has them: one for ASCII and up to four for the rest, and
/// those of two texts together are those of each.
pub proof fn law_bytes_add_up(a: Seq<char>, b: Seq<char>)
    ensures
        byte_len(a + b) == byte_len(a) + byte_len(b),
        a.len() <= byte_len(a) <= 4 * a.len(),
        (forall|i: int| 0 <= i < a.len() ==> #[trigger] a[i] <= '\u{7f}') <==> byte_len(a)
            == a.len(),
    decreases a.len() + b.len(),
{
    if b.len() > 0 {
        assert((a + b).drop_last() == a + b.drop_last());
        law_bytes_add_up(a, b.drop_last());
    } else {
        assert(a + b == a);
        if a.len() > 0 {
            let shorter = a.drop_last();
            law_bytes_add_up(shorter, b);
            law_wider_characters_take_more_bytes(a.last());
            assert(a.last() == a[a.len() - 1]);
            if forall|i: int| 0 <= i < a.len() ==> #[trigger] a[i] <= '\u{7f}' {
                assert forall|i: int| 0 <= i < shorter.len() implies #[trigger] shorter[i]
                    <= '\u{7f}' by {
                    assert(shorter[i] == a[i]);
                }
                assert(a[a.len() - 1] <= '\u{7f}');
                assert(utf8_len(a.last()) == 1);
                assert(byte_len(shorter) == shorter.len());
            }
            if byte_len(a) == a.len() {
                assert(byte_len(shorter) == shorter.len() && utf8_len(a.last()) == 1);
                assert forall|i: int| 0 <= i < a.len() implies #[trigger] a[i] <= '\u{7f}' by {
                    if i < shorter.len() {
                        assert(shorter[i] == a[i]);
                    } else {
                        assert(utf8_len(a[i]) == 1);
                    }
                }
            }
        }
    }
}

/// A character takes two bytes from U+0080 on, three from U+0800 and four from U+10000.
pub proof fn law_wider_characters_take_more_bytes(c: char)
    ensures
        utf8_len(c) >= 2 <==> c >= '\u{80}',
        utf8_len(c) >= 3 <==> c >= '\u{800}',
        utf8_len(c) >= 4 <==> c >= '\u{10000}',
        1 <= utf8_len(c) <= 4,
{
}

} // verus!
