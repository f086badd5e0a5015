//! Backslash escaping of the characters that line protocol reserves.
//!
//! Escaping is one pass from left to right: a backslash goes in front of
//! every reserved character and of every backslash, and nothing else
//! changes. Escaping a text twice therefore doubles its backslashes.

use vstd::prelude::*;

verus! {

/// The characters reserved in tag names, tag values and field names.
pub const COMMA_EQ_SPACE: [char; 3] = [',', '=', ' '];

/// The characters reserved in a measurement name.
pub const COMMA_SPACE: [char; 2] = [',', ' '];

/// The character reserved inside a quoted string value.
pub const DOUBLE_QUOTE: [char; 1] = ['"'];

/// Whether `c` is written with a backslash in front of it.
pub open spec fn needs_backslash(c: char, specials: Seq<char>) -> bool {
    c == '\\' || specials.contains(c)
}

/// What one character becomes.
pub open spec fn escaped_char(c: char, specials: Seq<char>) -> Seq<char> {
    if needs_backslash(c, specials) {
        seq!['\\', c]
    } else {
        seq![c]
    }
}

/// What a text becomes: each of its characters escaped, in order.
pub open spec fn escaped_text(text: Seq<char>, specials: Seq<char>) -> Seq<char>
    decreases text.len(),
{
    if text.len() == 0 {
        Seq::empty()
    } else {
        escaped_char(text[0], specials) + escaped_text(text.drop_first(), specials)
    }
}

/// The text with its escaping taken off: a backslash is dropped and the
/// character after it kept as it is. A backslash at the very end stays.
pub open spec fn unescaped_text(text: Seq<char>) -> Seq<char>
    decreases text.len(),
{
    if text.len() == 0 {
        Seq::empty()
    } else if text[0] == '\\' && text.len() >= 2 {
        seq![text[1]] + unescaped_text(text.skip(2))
    } else {
        seq![text[0]] + unescaped_text(text.drop_first())
    }
}

/// Whether no character of `text` needs a backslash.
pub open spec fn is_plain(text: Seq<char>, specials: Seq<char>) -> bool {
    forall|i: int| 0 <= i < text.len() ==> !needs_backslash(#[trigger] text[i], specials)
}

/// Escaping goes through a text piece by piece.
pub proof fn lemma_escaped_concat(a: Seq<char>, b: Seq<char>, specials: Seq<char>)
    ensures
        escaped_text(a + b, specials) == escaped_text(a, specials) + escaped_text(b, specials),
    decreases a.len(),
{
    if a.len() == 0 {
        assert(a + b =~= b);
    } else {
        assert((a + b).drop_first() =~= a.drop_first() + b);
        lemma_escaped_concat(a.drop_first(), b, specials);
    }
}

/// Escaping a text that ends in `c` escapes what is before `c`, then `c`.
pub proof fn lemma_escaped_push(text: Seq<char>, c: char, specials: Seq<char>)
    ensures
        escaped_text(text.push(c), specials) == escaped_text(text, specials) + escaped_char(
            c,
            specials,
        ),
{
    assert(text.push(c) =~= text + seq![c]);
    lemma_escaped_concat(text, seq![c], specials);
    reveal_with_fuel(escaped_text, 2);
    assert(seq![c].drop_first() =~= Seq::<char>::empty());
    assert(escaped_text(seq![c], specials) =~= escaped_char(c, specials));
}

/// Round trip: taking the escaping off an escaped text gives the text back,
/// whatever the reserved characters were.
pub proof fn lemma_unescape_escape(text: Seq<char>, specials: Seq<char>)
    ensures
        unescaped_text(escaped_text(text, specials)) == text,
    decreases text.len(),
{
    if text.len() > 0 {
        let rest = text.drop_first();
        let tail = escaped_text(rest, specials);
        let whole = escaped_text(text, specials);
        lemma_unescape_escape(rest, specials);
        if needs_backslash(text[0], specials) {
            assert(whole.skip(2) =~= tail);
        } else {
            assert(whole.drop_first() =~= tail);
        }
        assert(text =~= seq![text[0]] + rest);
    }
}

/// An escaped text is never shorter than the text, and it is the text
/// itself exactly when nothing in the text needed a backslash.
pub proof fn lemma_escaped_same_iff_plain(text: Seq<char>, specials: Seq<char>)
    ensures
        escaped_text(text, specials).len() >= text.len(),
        escaped_text(text, specials) == text <==> is_plain(text, specials),
    decreases text.len(),
{
    if text.len() == 0 {
        assert(escaped_text(text, specials) =~= text);
    } else {
        let rest = text.drop_first();
        let whole = escaped_text(text, specials);
        lemma_escaped_same_iff_plain(rest, specials);
        assert(text =~= seq![text[0]] + rest);
        assert(whole.len() == escaped_char(text[0], specials).len() + escaped_text(
            rest,
            specials,
        ).len());
        if is_plain(text, specials) {
            assert(!needs_backslash(text[0], specials));
            assert forall|i: int| 0 <= i < rest.len() implies !needs_backslash(
                #[trigger] rest[i],
                specials,
            ) by {
                assert(rest[i] == text[i + 1]);
            }
            assert(whole =~= text);
        }
        if whole == text {
            assert(!needs_backslash(text[0], specials));
            assert(whole.drop_first() =~= escaped_text(rest, specials));
            assert(is_plain(rest, specials));
            assert forall|i: int| 0 <= i < text.len() implies !needs_backslash(
                #[trigger] text[i],
                specials,
            ) by {
                if i > 0 {
                    assert(text[i] == rest[i - 1]);
                }
            }
        }
    }
}

/// Escaping is not idempotent: escaping an escaped text changes it again
/// unless the text had nothing to escape in the first place.
pub proof fn lemma_escape_twice(text: Seq<char>, specials: Seq<char>)
    ensures
        escaped_text(escaped_text(text, specials), specials) == escaped_text(text, specials)
            <==> is_plain(text, specials),
{
    let once = escaped_text(text, specials);
    lemma_escaped_same_iff_plain(text, specials);
    lemma_escaped_same_iff_plain(once, specials);
    if !is_plain(text, specials) {
        let i = choose|i: int| 0 <= i < text.len() && needs_backslash(#[trigger] text[i], specials);
        lemma_escaped_concat(text.take(i), text.skip(i), specials);
        assert(text =~= text.take(i) + text.skip(i));
        let at = escaped_text(text.take(i), specials).len() as int;
        assert(escaped_text(text.skip(i), specials)[0] == '\\');
        assert(once[at] == '\\');
        assert(needs_backslash(once[at], specials));
    }
}

/// A text together with the characters to escape in it. Its view is the
/// escaped text.
pub struct Escaped<'a, const N: usize> {
    src: &'a str,
    special_characters: [char; N],
}

impl<'a, const N: usize> View for Escaped<'a, N> {
    type V = Seq<char>;

    closed spec fn view(&self) -> Seq<char> {
        escaped_text(self.src@, self.special_characters@)
    }
}

/// Whether `c` is one of `special_characters`.
fn is_special<const N: usize>(special_characters: &[char; N], c: char) -> (r: bool)
    ensures
        r == special_characters@.contains(c),
{
    let mut i: usize = 0;
    while i < N
        invariant
            i <= N,
            special_characters@.len() == N,
            forall|j: int| 0 <= j < i ==> special_characters@[j] != c,
        decreases N - i,
    {
        if special_characters[i] == c {
            return true;
        }
        i += 1;
    }
    false
}

impl<'a, const N: usize> Escaped<'a, N> {
    /// Appends the escaped text to `out`.
    pub fn write_to(&self, out: &mut String)
        ensures
            final(out)@ == old(out)@ + self@,
    {
        for c in it: self.src.chars()
            invariant
                it.seq() == self.src@,
                out@ == old(out)@ + escaped_text(
                    self.src@.take(it.index() as int),
                    self.special_characters@,
                ),
        {
            proof {
                let done = self.src@.take(it.index() as int);
                assert(self.src@.take(it.index() + 1) =~= done.push(c));
                lemma_escaped_push(done, c, self.special_characters@);
            }
            if c == '\\' || is_special(&self.special_characters, c) {
                out.push('\\');
            }
            out.push(c);
        }
        assert(self.src@.take(self.src@.len() as int) =~= self.src@);
    }

    /// The escaped text.
    pub fn to_string(&self) -> (out: String)
        ensures
            out@ == self@,
    {
        let mut out = String::new();
        self.write_to(&mut out);
        out
    }
}

/// Escapes `src`: a backslash goes in front of each of `special_characters`
/// and of each backslash.
pub fn escape<const N: usize>(src: &str, special_characters: [char; N]) -> (escaped: Escaped<
    '_,
    N,
>)
    ensures
        escaped@ == escaped_text(src@, special_characters@),
{
    Escaped { src, special_characters }
}

/// Takes the escaping off `text`: the inverse of [`escape`].
pub fn unescape(text: &str) -> (out: String)
    ensures
        out@ == unescaped_text(text@),
{
    let mut out = String::new();
    let mut pending = false;
    assert(text@.skip(0) =~= text@);
    assert(out@ + unescaped_text(text@) =~= unescaped_text(text@));
    for c in it: text.chars()
        invariant
            it.seq() == text@,
            pending ==> it.index() > 0 && text@[it.index() - 1] == '\\',
            unescaped_text(text@) == out@ + unescaped_text(
                text@.skip(it.index() - if pending { 1int } else { 0int }),
            ),
    {
        let ghost i = it.index() as int;
        if pending {
            proof {
                let from = text@.skip(i - 1);
                assert(from[0] == '\\' && from[1] == c);
                assert(from.skip(2) =~= text@.skip(i + 1));
            }
            out.push(c);
            pending = false;
        } else if c == '\\' {
            pending = true;
        } else {
            proof {
                let from = text@.skip(i);
                assert(from[0] == c);
                assert(from.drop_first() =~= text@.skip(i + 1));
            }
            out.push(c);
        }
    }
    if pending {
        proof {
            reveal_with_fuel(unescaped_text, 2);
            let from = text@.skip(text@.len() - 1);
            assert(from.len() == 1 && from[0] == '\\');
            assert(from.drop_first() =~= Seq::<char>::empty());
            assert(unescaped_text(from) =~= seq!['\\']);
        }
        out.push('\\');
    } else {
        assert(text@.skip(text@.len() as int) =~= Seq::<char>::empty());
    }
    out
}

} // verus!
