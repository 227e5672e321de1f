//! White space, and text without the white space around it.

use vstd::prelude::*;

verus! {

/// Whether a character is white space: the characters that Unicode gives
/// the property White_Space.
pub open spec fn is_white_space(c: char) -> bool {
    ||| '\u{9}' <= c <= '\u{d}'
    ||| c == ' '
    ||| c == '\u{85}'
    ||| c == '\u{a0}'
    ||| c == '\u{1680}'
    ||| '\u{2000}' <= c <= '\u{200a}'
    ||| c == '\u{2028}'
    ||| c == '\u{2029}'
    ||| c == '\u{202f}'
    ||| c == '\u{205f}'
    ||| c == '\u{3000}'
}

/// A text without the white space at its start.
pub open spec fn trim_start(text: Seq<char>) -> Seq<char>
    decreases text.len(),
{
    if text.len() > 0 && is_white_space(text.first()) {
        trim_start(text.drop_first())
    } else {
        text
    }
}

/// A text without the white space at its end.
pub open spec fn trim_end(text: Seq<char>) -> Seq<char>
    decreases text.len(),
{
    if text.len() > 0 && is_white_space(text.last()) {
        trim_end(text.drop_last())
    } else {
        text
    }
}

/// A text without the white space at either end.
pub open spec fn trimmed(text: Seq<char>) -> Seq<char> {
    trim_end(trim_start(text))
}

/// Whether a character is white space.
pub fn white_space(c: char) -> (yes: bool)
    ensures
        yes == is_white_space(c),
{
    ('\u{9}' <= c && c <= '\u{d}') || c == ' ' || c == '\u{85}' || c == '\u{a0}' || c == '\u{1680}'
        || ('\u{2000}' <= c && c <= '\u{200a}') || c == '\u{2028}' || c == '\u{2029}' || c
        == '\u{202f}' || c == '\u{205f}' || c == '\u{3000}'
}

/// Whether every character of `text` is white space.
pub open spec fn all_white_space(text: Seq<char>) -> bool {
    forall|i: int| 0 <= i < text.len() ==> is_white_space(#[trigger] text[i])
}

/// A text without the white space at either end: what stands between the
/// first and the last character that is no white space, both included, and
/// nothing where there is no such character.
pub fn trim(text: &str) -> (out: String)
    ensures
        out@ == trimmed(text@),
{
    let mut out = String::new();
    // The white space read since the last character that is none: it
    // belongs to the result only if such a character follows.
    let mut held = String::new();
    let mut started = false;
    proof {
        assert(text@.take(0) =~= Seq::<char>::empty());
        assert(out@ + held@ =~= trim_start(text@.take(0)));
    }
    for c in it: text.chars()
        invariant
            it.seq() == text@,
            out@ + held@ == trim_start(text@.take(it.index())),
            all_white_space(held@),
            started == (out@.len() > 0),
            !started ==> held@.len() == 0,
            started ==> !is_white_space(out@.last()),
    {
        let ghost seen = text@.take(it.index());
        let ghost before = out@;
        let ghost between = held@;
        proof {
            assert(text@.take(it.index() + 1) =~= seen.push(c));
            lemma_trim_start_push(seen, c);
        }
        if white_space(c) {
            if started {
                held.push(c);
                proof {
                    assert(before + between.push(c) =~= (before + between).push(c));
                }
            }
        } else {
            out.append(held.as_str());
            held = String::new();
            out.push(c);
            started = true;
            proof {
                assert(out@ + held@ =~= (before + between).push(c));
            }
        }
    }
    proof {
        assert(text@.take(text@.len() as int) =~= text@);
        lemma_trim_end_held(out@, held@);
    }
    out
}

/// One more character at the end of a text: it is dropped with the white
/// space at the start if it is white space and nothing else came before it,
/// and stays at the end otherwise.
proof fn lemma_trim_start_push(text: Seq<char>, c: char)
    ensures
        trim_start(text.push(c)) == if trim_start(text).len() == 0 && is_white_space(c) {
            Seq::<char>::empty()
        } else {
            trim_start(text).push(c)
        },
    decreases text.len(),
{
    let longer = text.push(c);
    if text.len() == 0 {
        assert(longer.first() == c);
        assert(longer.drop_first() =~= Seq::<char>::empty());
        assert(trim_start(longer.drop_first()) =~= Seq::<char>::empty());
    } else {
        assert(longer.first() == text.first());
        assert(longer.drop_first() =~= text.drop_first().push(c));
        if is_white_space(text.first()) {
            lemma_trim_start_push(text.drop_first(), c);
        }
    }
}

/// White space behind a text that does not end in white space is all that
/// is dropped at the end.
proof fn lemma_trim_end_held(out: Seq<char>, held: Seq<char>)
    requires
        all_white_space(held),
        out.len() == 0 || !is_white_space(out.last()),
    ensures
        trim_end(out + held) == out,
    decreases held.len(),
{
    if held.len() == 0 {
        assert(out + held =~= out);
    } else {
        assert((out + held).last() == held[held.len() - 1]);
        assert((out + held).drop_last() =~= out + held.drop_last());
        assert(all_white_space(held.drop_last())) by {
            assert forall|i: int| 0 <= i < held.drop_last().len() implies is_white_space(
                #[trigger] held.drop_last()[i],
            ) by {
                assert(held.drop_last()[i] == held[i]);
            }
        }
        lemma_trim_end_held(out, held.drop_last());
    }
}

/// Whether a text has no white space at either end.
pub open spec fn is_bare(text: Seq<char>) -> bool {
    text.len() == 0 || (!is_white_space(text.first()) && !is_white_space(text.last()))
}

/// A text without white space at either end is left as it is.
pub proof fn law_trim_leaves_bare_text(text: Seq<char>)
    requires
        is_bare(text),
    ensures
        trimmed(text) == text,
{
}

/// What is left of a text has no white space at either end, and is left as
/// it is when it is trimmed again.
pub proof fn law_trimmed_is_bare(text: Seq<char>)
    ensures
        is_bare(trimmed(text)),
        trimmed(trimmed(text)) == trimmed(text),
{
    lemma_trim_start_first(text);
    lemma_trim_end_keeps_first(trim_start(text));
    lemma_trim_end_last(trim_start(text));
}

/// What is left of a text holds no character that the text does not hold.
pub proof fn lemma_trimmed_part(text: Seq<char>, c: char)
    requires
        !text.contains(c),
    ensures
        !trimmed(text).contains(c),
{
    lemma_trim_start_part(text, c);
    lemma_trim_end_part(trim_start(text), c);
}

proof fn lemma_trim_start_first(text: Seq<char>)
    ensures
        trim_start(text).len() == 0 || !is_white_space(trim_start(text).first()),
    decreases text.len(),
{
    if text.len() > 0 && is_white_space(text.first()) {
        lemma_trim_start_first(text.drop_first());
    }
}

proof fn lemma_trim_end_last(text: Seq<char>)
    ensures
        trim_end(text).len() == 0 || !is_white_space(trim_end(text).last()),
    decreases text.len(),
{
    if text.len() > 0 && is_white_space(text.last()) {
        lemma_trim_end_last(text.drop_last());
    }
}

proof fn lemma_trim_end_keeps_first(text: Seq<char>)
    ensures
        trim_end(text).len() > 0 ==> trim_end(text).first() == text.first(),
    decreases text.len(),
{
    if text.len() > 0 && is_white_space(text.last()) {
        lemma_trim_end_keeps_first(text.drop_last());
    }
}

proof fn lemma_trim_start_part(text: Seq<char>, c: char)
    requires
        !text.contains(c),
    ensures
        !trim_start(text).contains(c),
    decreases text.len(),
{
    if text.len() > 0 && is_white_space(text.first()) {
        let rest = text.drop_first();
        assert forall|i: int| 0 <= i < rest.len() implies rest[i] != c by {
            assert(rest[i] == text[i + 1]);
        }
        lemma_trim_start_part(rest, c);
    }
}

proof fn lemma_trim_end_part(text: Seq<char>, c: char)
    requires
        !text.contains(c),
    ensures
        !trim_end(text).contains(c),
    decreases text.len(),
{
    if text.len() > 0 && is_white_space(text.last()) {
        let rest = text.drop_last();
        assert forall|i: int| 0 <= i < rest.len() implies rest[i] != c by {
            assert(rest[i] == text[i]);
        }
        lemma_trim_end_part(rest, c);
    }
}

} // verus!
