//! The text format of a list file: one entry per line, each line closed by
//! a line feed.

use vstd::prelude::*;

verus! {

/// The texts held by a sequence of strings.
pub open spec fn texts(v: Seq<String>) -> Seq<Seq<char>> {
    Seq::new(v.len(), |i: int| v[i]@)
}

/// What a left-to-right pass over a text has seen: the lines already closed
/// by a terminator, and the characters of the line still open.
pub struct Scan {
    pub closed: Seq<Seq<char>>,
    pub open: Seq<char>,
}

/// A line without the carriage return that stood before its line feed.
pub open spec fn strip_cr(line: Seq<char>) -> Seq<char> {
    if line.len() > 0 && line.last() == '\r' {
        line.drop_last()
    } else {
        line
    }
}

/// The state of the pass after the whole of `text`.
pub open spec fn scan(text: Seq<char>) -> Scan
    decreases text.len(),
{
    if text.len() == 0 {
        Scan { closed: Seq::empty(), open: Seq::empty() }
    } else {
        let before = scan(text.drop_last());
        if text.last() == '\n' {
            Scan { closed: before.closed.push(strip_cr(before.open)), open: Seq::empty() }
        } else {
            Scan { closed: before.closed, open: before.open.push(text.last()) }
        }
    }
}

/// The lines of a text. A line ends at a line feed, or at a carriage return
/// directly followed by one; the terminator is not part of the line. What
/// follows the last line feed is a line of its own unless it is empty.
pub open spec fn split_lines(text: Seq<char>) -> Seq<Seq<char>> {
    let end = scan(text);
    if end.open.len() > 0 {
        end.closed.push(end.open)
    } else {
        end.closed
    }
}

/// The text that holds each of `lines` followed by a line feed, in order.
pub open spec fn join_lines(lines: Seq<Seq<char>>) -> Seq<char>
    decreases lines.len(),
{
    if lines.len() == 0 {
        Seq::empty()
    } else {
        join_lines(lines.drop_last()) + lines.last() + seq!['\n']
    }
}

/// Whether a line comes back as it is when it is written and read again: it
/// holds no line feed and does not end in a carriage return.
pub open spec fn is_line(line: Seq<char>) -> bool {
    !line.contains('\n') && (line.len() == 0 || line.last() != '\r')
}

/// Whether a text ends where a line ends: it is empty or ends in a line
/// feed.
pub open spec fn is_closed(text: Seq<char>) -> bool {
    text.len() == 0 || text.last() == '\n'
}

/// Whether none of `lines` holds a line feed, so that each is one line.
pub open spec fn all_one_line(lines: Seq<Seq<char>>) -> bool {
    forall|i: int| 0 <= i < lines.len() ==> !(#[trigger] lines[i]).contains('\n')
}

/// Splits a text into its lines. No line holds a line feed.
pub fn parse_lines(text: &str) -> (lines: Vec<String>)
    ensures
        texts(lines@) == split_lines(text@),
        all_one_line(texts(lines@)),
{
    let mut lines: Vec<String> = Vec::new();
    let mut cur = String::new();
    // A carriage return that was read but not yet stored: it is dropped if a
    // line feed follows, and kept otherwise.
    let mut held_cr = false;
    proof {
        assert(text@.take(0) =~= Seq::<char>::empty());
        assert(texts(lines@) =~= scan(text@.take(0)).closed);
    }
    for c in it: text.chars()
        invariant
            it.seq() == text@,
            texts(lines@) == scan(text@.take(it.index())).closed,
            scan(text@.take(it.index())).open == if held_cr {
                cur@.push('\r')
            } else {
                cur@
            },
            !held_cr ==> cur@.len() == 0 || cur@.last() != '\r',
    {
        let ghost seen = text@.take(it.index());
        let ghost next = text@.take(it.index() + 1);
        let ghost before = lines@;
        let ghost line = cur@;
        proof {
            assert(next.drop_last() =~= seen);
            assert(next.last() == c);
            assert(line.push('\r').drop_last() =~= line);
        }
        if c == '\n' {
            lines.push(cur);
            cur = String::new();
            held_cr = false;
            proof {
                assert(texts(lines@) =~= texts(before).push(line));
            }
        } else if c == '\r' {
            if held_cr {
                cur.push('\r');
            }
            held_cr = true;
        } else {
            if held_cr {
                cur.push('\r');
                held_cr = false;
            }
            cur.push(c);
        }
    }
    proof {
        assert(text@.take(text@.len() as int) =~= text@);
    }
    if held_cr {
        cur.push('\r');
    }
    if !cur.as_str().is_empty() {
        let ghost before = lines@;
        lines.push(cur);
        proof {
            assert(texts(lines@) =~= texts(before).push(lines@.last()@));
        }
    }
    proof {
        lemma_split_lines_plain(text@);
    }
    lines
}

/// Writes each of `lines` followed by a line feed.
pub fn render_lines(lines: &Vec<String>) -> (text: String)
    ensures
        text@ == join_lines(texts(lines@)),
{
    let mut text = String::new();
    let mut i: usize = 0;
    proof {
        assert(texts(lines@).take(0) =~= Seq::<Seq<char>>::empty());
    }
    while i < lines.len()
        invariant
            i <= lines.len(),
            text@ == join_lines(texts(lines@).take(i as int)),
        decreases lines.len() - i,
    {
        proof {
            let upto = texts(lines@).take(i as int + 1);
            assert(upto.drop_last() =~= texts(lines@).take(i as int));
            assert(upto.last() == lines@[i as int]@);
        }
        text.append(lines[i].as_str());
        text.push('\n');
        i += 1;
    }
    proof {
        assert(texts(lines@).take(lines@.len() as int) =~= texts(lines@));
    }
    text
}

/// Characters without a line feed extend the open line and close none.
pub proof fn lemma_scan_plain(text: Seq<char>, tail: Seq<char>)
    requires
        !tail.contains('\n'),
    ensures
        scan(text + tail) == (Scan { closed: scan(text).closed, open: scan(text).open + tail }),
    decreases tail.len(),
{
    if tail.len() == 0 {
        assert(text + tail =~= text);
        assert(scan(text).open + tail =~= scan(text).open);
    } else {
        let shorter = tail.drop_last();
        assert forall|i: int| 0 <= i < shorter.len() implies shorter[i] != '\n' by {
            assert(shorter[i] == tail[i]);
        }
        lemma_scan_plain(text, shorter);
        assert((text + tail).drop_last() =~= text + shorter);
        assert((text + tail).last() == tail[tail.len() - 1]);
        assert((scan(text).open + shorter).push(tail.last()) =~= scan(text).open + tail);
    }
}

/// A line and its line feed, written after a text, close the line that was
/// open.
pub proof fn lemma_scan_line(text: Seq<char>, line: Seq<char>)
    requires
        !line.contains('\n'),
    ensures
        scan(text + line.push('\n')) == (Scan {
            closed: scan(text).closed.push(strip_cr(scan(text).open + line)),
            open: Seq::empty(),
        }),
{
    lemma_scan_plain(text, line);
    assert((text + line.push('\n')).drop_last() =~= text + line);
}

/// A pass over lines that were written out finds each of them closed and
/// none open.
pub proof fn lemma_scan_join(lines: Seq<Seq<char>>)
    requires
        forall|i: int| 0 <= i < lines.len() ==> is_line(#[trigger] lines[i]),
    ensures
        scan(join_lines(lines)) == (Scan { closed: lines, open: Seq::empty() }),
    decreases lines.len(),
{
    if lines.len() > 0 {
        let before = lines.drop_last();
        let line = lines.last();
        assert forall|i: int| 0 <= i < before.len() implies is_line(#[trigger] before[i]) by {
            assert(before[i] == lines[i]);
        }
        lemma_scan_join(before);
        lemma_scan_line(join_lines(before), line);
        assert(join_lines(lines) =~= join_lines(before) + line.push('\n'));
        assert(Seq::<char>::empty() + line =~= line);
        assert(before.push(line) =~= lines);
    } else {
        assert(lines =~= Seq::<Seq<char>>::empty());
    }
}

/// Lines that are written and read again come back as they were.
pub proof fn lemma_split_join(lines: Seq<Seq<char>>)
    requires
        forall|i: int| 0 <= i < lines.len() ==> is_line(#[trigger] lines[i]),
    ensures
        split_lines(join_lines(lines)) == lines,
        is_closed(join_lines(lines)),
{
    lemma_scan_join(lines);
}

/// No line that a pass has seen holds a line feed, and a line is open at
/// the end unless the text ends where a line ends.
pub proof fn lemma_scan_lines_plain(text: Seq<char>)
    ensures
        all_one_line(scan(text).closed),
        !scan(text).open.contains('\n'),
        is_closed(text) <==> scan(text).open.len() == 0,
    decreases text.len(),
{
    if text.len() > 0 {
        lemma_scan_lines_plain(text.drop_last());
    }
}

/// No line of a text holds a line feed.
pub proof fn lemma_split_lines_plain(text: Seq<char>)
    ensures
        all_one_line(split_lines(text)),
{
    lemma_scan_lines_plain(text);
}

/// A line written after a text that ends where a line ends is read as one
/// more line.
pub proof fn lemma_split_appended(text: Seq<char>, line: Seq<char>)
    requires
        is_closed(text),
        is_line(line),
    ensures
        split_lines(text + line.push('\n')) == split_lines(text).push(line),
        is_closed(text + line.push('\n')),
{
    lemma_scan_lines_plain(text);
    lemma_scan_line(text, line);
    assert(Seq::<char>::empty() + line =~= line);
}

} // verus!
