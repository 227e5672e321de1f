//! What the commands print, as pieces of text that each say how they are
//! to look, and the two ways to turn the pieces into text: as they stand,
//! and styled for the terminal.

use crate::lines::texts;
use crate::style::{
    dimmed_struck, frames, in_bold_red, in_green, in_red, is_inert, underlined,
};
use vstd::prelude::*;

verus! {

/// How a piece of text is to look on the terminal.
#[derive(Clone, Copy, Debug, PartialEq, Eq, Structural)]
pub enum Look {
    /// As it stands.
    Plain,
    /// In green.
    Green,
    /// In red.
    Red,
    /// Underlined.
    Underlined,
    /// Dimmed and struck through.
    DimmedStruck,
    /// In bold red.
    BoldRed,
}

/// A piece of text and how it is to look.
#[derive(Debug, PartialEq, Eq)]
pub struct Piece {
    pub text: String,
    pub look: Look,
}

/// A piece as plain values.
pub struct Part {
    pub text: Seq<char>,
    pub look: Look,
}

impl View for Piece {
    type V = Part;

    open spec fn view(&self) -> Part {
        Part { text: self.text@, look: self.look }
    }
}

/// The pieces as plain values.
pub open spec fn parts(pieces: Seq<Piece>) -> Seq<Part> {
    Seq::new(pieces.len(), |i: int| pieces[i]@)
}

/// The texts put one behind the other.
pub open spec fn pasted(pieces: Seq<Seq<char>>) -> Seq<char>
    decreases pieces.len(),
{
    if pieces.len() == 0 {
        Seq::empty()
    } else {
        pasted(pieces.drop_last()) + pieces.last()
    }
}

/// The text of each piece.
pub open spec fn part_texts(page: Seq<Part>) -> Seq<Seq<char>> {
    Seq::new(page.len(), |i: int| page[i].text)
}

/// What the pieces say, whatever they look like.
pub open spec fn plain_text(page: Seq<Part>) -> Seq<char> {
    pasted(part_texts(page))
}

/// Whether `shown` can be what styling makes of `part`: a plain piece comes
/// out as it stands, and any other piece, unless it holds an escape
/// character, in one piece with whatever styling puts around it.
pub open spec fn is_styled(part: Part, shown: Seq<char>) -> bool {
    &&& part.look == Look::Plain ==> shown == part.text
    &&& is_inert(part.text) ==> frames(shown, part.text)
}

/// Whether `shown` can be what styling makes of `page`, piece by piece.
pub open spec fn is_rendering(page: Seq<Part>, shown: Seq<Seq<char>>) -> bool {
    &&& shown.len() == page.len()
    &&& forall|i: int| 0 <= i < page.len() ==> is_styled(#[trigger] page[i], shown[i])
}

/// The decimal digits, in order.
pub const DIGITS: &'static str = "0123456789";

/// The character for one decimal digit.
pub open spec fn digit(d: nat) -> char
    recommends
        d < 10,
{
    DIGITS@[d as int]
}

/// A number in decimal, without sign or leading zeros.
pub open spec fn decimal(n: nat) -> Seq<char>
    decreases n,
{
    if n < 10 {
        seq![digit(n)]
    } else {
        decimal(n / 10).push(digit(n % 10))
    }
}

/// The sign in front of a directory that is there.
pub const FOUND: &'static str = "\u{2713}";

/// The sign in front of a directory that is gone.
pub const LOST: &'static str = "\u{2718}";

/// The sign that says whether a directory is there.
pub open spec fn glyph_text(present: bool) -> Seq<char> {
    if present {
        seq!['\u{2713}']
    } else {
        seq!['\u{2718}']
    }
}

/// What one line of a listing says: the index in square brackets, a space,
/// the entry, and a line feed.
pub open spec fn list_line_text(index: nat, entry: Seq<char>) -> Seq<char> {
    seq!['['] + decimal(index) + seq![']', ' '] + entry + seq!['\n']
}

/// What one line of a status report says: the sign in square brackets, a
/// space, the path, and a line feed.
pub open spec fn status_line_text(present: bool, path: Seq<char>) -> Seq<char> {
    seq!['['] + glyph_text(present) + seq![']', ' '] + path + seq!['\n']
}

/// What a listing says: a line for each entry, numbered from one.
pub open spec fn list_text(marks: Seq<Seq<char>>) -> Seq<char>
    decreases marks.len(),
{
    if marks.len() == 0 {
        Seq::empty()
    } else {
        list_text(marks.drop_last()) + list_line_text(marks.len(), marks.last())
    }
}

/// What a status report says: a line for each mark, in order.
pub open spec fn status_text(marks: Seq<Seq<char>>, present: Seq<bool>) -> Seq<char>
    decreases marks.len(),
{
    if marks.len() == 0 {
        Seq::empty()
    } else {
        status_text(marks.drop_last(), present) + status_line_text(
            found(present, marks.len() - 1),
            marks.last(),
        )
    }
}

/// One line of a listing: the index in square brackets and a space as they
/// stand, then the entry with its line feed, underlined.
pub open spec fn list_row(index: nat, entry: Seq<char>) -> Seq<Part> {
    seq![
        Part { text: seq!['['] + decimal(index) + seq![']', ' '], look: Look::Plain },
        Part { text: entry.push('\n'), look: Look::Underlined },
    ]
}

/// A listing: one line for each entry, numbered from one.
pub open spec fn listing(marks: Seq<Seq<char>>) -> Seq<Part>
    decreases marks.len(),
{
    if marks.len() == 0 {
        Seq::empty()
    } else {
        listing(marks.drop_last()) + list_row(marks.len(), marks.last())
    }
}

/// One line of a status report. A directory that is there has a green sign
/// and its path underlined; one that is gone has a red sign and its path
/// dimmed and struck through. Brackets, space and line feed are as they
/// stand.
pub open spec fn status_row(present: bool, path: Seq<char>) -> Seq<Part> {
    seq![
        Part { text: seq!['['], look: Look::Plain },
        Part {
            text: glyph_text(present),
            look: if present {
                Look::Green
            } else {
                Look::Red
            },
        },
        Part { text: seq![']', ' '], look: Look::Plain },
        Part {
            text: path,
            look: if present {
                Look::Underlined
            } else {
                Look::DimmedStruck
            },
        },
        Part { text: seq!['\n'], look: Look::Plain },
    ]
}

/// Whether the directory of entry `i` was found, going by the answers in
/// `present`: an entry without an answer counts as gone.
pub open spec fn found(present: Seq<bool>, i: int) -> bool {
    0 <= i < present.len() && present[i]
}

/// A status report: one line for each mark, in order.
pub open spec fn status_report(marks: Seq<Seq<char>>, present: Seq<bool>) -> Seq<Part>
    decreases marks.len(),
{
    if marks.len() == 0 {
        Seq::empty()
    } else {
        status_report(marks.drop_last(), present) + status_row(
            found(present, marks.len() - 1),
            marks.last(),
        )
    }
}

/// A message for standard error: the message in red, and a line feed.
pub open spec fn complaint(message: Seq<char>) -> Seq<Part> {
    seq![Part { text: message, look: Look::Red }, Part { text: seq!['\n'], look: Look::Plain }]
}

/// A message for standard error behind a label: the label in bold red,
/// then a space, the message and a line feed as they stand.
pub open spec fn labelled_complaint(label: Seq<char>, message: Seq<char>) -> Seq<Part> {
    seq![
        Part { text: label, look: Look::BoldRed },
        Part { text: seq![' '] + message.push('\n'), look: Look::Plain },
    ]
}

fn digit_char(d: usize) -> (c: char)
    requires
        d < 10,
    ensures
        c == digit(d as nat),
{
    proof {
        reveal_strlit("0123456789");
    }
    DIGITS.get_char(d)
}

fn push_decimal(text: &mut String, n: usize)
    ensures
        final(text)@ == old(text)@ + decimal(n as nat),
    decreases n,
{
    if n >= 10 {
        push_decimal(text, n / 10);
    }
    text.push(digit_char(n % 10));
    assert(final(text)@ =~= old(text)@ + decimal(n as nat));
}

/// Writes a number in decimal.
pub fn to_decimal(n: usize) -> (text: String)
    ensures
        text@ == decimal(n as nat),
{
    let mut text = String::new();
    push_decimal(&mut text, n);
    assert(text@ =~= decimal(n as nat));
    text
}

/// The sign that says whether a directory is there.
pub fn glyph(present: bool) -> (sign: &'static str)
    ensures
        sign@ == glyph_text(present),
{
    proof {
        reveal_strlit("\u{2713}");
        reveal_strlit("\u{2718}");
    }
    if present {
        assert(FOUND@ =~= glyph_text(true));
        FOUND
    } else {
        assert(LOST@ =~= glyph_text(false));
        LOST
    }
}

/// A piece that holds one character, as it stands.
fn plain_char(c: char) -> (piece: Piece)
    ensures
        piece@ == (Part { text: seq![c], look: Look::Plain }),
{
    let mut text = String::new();
    text.push(c);
    assert(text@ =~= seq![c]);
    Piece { text, look: Look::Plain }
}

/// Adds one line of a listing to `page`.
pub fn push_list_row(page: &mut Vec<Piece>, index: usize, entry: &str)
    ensures
        parts(final(page)@) == parts(old(page)@) + list_row(index as nat, entry@),
{
    let mut head = String::new();
    head.push('[');
    push_decimal(&mut head, index);
    head.push(']');
    head.push(' ');
    let mut body = entry.to_owned();
    body.push('\n');
    page.push(Piece { text: head, look: Look::Plain });
    page.push(Piece { text: body, look: Look::Underlined });
    proof {
        assert(head@ =~= seq!['['] + decimal(index as nat) + seq![']', ' ']);
        assert(parts(page@) =~= parts(old(page)@) + list_row(index as nat, entry@));
    }
}

/// Adds one line of a status report to `page`.
pub fn push_status_row(page: &mut Vec<Piece>, present: bool, path: &str)
    ensures
        parts(final(page)@) == parts(old(page)@) + status_row(present, path@),
{
    let mut gap = String::new();
    gap.push(']');
    gap.push(' ');
    page.push(plain_char('['));
    page.push(
        Piece {
            text: glyph(present).to_owned(),
            look: if present {
                Look::Green
            } else {
                Look::Red
            },
        },
    );
    page.push(Piece { text: gap, look: Look::Plain });
    page.push(
        Piece {
            text: path.to_owned(),
            look: if present {
                Look::Underlined
            } else {
                Look::DimmedStruck
            },
        },
    );
    page.push(plain_char('\n'));
    proof {
        assert(gap@ =~= seq![']', ' ']);
        assert(parts(page@) =~= parts(old(page)@) + status_row(present, path@));
    }
}

/// A message for standard error, in red, as a line.
pub fn complain(message: &str) -> (page: Vec<Piece>)
    ensures
        parts(page@) == complaint(message@),
{
    let mut page: Vec<Piece> = Vec::new();
    page.push(Piece { text: message.to_owned(), look: Look::Red });
    page.push(plain_char('\n'));
    assert(parts(page@) =~= complaint(message@));
    page
}

/// A message for standard error behind a label in bold red, as a line.
pub fn complain_labelled(label: &str, message: &str) -> (page: Vec<Piece>)
    ensures
        parts(page@) == labelled_complaint(label@, message@),
{
    let mut rest = String::new();
    rest.push(' ');
    rest.append(message);
    rest.push('\n');
    let mut page: Vec<Piece> = Vec::new();
    page.push(Piece { text: label.to_owned(), look: Look::BoldRed });
    page.push(Piece { text: rest, look: Look::Plain });
    proof {
        assert(rest@ =~= seq![' '] + message@.push('\n'));
        assert(parts(page@) =~= labelled_complaint(label@, message@));
    }
    page
}

/// Puts texts one behind the other.
pub fn paste(pieces: &Vec<String>) -> (text: String)
    ensures
        text@ == pasted(texts(pieces@)),
{
    let ghost all = texts(pieces@);
    let mut text = String::new();
    let mut i: usize = 0;
    proof {
        assert(all.take(0) =~= Seq::<Seq<char>>::empty());
    }
    while i < pieces.len()
        invariant
            i <= pieces.len(),
            all == texts(pieces@),
            text@ == pasted(all.take(i as int)),
        decreases pieces.len() - i,
    {
        proof {
            assert(all.take(i as int + 1).drop_last() =~= all.take(i as int));
        }
        text.append(pieces[i].as_str());
        i += 1;
    }
    proof {
        assert(all.take(pieces.len() as int) =~= all);
    }
    text
}

/// What the pieces say, whatever they look like.
pub fn plain(page: &Vec<Piece>) -> (text: String)
    ensures
        text@ == plain_text(parts(page@)),
{
    let ghost all = part_texts(parts(page@));
    let mut text = String::new();
    let mut i: usize = 0;
    proof {
        assert(all.take(0) =~= Seq::<Seq<char>>::empty());
    }
    while i < page.len()
        invariant
            i <= page.len(),
            all == part_texts(parts(page@)),
            text@ == pasted(all.take(i as int)),
        decreases page.len() - i,
    {
        proof {
            assert(all.take(i as int + 1).drop_last() =~= all.take(i as int));
        }
        text.append(page[i].text.as_str());
        i += 1;
    }
    proof {
        assert(all.take(page.len() as int) =~= all);
    }
    text
}

/// One piece, styled for the terminal: a plain piece as it stands, any
/// other as the `colored` crate writes it out, which keeps a text without
/// an escape character in one piece.
pub fn styled_piece(piece: &Piece) -> (shown: String)
    ensures
        is_styled(piece@, shown@),
{
    let text = piece.text.as_str();
    match piece.look {
        Look::Plain => {
            let shown = piece.text.clone();
            proof {
                let none = Seq::<char>::empty();
                assert(shown@ =~= none + piece.text@ + none);
            }
            shown
        },
        Look::Green => in_green(text),
        Look::Red => in_red(text),
        Look::Underlined => underlined(text),
        Look::DimmedStruck => dimmed_struck(text),
        Look::BoldRed => in_bold_red(text),
    }
}

/// The pieces as text, styled for the terminal: each piece as styling
/// shows it, one behind the other.
pub fn styled(page: &Vec<Piece>) -> (text: String)
    ensures
        exists|shown: Seq<Seq<char>>| is_rendering(parts(page@), shown) && text@ == pasted(shown),
{
    let mut shown: Vec<String> = Vec::new();
    let mut i: usize = 0;
    while i < page.len()
        invariant
            i <= page.len(),
            shown.len() == i,
            forall|k: int| 0 <= k < i ==> is_styled((#[trigger] page[k])@, shown[k]@),
        decreases page.len() - i,
    {
        shown.push(styled_piece(&page[i]));
        i += 1;
    }
    proof {
        assert(is_rendering(parts(page@), texts(shown@)));
    }
    paste(&shown)
}

/// One more text is pasted behind the others.
proof fn lemma_pasted_push(pieces: Seq<Seq<char>>, last: Seq<char>)
    ensures
        pasted(pieces.push(last)) == pasted(pieces) + last,
{
    assert(pieces.push(last).drop_last() =~= pieces);
}

/// A line of a listing says what a listing is to say.
pub proof fn lemma_list_row_text(index: nat, entry: Seq<char>)
    ensures
        plain_text(list_row(index, entry)) == list_line_text(index, entry),
{
    let row = list_row(index, entry);
    let none = Seq::<Seq<char>>::empty();
    lemma_pasted_push(none, row[0].text);
    lemma_pasted_push(none.push(row[0].text), row[1].text);
    assert(part_texts(row) =~= none.push(row[0].text).push(row[1].text));
    assert(plain_text(row) =~= list_line_text(index, entry));
}

/// A line of a status report says what a status report is to say.
pub proof fn lemma_status_row_text(present: bool, path: Seq<char>)
    ensures
        plain_text(status_row(present, path)) == status_line_text(present, path),
{
    let row = status_row(present, path);
    let t0 = Seq::<Seq<char>>::empty();
    let t1 = t0.push(row[0].text);
    let t2 = t1.push(row[1].text);
    let t3 = t2.push(row[2].text);
    let t4 = t3.push(row[3].text);
    let t5 = t4.push(row[4].text);
    lemma_pasted_push(t0, row[0].text);
    lemma_pasted_push(t1, row[1].text);
    lemma_pasted_push(t2, row[2].text);
    lemma_pasted_push(t3, row[3].text);
    lemma_pasted_push(t4, row[4].text);
    assert(part_texts(row) =~= t5);
    assert(plain_text(row) =~= status_line_text(present, path));
}

/// Pieces put behind other pieces say what the first say, then what the
/// second say.
pub proof fn lemma_plain_text_add(first: Seq<Part>, second: Seq<Part>)
    ensures
        plain_text(first + second) == plain_text(first) + plain_text(second),
    decreases second.len(),
{
    if second.len() == 0 {
        assert(first + second =~= first);
        assert(plain_text(first) + plain_text(second) =~= plain_text(first));
    } else {
        let shorter = second.drop_last();
        lemma_plain_text_add(first, shorter);
        assert(part_texts(first + second).drop_last() =~= part_texts(first + shorter));
        assert(part_texts(second).drop_last() =~= part_texts(shorter));
        assert(plain_text(first + second) =~= plain_text(first) + plain_text(second));
    }
}

/// A listing says, for each entry, its index in square brackets, a space,
/// the entry, and a line feed.
pub proof fn law_listing_text(marks: Seq<Seq<char>>)
    ensures
        plain_text(listing(marks)) == list_text(marks),
    decreases marks.len(),
{
    if marks.len() == 0 {
        assert(part_texts(listing(marks)) =~= Seq::<Seq<char>>::empty());
    } else {
        law_listing_text(marks.drop_last());
        lemma_list_row_text(marks.len(), marks.last());
        lemma_plain_text_add(listing(marks.drop_last()), list_row(marks.len(), marks.last()));
    }
}

/// A status report says, for each mark, its sign in square brackets, a
/// space, the path, and a line feed.
pub proof fn law_status_report_text(marks: Seq<Seq<char>>, present: Seq<bool>)
    ensures
        plain_text(status_report(marks, present)) == status_text(marks, present),
    decreases marks.len(),
{
    if marks.len() == 0 {
        assert(part_texts(status_report(marks, present)) =~= Seq::<Seq<char>>::empty());
    } else {
        let there = found(present, marks.len() - 1);
        law_status_report_text(marks.drop_last(), present);
        lemma_status_row_text(there, marks.last());
        lemma_plain_text_add(
            status_report(marks.drop_last(), present),
            status_row(there, marks.last()),
        );
    }
}

/// Where styling leaves every piece as it stands, the styled text is what
/// the pieces say.
pub proof fn law_unstyled_is_plain(page: Seq<Part>, shown: Seq<Seq<char>>)
    requires
        is_rendering(page, shown),
        forall|i: int| 0 <= i < page.len() ==> shown[i] == (#[trigger] page[i]).text,
    ensures
        pasted(shown) == plain_text(page),
{
    assert(shown =~= part_texts(page));
}

/// Texts pasted behind other texts come after what the first come to.
proof fn lemma_pasted_add(first: Seq<Seq<char>>, second: Seq<Seq<char>>)
    ensures
        pasted(first + second) == pasted(first) + pasted(second),
    decreases second.len(),
{
    if second.len() == 0 {
        assert(first + second =~= first);
        assert(pasted(first) + pasted(second) =~= pasted(first));
    } else {
        lemma_pasted_add(first, second.drop_last());
        assert((first + second).drop_last() =~= first + second.drop_last());
        assert(pasted(first + second) =~= pasted(first) + pasted(second));
    }
}

/// Whatever styling puts around the pieces, the styled text holds, in one
/// piece, the text of every piece that holds no escape character: a listing
/// holds each entry, and a status report each sign and each path.
pub proof fn law_styled_holds_every_piece(page: Seq<Part>, shown: Seq<Seq<char>>, i: int)
    requires
        is_rendering(page, shown),
        0 <= i < page.len(),
        is_inert(page[i].text),
    ensures
        frames(pasted(shown), page[i].text),
{
    let text = page[i].text;
    let head = shown.take(i);
    let tail = shown.skip(i + 1);
    assert(is_styled(page[i], shown[i]));
    let (before, after) = choose|before: Seq<char>, after: Seq<char>|
        shown[i] == before + text + after;
    assert(shown =~= head.push(shown[i]) + tail);
    lemma_pasted_add(head.push(shown[i]), tail);
    lemma_pasted_push(head, shown[i]);
    assert(pasted(shown) =~= (pasted(head) + before) + text + (after + pasted(tail)));
}

} // verus!
