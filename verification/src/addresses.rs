//! Destination addresses as a text lists them: one address on each line,
//! blank lines between them left out.

use crate::text::{free_of, lemma_split_pieces_free, split, split_text, views};
use vstd::prelude::*;
use vstd::string::*;

verus! {

/// Ends a line of the text.
pub const LINE_FEED: char = '\n';

/// May stand before a line feed without being part of the line.
pub const CARRIAGE_RETURN: char = '\r';

/// The characters that Unicode gives the property `White_Space`.
pub open spec fn is_space(c: char) -> bool {
    ||| '\u{9}' <= c <= '\u{D}'
    ||| c == ' '
    ||| c == '\u{85}'
    ||| c == '\u{A0}'
    ||| c == '\u{1680}'
    ||| '\u{2000}' <= c <= '\u{200A}'
    ||| c == '\u{2028}'
    ||| c == '\u{2029}'
    ||| c == '\u{202F}'
    ||| c == '\u{205F}'
    ||| c == '\u{3000}'
}

/// Whether `c` is white space.
pub fn is_whitespace(c: char) -> (space: bool)
    ensures
        space == is_space(c),
{
    ('\u{9}' <= c && c <= '\u{D}') || c == ' ' || c == '\u{85}' || c == '\u{A0}' || c
        == '\u{1680}' || ('\u{2000}' <= c && c <= '\u{200A}') || c == '\u{2028}' || c
        == '\u{2029}' || c == '\u{202F}' || c == '\u{205F}' || c == '\u{3000}'
}

/// A line is blank when it holds nothing but white space.
pub open spec fn is_blank(line: Seq<char>) -> bool {
    forall|i: int| 0 <= i < line.len() ==> is_space(#[trigger] line[i])
}

/// Whether `line` holds nothing but white space.
pub fn is_blank_text(line: &str) -> (blank: bool)
    ensures
        blank == is_blank(line@),
{
    let mut blank = true;
    let ghost mut witness: int = 0;
    for c in it: line.chars()
        invariant
            it.seq() == line@,
            blank ==> is_blank(line@.take(it.index() as int)),
            !blank ==> 0 <= witness < it.index() && !is_space(line@[witness]),
    {
        if !is_whitespace(c) {
            blank = false;
            proof {
                witness = it.index() as int;
            }
        }
    }
    assert(line@.take(line@.len() as int) == line@);
    blank
}

/// The line without the carriage return at its end, if it has one.
pub open spec fn without_carriage_return(line: Seq<char>) -> Seq<char> {
    if line.len() > 0 && line.last() == CARRIAGE_RETURN {
        line.drop_last()
    } else {
        line
    }
}

/// The addresses among the given lines: each line that is not blank,
/// without the carriage return at its end, in the order of the lines.
pub open spec fn addresses_among(lines: Seq<Seq<char>>) -> Seq<Seq<char>>
    decreases lines.len(),
{
    if lines.len() == 0 {
        Seq::empty()
    } else {
        let before = addresses_among(lines.drop_last());
        if is_blank(lines.last()) {
            before
        } else {
            before.push(without_carriage_return(lines.last()))
        }
    }
}

/// The addresses that a text lists. Its lines are the pieces between line feeds.
pub open spec fn addresses_of(content: Seq<char>) -> Seq<Seq<char>> {
    addresses_among(split(content, LINE_FEED))
}

/// The lines that are blank.
pub open spec fn blank_lines(lines: Seq<Seq<char>>) -> Seq<Seq<char>> {
    lines.filter(|line: Seq<char>| is_blank(line))
}

/// Every line is either blank or gives an address: none is counted twice
/// and none is dropped.
pub proof fn lemma_every_line_accounted(lines: Seq<Seq<char>>)
    ensures
        addresses_among(lines).len() + blank_lines(lines).len() == lines.len(),
    decreases lines.len(),
{
    reveal(Seq::filter);
    if lines.len() > 0 {
        lemma_every_line_accounted(lines.drop_last());
    }
}

/// No address is blank, and none holds a line feed.
pub proof fn lemma_addresses_not_blank(content: Seq<char>)
    ensures
        forall|k: int|
            0 <= k < addresses_of(content).len() ==> !is_blank(#[trigger] addresses_of(content)[k])
                && free_of(addresses_of(content)[k], LINE_FEED),
{
    let lines = split(content, LINE_FEED);
    lemma_split_pieces_free(content, LINE_FEED);
    lemma_addresses_among(lines);
}

proof fn lemma_addresses_among(lines: Seq<Seq<char>>)
    requires
        forall|k: int| 0 <= k < lines.len() ==> free_of(#[trigger] lines[k], LINE_FEED),
    ensures
        forall|k: int|
            0 <= k < addresses_among(lines).len() ==> !is_blank(#[trigger] addresses_among(lines)[k])
                && free_of(addresses_among(lines)[k], LINE_FEED),
    decreases lines.len(),
{
    if lines.len() > 0 {
        let shorter = lines.drop_last();
        let before = addresses_among(shorter);
        assert(forall|k: int| 0 <= k < shorter.len() ==> shorter[k] == lines[k]);
        lemma_addresses_among(shorter);
        let line = lines.last();
        let address = without_carriage_return(line);
        assert forall|k: int| 0 <= k < addresses_among(lines).len() implies !is_blank(
            #[trigger] addresses_among(lines)[k],
        ) && free_of(addresses_among(lines)[k], LINE_FEED) by {
            if k < before.len() {
                assert(addresses_among(lines)[k] == before[k]);
            } else {
                assert(addresses_among(lines)[k] == address);
                assert(free_of(line, LINE_FEED));
                let i = choose|i: int| 0 <= i < line.len() && !is_space(#[trigger] line[i]);
                assert(address[i] == line[i]);
            }
        }
    }
}

/// Reads the destination addresses from a text with one address on each
/// line. Blank lines are left out; a carriage return at the end of a line
/// is not part of the address.
pub fn destination_addresses(content: &str) -> (addresses: Vec<String>)
    ensures
        views(addresses@) == addresses_of(content@),
{
    let lines = split_text(content, LINE_FEED);
    let mut addresses: Vec<String> = Vec::new();
    let mut i: usize = 0;
    while i < lines.len()
        invariant
            i <= lines.len(),
            views(lines@) == split(content@, LINE_FEED),
            views(addresses@) == addresses_among(views(lines@).take(i as int)),
        decreases lines.len() - i,
    {
        proof {
            let all = views(lines@);
            assert(all.take(i + 1).drop_last() == all.take(i as int));
            assert(all.take(i + 1).last() == lines[i as int]@);
        }
        let line = lines[i].as_str();
        if !is_blank_text(line) {
            let length = line.unicode_len();
            let address = if length > 0 && line.get_char(length - 1) == CARRIAGE_RETURN {
                line.substring_char(0, length - 1)
            } else {
                line
            };
            let owned = address.to_owned();
            assert(views(addresses@.push(owned)) == views(addresses@).push(owned@));
            addresses.push(owned);
        }
        i += 1;
    }
    assert(views(lines@).take(i as int) == views(lines@));
    addresses
}

} // verus!
