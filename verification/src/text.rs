//! Text as sequences of Unicode scalar values: comparison, search and splitting.

use vstd::prelude::*;
use vstd::string::*;
use vstd::utf8::*;

verus! {

/// `needle` occurs in `hay` as a contiguous run of characters starting at `at`.
pub open spec fn occurs_at(hay: Seq<char>, needle: Seq<char>, at: int) -> bool {
    &&& 0 <= at
    &&& at + needle.len() <= hay.len()
    &&& hay.subrange(at, at + needle.len()) == needle
}

/// `needle` occurs somewhere in `hay`. The empty sequence occurs in every sequence.
pub open spec fn is_substring(hay: Seq<char>, needle: Seq<char>) -> bool {
    exists|at: int| occurs_at(hay, needle, at)
}

/// `at` is the leftmost place where `needle` occurs in `hay`.
pub open spec fn is_first_occurrence(hay: Seq<char>, needle: Seq<char>, at: int) -> bool {
    &&& occurs_at(hay, needle, at)
    &&& forall|k: int| 0 <= k < at ==> !occurs_at(hay, needle, k)
}

/// The leftmost place where `needle` occurs in `hay` (meaningful when it occurs at all).
pub open spec fn first_occurrence(hay: Seq<char>, needle: Seq<char>) -> int {
    choose|at: int| is_first_occurrence(hay, needle, at)
}

/// The pieces of `hay` between the successive, non-overlapping occurrences of `sep`,
/// found from left to right. Empty pieces are kept, so a text that `sep` does not
/// occur in, or an empty `sep`, gives the one piece `hay`.
pub open spec fn split_on(hay: Seq<char>, sep: Seq<char>) -> Seq<Seq<char>>
    decreases hay.len(),
    via split_on_terminates
{
    if sep.len() == 0 || !is_substring(hay, sep) {
        seq![hay]
    } else {
        let at = first_occurrence(hay, sep);
        seq![hay.subrange(0, at)] + split_on(hay.subrange(at + sep.len(), hay.len() as int), sep)
    }
}

/// What follows the first separator is shorter than the text.
#[via_fn]
proof fn split_on_terminates(hay: Seq<char>, sep: Seq<char>) {
    if sep.len() > 0 && is_substring(hay, sep) {
        let at = choose|at: int| occurs_at(hay, sep, at);
        lemma_leftmost_exists(hay, sep, at);
    }
}

/// Among the places where `needle` occurs there is a leftmost one.
pub proof fn lemma_leftmost_exists(hay: Seq<char>, needle: Seq<char>, at: int)
    requires
        occurs_at(hay, needle, at),
    ensures
        is_first_occurrence(hay, needle, first_occurrence(hay, needle)),
        first_occurrence(hay, needle) <= at,
    decreases at,
{
    if exists|k: int| 0 <= k < at && occurs_at(hay, needle, k) {
        let k = choose|k: int| 0 <= k < at && occurs_at(hay, needle, k);
        lemma_leftmost_exists(hay, needle, k);
    } else {
        assert(is_first_occurrence(hay, needle, at));
        let f = first_occurrence(hay, needle);
        assert(is_first_occurrence(hay, needle, f));
        if f > at {
            assert(!occurs_at(hay, needle, at));
        }
    }
}

/// The leftmost occurrence is the only place that is one.
pub proof fn lemma_first_occurrence_unique(hay: Seq<char>, needle: Seq<char>, at: int)
    requires
        is_first_occurrence(hay, needle, at),
    ensures
        first_occurrence(hay, needle) == at,
{
    lemma_leftmost_exists(hay, needle, at);
    let f = first_occurrence(hay, needle);
    if f < at {
        assert(!occurs_at(hay, needle, f));
    }
}

/// Whether two strings hold the same characters.
pub fn text_eq(a: &str, b: &str) -> (same: bool)
    ensures
        same == (a@ == b@),
{
    let x = a.as_bytes();
    let y = b.as_bytes();
    if x.len() != y.len() {
        return false;
    }
    let mut i: usize = 0;
    while i < x.len()
        invariant
            i <= x.len(),
            x.len() == y.len(),
            x@ == a.spec_bytes(),
            y@ == b.spec_bytes(),
            forall|k: int| 0 <= k < i ==> x@[k] == y@[k],
        decreases x.len() - i,
    {
        if x[i] != y[i] {
            return false;
        }
        i += 1;
    }
    proof {
        assert(x@ =~= y@);
        encode_utf8_decode_utf8(a@);
        encode_utf8_decode_utf8(b@);
    }
    true
}

/// The characters of a string, in order.
pub fn to_chars(s: &str) -> (chars: Vec<char>)
    ensures
        chars@ == s@,
{
    let mut chars: Vec<char> = Vec::new();
    for c in it: s.chars()
        invariant
            chars@ == it.seq().take(it.index() as int),
    {
        chars.push(c);
    }
    chars
}

/// Whether `needle` occurs in `hay` at position `at`.
pub fn matches_at(hay: &Vec<char>, needle: &Vec<char>, at: usize) -> (found: bool)
    ensures
        found == occurs_at(hay@, needle@, at as int),
{
    if needle.len() > hay.len() || at > hay.len() - needle.len() {
        return false;
    }
    let mut i: usize = 0;
    while i < needle.len()
        invariant
            i <= needle.len(),
            at + needle.len() <= hay.len(),
            forall|k: int| 0 <= k < i ==> hay@[at + k] == needle@[k],
        decreases needle.len() - i,
    {
        if hay[at + i] != needle[i] {
            proof {
                let window = hay@.subrange(at as int, at + needle@.len());
                assert(window[i as int] == hay@[at + i]);
            }
            return false;
        }
        i += 1;
    }
    assert(hay@.subrange(at as int, at + needle@.len()) =~= needle@);
    true
}

/// The leftmost place at or after `from` where `needle` occurs in `hay`.
pub fn find_from(hay: &Vec<char>, needle: &Vec<char>, from: usize) -> (place: Option<usize>)
    ensures
        match place {
            Some(at) => {
                &&& from <= at
                &&& occurs_at(hay@, needle@, at as int)
                &&& forall|k: int| from <= k < at ==> !occurs_at(hay@, needle@, k)
            },
            None => forall|k: int| from <= k ==> !occurs_at(hay@, needle@, k),
        },
{
    if needle.len() > hay.len() {
        return None;
    }
    let last: usize = hay.len() - needle.len();
    let mut at: usize = from;
    while at <= last
        invariant
            from <= at,
            last == hay.len() - needle.len(),
            forall|k: int| from <= k < at ==> !occurs_at(hay@, needle@, k),
        decreases last + 1 - at,
    {
        if matches_at(hay, needle, at) {
            return Some(at);
        }
        if at == last {
            return None;
        }
        at += 1;
    }
    None
}

/// Whether `needle` occurs in `hay`.
pub fn text_contains(hay: &str, needle: &str) -> (found: bool)
    ensures
        found == is_substring(hay@, needle@),
{
    let h = to_chars(hay);
    let n = to_chars(needle);
    find_from(&h, &n, 0).is_some()
}

/// An occurrence in the rest of a text is an occurrence in the text, further right.
pub proof fn lemma_occurs_in_rest(hay: Seq<char>, needle: Seq<char>, from: int, at: int)
    requires
        0 <= from <= hay.len(),
        0 <= at,
    ensures
        occurs_at(hay.skip(from), needle, at) == occurs_at(hay, needle, from + at),
{
    let rest = hay.skip(from);
    if at + needle.len() <= rest.len() {
        assert(rest.subrange(at, at + needle.len()) =~= hay.subrange(
            from + at,
            from + at + needle.len(),
        ));
    }
}

/// The pieces of a text whose first separator stands at `at`.
pub proof fn lemma_split_at_first(hay: Seq<char>, sep: Seq<char>, at: int)
    requires
        sep.len() > 0,
        is_first_occurrence(hay, sep, at),
    ensures
        split_on(hay, sep) == seq![hay.subrange(0, at)] + split_on(hay.skip(at + sep.len()), sep),
{
    lemma_first_occurrence_unique(hay, sep, at);
    assert(is_substring(hay, sep));
    assert(hay.skip(at + sep.len()) =~= hay.subrange(at + sep.len(), hay.len() as int));
}

/// A text without the separator is one piece.
pub proof fn lemma_split_without(hay: Seq<char>, sep: Seq<char>)
    requires
        !is_substring(hay, sep),
    ensures
        split_on(hay, sep) == seq![hay],
{
}

/// The code points with the Unicode property White_Space.
pub open spec fn is_white_space(c: char) -> bool {
    let code = c as u32;
    ||| 0x09 <= code <= 0x0d
    ||| code == 0x20
    ||| code == 0x85
    ||| code == 0xa0
    ||| code == 0x1680
    ||| 0x2000 <= code <= 0x200a
    ||| code == 0x2028
    ||| code == 0x2029
    ||| code == 0x202f
    ||| code == 0x205f
    ||| code == 0x3000
}

/// A text without the white space at its start.
pub open spec fn trimmed_start(text: Seq<char>) -> Seq<char>
    decreases text.len(),
{
    if text.len() > 0 && is_white_space(text[0]) {
        trimmed_start(text.skip(1))
    } else {
        text
    }
}

/// A text without the white space at its end.
pub open spec fn trimmed_end(text: Seq<char>) -> Seq<char>
    decreases text.len(),
{
    if text.len() > 0 && is_white_space(text.last()) {
        trimmed_end(text.drop_last())
    } else {
        text
    }
}

/// A text without the white space at its start and at its end.
pub open spec fn trimmed(text: Seq<char>) -> Seq<char> {
    trimmed_end(trimmed_start(text))
}

/// Whether a character has the Unicode property White_Space.
pub fn char_is_white_space(c: char) -> (white: bool)
    ensures
        white == is_white_space(c),
{
    let code = c as u32;
    (0x09 <= code && code <= 0x0d) || code == 0x20 || code == 0x85 || code == 0xa0 || code
        == 0x1680 || (0x2000 <= code && code <= 0x200a) || code == 0x2028 || code == 0x2029
        || code == 0x202f || code == 0x205f || code == 0x3000
}

/// The text without the white space at its start and at its end.
pub fn trim_text(text: &str) -> (inner: String)
    ensures
        inner@ == trimmed(text@),
{
    let chars = to_chars(text);
    let mut start: usize = 0;
    assert(chars@.skip(0) =~= chars@);
    while start < chars.len() && char_is_white_space(chars[start])
        invariant
            start <= chars.len(),
            trimmed_start(chars@) == trimmed_start(chars@.skip(start as int)),
        decreases chars.len() - start,
    {
        proof {
            let rest = chars@.skip(start as int);
            assert(rest[0] == chars@[start as int]);
            assert(rest.skip(1) =~= chars@.skip(start + 1));
        }
        start += 1;
    }
    proof {
        let rest = chars@.skip(start as int);
        if start < chars.len() {
            assert(rest[0] == chars@[start as int]);
        }
        assert(trimmed_start(chars@) == rest);
    }
    let mut end: usize = chars.len();
    while end > start && char_is_white_space(chars[end - 1])
        invariant
            start <= end <= chars.len(),
            trimmed(chars@) == trimmed_end(chars@.subrange(start as int, end as int)),
        decreases end - start,
    {
        proof {
            let part = chars@.subrange(start as int, end as int);
            assert(part.last() == chars@[end - 1]);
            assert(part.drop_last() =~= chars@.subrange(start as int, end - 1));
        }
        end -= 1;
    }
    proof {
        let part = chars@.subrange(start as int, end as int);
        if end > start {
            assert(part.last() == chars@[end - 1]);
        }
        assert(trimmed(chars@) == part);
    }
    text.substring_char(start, end).to_owned()
}

/// The pieces of `hay` between the occurrences of `sep`.
pub fn split_text(hay: &str, sep: &str) -> (pieces: Vec<String>)
    ensures
        pieces.deep_view() == split_on(hay@, sep@),
{
    let mut pieces: Vec<String> = Vec::new();
    let h = to_chars(hay);
    let p = to_chars(sep);
    if p.len() == 0 {
        pieces.push(hay.to_owned());
        assert(pieces.deep_view() =~= seq![hay@]);
        return pieces;
    }
    let mut start: usize = 0;
    assert(h@.skip(0) =~= h@);
    assert(pieces.deep_view() + split_on(h@, p@) =~= split_on(h@, p@));
    loop
        invariant
            start <= h.len(),
            h@ == hay@,
            p@ == sep@,
            p.len() > 0,
            pieces.deep_view() + split_on(h@.skip(start as int), p@) == split_on(h@, p@),
        decreases h.len() - start,
    {
        let ghost done = pieces.deep_view();
        let ghost rest = h@.skip(start as int);
        match find_from(&h, &p, start) {
            Some(at) => {
                let piece = hay.substring_char(start, at).to_owned();
                proof {
                    assert forall|k: int| 0 <= k < at - start implies !occurs_at(rest, p@, k) by {
                        lemma_occurs_in_rest(h@, p@, start as int, k);
                    }
                    lemma_occurs_in_rest(h@, p@, start as int, at - start);
                    lemma_split_at_first(rest, p@, at - start);
                    assert(rest.subrange(0, at - start) =~= h@.subrange(start as int, at as int));
                    assert(rest.skip(at - start + p@.len()) =~= h@.skip(at + p@.len()));
                }
                pieces.push(piece);
                proof {
                    assert(pieces.deep_view() =~= done.push(piece@));
                    assert(done.push(piece@) + split_on(h@.skip(at + p@.len()), p@) =~= done + (
                    seq![piece@] + split_on(h@.skip(at + p@.len()), p@)));
                }
                start = at + p.len();
            },
            None => {
                let piece = hay.substring_char(start, h.len()).to_owned();
                proof {
                    assert forall|k: int| !occurs_at(rest, p@, k) by {
                        if 0 <= k {
                            lemma_occurs_in_rest(h@, p@, start as int, k);
                        }
                    }
                    lemma_split_without(rest, p@);
                    assert(rest =~= h@.subrange(start as int, h@.len() as int));
                }
                pieces.push(piece);
                assert(pieces.deep_view() =~= done + seq![piece@]);
                return pieces;
            },
        }
    }
}

/// The pieces one after the other, with `sep` between each two.
pub open spec fn join_with(pieces: Seq<Seq<char>>, sep: Seq<char>) -> Seq<char>
    decreases pieces.len(),
{
    if pieces.len() == 0 {
        Seq::empty()
    } else if pieces.len() == 1 {
        pieces[0]
    } else {
        join_with(pieces.drop_last(), sep) + sep + pieces.last()
    }
}

/// The text with `to` in place of each occurrence of `from`, found from left to right.
pub open spec fn replaced(text: Seq<char>, from: Seq<char>, to: Seq<char>) -> Seq<char> {
    join_with(split_on(text, from), to)
}

/// A text without the carriage return at its end, if it has one.
pub open spec fn without_carriage_return(text: Seq<char>) -> Seq<char> {
    if text.len() > 0 && text.last() == '\r' {
        text.drop_last()
    } else {
        text
    }
}

/// The lines of a text. A line ends with a line feed, or with a carriage return and a
/// line feed; neither belongs to the line. What follows the last line feed is a line
/// too, unless it is empty.
pub open spec fn text_lines(text: Seq<char>) -> Seq<Seq<char>> {
    let pieces = split_on(text, "\n"@);
    let ended = Seq::new(
        (pieces.len() - 1) as nat,
        |i: int| without_carriage_return(pieces[i]),
    );
    if pieces.last().len() == 0 {
        ended
    } else {
        ended.push(pieces.last())
    }
}

/// A text is split into at least one piece.
pub proof fn lemma_split_nonempty(hay: Seq<char>, sep: Seq<char>)
    ensures
        split_on(hay, sep).len() >= 1,
    decreases hay.len(),
{
    if sep.len() > 0 && is_substring(hay, sep) {
        let at = choose|at: int| occurs_at(hay, sep, at);
        lemma_leftmost_exists(hay, sep, at);
        let first = first_occurrence(hay, sep);
        lemma_split_nonempty(hay.subrange(first + sep.len(), hay.len() as int), sep);
    }
}

/// The pieces one after the other, with `sep` between each two.
pub fn join_texts(pieces: &Vec<String>, sep: &str) -> (joined: String)
    ensures
        joined@ == join_with(pieces.deep_view(), sep@),
{
    let mut joined = String::new();
    let ghost all = pieces.deep_view();
    let mut i: usize = 0;
    while i < pieces.len()
        invariant
            i <= pieces.len(),
            all == pieces.deep_view(),
            joined@ == join_with(all.take(i as int), sep@),
        decreases pieces.len() - i,
    {
        let ghost before = joined@;
        if i > 0 {
            joined.append(sep);
        }
        joined.append(pieces[i].as_str());
        proof {
            let now = all.take(i + 1);
            assert(now.drop_last() =~= all.take(i as int));
            assert(now.last() == pieces[i as int]@);
            if i == 0 {
                assert(now.len() == 1);
                assert(joined@ =~= now[0]);
            } else {
                assert(now.len() > 1);
            }
        }
        i += 1;
    }
    assert(all.take(pieces.len() as int) =~= all);
    joined
}

/// The text with `to` in place of each occurrence of `from`.
pub fn replace_text(text: &str, from: &str, to: &str) -> (changed: String)
    ensures
        changed@ == replaced(text@, from@, to@),
{
    let pieces = split_text(text, from);
    join_texts(&pieces, to)
}

/// The lines of a text.
pub fn lines_of(text: &str) -> (lines: Vec<String>)
    ensures
        lines.deep_view() == text_lines(text@),
{
    let pieces = split_text(text, "\n");
    proof {
        lemma_split_nonempty(text@, "\n"@);
    }
    let mut lines: Vec<String> = Vec::new();
    let ghost all = pieces.deep_view();
    let count = pieces.len() - 1;
    let mut i: usize = 0;
    while i < count
        invariant
            i <= count,
            count == pieces.len() - 1,
            all == pieces.deep_view(),
            lines.len() == i,
            forall|k: int| 0 <= k < i ==> lines.deep_view()[k] == without_carriage_return(all[k]),
        decreases count - i,
    {
        let piece = pieces[i].as_str();
        let chars = to_chars(piece);
        let ghost before = lines.deep_view();
        let line = if chars.len() > 0 && chars[chars.len() - 1] == '\r' {
            proof {
                assert(piece@.subrange(0, chars.len() - 1) =~= piece@.drop_last());
            }
            piece.substring_char(0, chars.len() - 1).to_owned()
        } else {
            piece.to_owned()
        };
        lines.push(line);
        assert(lines.deep_view() =~= before.push(without_carriage_return(all[i as int])));
        i += 1;
    }
    let ghost ended = lines.deep_view();
    assert(ended =~= Seq::new(
        (all.len() - 1) as nat,
        |i: int| without_carriage_return(all[i]),
    ));
    if pieces[count].as_str().unicode_len() > 0 {
        lines.push(pieces[count].clone());
        assert(lines.deep_view() =~= ended.push(all.last()));
    }
    lines
}

/// The three texts one after the other.
pub fn concat3(a: &str, b: &str, c: &str) -> (joined: String)
    ensures
        joined@ == a@ + b@ + c@,
{
    let mut joined = a.to_owned();
    joined.append(b);
    joined.append(c);
    joined
}

/// Whether the text `needle` occurs in the characters `hay`.
pub fn chars_contain(hay: &Vec<char>, needle: &str) -> (found: bool)
    ensures
        found == is_substring(hay@, needle@),
{
    let n = to_chars(needle);
    find_from(hay, &n, 0).is_some()
}

/// Whether `name` is among `names`.
pub fn names_contain(names: &Vec<String>, name: &str) -> (found: bool)
    ensures
        found == names.deep_view().contains(name@),
{
    let mut i: usize = 0;
    while i < names.len()
        invariant
            i <= names.len(),
            forall|k: int| 0 <= k < i ==> names.deep_view()[k] != name@,
        decreases names.len() - i,
    {
        if text_eq(names[i].as_str(), name) {
            assert(names.deep_view()[i as int] == name@);
            return true;
        }
        i += 1;
    }
    false
}

} // verus!
