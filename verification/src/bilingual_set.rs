//! The bilingual set: the list of language pairs to generate, one `primary+secondary`
//! pair on each line.

use crate::bilingual_generator_errors::BilingualGeneratorError;
use crate::text::{names_contain, split_on, split_text, trim_text, trimmed};
use vstd::prelude::*;
use vstd::string::*;

verus! {

/// Stands between the two languages of a pair.
pub const PAIR_SEPARATOR: &'static str = "+";

/// A language pair: primary language, secondary language.
pub type Pair = (Seq<char>, Seq<char>);

/// A line that holds only white space.
pub open spec fn is_blank(line: Seq<char>) -> bool {
    trimmed(line).len() == 0
}

/// The pair that a line stands for: what is left and right of its one separator, each
/// without the white space around it. A line without a separator, or with more than
/// one, stands for none.
pub open spec fn pair_of_line(line: Seq<char>) -> Option<Pair> {
    let parts = split_on(trimmed(line), PAIR_SEPARATOR@);
    if parts.len() == 2 {
        Some((trimmed(parts[0]), trimmed(parts[1])))
    } else {
        None
    }
}

/// The pairs of the lines up to the first line that is neither blank nor a pair, and
/// that line, if there is one. Blank lines are passed over.
pub open spec fn scan_lines(lines: Seq<Seq<char>>) -> (Seq<Pair>, Option<Seq<char>>)
    decreases lines.len(),
{
    if lines.len() == 0 {
        (Seq::empty(), None)
    } else {
        let (pairs, refused) = scan_lines(lines.drop_last());
        let line = lines.last();
        if refused is Some || is_blank(line) {
            (pairs, refused)
        } else {
            match pair_of_line(line) {
                Some(pair) => (pairs.push(pair), None),
                None => (pairs, Some(line)),
            }
        }
    }
}

/// The languages with `language` added at the end, unless it is among them.
pub open spec fn with_language(languages: Seq<Seq<char>>, language: Seq<char>) -> Seq<Seq<char>> {
    if languages.contains(language) {
        languages
    } else {
        languages.push(language)
    }
}

/// The languages with those of the pairs added, pair by pair, primary before
/// secondary, each only where it is not among them yet.
pub open spec fn with_pair_languages(languages: Seq<Seq<char>>, pairs: Seq<Pair>) -> Seq<Seq<char>>
    decreases pairs.len(),
{
    if pairs.len() == 0 {
        languages
    } else {
        let earlier = with_pair_languages(languages, pairs.drop_last());
        with_language(with_language(earlier, pairs.last().0), pairs.last().1)
    }
}

/// Some pair names the language.
pub open spec fn names_language(pairs: Seq<Pair>, language: Seq<char>) -> bool {
    exists|i: int| 0 <= i < pairs.len() && (pairs[i].0 == language || pairs[i].1 == language)
}

/// Adding a language keeps a list free of repetitions, keeps what it held, and makes
/// it hold the language; it makes it hold nothing else.
pub proof fn lemma_with_language(languages: Seq<Seq<char>>, language: Seq<char>)
    ensures
        languages.no_duplicates() ==> with_language(languages, language).no_duplicates(),
        with_language(languages, language).contains(language),
        forall|name: Seq<char>|
            languages.contains(name) ==> #[trigger] with_language(languages, language).contains(
                name,
            ),
        forall|name: Seq<char>| #[trigger]
            with_language(languages, language).contains(name) ==> languages.contains(name) || name
                == language,
{
    let after = with_language(languages, language);
    if !languages.contains(language) {
        assert(after[languages.len() as int] == language);
        assert forall|name: Seq<char>| languages.contains(name) implies #[trigger] after.contains(
            name,
        ) by {
            let i = choose|i: int| 0 <= i < languages.len() && languages[i] == name;
            assert(after[i] == name);
        }
        assert forall|name: Seq<char>| #[trigger] after.contains(name) implies languages.contains(
            name,
        ) || name == language by {
            let i = choose|i: int| 0 <= i < after.len() && after[i] == name;
            if i < languages.len() {
                assert(languages[i] == name);
            }
        }
        if languages.no_duplicates() {
            assert forall|i: int, j: int|
                0 <= i < after.len() && 0 <= j < after.len() && i != j implies after[i]
                != after[j] by {
                if i < languages.len() && j < languages.len() {
                } else if i < languages.len() {
                    assert(languages.contains(languages[i]));
                } else {
                    assert(languages.contains(languages[j]));
                }
            }
        }
    }
}

/// The languages of the pairs are added without repetition: the list holds what it
/// held and every language that a pair names, and nothing else.
pub proof fn lemma_with_pair_languages(languages: Seq<Seq<char>>, pairs: Seq<Pair>)
    ensures
        languages.no_duplicates() ==> with_pair_languages(languages, pairs).no_duplicates(),
        forall|name: Seq<char>|
            languages.contains(name) || names_language(pairs, name) ==> #[trigger] with_pair_languages(
                languages,
                pairs,
            ).contains(name),
        forall|name: Seq<char>| #[trigger]
            with_pair_languages(languages, pairs).contains(name) ==> languages.contains(name)
                || names_language(pairs, name),
    decreases pairs.len(),
{
    if pairs.len() > 0 {
        let earlier_pairs = pairs.drop_last();
        let earlier = with_pair_languages(languages, earlier_pairs);
        let middle = with_language(earlier, pairs.last().0);
        let after = with_language(middle, pairs.last().1);
        lemma_with_pair_languages(languages, earlier_pairs);
        lemma_with_language(earlier, pairs.last().0);
        lemma_with_language(middle, pairs.last().1);
        assert forall|name: Seq<char>|
            languages.contains(name) || names_language(pairs, name) implies #[trigger] after.contains(
            name,
        ) by {
            if languages.contains(name) {
                assert(earlier.contains(name));
                assert(middle.contains(name));
            } else {
                let i = choose|i: int|
                    0 <= i < pairs.len() && (pairs[i].0 == name || pairs[i].1 == name);
                if i < pairs.len() - 1 {
                    assert(earlier_pairs[i] == pairs[i]);
                    assert(names_language(earlier_pairs, name));
                    assert(earlier.contains(name));
                    assert(middle.contains(name));
                } else if pairs[i].0 == name {
                    assert(middle.contains(name));
                }
            }
        }
        assert forall|name: Seq<char>| #[trigger] after.contains(name) implies languages.contains(
            name,
        ) || names_language(pairs, name) by {
            if name == pairs.last().1 || name == pairs.last().0 {
                assert(pairs[pairs.len() - 1] == pairs.last());
            } else {
                assert(middle.contains(name));
                assert(earlier.contains(name));
                if names_language(earlier_pairs, name) {
                    let i = choose|i: int|
                        0 <= i < earlier_pairs.len() && (earlier_pairs[i].0 == name
                            || earlier_pairs[i].1 == name);
                    assert(pairs[i] == earlier_pairs[i]);
                }
            }
        }
    } else {
        assert forall|name: Seq<char>| !names_language(pairs, name) by {}
    }
}

/// What a line of the bilingual set holds.
#[derive(Debug)]
pub enum ParsedLine {
    /// Only white space.
    Blank,
    /// A primary and a secondary language.
    Pair(String, String),
    /// Something else.
    Invalid,
}

/// Reads one line of the bilingual set.
pub fn read_pair_line(line: &str) -> (parsed: ParsedLine)
    ensures
        match parsed {
            ParsedLine::Blank => is_blank(line@),
            ParsedLine::Pair(primary, secondary) => !is_blank(line@) && pair_of_line(line@)
                == Some((primary@, secondary@)),
            ParsedLine::Invalid => !is_blank(line@) && pair_of_line(line@) is None,
        },
{
    let inner = trim_text(line);
    if inner.as_str().unicode_len() == 0 {
        return ParsedLine::Blank;
    }
    let parts = split_text(inner.as_str(), PAIR_SEPARATOR);
    if parts.len() != 2 {
        return ParsedLine::Invalid;
    }
    let primary = trim_text(parts[0].as_str());
    let secondary = trim_text(parts[1].as_str());
    ParsedLine::Pair(primary, secondary)
}

/// Adds `name` at the end of `names`, unless it is among them.
pub fn add_language(names: &mut Vec<String>, name: &str)
    ensures
        final(names).deep_view() == with_language(old(names).deep_view(), name@),
{
    if !names_contain(names, name) {
        let ghost before = names.deep_view();
        names.push(name.to_owned());
        assert(names.deep_view() =~= before.push(name@));
    }
}

/// Reads the bilingual set line by line. Each pair is added to the result, and its
/// languages to `languages` where they are not listed yet. The first line that is
/// neither blank nor a pair ends the reading with an error that holds the line; the
/// languages of the pairs before it stay added.
pub fn read_bilingual_set(lines: &Vec<String>, languages: &mut Vec<String>) -> (set: Result<
    Vec<(String, String)>,
    BilingualGeneratorError,
>)
    ensures
        final(languages).deep_view() == with_pair_languages(
            old(languages).deep_view(),
            scan_lines(lines.deep_view()).0,
        ),
        match set {
            Ok(pairs) => scan_lines(lines.deep_view()).1 is None && pairs.deep_view() == scan_lines(
                lines.deep_view(),
            ).0,
            Err(error) => error matches BilingualGeneratorError::InvalidBilingualSet(line)
                && scan_lines(lines.deep_view()).1 == Some(line@),
        },
{
    let mut pairs: Vec<(String, String)> = Vec::new();
    let ghost all = lines.deep_view();
    let ghost listed = languages.deep_view();
    let mut i: usize = 0;
    assert(pairs.deep_view() =~= Seq::<Pair>::empty());
    while i < lines.len()
        invariant
            i <= lines.len(),
            all == lines.deep_view(),
            listed == old(languages).deep_view(),
            scan_lines(all.take(i as int)) == (pairs.deep_view(), None::<Seq<char>>),
            languages.deep_view() == with_pair_languages(listed, pairs.deep_view()),
        decreases lines.len() - i,
    {
        proof {
            assert(all.take(i + 1).drop_last() =~= all.take(i as int));
            assert(all.take(i + 1).last() == lines[i as int]@);
        }
        match read_pair_line(lines[i].as_str()) {
            ParsedLine::Blank => {},
            ParsedLine::Pair(primary, secondary) => {
                let ghost before = pairs.deep_view();
                add_language(languages, primary.as_str());
                add_language(languages, secondary.as_str());
                pairs.push((primary, secondary));
                proof {
                    assert(pairs.deep_view() =~= before.push((primary@, secondary@)));
                    assert(pairs.deep_view().drop_last() =~= before);
                }
            },
            ParsedLine::Invalid => {
                proof {
                    assert(scan_lines(all.take(i + 1)) == (
                        pairs.deep_view(),
                        Some(lines[i as int]@),
                    ));
                    lemma_scan_refused(all, i + 1);
                    assert(all.take(lines.len() as int) =~= all);
                }
                return Err(BilingualGeneratorError::InvalidBilingualSet(lines[i].clone()));
            },
        }
        i += 1;
    }
    assert(all.take(lines.len() as int) =~= all);
    Ok(pairs)
}

/// Once a line was refused, the lines after it are not read.
pub proof fn lemma_scan_refused(lines: Seq<Seq<char>>, upto: int)
    requires
        0 <= upto <= lines.len(),
        scan_lines(lines.take(upto)).1 is Some,
    ensures
        scan_lines(lines.take(lines.len() as int)) == scan_lines(lines.take(upto)),
    decreases lines.len() - upto,
{
    if upto < lines.len() {
        assert(lines.take(upto + 1).drop_last() =~= lines.take(upto));
        lemma_scan_refused(lines, upto + 1);
    }
}

} // verus!
