//! Wildcard patterns: `?` stands for any one character, `*` for any run of
//! characters.

use vstd::prelude::*;
use wildmatch::WildMatch;

verus! {

/// Whether `text`, as a whole, matches `pattern`. A `?` in the pattern takes
/// exactly one character of the text, a `*` takes any number of them, none
/// included, and every other character takes itself. Nothing escapes the two.
pub open spec fn wildcard_matches(pattern: Seq<char>, text: Seq<char>) -> bool
    decreases pattern.len(), text.len(),
{
    if pattern.len() == 0 {
        text.len() == 0
    } else if pattern[0] == '*' {
        wildcard_matches(pattern.drop_first(), text) || (text.len() > 0 && wildcard_matches(
            pattern,
            text.drop_first(),
        ))
    } else {
        text.len() > 0 && (pattern[0] == '?' || pattern[0] == text[0]) && wildcard_matches(
            pattern.drop_first(),
            text.drop_first(),
        )
    }
}

/// Whether the text holds neither `*` nor `?`.
pub open spec fn is_literal(text: Seq<char>) -> bool {
    forall|i: int| 0 <= i < text.len() ==> text[i] != '*' && text[i] != '?'
}

/// A pattern that starts with plain characters matches the texts that start
/// with the same characters and whose rest matches the rest of the pattern.
pub proof fn literal_prefix_is_taken_as_it_stands(
    prefix: Seq<char>,
    rest: Seq<char>,
    text: Seq<char>,
)
    requires
        is_literal(prefix),
    ensures
        wildcard_matches(prefix + rest, text) <==> (text.len() >= prefix.len() && text.take(
            prefix.len() as int,
        ) == prefix && wildcard_matches(rest, text.skip(prefix.len() as int))),
    decreases prefix.len(),
{
    let pattern = prefix + rest;
    if prefix.len() == 0 {
        assert(pattern =~= rest);
        assert(text.skip(0) =~= text);
        assert(text.take(0) =~= prefix);
    } else {
        assert(pattern[0] == prefix[0]);
        assert(pattern.drop_first() =~= prefix.drop_first() + rest);
        if text.len() > 0 {
            literal_prefix_is_taken_as_it_stands(prefix.drop_first(), rest, text.drop_first());
            if text.len() >= prefix.len() {
                assert(text.drop_first().skip(prefix.len() - 1) =~= text.skip(
                    prefix.len() as int,
                ));
                if text.take(prefix.len() as int) == prefix {
                    assert(text[0] == text.take(prefix.len() as int)[0]);
                    assert(text.drop_first().take(prefix.len() - 1) =~= prefix.drop_first());
                }
                if text[0] == prefix[0] && text.drop_first().take(prefix.len() - 1)
                    == prefix.drop_first() {
                    assert(text.take(prefix.len() as int) =~= seq![text[0]]
                        + text.drop_first().take(prefix.len() - 1));
                    assert(prefix =~= seq![prefix[0]] + prefix.drop_first());
                }
            }
        }
    }
}

/// A pattern of plain characters matches itself and nothing else.
pub proof fn literal_matches_itself_only(pattern: Seq<char>, text: Seq<char>)
    requires
        is_literal(pattern),
    ensures
        wildcard_matches(pattern, text) <==> text == pattern,
{
    literal_prefix_is_taken_as_it_stands(pattern, Seq::empty(), text);
    assert(pattern + Seq::<char>::empty() =~= pattern);
    if text.len() >= pattern.len() {
        assert(text.skip(pattern.len() as int).len() == text.len() - pattern.len());
        if text.len() == pattern.len() {
            assert(text.take(pattern.len() as int) =~= text);
        }
    }
}

/// A `*` at the head of a pattern takes any number of characters from the
/// head of the text: the pattern matches where the rest of it matches what
/// is left of the text after some of them.
pub proof fn star_takes_any_run(rest: Seq<char>, text: Seq<char>)
    ensures
        wildcard_matches(seq!['*'] + rest, text) <==> exists|k: int|
            0 <= k <= text.len() && #[trigger] wildcard_matches(rest, text.skip(k)),
    decreases text.len(),
{
    let pattern = seq!['*'] + rest;
    assert(pattern[0] == '*');
    assert(pattern.drop_first() =~= rest);
    assert(text.skip(0) =~= text);
    assert(wildcard_matches(pattern, text) == (wildcard_matches(rest, text) || (text.len() > 0
        && wildcard_matches(pattern, text.drop_first()))));
    if wildcard_matches(rest, text) {
        assert(wildcard_matches(rest, text.skip(0)));
    }
    if text.len() > 0 {
        star_takes_any_run(rest, text.drop_first());
        let tail = text.drop_first();
        if wildcard_matches(pattern, tail) {
            let k = choose|k: int|
                0 <= k <= tail.len() && #[trigger] wildcard_matches(rest, tail.skip(k));
            assert(tail.skip(k) =~= text.skip(k + 1));
            assert(wildcard_matches(rest, text.skip(k + 1)));
        }
        if exists|k: int| 0 <= k <= text.len() && #[trigger] wildcard_matches(rest, text.skip(k)) {
            let k = choose|k: int|
                0 <= k <= text.len() && #[trigger] wildcard_matches(rest, text.skip(k));
            if k > 0 {
                assert(tail.skip(k - 1) =~= text.skip(k));
                assert(wildcard_matches(rest, tail.skip(k - 1)));
            }
        }
    } else {
        if exists|k: int| 0 <= k <= text.len() && #[trigger] wildcard_matches(rest, text.skip(k)) {
            let k = choose|k: int|
                0 <= k <= text.len() && #[trigger] wildcard_matches(rest, text.skip(k));
            assert(k == 0);
        }
    }
}

/// A `*` followed by plain characters matches the texts that end in those
/// characters.
pub proof fn star_then_literal_matches_endings(ending: Seq<char>, text: Seq<char>)
    requires
        is_literal(ending),
    ensures
        wildcard_matches(seq!['*'] + ending, text) <==> (text.len() >= ending.len() && text.skip(
            text.len() - ending.len(),
        ) == ending),
{
    star_takes_any_run(ending, text);
    if wildcard_matches(seq!['*'] + ending, text) {
        let k = choose|k: int|
            0 <= k <= text.len() && #[trigger] wildcard_matches(ending, text.skip(k));
        literal_matches_itself_only(ending, text.skip(k));
        assert(text.skip(k).len() == text.len() - k);
    }
    if text.len() >= ending.len() && text.skip(text.len() - ending.len()) == ending {
        literal_matches_itself_only(ending, text.skip(text.len() - ending.len()));
        assert(wildcard_matches(ending, text.skip(text.len() - ending.len())));
    }
}

/// Builds a `WildMatch` from the pattern and asks it whether the text matches.
/// Believed, not proved: the answer is `wildcard_matches`, which is what the
/// matcher documents: the whole text must match, case counts, `?` is one
/// character, `*` any number, and there is no escape.
#[verifier::external_body]
pub(crate) fn matches(pattern: &str, text: &str) -> (matched: bool)
    ensures
        matched == wildcard_matches(pattern@, text@),
{
    WildMatch::new(pattern).matches(text)
}

} // verus!
