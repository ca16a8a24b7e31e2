//! The order in which strings are sorted: byte by byte over their UTF-8
//! encoding, a proper prefix before what extends it.

use vstd::prelude::*;
use vstd::string::*;
use vstd::utf8::*;

verus! {

/// Whether `left` comes strictly before `right`, byte by byte.
pub open spec fn bytes_before(left: Seq<u8>, right: Seq<u8>) -> bool
    decreases left.len(),
{
    if right.len() == 0 {
        false
    } else if left.len() == 0 {
        true
    } else if left[0] != right[0] {
        left[0] < right[0]
    } else {
        bytes_before(left.drop_first(), right.drop_first())
    }
}

/// Whether the text `left` sorts strictly before the text `right`.
#[verifier::opaque]
pub open spec fn text_before(left: Seq<char>, right: Seq<char>) -> bool {
    bytes_before(encode_utf8(left), encode_utf8(right))
}

/// Whether every text of the sequence sorts strictly before those behind it.
pub open spec fn strictly_ascending(texts: Seq<Seq<char>>) -> bool {
    forall|i: int, j: int| 0 <= i < j < texts.len() ==> text_before(texts[i], texts[j])
}

/// No sequence of bytes comes before itself.
pub proof fn lemma_bytes_before_irreflexive(a: Seq<u8>)
    ensures
        !bytes_before(a, a),
    decreases a.len(),
{
    if a.len() > 0 {
        lemma_bytes_before_irreflexive(a.drop_first());
    }
}

/// Coming before is transitive.
pub proof fn lemma_bytes_before_transitive(a: Seq<u8>, b: Seq<u8>, c: Seq<u8>)
    requires
        bytes_before(a, b),
        bytes_before(b, c),
    ensures
        bytes_before(a, c),
    decreases a.len(),
{
    if a.len() > 0 && b.len() > 0 && c.len() > 0 && a[0] == b[0] && b[0] == c[0] {
        lemma_bytes_before_transitive(a.drop_first(), b.drop_first(), c.drop_first());
    }
}

/// Two sequences of bytes of which neither comes before the other are the
/// same.
pub proof fn lemma_bytes_before_total(a: Seq<u8>, b: Seq<u8>)
    requires
        !bytes_before(a, b),
        !bytes_before(b, a),
    ensures
        a == b,
    decreases a.len(),
{
    if a.len() > 0 && b.len() > 0 {
        lemma_bytes_before_total(a.drop_first(), b.drop_first());
        assert(a =~= seq![a[0]] + a.drop_first());
        assert(b =~= seq![b[0]] + b.drop_first());
    } else {
        assert(a =~= b);
    }
}

/// No text sorts before itself.
pub proof fn lemma_text_before_irreflexive(a: Seq<char>)
    ensures
        !text_before(a, a),
{
    reveal(text_before);
    lemma_bytes_before_irreflexive(encode_utf8(a));
}

/// Sorting before is transitive.
pub proof fn lemma_text_before_transitive(a: Seq<char>, b: Seq<char>, c: Seq<char>)
    requires
        text_before(a, b),
        text_before(b, c),
    ensures
        text_before(a, c),
{
    reveal(text_before);
    lemma_bytes_before_transitive(encode_utf8(a), encode_utf8(b), encode_utf8(c));
}

/// Of two different texts, one sorts before the other.
pub proof fn lemma_text_before_total(a: Seq<char>, b: Seq<char>)
    requires
        !text_before(a, b),
        !text_before(b, a),
    ensures
        a == b,
{
    reveal(text_before);
    lemma_bytes_before_total(encode_utf8(a), encode_utf8(b));
    encode_utf8_decode_utf8(a);
    encode_utf8_decode_utf8(b);
}

/// No two texts sort before each other.
pub proof fn lemma_text_before_asymmetric(a: Seq<char>, b: Seq<char>)
    requires
        text_before(a, b),
    ensures
        !text_before(b, a),
{
    if text_before(b, a) {
        lemma_text_before_transitive(a, b, a);
        lemma_text_before_irreflexive(a);
    }
}

/// Two strictly ascending sequences that hold the same texts are the same
/// sequence.
pub proof fn lemma_ascending_unique(s: Seq<Seq<char>>, t: Seq<Seq<char>>)
    requires
        strictly_ascending(s),
        strictly_ascending(t),
        forall|x: Seq<char>| s.contains(x) <==> t.contains(x),
    ensures
        s == t,
    decreases s.len(),
{
    if s.len() == 0 {
        if t.len() > 0 {
            assert(t.contains(t[0]));
        }
        assert(s =~= t);
    } else if t.len() == 0 {
        assert(s.contains(s[0]));
    } else {
        // the two heads are each the least text of the common set
        assert(s.contains(s[0]));
        assert(t.contains(t[0]));
        let i = choose|i: int| 0 <= i < t.len() && t[i] == s[0];
        let j = choose|j: int| 0 <= j < s.len() && s[j] == t[0];
        if i > 0 && j > 0 {
            lemma_text_before_asymmetric(t[0], t[i]);
        }
        if i > 0 && j == 0 {
            lemma_text_before_irreflexive(t[0]);
        }
        assert(s[0] == t[0]);
        let s1 = s.drop_first();
        let t1 = t.drop_first();
        assert forall|x: Seq<char>| s1.contains(x) <==> t1.contains(x) by {
            if s1.contains(x) {
                let k = choose|k: int| 0 <= k < s1.len() && s1[k] == x;
                assert(s[k + 1] == x);
                assert(s.contains(x));
                let m = choose|m: int| 0 <= m < t.len() && t[m] == x;
                if m == 0 {
                    lemma_text_before_irreflexive(x);
                }
                assert(t1[m - 1] == x);
            }
            if t1.contains(x) {
                let k = choose|k: int| 0 <= k < t1.len() && t1[k] == x;
                assert(t[k + 1] == x);
                assert(t.contains(x));
                let m = choose|m: int| 0 <= m < s.len() && s[m] == x;
                if m == 0 {
                    lemma_text_before_irreflexive(x);
                }
                assert(s1[m - 1] == x);
            }
        }
        assert(strictly_ascending(s1)) by {
            assert forall|a: int, b: int| 0 <= a < b < s1.len() implies text_before(
                s1[a],
                s1[b],
            ) by {
                assert(text_before(s[a + 1], s[b + 1]));
            }
        }
        assert(strictly_ascending(t1)) by {
            assert forall|a: int, b: int| 0 <= a < b < t1.len() implies text_before(
                t1[a],
                t1[b],
            ) by {
                assert(text_before(t[a + 1], t[b + 1]));
            }
        }
        lemma_ascending_unique(s1, t1);
        assert(s =~= seq![s[0]] + s1);
        assert(t =~= seq![t[0]] + t1);
    }
}

/// The texts that the strings hold.
pub open spec fn text_views(texts: Seq<String>) -> Seq<Seq<char>> {
    texts.map_values(|t: String| t@)
}

/// Whether `left` sorts strictly before `right`.
pub fn precedes(left: &str, right: &str) -> (before: bool)
    ensures
        before == text_before(left@, right@),
{
    let a = left.as_bytes();
    let b = right.as_bytes();
    let mut i: usize = 0;
    assert(a@.skip(0) =~= a@);
    assert(b@.skip(0) =~= b@);
    while i < a.len() && i < b.len()
        invariant
            i <= a@.len(),
            i <= b@.len(),
            a@ == encode_utf8(left@),
            b@ == encode_utf8(right@),
            bytes_before(a@, b@) == bytes_before(a@.skip(i as int), b@.skip(i as int)),
        decreases a@.len() - i,
    {
        let ghost ra = a@.skip(i as int);
        let ghost rb = b@.skip(i as int);
        assert(ra[0] == a@[i as int]);
        assert(rb[0] == b@[i as int]);
        if a[i] != b[i] {
            proof {
                reveal(text_before);
            }
            return a[i] < b[i];
        }
        assert(ra.drop_first() =~= a@.skip(i + 1));
        assert(rb.drop_first() =~= b@.skip(i + 1));
        i += 1;
    }
    assert(a@.skip(i as int).len() == a@.len() - i);
    assert(b@.skip(i as int).len() == b@.len() - i);
    proof {
        reveal(text_before);
    }
    i < b.len()
}

/// Putting a text between those that sort before it and those that sort
/// after it keeps the sequence ascending, and adds that text and no other.
pub proof fn lemma_insert_ascending(before: Seq<Seq<char>>, pos: int, text: Seq<char>)
    requires
        strictly_ascending(before),
        0 <= pos <= before.len(),
        forall|i: int| 0 <= i < pos ==> text_before(#[trigger] before[i], text),
        pos < before.len() ==> text_before(text, before[pos]),
    ensures
        strictly_ascending(before.insert(pos, text)),
        forall|t: Seq<char>|
            before.insert(pos, text).contains(t) <==> (before.contains(t) || t == text),
{
    let after = before.insert(pos, text);
    before.insert_ensures(pos, text);
    assert forall|i: int, j: int| 0 <= i < j < after.len() implies text_before(
        after[i],
        after[j],
    ) by {
        if j < pos {
            assert(after[i] == before[i] && after[j] == before[j]);
        } else if j == pos {
            assert(after[i] == before[i]);
        } else if i < pos {
            assert(after[i] == before[i] && after[j] == before[j - 1]);
            if j - 1 > pos {
                lemma_text_before_transitive(text, before[pos], before[j - 1]);
            }
            lemma_text_before_transitive(before[i], text, before[j - 1]);
        } else if i == pos {
            assert(after[j] == before[j - 1]);
            if j - 1 > pos {
                lemma_text_before_transitive(text, before[pos], before[j - 1]);
            }
        } else {
            assert(after[i] == before[i - 1] && after[j] == before[j - 1]);
        }
    }
    assert forall|t: Seq<char>| after.contains(t) <==> (before.contains(t) || t == text) by {
        if after.contains(t) {
            let n = choose|n: int| 0 <= n < after.len() && after[n] == t;
            if n < pos {
                assert(before[n] == t);
            } else if n > pos {
                assert(before[n - 1] == t);
            }
        }
        if before.contains(t) {
            let n = choose|n: int| 0 <= n < before.len() && before[n] == t;
            if n < pos {
                assert(after[n] == t);
            } else {
                assert(after[n + 1] == t);
            }
        }
        if t == text {
            assert(after[pos] == t);
        }
    }
}

/// Puts `text` at its place in the ascending list, unless the list holds it
/// already.
pub fn insert_ascending(texts: &mut Vec<String>, text: String)
    requires
        strictly_ascending(text_views(old(texts)@)),
    ensures
        strictly_ascending(text_views(final(texts)@)),
        forall|t: Seq<char>|
            text_views(final(texts)@).contains(t) <==> (text_views(old(texts)@).contains(t) || t
                == text@),
{
    let ghost before = text_views(texts@);
    let mut k: usize = 0;
    while k < texts.len() && precedes(texts[k].as_str(), text.as_str())
        invariant
            k <= texts.len(),
            texts@ == old(texts)@,
            before == text_views(texts@),
            forall|i: int| 0 <= i < k ==> text_before(#[trigger] before[i], text@),
        decreases texts.len() - k,
    {
        k += 1;
    }
    if k < texts.len() && texts[k] == text {
        assert(before[k as int] == text@);
        assert(before.contains(text@));
        return ;
    }
    proof {
        if k < before.len() && !text_before(text@, before[k as int]) {
            lemma_text_before_total(before[k as int], text@);
        }
        lemma_insert_ascending(before, k as int, text@);
    }
    texts.insert(k, text);
    proof {
        let after = text_views(texts@);
        assert(after =~= before.insert(k as int, text@)) by {
            old(texts)@.insert_ensures(k as int, text);
            before.insert_ensures(k as int, text@);
        }
        assert forall|t: Seq<char>| after.contains(t) <==> (before.contains(t) || t == text@) by {
            assert(before.insert(k as int, text@).contains(t) <==> (before.contains(t) || t
                == text@));
        }
    }
}

} // verus!
