//! The order in which ids are listed: by code point, character by
//! character, a proper prefix before any of its extensions.

use vstd::prelude::*;
use crate::text::{chars_of, texts};

verus! {

/// Whether `a` comes strictly before `b`.
pub open spec fn lex_less(a: Seq<char>, b: Seq<char>) -> bool
    decreases a.len(),
{
    if b.len() == 0 {
        false
    } else if a.len() == 0 {
        true
    } else if a[0] != b[0] {
        a[0] < b[0]
    } else {
        lex_less(a.drop_first(), b.drop_first())
    }
}

/// Whether a sequence of ids is strictly increasing.
pub open spec fn strictly_sorted(ids: Seq<Seq<char>>) -> bool {
    forall|i: int, j: int| 0 <= i < j < ids.len() ==> lex_less(ids[i], ids[j])
}

/// Of two different ids one comes before the other.
pub proof fn lemma_lex_total(a: Seq<char>, b: Seq<char>)
    ensures
        a == b || lex_less(a, b) || lex_less(b, a),
    decreases a.len(),
{
    if a.len() > 0 && b.len() > 0 {
        if a[0] == b[0] {
            lemma_lex_total(a.drop_first(), b.drop_first());
            if a.drop_first() == b.drop_first() {
                assert(a =~= seq![a[0]] + a.drop_first());
                assert(b =~= seq![b[0]] + b.drop_first());
            }
        } else {
            assert(lex_less(a, b) == (a[0] < b[0]));
            assert(lex_less(b, a) == (b[0] < a[0]));
        }
    } else if a.len() == 0 && b.len() == 0 {
        assert(a =~= b);
    } else if a.len() == 0 {
        assert(lex_less(a, b));
    } else {
        assert(lex_less(b, a));
    }
}

/// The order is transitive.
pub proof fn lemma_lex_transitive(a: Seq<char>, b: Seq<char>, c: Seq<char>)
    requires
        lex_less(a, b),
        lex_less(b, c),
    ensures
        lex_less(a, c),
    decreases a.len(),
{
    if a.len() > 0 && a[0] == b[0] && b[0] == c[0] {
        lemma_lex_transitive(a.drop_first(), b.drop_first(), c.drop_first());
    }
}

proof fn lemma_lex_skip(a: Seq<char>, b: Seq<char>, i: int)
    requires
        0 <= i <= a.len(),
        i <= b.len(),
        a.subrange(0, i) == b.subrange(0, i),
    ensures
        lex_less(a, b) == lex_less(a.skip(i), b.skip(i)),
    decreases i,
{
    if i == 0 {
        assert(a.skip(0) =~= a);
        assert(b.skip(0) =~= b);
    } else {
        assert(a.subrange(0, i)[0] == a[0]);
        assert(b.subrange(0, i)[0] == b[0]);
        assert(lex_less(a, b) == lex_less(a.drop_first(), b.drop_first()));
        assert(a.drop_first().subrange(0, i - 1) =~= a.subrange(0, i).drop_first());
        assert(b.drop_first().subrange(0, i - 1) =~= b.subrange(0, i).drop_first());
        lemma_lex_skip(a.drop_first(), b.drop_first(), i - 1);
        assert(a.drop_first().skip(i - 1) =~= a.skip(i));
        assert(b.drop_first().skip(i - 1) =~= b.skip(i));
    }
}

/// Whether `a` comes strictly before `b`.
pub fn comes_before(a: &str, b: &str) -> (r: bool)
    ensures
        r == lex_less(a@, b@),
{
    let x = chars_of(a);
    let y = chars_of(b);
    let mut i: usize = 0;
    while i < x.len() && i < y.len() && x[i] == y[i]
        invariant
            i <= x.len(),
            i <= y.len(),
            x@.subrange(0, i as int) == y@.subrange(0, i as int),
        decreases x.len() - i,
    {
        assert(x@.subrange(0, i as int + 1) =~= x@.subrange(0, i as int).push(x@[i as int]));
        assert(y@.subrange(0, i as int + 1) =~= y@.subrange(0, i as int).push(y@[i as int]));
        i = i + 1;
    }
    proof {
        lemma_lex_skip(x@, y@, i as int);
    }
    if i >= y.len() {
        false
    } else if i >= x.len() {
        true
    } else {
        x[i] < y[i]
    }
}

/// Inserts `id` into a strictly sorted list, keeping it sorted.  An id
/// that the list already holds is not inserted again.
pub fn insert_sorted(ids: &mut Vec<String>, id: String)
    requires
        strictly_sorted(texts(old(ids)@)),
    ensures
        strictly_sorted(texts(final(ids)@)),
        forall|k: Seq<char>| #[trigger]
            texts(final(ids)@).contains(k) <==> (k == id@ || texts(old(ids)@).contains(k)),
{
    let ghost before = texts(ids@);
    let mut p: usize = 0;
    while p < ids.len() && comes_before(ids[p].as_str(), id.as_str())
        invariant
            p <= ids.len(),
            texts(ids@) == before,
            forall|i: int| 0 <= i < p ==> lex_less(before[i], id@),
        decreases ids.len() - p,
    {
        p = p + 1;
    }
    if p < ids.len() && !comes_before(id.as_str(), ids[p].as_str()) {
        proof {
            lemma_lex_total(id@, before[p as int]);
            assert(before.contains(id@));
        }
        return ;
    }
    let ghost key = id@;
    ids.insert(p, id);
    proof {
        let after = texts(ids@);
        assert(after =~= before.insert(p as int, key));
        assert forall|i: int, j: int| 0 <= i < j < after.len() implies lex_less(
            after[i],
            after[j],
        ) by {
            if j > p && i == p {
                if j - 1 > p {
                    lemma_lex_transitive(key, before[p as int], before[j - 1]);
                }
            } else if j > p && i < p {
                lemma_lex_transitive(before[i], key, before[p as int]);
                if j - 1 > p {
                    lemma_lex_transitive(before[i], before[p as int], before[j - 1]);
                }
            }
        }
        assert forall|k: Seq<char>| #[trigger] after.contains(k) <==> (k == key || before.contains(k)) by {
            if after.contains(k) {
                let i = choose|i: int| 0 <= i < after.len() && after[i] == k;
                if i < p {
                    assert(before[i] == k);
                } else if i > p {
                    assert(before[i - 1] == k);
                }
            }
            if k == key {
                assert(after[p as int] == k);
            }
            if before.contains(k) {
                let i = choose|i: int| 0 <= i < before.len() && before[i] == k;
                if i < p {
                    assert(after[i] == k);
                } else {
                    assert(after[i + 1] == k);
                }
            }
        }
    }
}

} // verus!
