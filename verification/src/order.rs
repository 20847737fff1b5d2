//! Code-point lexicographic order on names, and a sort with a full
//! correctness contract: the result is ordered and holds exactly the input
//! names. Account listings and disambiguation menus use this order.

use vstd::prelude::*;
use vstd::string::*;
use vstd::seq_lib::*;

verus! {

/// Lexicographic order by code point; a prefix sorts before its extensions.
pub open spec fn lex_leq(a: Seq<char>, b: Seq<char>) -> bool
    decreases a.len(),
{
    if a.len() == 0 {
        true
    } else if b.len() == 0 {
        false
    } else if a[0] != b[0] {
        a[0] < b[0]
    } else {
        lex_leq(a.drop_first(), b.drop_first())
    }
}

pub open spec fn sorted_lex(s: Seq<Seq<char>>) -> bool {
    forall|i: int, j: int| 0 <= i < j < s.len() ==> lex_leq(#[trigger] s[i], #[trigger] s[j])
}

/// Any two names compare one way or the other.
pub proof fn lemma_lex_total(a: Seq<char>, b: Seq<char>)
    ensures
        lex_leq(a, b) || lex_leq(b, a),
    decreases a.len(),
{
    if a.len() > 0 && b.len() > 0 && a[0] == b[0] {
        lemma_lex_total(a.drop_first(), b.drop_first());
    }
}

pub proof fn lemma_lex_trans(a: Seq<char>, b: Seq<char>, c: Seq<char>)
    requires
        lex_leq(a, b),
        lex_leq(b, c),
    ensures
        lex_leq(a, c),
    decreases a.len(),
{
    if a.len() > 0 && b.len() > 0 && c.len() > 0 && a[0] == b[0] && b[0] == c[0] {
        lemma_lex_trans(a.drop_first(), b.drop_first(), c.drop_first());
    }
}

/// Compares two names in the listing order.
pub fn str_leq(a: &str, b: &str) -> (r: bool)
    ensures
        r == lex_leq(a@, b@),
{
    let alen: usize = a.unicode_len();
    let blen: usize = b.unicode_len();
    let mut i: usize = 0;
    proof {
        assert(a@.skip(0) =~= a@);
        assert(b@.skip(0) =~= b@);
    }
    while i < alen && i < blen
        invariant
            0 <= i <= alen,
            0 <= i <= blen,
            alen == a@.len(),
            blen == b@.len(),
            lex_leq(a@, b@) == lex_leq(a@.skip(i as int), b@.skip(i as int)),
        decreases alen - i,
    {
        let ca = a.get_char(i);
        let cb = b.get_char(i);
        proof {
            assert(a@.skip(i as int)[0] == a@[i as int]);
            assert(b@.skip(i as int)[0] == b@[i as int]);
        }
        if ca != cb {
            return ca < cb;
        }
        proof {
            assert(a@.skip(i as int).drop_first() =~= a@.skip(i as int + 1));
            assert(b@.skip(i as int).drop_first() =~= b@.skip(i as int + 1));
        }
        i = i + 1;
    }
    proof {
        if i == alen {
            assert(a@.skip(i as int).len() == 0);
        } else {
            assert(b@.skip(i as int).len() == 0);
            assert(a@.skip(i as int).len() > 0);
        }
    }
    alen <= blen
}

/// Sorts names into the listing order, keeping exactly the given names.
pub fn sort_names(v: &Vec<String>) -> (r: Vec<String>)
    ensures
        sorted_lex(r.deep_view()),
        r.deep_view().to_multiset() == v.deep_view().to_multiset(),
{
    broadcast use group_to_multiset_ensures;
    broadcast use to_multiset_insert;

    let mut r: Vec<String> = Vec::new();
    let mut i: usize = 0;
    proof {
        assert(v.deep_view().subrange(0, 0) =~= Seq::<Seq<char>>::empty());
        assert(r.deep_view() =~= Seq::<Seq<char>>::empty());
    }
    while i < v.len()
        invariant
            0 <= i <= v@.len(),
            sorted_lex(r.deep_view()),
            r.deep_view().to_multiset() == v.deep_view().subrange(0, i as int).to_multiset(),
        decreases v@.len() - i,
    {
        let x: String = v[i].clone();
        let mut j: usize = 0;
        while j < r.len() && str_leq(r[j].as_str(), x.as_str())
            invariant
                0 <= j <= r@.len(),
                r@.len() == r.deep_view().len(),
                forall|k: int| 0 <= k < j ==> lex_leq(#[trigger] r.deep_view()[k], x@),
            decreases r@.len() - j,
        {
            j = j + 1;
        }
        proof {
            let dv = r.deep_view();
            if j < dv.len() {
                lemma_lex_total(dv[j as int], x@);
            }
            let t = dv.insert(j as int, x@);
            assert forall|p: int, q: int| 0 <= p < q < t.len() implies lex_leq(
                #[trigger] t[p],
                #[trigger] t[q],
            ) by {
                if p == j && q > j {
                    if q - 1 > j {
                        lemma_lex_trans(x@, dv[j as int], dv[q - 1]);
                    }
                }
            }
        }
        let ghost old_r = r;
        let ghost old_dv = r.deep_view();
        r.insert(j, x);
        proof {
            assert(r.deep_view() =~= old_dv.insert(j as int, x@)) by {
                assert(forall|k: int|
                    0 <= k < r@.len() ==> #[trigger] r.deep_view()[k] == r@[k]@);
                assert(forall|k: int|
                    0 <= k < old_r@.len() ==> #[trigger] old_dv[k] == old_r@[k]@);
            }
            to_multiset_insert(old_dv, j as int, x@);
            to_multiset_build(v.deep_view().subrange(0, i as int), x@);
            assert(v.deep_view().subrange(0, i as int + 1) =~= v.deep_view().subrange(
                0,
                i as int,
            ).push(v.deep_view()[i as int]));
            assert(x@ == v.deep_view()[i as int]);
        }
        i = i + 1;
    }
    proof {
        assert(v.deep_view().subrange(0, i as int) =~= v.deep_view());
    }
    r
}

} // verus!
