//! Name resolution: map a user-typed fragment to one stored account name.
//! An exact match wins outright; otherwise every name containing the
//! fragment is a candidate, and more than one candidate means the user must
//! pick from a menu.

use vstd::prelude::*;
use vstd::seq_lib::*;
use vstd::string::*;

use crate::error::Error;
use crate::order::{sort_names, sorted_lex};
use crate::strutil::{all_digits, contains_sub, digits_val, parse_usize, starts_with, str_eq, trim, trim_spec};

verus! {

/// The outcome of matching a fragment against the stored names.
pub enum Resolution {
    /// The fragment names a stored file outright.
    Exact(String),
    /// No exact match, and exactly one name contains the fragment.
    Unique(String),
    /// Several names contain the fragment, listed in order for the user.
    Ambiguous(Vec<String>),
    /// No name contains the fragment.
    NotFound,
}

/// The names that contain the fragment, in listing order.
pub open spec fn candidates_of(names: Seq<Seq<char>>, frag: Seq<char>) -> Seq<Seq<char>> {
    names.filter(|n: Seq<char>| crate::strutil::is_sub(n, frag))
}

proof fn lemma_candidates_push(t: Seq<Seq<char>>, x: Seq<char>, frag: Seq<char>)
    ensures
        candidates_of(t.push(x), frag) == if crate::strutil::is_sub(x, frag) {
            candidates_of(t, frag).push(x)
        } else {
            candidates_of(t, frag)
        },
{
    reveal(Seq::filter);
    assert((t.push(x)).drop_last() =~= t);
    assert((t.push(x)).last() == x);
}

/// Matches `frag` against the stored `names`: an exact match first, else
/// zero, one or many substring candidates; many come back sorted.
pub fn resolve_listing(names: &Vec<String>, frag: &str) -> (r: Resolution)
    ensures
        ({
            let dv = names.deep_view();
            let f = frag@;
            if dv.contains(f) {
                r matches Resolution::Exact(n) && n@ == f
            } else {
                let cands = candidates_of(dv, f);
                if cands.len() == 0 {
                    r is NotFound
                } else if cands.len() == 1 {
                    r matches Resolution::Unique(n) && n@ == cands[0]
                } else {
                    r matches Resolution::Ambiguous(v) && sorted_lex(v.deep_view())
                        && v.deep_view().to_multiset() == cands.to_multiset()
                        && v.deep_view().len() == cands.len()
                }
            }
        }),
{
    broadcast use group_to_multiset_ensures;

    let n: usize = names.len();
    let mut i: usize = 0;
    while i < n
        invariant
            0 <= i <= n,
            n == names@.len(),
            forall|j: int| 0 <= j < i ==> names.deep_view()[j] != frag@,
        decreases n - i,
    {
        if str_eq(names[i].as_str(), frag) {
            proof {
                assert(names.deep_view()[i as int] == frag@);
            }
            return Resolution::Exact(String::from_str(frag));
        }
        i = i + 1;
    }
    proof {
        if names.deep_view().contains(frag@) {
            let j = choose|j: int|
                0 <= j < names.deep_view().len() && #[trigger] names.deep_view()[j] == frag@;
            assert(names.deep_view()[j] != frag@);
        }
    }
    let mut cands: Vec<String> = Vec::new();
    let mut k: usize = 0;
    proof {
        assert(names.deep_view().subrange(0, 0) =~= Seq::<Seq<char>>::empty());
        reveal(Seq::filter);
        assert(cands.deep_view() =~= candidates_of(names.deep_view().subrange(0, 0), frag@));
    }
    while k < n
        invariant
            0 <= k <= n,
            n == names@.len(),
            cands.deep_view() == candidates_of(names.deep_view().subrange(0, k as int), frag@),
        decreases n - k,
    {
        let ghost pre = names.deep_view().subrange(0, k as int);
        let ghost old_cands = cands.deep_view();
        proof {
            assert(names.deep_view().subrange(0, k as int + 1) =~= pre.push(
                names.deep_view()[k as int],
            ));
            lemma_candidates_push(pre, names.deep_view()[k as int], frag@);
        }
        if contains_sub(names[k].as_str(), frag) {
            let x: String = names[k].clone();
            cands.push(x);
            proof {
                assert(cands.deep_view() =~= old_cands.push(names.deep_view()[k as int]));
            }
        }
        k = k + 1;
    }
    proof {
        assert(names.deep_view().subrange(0, n as int) =~= names.deep_view());
    }
    proof {
        assert(cands.deep_view().len() == cands@.len());
    }
    if cands.len() == 0 {
        Resolution::NotFound
    } else if cands.len() == 1 {
        let one: String = cands[0].clone();
        proof {
            assert(one@ == cands.deep_view()[0]);
        }
        Resolution::Unique(one)
    } else {
        let sorted = sort_names(&cands);
        proof {
            assert(sorted.deep_view().len() == sorted.deep_view().to_multiset().len());
            assert(cands.deep_view().len() == cands.deep_view().to_multiset().len());
        }
        Resolution::Ambiguous(sorted)
    }
}

/// The names that start with the prefix, in listing order.
pub open spec fn prefixed_of(names: Seq<Seq<char>>, prefix: Seq<char>) -> Seq<Seq<char>> {
    names.filter(|n: Seq<char>| crate::strutil::is_prefix(n, prefix))
}

proof fn lemma_prefixed_push(t: Seq<Seq<char>>, x: Seq<char>, prefix: Seq<char>)
    ensures
        prefixed_of(t.push(x), prefix) == if crate::strutil::is_prefix(x, prefix) {
            prefixed_of(t, prefix).push(x)
        } else {
            prefixed_of(t, prefix)
        },
{
    reveal(Seq::filter);
    assert((t.push(x)).drop_last() =~= t);
    assert((t.push(x)).last() == x);
}

/// Keeps the names that start with the prefix, in their listing order.
pub fn filter_prefixed(names: &Vec<String>, prefix: &str) -> (r: Vec<String>)
    ensures
        r.deep_view() == prefixed_of(names.deep_view(), prefix@),
{
    let n: usize = names.len();
    let mut acc: Vec<String> = Vec::new();
    let mut k: usize = 0;
    proof {
        assert(names.deep_view().subrange(0, 0) =~= Seq::<Seq<char>>::empty());
        reveal(Seq::filter);
        assert(acc.deep_view() =~= prefixed_of(names.deep_view().subrange(0, 0), prefix@));
    }
    while k < n
        invariant
            0 <= k <= n,
            n == names@.len(),
            acc.deep_view() == prefixed_of(names.deep_view().subrange(0, k as int), prefix@),
        decreases n - k,
    {
        let ghost pre = names.deep_view().subrange(0, k as int);
        let ghost old_acc = acc.deep_view();
        proof {
            assert(names.deep_view().subrange(0, k as int + 1) =~= pre.push(
                names.deep_view()[k as int],
            ));
            lemma_prefixed_push(pre, names.deep_view()[k as int], prefix@);
        }
        if starts_with(names[k].as_str(), prefix) {
            let x: String = names[k].clone();
            acc.push(x);
            proof {
                assert(acc.deep_view() =~= old_acc.push(names.deep_view()[k as int]));
            }
        }
        k = k + 1;
    }
    proof {
        assert(names.deep_view().subrange(0, n as int) =~= names.deep_view());
    }
    acc
}

/// Whether the listing holds this exact name.
pub fn listing_contains(names: &Vec<String>, name: &str) -> (r: bool)
    ensures
        r == names.deep_view().contains(name@),
{
    let n: usize = names.len();
    let mut i: usize = 0;
    while i < n
        invariant
            0 <= i <= n,
            n == names@.len(),
            forall|j: int| 0 <= j < i ==> names.deep_view()[j] != name@,
        decreases n - i,
    {
        if str_eq(names[i].as_str(), name) {
            proof {
                assert(names.deep_view()[i as int] == name@);
            }
            return true;
        }
        i = i + 1;
    }
    proof {
        if names.deep_view().contains(name@) {
            let j = choose|j: int|
                0 <= j < names.deep_view().len() && #[trigger] names.deep_view()[j] == name@;
            assert(names.deep_view()[j] != name@);
        }
    }
    false
}

/// Applies a one-shot menu answer: the trimmed line must be a number that
/// indexes the candidate list, else the whole command fails.
pub fn select_candidate(cands: &Vec<String>, line: &str) -> (r: Result<String, Error>)
    ensures
        ({
            let t = trim_spec(line@);
            match r {
                Ok(name) => t.len() > 0 && all_digits(t) && 0 <= digits_val(t)
                    < cands.deep_view().len() && name@ == cands.deep_view()[digits_val(t)],
                Err(e) => (e matches Error::InvalidSelection { answer } && answer@ == t) && (t.len()
                    == 0 || !all_digits(t) || digits_val(t) >= cands.deep_view().len()),
            }
        }),
{
    let t = trim(line);
    match parse_usize(t.as_str()) {
        Some(i) => {
            if i < cands.len() {
                let name: String = cands[i].clone();
                Ok(name)
            } else {
                Err(Error::InvalidSelection { answer: t })
            }
        },
        None => {
            proof {
                assert(cands.len() == cands@.len());
                assert(cands.deep_view().len() == cands@.len());
            }
            Err(Error::InvalidSelection { answer: t })
        },
    }
}

} // verus!
