//! The password generator: draw each character independently at random from
//! the configured pool, then shuffle the result so the order carries no
//! trace of how the drawing proceeded.

use vstd::prelude::*;
use vstd::seq_lib::*;
use vstd::string::*;

use crate::rng::{fresh_rng, random_index, shuffle_chars};
use crate::strutil::chars_to_string;

verus! {

/// Generates a password of exactly `length` characters, each drawn
/// uniformly — with repetition — from `choices`. A zero length gives the
/// empty string; otherwise the pool must hold at least one character, since
/// nothing can be drawn from an empty pool.
pub fn generate(choices: &str, length: usize) -> (r: String)
    requires
        length == 0 || choices@.len() > 0,
    ensures
        r@.len() == length as int,
        forall|i: int| 0 <= i < r@.len() ==> choices@.contains(#[trigger] r@[i]),
{
    broadcast use group_to_multiset_ensures;

    let mut rng = fresh_rng();
    let n: usize = choices.unicode_len();
    let mut pw: Vec<char> = Vec::new();
    let mut i: usize = 0;
    while i < length
        invariant
            0 <= i <= length,
            n == choices@.len(),
            length == 0 || n > 0,
            pw@.len() == i,
            forall|j: int| 0 <= j < pw@.len() ==> choices@.contains(#[trigger] pw@[j]),
        decreases length - i,
    {
        let k = random_index(&mut rng, n);
        let c = choices.get_char(k);
        pw.push(c);
        proof {
            assert(choices@.contains(choices@[k as int]));
        }
        i = i + 1;
    }
    let ghost drawn = pw@;
    shuffle_chars(&mut rng, &mut pw);
    proof {
        assert(pw@.len() == pw@.to_multiset().len());
        assert(drawn.len() == drawn.to_multiset().len());
        assert forall|i2: int| 0 <= i2 < pw@.len() implies choices@.contains(
            #[trigger] pw@[i2],
        ) by {
            assert(pw@.contains(pw@[i2]));
            assert(pw@.to_multiset().count(pw@[i2]) > 0);
            assert(drawn.to_multiset().count(pw@[i2]) > 0);
            assert(drawn.contains(pw@[i2]));
            let j = choose|j: int| 0 <= j < drawn.len() && drawn[j] == pw@[i2];
            assert(choices@.contains(drawn[j]));
        }
    }
    chars_to_string(&pw)
}

} // verus!
