//! The decrypted record for one account, and its flat text form: the
//! password line, the username line, then everything else as notes. Decoding
//! joins all lines after the second with no separator, so newlines inside
//! notes collapse on a round trip — by design.

use vstd::prelude::*;
use vstd::seq_lib::*;
use vstd::string::*;

use crate::error::Error;
use crate::strutil::push_char;

verus! {

/// One account's decrypted fields; never stored in the clear.
pub struct Entry {
    pub password: String,
    pub username: String,
    pub notes: String,
}

pub open spec fn has_nl(s: Seq<char>) -> bool {
    exists|i: int| 0 <= i < s.len() && #[trigger] s[i] == '\n'
}

/// Index of the first newline; the length when there is none.
pub open spec fn first_nl(s: Seq<char>) -> int
    decreases s.len(),
{
    if s.len() == 0 {
        0
    } else if s[0] == '\n' {
        0
    } else {
        1 + first_nl(s.drop_first())
    }
}

/// The notes text with every newline removed.
pub open spec fn strip_nl(s: Seq<char>) -> Seq<char> {
    s.filter(|c: char| c != '\n')
}

/// The flat text form: `password\nusername\nnotes\n`.
pub open spec fn encoded(pw: Seq<char>, un: Seq<char>, no: Seq<char>) -> Seq<char> {
    pw + seq!['\n'] + un + seq!['\n'] + no + seq!['\n']
}

/// The text after the password line.
pub open spec fn dec_rest(s: Seq<char>) -> Seq<char> {
    s.subrange(first_nl(s) + 1, s.len() as int)
}

/// What decoding recovers as the password: the text before the first newline.
pub open spec fn dec_password(s: Seq<char>) -> Seq<char> {
    s.subrange(0, first_nl(s))
}

/// What decoding recovers as the username: the second newline-delimited line.
pub open spec fn dec_username(s: Seq<char>) -> Seq<char> {
    if has_nl(dec_rest(s)) {
        dec_rest(s).subrange(0, first_nl(dec_rest(s)))
    } else {
        dec_rest(s)
    }
}

/// What decoding recovers as the notes: every later line, joined with no
/// separator.
pub open spec fn dec_notes(s: Seq<char>) -> Seq<char> {
    if has_nl(dec_rest(s)) {
        strip_nl(dec_rest(s).subrange(first_nl(dec_rest(s)) + 1, dec_rest(s).len() as int))
    } else {
        Seq::<char>::empty()
    }
}

proof fn lemma_first_nl(s: Seq<char>)
    ensures
        0 <= first_nl(s) <= s.len(),
        has_nl(s) ==> first_nl(s) < s.len() && s[first_nl(s)] == '\n',
        !has_nl(s) ==> first_nl(s) == s.len(),
        forall|j: int| 0 <= j < first_nl(s) ==> s[j] != '\n',
    decreases s.len(),
{
    if s.len() == 0 {
    } else if s[0] == '\n' {
    } else {
        let d = s.drop_first();
        lemma_first_nl(d);
        if has_nl(s) {
            let i = choose|i: int| 0 <= i < s.len() && #[trigger] s[i] == '\n';
            assert(d[i - 1] == '\n');
            assert(has_nl(d));
        }
        if has_nl(d) {
            let i = choose|i: int| 0 <= i < d.len() && #[trigger] d[i] == '\n';
            assert(s[i + 1] == '\n');
            assert(has_nl(s));
        }
        assert forall|j: int| 0 <= j < first_nl(s) implies s[j] != '\n' by {
            if j > 0 {
                assert(d[j - 1] != '\n');
            }
        }
    }
}

/// The first newline is wherever a newline stands with none before it.
proof fn lemma_first_nl_at(s: Seq<char>, i: int)
    requires
        0 <= i < s.len(),
        s[i] == '\n',
        forall|j: int| 0 <= j < i ==> s[j] != '\n',
    ensures
        has_nl(s),
        first_nl(s) == i,
{
    assert(has_nl(s));
    lemma_first_nl(s);
    if first_nl(s) < i {
        assert(s[first_nl(s)] != '\n');
    }
}

proof fn lemma_strip_push(t: Seq<char>, c: char)
    ensures
        strip_nl(t.push(c)) == if c == '\n' {
            strip_nl(t)
        } else {
            strip_nl(t).push(c)
        },
{
    reveal(Seq::filter);
    assert((t.push(c)).drop_last() =~= t);
    assert((t.push(c)).last() == c);
}

/// Stripping leaves no newline behind.
proof fn lemma_strip_no_nl(t: Seq<char>)
    ensures
        !has_nl(strip_nl(t)),
{
    broadcast use Seq::lemma_filter_pred;

    if has_nl(strip_nl(t)) {
        let i = choose|i: int| 0 <= i < strip_nl(t).len() && #[trigger] strip_nl(t)[i] == '\n';
        assert(strip_nl(t)[i] != '\n');
    }
}

proof fn lemma_strip_single_nl()
    ensures
        strip_nl(seq!['\n']) == Seq::<char>::empty(),
{
    reveal(Seq::filter);
    let e = Seq::<char>::empty();
    assert(seq!['\n'] =~= e.push('\n'));
    lemma_strip_push(e, '\n');
    assert(strip_nl(e) =~= e);
}

/// A decoded password or username can hold no newline: each is cut off at
/// one.
pub proof fn lemma_dec_no_nl(s: Seq<char>)
    ensures
        !has_nl(dec_password(s)),
        !has_nl(dec_username(s)),
{
    lemma_first_nl(s);
    if has_nl(dec_password(s)) {
        let i = choose|i: int|
            0 <= i < dec_password(s).len() && #[trigger] dec_password(s)[i] == '\n';
        assert(s[i] != '\n');
    }
    let rest = dec_rest(s);
    lemma_first_nl(rest);
    if has_nl(dec_username(s)) {
        let i = choose|i: int|
            0 <= i < dec_username(s).len() && #[trigger] dec_username(s)[i] == '\n';
        if has_nl(rest) {
            assert(rest[i] != '\n');
        }
    }
}

/// Serializes an entry as `password\nusername\nnotes\n`.
pub fn encode(e: &Entry) -> (r: String)
    ensures
        r@ == encoded(e.password@, e.username@, e.notes@),
{
    let mut r = String::from_str(e.password.as_str());
    push_char(&mut r, '\n');
    r.append(e.username.as_str());
    push_char(&mut r, '\n');
    r.append(e.notes.as_str());
    push_char(&mut r, '\n');
    proof {
        assert(r@ =~= encoded(e.password@, e.username@, e.notes@));
    }
    r
}

/// First newline at or after `from`, if any.
fn find_nl(s: &str, from: usize) -> (r: Option<usize>)
    requires
        from <= s@.len(),
    ensures
        match r {
            Some(i) => from <= i < s@.len() && s@[i as int] == '\n' && forall|j: int|
                from <= j < i ==> s@[j] != '\n',
            None => forall|j: int| from <= j < s@.len() ==> s@[j] != '\n',
        },
{
    let len: usize = s.unicode_len();
    let mut i: usize = from;
    while i < len
        invariant
            from <= i <= len,
            len == s@.len(),
            forall|j: int| from <= j < i ==> s@[j] != '\n',
        decreases len - i,
    {
        if s.get_char(i) == '\n' {
            return Some(i);
        }
        i = i + 1;
    }
    None
}

/// Parses the flat text form back into an entry. Fails exactly when the text
/// has no newline at all, i.e. no separate password and username lines. The
/// recovered password and username never contain a newline, and neither do
/// the collapsed notes.
pub fn decode(s: &str) -> (r: Result<Entry, Error>)
    ensures
        match r {
            Ok(e) => has_nl(s@) && e.password@ == dec_password(s@) && e.username@ == dec_username(
                s@,
            ) && e.notes@ == dec_notes(s@) && !has_nl(e.password@) && !has_nl(e.username@)
                && !has_nl(e.notes@),
            Err(er) => !has_nl(s@) && (er is MalformedEntry),
        },
{
    let len: usize = s.unicode_len();
    let n1 = find_nl(s, 0);
    let i1: usize = match n1 {
        None => {
            proof {
                if has_nl(s@) {
                    let i = choose|i: int| 0 <= i < s@.len() && #[trigger] s@[i] == '\n';
                    assert(s@[i] != '\n');
                }
            }
            return Err(Error::MalformedEntry);
        },
        Some(i) => i,
    };
    proof {
        lemma_first_nl_at(s@, i1 as int);
    }
    let password = String::from_str(s.substring_char(0, i1));
    let ghost rest = dec_rest(s@);
    proof {
        assert(rest.len() == s@.len() - i1 - 1);
        assert(forall|j: int| 0 <= j < rest.len() ==> rest[j] == s@[i1 + 1 + j]);
    }
    let n2 = find_nl(s, i1 + 1);
    match n2 {
        None => {
            let username = String::from_str(s.substring_char(i1 + 1, len));
            proof {
                if has_nl(rest) {
                    let i = choose|i: int| 0 <= i < rest.len() && #[trigger] rest[i] == '\n';
                    assert(s@[i1 + 1 + i] != '\n');
                }
                assert(username@ =~= rest);
                lemma_first_nl(s@);
            }
            Ok(Entry { password, username, notes: String::new() })
        },
        Some(i2) => {
            let username = String::from_str(s.substring_char(i1 + 1, i2));
            proof {
                lemma_first_nl_at(rest, i2 - i1 - 1);
                assert(username@ =~= rest.subrange(0, first_nl(rest)));
                lemma_first_nl(rest);
                assert(!has_nl(username@)) by {
                    if has_nl(username@) {
                        let i = choose|i: int|
                            0 <= i < username@.len() && #[trigger] username@[i] == '\n';
                        assert(rest[i] != '\n');
                    }
                }
                lemma_first_nl(s@);
            }
            let mut notes = String::new();
            let mut k: usize = i2 + 1;
            while k < len
                invariant
                    i2 + 1 <= k <= len,
                    len == s@.len(),
                    notes@ == strip_nl(s@.subrange(i2 + 1, k as int)),
                decreases len - k,
            {
                let c = s.get_char(k);
                proof {
                    assert(s@.subrange(i2 + 1, k as int + 1) =~= s@.subrange(i2 + 1, k as int).push(
                        s@[k as int],
                    ));
                    lemma_strip_push(s@.subrange(i2 + 1, k as int), s@[k as int]);
                }
                if c != '\n' {
                    push_char(&mut notes, c);
                }
                k = k + 1;
            }
            proof {
                assert(s@.subrange(i2 + 1, len as int) =~= rest.subrange(
                    first_nl(rest) + 1,
                    rest.len() as int,
                ));
                lemma_strip_no_nl(s@.subrange(i2 + 1, len as int));
            }
            Ok(Entry { password, username, notes })
        },
    }
}

/// Encoding then decoding gives the password and username back exactly and
/// collapses the newlines of the notes — provided the password and username
/// held no newline of their own, which nothing enforces at encoding time.
pub proof fn lemma_round_trip(pw: Seq<char>, un: Seq<char>, no: Seq<char>)
    requires
        !has_nl(pw),
        !has_nl(un),
    ensures
        has_nl(encoded(pw, un, no)),
        dec_password(encoded(pw, un, no)) == pw,
        dec_username(encoded(pw, un, no)) == un,
        dec_notes(encoded(pw, un, no)) == strip_nl(no),
{
    broadcast use Seq::filter_distributes_over_add;

    let s = encoded(pw, un, no);
    let nl = seq!['\n'];
    assert(s[pw.len() as int] == '\n');
    assert forall|j: int| 0 <= j < pw.len() implies s[j] != '\n' by {
        assert(s[j] == pw[j]);
    }
    lemma_first_nl_at(s, pw.len() as int);
    assert(dec_password(s) =~= pw);
    let rest = dec_rest(s);
    assert(rest =~= un + nl + no + nl);
    assert(rest[un.len() as int] == '\n');
    assert forall|j: int| 0 <= j < un.len() implies rest[j] != '\n' by {
        assert(rest[j] == un[j]);
    }
    lemma_first_nl_at(rest, un.len() as int);
    assert(dec_username(s) =~= un);
    let tail = rest.subrange(first_nl(rest) + 1, rest.len() as int);
    assert(tail =~= no + nl);
    lemma_strip_single_nl();
    assert(strip_nl(no + nl) == strip_nl(no) + strip_nl(nl));
    assert(strip_nl(no) + Seq::<char>::empty() =~= strip_nl(no));
}

} // verus!
