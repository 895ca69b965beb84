//! Case folding: every character is replaced by its lowercase mapping, and
//! comparisons made on the folded text are case-insensitive.
//!
//! The mapping of a single character is taken from the standard library and
//! is not written out here; it is only named, by `fold_char`. Folding a whole
//! sequence is then the concatenation of the mappings of its characters,
//! which makes folding distribute over concatenation — the fact the search
//! proofs rest on.

use vstd::prelude::*;

use crate::text::contains_at;
use crate::text::contains_seq;

verus! {

/// The lowercase mapping of one character, as the sequence of characters it
/// folds to. The mapping depends on the character alone; its value is not
/// stated here.
pub uninterp spec fn fold_char(c: char) -> Seq<char>;

/// Relies on char::to_lowercase: the lowercase mapping of a character,
/// which depends on that character alone.
#[verifier::external_body]
fn char_lower(c: char) -> (r: Vec<char>)
    ensures
        r@ == fold_char(c),
{
    c.to_lowercase().collect()
}

/// Relies on String::push: appends the character at the end of the string.
#[verifier::external_body]
fn push_char(s: &mut String, c: char)
    ensures
        final(s)@ == old(s)@.push(c),
{
    s.push(c);
}

/// The case-folded form of a sequence of characters: each character replaced
/// by its lowercase mapping, in order.
pub open spec fn fold_seq(s: Seq<char>) -> Seq<char>
    decreases s.len(),
{
    if s.len() == 0 {
        Seq::empty()
    } else {
        fold_char(s[0]) + fold_seq(s.drop_first())
    }
}

/// Folding distributes over concatenation.
pub proof fn lemma_fold_distributes(a: Seq<char>, b: Seq<char>)
    ensures
        fold_seq(a + b) == fold_seq(a) + fold_seq(b),
    decreases a.len(),
{
    if a.len() == 0 {
        assert(a + b =~= b);
        assert(fold_seq(a) + fold_seq(b) =~= fold_seq(b));
    } else {
        assert((a + b).drop_first() =~= a.drop_first() + b);
        lemma_fold_distributes(a.drop_first(), b);
        assert((a + b)[0] == a[0]);
        assert(fold_char(a[0]) + (fold_seq(a.drop_first()) + fold_seq(b)) =~= (fold_char(a[0])
            + fold_seq(a.drop_first())) + fold_seq(b));
    }
}

/// Folding a one-character sequence gives that character's mapping.
pub proof fn lemma_fold_singleton(c: char)
    ensures
        fold_seq(seq![c]) == fold_char(c),
{
    assert(seq![c].len() == 1);
    assert(seq![c][0] == c);
    assert(seq![c].drop_first() =~= Seq::<char>::empty());
    assert(fold_seq(seq![c]) == fold_char(c) + fold_seq(Seq::<char>::empty()));
    assert(fold_char(c) + Seq::<char>::empty() =~= fold_char(c));
}

/// An exact substring occurrence survives case folding: if `needle` occurs
/// in `hay`, the folded needle occurs in the folded hay.
pub proof fn lemma_fold_preserves_contains(hay: Seq<char>, needle: Seq<char>)
    requires
        contains_seq(hay, needle),
    ensures
        contains_seq(fold_seq(hay), fold_seq(needle)),
{
    let i = choose|i: int| contains_at(hay, needle, i);
    let front = hay.subrange(0, i);
    let back = hay.subrange(i + needle.len() as int, hay.len() as int);
    assert(hay =~= front + needle + back);
    lemma_fold_distributes(front + needle, back);
    lemma_fold_distributes(front, needle);
    let j = fold_seq(front).len() as int;
    assert(fold_seq(hay).subrange(j, j + fold_seq(needle).len() as int) =~= fold_seq(needle));
    assert(contains_at(fold_seq(hay), fold_seq(needle), j));
}

/// The case-folded form of a string, built character by character.
pub fn lower_str(s: &str) -> (r: String)
    ensures
        r@ == fold_seq(s@),
{
    let n = s.unicode_len();
    let mut r = String::new();
    let mut i: usize = 0;
    while i < n
        invariant
            n == s@.len(),
            i <= n,
            r@ == fold_seq(s@.take(i as int)),
        decreases n - i,
    {
        let mapped = char_lower(s.get_char(i));
        let m = mapped.len();
        let mut j: usize = 0;
        while j < m
            invariant
                i < n == s@.len(),
                m == mapped@.len(),
                j <= m,
                mapped@ == fold_char(s@[i as int]),
                r@ == fold_seq(s@.take(i as int)) + mapped@.take(j as int),
            decreases m - j,
        {
            push_char(&mut r, mapped[j]);
            proof {
                assert(mapped@.take(j + 1) =~= mapped@.take(j as int).push(mapped@[j as int]));
                assert(fold_seq(s@.take(i as int)) + mapped@.take(j + 1) =~= (fold_seq(s@.take(
                    i as int,
                )) + mapped@.take(j as int)).push(mapped@[j as int]));
            }
            j += 1;
        }
        proof {
            assert(mapped@.take(m as int) =~= mapped@);
            assert(s@.take(i + 1) =~= s@.take(i as int) + seq![s@[i as int]]);
            lemma_fold_distributes(s@.take(i as int), seq![s@[i as int]]);
            lemma_fold_singleton(s@[i as int]);
        }
        i += 1;
    }
    proof {
        assert(s@.take(n as int) =~= s@);
    }
    r
}

} // verus!
