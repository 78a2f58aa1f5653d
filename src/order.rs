//! The mathematical order on names and on records.

use vstd::prelude::*;
use vstd::string::StrSliceExecFns;
use std::cmp::Ordering;

verus! {

/// Lexicographic comparison of two names, character by character by code point.
/// A proper prefix comes before the longer name.
pub open spec fn name_cmp(a: Seq<char>, b: Seq<char>) -> Ordering
    decreases a.len(),
{
    if a.len() == 0 {
        if b.len() == 0 {
            Ordering::Equal
        } else {
            Ordering::Less
        }
    } else if b.len() == 0 {
        Ordering::Greater
    } else if a[0] < b[0] {
        Ordering::Less
    } else if a[0] > b[0] {
        Ordering::Greater
    } else {
        name_cmp(a.drop_first(), b.drop_first())
    }
}

/// The opposite comparison gives the opposite answer.
pub proof fn lemma_name_cmp_flip(a: Seq<char>, b: Seq<char>)
    ensures
        name_cmp(a, b) == Ordering::Less <==> name_cmp(b, a) == Ordering::Greater,
        name_cmp(a, b) == Ordering::Equal <==> name_cmp(b, a) == Ordering::Equal,
    decreases a.len(),
{
    if a.len() > 0 && b.len() > 0 && a[0] == b[0] {
        lemma_name_cmp_flip(a.drop_first(), b.drop_first());
    }
}

/// Two names compare equal exactly when they are the same name.
pub proof fn lemma_name_cmp_equal(a: Seq<char>, b: Seq<char>)
    ensures
        name_cmp(a, b) == Ordering::Equal <==> a == b,
    decreases a.len(),
{
    if a.len() > 0 && b.len() > 0 && a[0] == b[0] {
        lemma_name_cmp_equal(a.drop_first(), b.drop_first());
        if a.drop_first() == b.drop_first() {
            assert(a =~= seq![a[0]] + a.drop_first());
            assert(b =~= seq![b[0]] + b.drop_first());
        }
    }
    if a.len() == 0 && b.len() == 0 {
        assert(a =~= b);
    }
}

/// `Less` on names is transitive.
pub proof fn lemma_name_cmp_transitive(a: Seq<char>, b: Seq<char>, c: Seq<char>)
    requires
        name_cmp(a, b) == Ordering::Less,
        name_cmp(b, c) == Ordering::Less,
    ensures
        name_cmp(a, c) == Ordering::Less,
    decreases a.len(),
{
    if a.len() > 0 && b.len() > 0 && c.len() > 0 && a[0] == b[0] && b[0] == c[0] {
        lemma_name_cmp_transitive(a.drop_first(), b.drop_first(), c.drop_first());
    }
}

/// Comparing two names from position `i` on decides the comparison of the whole
/// names, once the characters before `i` agree.
proof fn lemma_name_cmp_step(a: Seq<char>, b: Seq<char>, i: int)
    requires
        0 <= i < a.len(),
        i < b.len(),
    ensures
        a[i] < b[i] ==> name_cmp(a.skip(i), b.skip(i)) == Ordering::Less,
        a[i] > b[i] ==> name_cmp(a.skip(i), b.skip(i)) == Ordering::Greater,
        a[i] == b[i] ==> name_cmp(a.skip(i), b.skip(i)) == name_cmp(a.skip(i + 1), b.skip(i + 1)),
{
    assert(a.skip(i).drop_first() =~= a.skip(i + 1));
    assert(b.skip(i).drop_first() =~= b.skip(i + 1));
}

/// Compares two names lexicographically by code point.
pub fn compare_names(a: &str, b: &str) -> (r: Ordering)
    ensures
        r == name_cmp(a@, b@),
{
    let la = a.unicode_len();
    let lb = b.unicode_len();
    let mut i: usize = 0;
    assert(a@.skip(0) =~= a@);
    assert(b@.skip(0) =~= b@);
    while i < la && i < lb
        invariant
            la == a@.len(),
            lb == b@.len(),
            i <= la,
            i <= lb,
            name_cmp(a@, b@) == name_cmp(a@.skip(i as int), b@.skip(i as int)),
        decreases la - i,
    {
        let ca = a.get_char(i);
        let cb = b.get_char(i);
        proof {
            lemma_name_cmp_step(a@, b@, i as int);
        }
        if ca < cb {
            return Ordering::Less;
        }
        if ca > cb {
            return Ordering::Greater;
        }
        i = i + 1;
    }
    if i == la {
        if i == lb {
            Ordering::Equal
        } else {
            Ordering::Less
        }
    } else {
        Ordering::Greater
    }
}

} // verus!
