//! Sort-key comparison: each key is the sequence of code points of a bound
//! name, optionally with upper-case ASCII letters lowered first, and keys are
//! ordered lexicographically.

use vstd::prelude::*;

verus! {

/// The comparison weight of one character: its code point, with an ASCII
/// upper-case letter lowered when `ignore_case` is set.
pub open spec fn char_key(c: char, ignore_case: bool) -> u32 {
    if ignore_case && 65 <= c as u32 && c as u32 <= 90 {
        (c as u32 + 32) as u32
    } else {
        c as u32
    }
}

/// The sort key of a name under the active case policy.
pub open spec fn sort_key(s: Seq<char>, ignore_case: bool) -> Seq<u32> {
    s.map_values(|c: char| char_key(c, ignore_case))
}

/// Strict lexicographic order on code-point sequences: a proper prefix
/// sorts before its extensions, and otherwise the first differing position
/// decides.
pub open spec fn seq_lt(a: Seq<u32>, b: Seq<u32>) -> bool
    decreases a.len(),
{
    if b.len() == 0 {
        false
    } else if a.len() == 0 {
        true
    } else if a[0] != b[0] {
        a[0] < b[0]
    } else {
        seq_lt(a.drop_first(), b.drop_first())
    }
}

/// `a` sorts strictly before `b` under the active case policy.
pub open spec fn key_lt(a: Seq<char>, b: Seq<char>, ignore_case: bool) -> bool {
    seq_lt(sort_key(a, ignore_case), sort_key(b, ignore_case))
}

/// Strict lexicographic order never holds between a sequence and itself,
/// so equal sort keys are never a violation.
pub proof fn lemma_seq_lt_irreflexive(a: Seq<u32>)
    ensures
        !seq_lt(a, a),
    decreases a.len(),
{
    if a.len() > 0 {
        lemma_seq_lt_irreflexive(a.drop_first());
    }
}

/// A shared prefix does not decide the order: comparison continues on the
/// remainders.
proof fn lemma_seq_lt_common_prefix(a: Seq<u32>, b: Seq<u32>, i: int)
    requires
        0 <= i <= a.len(),
        i <= b.len(),
        forall|j: int| 0 <= j < i ==> a[j] == b[j],
    ensures
        seq_lt(a, b) == seq_lt(a.skip(i), b.skip(i)),
    decreases i,
{
    if i > 0 {
        assert(a[0] == b[0]);
        assert(forall|j: int| 0 <= j < i - 1 ==> a.drop_first()[j] == b.drop_first()[j]);
        lemma_seq_lt_common_prefix(a.drop_first(), b.drop_first(), i - 1);
        assert(a.drop_first().skip(i - 1) =~= a.skip(i));
        assert(b.drop_first().skip(i - 1) =~= b.skip(i));
    } else {
        assert(a.skip(0) =~= a);
        assert(b.skip(0) =~= b);
    }
}

/// When the keys agree up to position `i` and differ there, the order of the
/// names is the order of the differing weights.
proof fn lemma_key_lt_decided(a: Seq<char>, b: Seq<char>, ignore_case: bool, i: int)
    requires
        0 <= i < a.len(),
        i < b.len(),
        forall|j: int| 0 <= j < i ==> char_key(a[j], ignore_case) == char_key(b[j], ignore_case),
        char_key(a[i], ignore_case) != char_key(b[i], ignore_case),
    ensures
        key_lt(a, b, ignore_case) == (char_key(a[i], ignore_case) < char_key(b[i], ignore_case)),
{
    let ka = sort_key(a, ignore_case);
    let kb = sort_key(b, ignore_case);
    assert(forall|j: int| 0 <= j < i ==> ka[j] == kb[j]);
    lemma_seq_lt_common_prefix(ka, kb, i);
    assert(ka.skip(i)[0] == ka[i]);
    assert(kb.skip(i)[0] == kb[i]);
}

/// When the keys agree over the whole shorter name, the shorter name sorts
/// first, and equal-length names are not ordered.
proof fn lemma_key_lt_prefix(a: Seq<char>, b: Seq<char>, ignore_case: bool, i: int)
    requires
        0 <= i <= a.len(),
        i <= b.len(),
        i == a.len() || i == b.len(),
        forall|j: int| 0 <= j < i ==> char_key(a[j], ignore_case) == char_key(b[j], ignore_case),
    ensures
        key_lt(a, b, ignore_case) == (a.len() < b.len()),
{
    let ka = sort_key(a, ignore_case);
    let kb = sort_key(b, ignore_case);
    assert(forall|j: int| 0 <= j < i ==> ka[j] == kb[j]);
    lemma_seq_lt_common_prefix(ka, kb, i);
}

/// The comparison weight of one character, executably.
pub fn lowered(c: char, ignore_case: bool) -> (k: u32)
    ensures
        k == char_key(c, ignore_case),
{
    let u = c as u32;
    if ignore_case && 65 <= u && u <= 90 {
        u + 32
    } else {
        u
    }
}

/// Whether two string slices hold the same characters.
pub fn str_eq(a: &str, b: &str) -> (r: bool)
    ensures
        r == (a@ == b@),
{
    let alen = a.unicode_len();
    let blen = b.unicode_len();
    if alen != blen {
        return false;
    }
    let mut i: usize = 0;
    while i < alen
        invariant
            i <= alen,
            alen == a@.len(),
            blen == b@.len(),
            alen == blen,
            forall|j: int| 0 <= j < i ==> a@[j] == b@[j],
        decreases alen - i,
    {
        if a.get_char(i) != b.get_char(i) {
            return false;
        }
        i += 1;
    }
    proof {
        assert(a@ =~= b@);
    }
    true
}

/// Whether `a`'s sort key orders strictly before `b`'s under the active
/// case policy.
pub fn str_key_lt(a: &str, b: &str, ignore_case: bool) -> (r: bool)
    ensures
        r == key_lt(a@, b@, ignore_case),
{
    let alen = a.unicode_len();
    let blen = b.unicode_len();
    let mut i: usize = 0;
    while i < alen && i < blen
        invariant
            i <= alen,
            i <= blen,
            alen == a@.len(),
            blen == b@.len(),
            forall|j: int| 0 <= j < i ==> char_key(a@[j], ignore_case) == char_key(
                b@[j],
                ignore_case,
            ),
        decreases alen - i,
    {
        let ka = lowered(a.get_char(i), ignore_case);
        let kb = lowered(b.get_char(i), ignore_case);
        if ka != kb {
            proof {
                lemma_key_lt_decided(a@, b@, ignore_case, i as int);
            }
            return ka < kb;
        }
        i += 1;
    }
    proof {
        lemma_key_lt_prefix(a@, b@, ignore_case, i as int);
    }
    alen < blen
}

} // verus!
