//! Edit distance between two character sequences, with unit cost for each
//! single-character insertion, deletion and substitution.

use vstd::prelude::*;
use vstd::string::StrSliceExecFns;

verus! {

/// Smallest of three naturals.
pub open spec fn min3(x: nat, y: nat, z: nat) -> nat {
    if x <= y && x <= z {
        x
    } else if y <= z {
        y
    } else {
        z
    }
}

/// The minimum number of single-character insertions, deletions and
/// substitutions (each of cost 1) that transform `a` into `b`.
pub open spec fn edit_dist(a: Seq<char>, b: Seq<char>) -> nat
    decreases a.len() + b.len(),
{
    if a.len() == 0 {
        b.len()
    } else if b.len() == 0 {
        a.len()
    } else {
        let deletion = edit_dist(a.drop_last(), b) + 1;
        let insertion = edit_dist(a, b.drop_last()) + 1;
        let change: nat = if a.last() == b.last() {
            0
        } else {
            1
        };
        let substitution = edit_dist(a.drop_last(), b.drop_last()) + change;
        min3(deletion, insertion, substitution)
    }
}

/// The distance never exceeds the longer of the two lengths.
pub proof fn lemma_edit_dist_le_max(a: Seq<char>, b: Seq<char>)
    ensures
        edit_dist(a, b) <= if a.len() >= b.len() {
            a.len()
        } else {
            b.len()
        },
    decreases a.len() + b.len(),
{
    if a.len() > 0 && b.len() > 0 {
        lemma_edit_dist_le_max(a.drop_last(), b.drop_last());
    }
}

/// A sequence is at distance 0 from itself.
pub proof fn lemma_edit_dist_self(a: Seq<char>)
    ensures
        edit_dist(a, a) == 0,
    decreases a.len(),
{
    if a.len() > 0 {
        lemma_edit_dist_self(a.drop_last());
    }
}

/// The distance to or from the empty sequence is the other sequence's length.
pub proof fn lemma_edit_dist_empty(s: Seq<char>)
    ensures
        edit_dist(Seq::<char>::empty(), s) == s.len(),
        edit_dist(s, Seq::<char>::empty()) == s.len(),
{
}

/// The distance is 0 exactly when the two sequences are equal, so a fitness
/// of 0 means a perfect match of the target.
pub proof fn lemma_edit_dist_zero_iff_eq(a: Seq<char>, b: Seq<char>)
    ensures
        edit_dist(a, b) == 0 <==> a == b,
    decreases a.len() + b.len(),
{
    if a == b {
        lemma_edit_dist_self(a);
    }
    if edit_dist(a, b) == 0 {
        if a.len() == 0 {
            assert(b.len() == 0);
            assert(a =~= b);
        } else if b.len() == 0 {
            assert(edit_dist(a, b) == a.len());
            assert(a =~= b);
        } else {
            lemma_edit_dist_zero_iff_eq(a.drop_last(), b.drop_last());
            assert(a.last() == b.last());
            assert(a.drop_last() == b.drop_last());
            assert forall|i: int| 0 <= i < a.len() implies a[i] == b[i] by {
                if i < a.len() - 1 {
                    assert(a[i] == a.drop_last()[i]);
                    assert(b[i] == b.drop_last()[i]);
                } else {
                    assert(a[i] == a.last());
                    assert(b[i] == b.last());
                }
            }
            assert(a =~= b);
        }
    }
}

/// The distance is symmetric: transforming `a` into `b` costs exactly as much
/// as transforming `b` into `a`.
pub proof fn lemma_edit_dist_sym(a: Seq<char>, b: Seq<char>)
    ensures
        edit_dist(a, b) == edit_dist(b, a),
    decreases a.len() + b.len(),
{
    if a.len() > 0 && b.len() > 0 {
        lemma_edit_dist_sym(a.drop_last(), b);
        lemma_edit_dist_sym(a, b.drop_last());
        lemma_edit_dist_sym(a.drop_last(), b.drop_last());
    }
}

/// Collect the characters of a string slice into a vector.
fn chars_of(s: &str) -> (v: Vec<char>)
    ensures
        v@ == s@,
{
    let n = s.unicode_len();
    let mut v: Vec<char> = Vec::new();
    let mut i: usize = 0;
    while i < n
        invariant
            i <= n,
            n == s@.len(),
            v@ == s@.take(i as int),
        decreases n - i,
    {
        let c = s.get_char(i);
        v.push(c);
        proof {
            assert(v@ =~= s@.take(i + 1));
        }
        i += 1;
    }
    proof {
        assert(s@.take(n as int) =~= s@);
    }
    v
}

/// Dynamic-programming edit distance over character vectors. Row 0 and
/// column 0 of the matrix hold the index; every further cell is the minimum
/// of the three neighbouring cells plus the local cost.
pub fn char_distance(a: &Vec<char>, b: &Vec<char>) -> (d: usize)
    requires
        a@.len() < usize::MAX,
        b@.len() < usize::MAX,
    ensures
        d == edit_dist(a@, b@),
{
    let m = a.len();
    let n = b.len();

    let mut mat: Vec<Vec<usize>> = Vec::new();
    let mut row0: Vec<usize> = Vec::new();
    let mut j: usize = 0;
    while j <= n
        invariant
            j <= n + 1,
            n == b@.len(),
            n < usize::MAX,
            row0@.len() == j,
            forall|c: int| 0 <= c < j ==> row0@[c] == c,
        decreases n + 1 - j,
    {
        row0.push(j);
        j += 1;
    }
    mat.push(row0);

    let mut i: usize = 1;
    while i <= m
        invariant
            1 <= i <= m + 1,
            m == a@.len(),
            n == b@.len(),
            m < usize::MAX,
            n < usize::MAX,
            mat@.len() == i,
            forall|r: int| 0 <= r < i ==> (#[trigger] mat@[r])@.len() == n + 1,
            forall|r: int, c: int|
                0 <= r < i && 0 <= c <= n ==> (#[trigger] mat@[r]@[c]) == edit_dist(
                    a@.take(r),
                    b@.take(c),
                ),
        decreases m + 1 - i,
    {
        let mut row: Vec<usize> = Vec::new();
        row.push(i);
        proof {
            assert(a@.take(i as int).len() == i);
            assert(b@.take(0).len() == 0);
        }
        let mut j: usize = 1;
        while j <= n
            invariant
                1 <= i <= m,
                1 <= j <= n + 1,
                m == a@.len(),
                n == b@.len(),
                m < usize::MAX,
                n < usize::MAX,
                mat@.len() == i,
                forall|r: int| 0 <= r < i ==> (#[trigger] mat@[r])@.len() == n + 1,
                forall|r: int, c: int|
                    0 <= r < i && 0 <= c <= n ==> (#[trigger] mat@[r]@[c]) == edit_dist(
                        a@.take(r),
                        b@.take(c),
                    ),
                row@.len() == j,
                forall|c: int|
                    0 <= c < j ==> (#[trigger] row@[c]) == edit_dist(a@.take(i as int), b@.take(c)),
            decreases n + 1 - j,
        {
            proof {
                lemma_edit_dist_le_max(a@.take(i - 1), b@.take(j as int));
                lemma_edit_dist_le_max(a@.take(i as int), b@.take(j - 1));
                lemma_edit_dist_le_max(a@.take(i - 1), b@.take(j - 1));
            }
            let cost: usize = if a[i - 1] == b[j - 1] {
                0
            } else {
                1
            };
            let deletion = mat[i - 1][j] + 1;
            let insertion = row[j - 1] + 1;
            let substitution = mat[i - 1][j - 1] + cost;
            let mut best = if deletion < insertion {
                deletion
            } else {
                insertion
            };
            if substitution < best {
                best = substitution;
            }
            proof {
                let ai = a@.take(i as int);
                let bj = b@.take(j as int);
                assert(ai.drop_last() =~= a@.take(i - 1));
                assert(bj.drop_last() =~= b@.take(j - 1));
                assert(ai.last() == a@[i - 1]);
                assert(bj.last() == b@[j - 1]);
                assert(best == edit_dist(ai, bj));
            }
            row.push(best);
            j += 1;
        }
        mat.push(row);
        i += 1;
    }
    proof {
        assert(a@.take(m as int) =~= a@);
        assert(b@.take(n as int) =~= b@);
    }
    mat[m][n]
}

/// Edit distance between two strings, as in the classic matrix formulation.
pub fn levenshtein(word1: &str, word2: &str) -> (d: i32)
    requires
        word1@.len() <= i32::MAX,
        word2@.len() <= i32::MAX,
    ensures
        d == edit_dist(word1@, word2@),
{
    let a = chars_of(word1);
    let b = chars_of(word2);
    proof {
        lemma_edit_dist_le_max(a@, b@);
    }
    let d = char_distance(&a, &b);
    d as i32
}

} // verus!
