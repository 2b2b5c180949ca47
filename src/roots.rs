//! Where the roots of a sampled polynomial lie.
//!
//! A polynomial is sampled left to right on a fixed grid; for each sample the
//! scan records whether the value is at most zero. A value of exactly zero
//! counts with the negative side. Wherever that flag flips between two
//! neighbouring samples, a root lies between them.
use vstd::prelude::*;

verus! {

/// Why a level cannot be built from a polynomial.
#[derive(Debug, Clone, Copy, PartialEq, Eq, Structural)]
pub enum LevelError {
    /// The scan found fewer than two roots, so there is no playable interval.
    InsufficientRoots,
}

/// Sample `i` lies on the other side of zero than sample `i - 1`: a root
/// lies between the two.
pub open spec fn is_sign_change(nonpositive: Seq<bool>, i: int) -> bool {
    1 <= i < nonpositive.len() && nonpositive[i - 1] != nonpositive[i]
}

/// The scan finds at least two roots.
pub open spec fn has_two_sign_changes(nonpositive: Seq<bool>) -> bool {
    exists|a: int, b: int|
        #![trigger is_sign_change(nonpositive, a), is_sign_change(nonpositive, b)]
        a < b && is_sign_change(nonpositive, a) && is_sign_change(nonpositive, b)
}

/// The indices `i` of all samples whose sign differs from that of sample
/// `i - 1`, in increasing order. Each index stands for one root, between
/// samples `i - 1` and `i`.
pub fn sign_changes(nonpositive: &Vec<bool>) -> (r: Vec<usize>)
    ensures
        forall|j: int, k: int| 0 <= j < k < r.len() ==> r[j] < r[k],
        forall|j: int| 0 <= j < r.len() ==> is_sign_change(nonpositive@, r[j] as int),
        forall|i: int|
            is_sign_change(nonpositive@, i) ==> exists|j: int| 0 <= j < r.len() && r[j] == i,
{
    let mut r: Vec<usize> = Vec::new();
    let n = nonpositive.len();
    let mut i: usize = 1;
    while i < n
        invariant
            1 <= i,
            n == nonpositive@.len(),
            i <= n || n == 0,
            forall|j: int, k: int| 0 <= j < k < r.len() ==> r[j] < r[k],
            forall|j: int| 0 <= j < r.len() ==> r[j] < i,
            forall|j: int| 0 <= j < r.len() ==> is_sign_change(nonpositive@, r[j] as int),
            forall|m: int|
                m < i && is_sign_change(nonpositive@, m) ==> exists|j: int|
                    0 <= j < r.len() && r[j] == m,
        decreases n - i,
    {
        let ghost before = r@;
        if nonpositive[i - 1] != nonpositive[i] {
            r.push(i);
        }
        assert forall|m: int|
            m < i + 1 && is_sign_change(nonpositive@, m) implies exists|j: int|
                0 <= j < r.len() && r[j] == m by {
            if m < i {
                let j = choose|j: int| 0 <= j < before.len() && before[j] == m;
                assert(r[j] == m);
            } else {
                assert(r[r.len() - 1] == m);
            }
        }
        i = i + 1;
    }
    r
}

/// The samples that bound the playable interval: the first two roots that
/// the scan finds, each given by the index of the sample just after it.
/// With fewer than two roots there is no level to play.
pub fn playable_bracket(nonpositive: &Vec<bool>) -> (r: Result<(usize, usize), LevelError>)
    ensures
        r is Err <==> !has_two_sign_changes(nonpositive@),
        r matches Err(e) ==> e == LevelError::InsufficientRoots,
        r matches Ok((a, b)) ==> {
            &&& a < b
            &&& is_sign_change(nonpositive@, a as int)
            &&& is_sign_change(nonpositive@, b as int)
            &&& forall|i: int| is_sign_change(nonpositive@, i) && i < b ==> i == a
        },
{
    let roots = sign_changes(nonpositive);
    if roots.len() < 2 {
        proof {
            if has_two_sign_changes(nonpositive@) {
                let (a, b) = choose|a: int, b: int|
                    a < b && is_sign_change(nonpositive@, a) && is_sign_change(nonpositive@, b);
                let ja = choose|j: int| 0 <= j < roots.len() && roots[j] == a;
                let jb = choose|j: int| 0 <= j < roots.len() && roots[j] == b;
                assert(ja != jb);
            }
        }
        Err(LevelError::InsufficientRoots)
    } else {
        let a = roots[0];
        let b = roots[1];
        assert(is_sign_change(nonpositive@, a as int) && is_sign_change(nonpositive@, b as int));
        assert forall|i: int| is_sign_change(nonpositive@, i) && i < b implies i == a by {
            let j = choose|j: int| 0 <= j < roots.len() && roots[j] == i;
            if j >= 1 {
                if j > 1 {
                    assert(roots[1] < roots[j]);
                }
            }
        }
        Ok((a, b))
    }
}

/// Samples that all lie on one side of zero hold no root: a level cannot
/// be built from them.
pub proof fn lemma_constant_sign_has_no_roots(nonpositive: Seq<bool>)
    requires
        forall|i: int, j: int|
            0 <= i < nonpositive.len() && 0 <= j < nonpositive.len() ==> nonpositive[i]
                == nonpositive[j],
    ensures
        forall|i: int| !is_sign_change(nonpositive, i),
        !has_two_sign_changes(nonpositive),
{
}

} // verus!
