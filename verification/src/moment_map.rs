//! Moment maps and Hamiltonian group actions: which actions satisfy the moment map
//! condition {mu_xi, mu_eta} = mu_[xi, eta] automatically.
use vstd::prelude::*;

verus! {

/// `pattern` occurs in `text` as a contiguous block of characters.
pub open spec fn occurs_in(pattern: Seq<char>, text: Seq<char>) -> bool {
    exists|i: int|
        0 <= i && i + pattern.len() <= text.len() && #[trigger] text.subrange(
            i,
            i + pattern.len(),
        ) == pattern
}

/// Whether `pattern` occurs in `text`, as `str::contains` answers it.
pub fn contains_str(text: &str, pattern: &str) -> (found: bool)
    ensures
        found == occurs_in(pattern@, text@),
{
    let t = text.unicode_len();
    let p = pattern.unicode_len();
    if p > t {
        return false;
    }
    if p == 0 {
        assert(text@.subrange(0, 0 + pattern@.len() as int) =~= pattern@);
        return true;
    }
    let mut i: usize = 0;
    while i <= t - p
        invariant
            t == text@.len(),
            p == pattern@.len(),
            0 < p <= t,
            i <= t - p + 1,
            forall|s: int| 0 <= s < i ==> #[trigger] text@.subrange(s, s + p) != pattern@,
        decreases t - p + 1 - i,
    {
        let mut j: usize = 0;
        let mut matched = true;
        while j < p
            invariant
                t == text@.len(),
                p == pattern@.len(),
                i + p <= t,
                j <= p,
                matched ==> forall|c: int| 0 <= c < j ==> text@[i + c] == pattern@[c],
                !matched ==> text@.subrange(i as int, i + p) != pattern@,
            decreases p - j,
        {
            if matched && text.get_char(i + j) != pattern.get_char(j) {
                matched = false;
                assert(text@.subrange(i as int, i + p)[j as int] != pattern@[j as int]);
            }
            j = j + 1;
        }
        if matched {
            assert(text@.subrange(i as int, i + p) =~= pattern@);
            return true;
        }
        i = i + 1;
    }
    proof {
        assert forall|s: int| 0 <= s && s + p <= t implies #[trigger] text@.subrange(s, s + p)
            != pattern@ by {
            assert(s < i);
        }
    }
    false
}

/// The moment map condition {mu_xi, mu_eta} = mu_[xi, eta} holds automatically for abelian
/// groups (tori), where [xi, eta] = 0 and the Poisson brackets of the components vanish.
/// A group is recognised as a torus by its name: one containing "S¹" or "T".
pub fn moment_map_condition_holds(group_name: &str) -> (holds: bool)
    ensures
        holds == (occurs_in("S¹"@, group_name@) || occurs_in("T"@, group_name@)),
{
    contains_str(group_name, "S¹") || contains_str(group_name, "T")
}

} // verus!
