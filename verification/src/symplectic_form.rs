//! The standard symplectic form omega_0 = sum dx_i ^ dy_i on R^{2n}, and the shape
//! a matrix must have to represent a symplectic form.
use vstd::prelude::*;

verus! {

/// Entry (i, j) of the block matrix [[0, I], [-I, 0]] of size 2n.
pub open spec fn standard_entry(n: nat, i: nat, j: nat) -> int {
    if i < n && j == i + n {
        1
    } else if n <= i < 2 * n && j + n == i {
        -1
    } else {
        0
    }
}

/// The basis vector paired with e_i by omega_0: e_{i+n} for i < n, e_{i-n} otherwise.
pub open spec fn symplectic_partner(n: nat, i: nat) -> nat {
    if i < n { i + n } else { (i - n) as nat }
}

/// The entries of the standard symplectic form omega_0 on R^{2n}: the block matrix
/// [[0, I], [-I, 0]], row by row.
pub fn standard_form_matrix(n: usize) -> (m: Vec<Vec<i8>>)
    requires
        2 * n <= usize::MAX,
    ensures
        m@.len() == 2 * n,
        forall|i: int| 0 <= i < 2 * n ==> (#[trigger] m@[i])@.len() == 2 * n,
        forall|i: int, j: int|
            0 <= i < 2 * n && 0 <= j < 2 * n ==> #[trigger] m@[i]@[j] == standard_entry(
                n as nat,
                i as nat,
                j as nat,
            ),
        forall|i: int| 0 <= i < n ==> #[trigger] m@[i]@[i + n] == 1 && m@[i + n]@[i] == -1,
        forall|i: int, j: int|
            0 <= i < 2 * n && 0 <= j < 2 * n && !(i < n && j == i + n) && !(n <= i && j + n == i)
                ==> #[trigger] m@[i]@[j] == 0,
{
    let size = 2 * n;
    let mut m: Vec<Vec<i8>> = Vec::new();
    for i in 0..size
        invariant
            size == 2 * n,
            m@.len() == i,
            forall|r: int| 0 <= r < i ==> (#[trigger] m@[r])@.len() == size,
            forall|r: int, c: int|
                0 <= r < i && 0 <= c < size ==> #[trigger] m@[r]@[c] == standard_entry(
                    n as nat,
                    r as nat,
                    c as nat,
                ),
    {
        let mut row: Vec<i8> = Vec::new();
        for j in 0..size
            invariant
                size == 2 * n,
                i < size,
                row@.len() == j,
                forall|c: int|
                    0 <= c < j ==> row@[c] == standard_entry(n as nat, i as nat, c as nat),
        {
            let e: i8 = if i < n && j == i + n {
                1
            } else if n <= i && j == i - n {
                -1
            } else {
                0
            };
            row.push(e);
        }
        m.push(row);
    }
    m
}

/// A matrix can represent a symplectic form only if it is square, of even, nonzero size.
pub fn admissible_form_shape(nrows: usize, ncols: usize) -> (ok: bool)
    ensures
        ok == (nrows == ncols && nrows % 2 == 0 && nrows != 0),
{
    !(nrows != ncols || nrows % 2 != 0 || nrows == 0)
}

/// omega_0 is skew-symmetric: omega_0(e_i, e_j) = -omega_0(e_j, e_i).
pub proof fn lemma_standard_form_skew(n: nat, i: nat, j: nat)
    requires
        i < 2 * n,
        j < 2 * n,
    ensures
        standard_entry(n, i, j) == -standard_entry(n, j, i),
{
}

/// omega_0 is non-degenerate: each row holds a single nonzero entry, +1 or -1, in the
/// column of the partner of the row, so the matrix is a signed permutation.
pub proof fn lemma_standard_form_signed_permutation(n: nat, i: nat)
    requires
        i < 2 * n,
    ensures
        symplectic_partner(n, i) < 2 * n,
        symplectic_partner(n, symplectic_partner(n, i)) == i,
        standard_entry(n, i, symplectic_partner(n, i)) == (if i < n { 1int } else { -1int }),
        forall|j: nat| j != symplectic_partner(n, i) ==> #[trigger] standard_entry(n, i, j) == 0,
{
}

/// omega_0 = [[0, I], [-I, 0]]: e_i is paired with e_{i+n}, omega_0(e_i, e_{i+n}) = 1 and
/// omega_0(e_{i+n}, e_i) = -1 for each i < n, and every other entry is 0.
pub proof fn lemma_standard_form_blocks(n: nat)
    ensures
        forall|i: nat| i < n ==> #[trigger] standard_entry(n, i, i + n) == 1 && standard_entry(
            n,
            i + n,
            i,
        ) == -1,
        forall|i: nat, j: nat|
            !(i < n && j == i + n) && !(n <= i < 2 * n && j + n == i) ==> #[trigger] standard_entry(
                n,
                i,
                j,
            ) == 0,
{
}

} // verus!
