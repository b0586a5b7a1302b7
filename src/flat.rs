use vstd::prelude::*;

use crate::scalar::Scalar;
use crate::shape::{rows_have_len, ShapeError};
use crate::solver::{is_square, pagerank, pagerank_spec, rows_view};

verus! {

/// `flat` holds an `n` by `n` matrix row after row.
pub open spec fn is_flat_square<S>(flat: Seq<S>, n: nat) -> bool {
    n >= 1 && flat.len() == n * n
}

/// The `n` by `n` matrix that `flat` holds row after row.
pub open spec fn flat_rows<S>(flat: Seq<S>, n: nat) -> Seq<Seq<S>> {
    Seq::new(n, |i: int| Seq::new(n, |j: int| flat[i * n + j]))
}

/// The rows of the `n` by `n` matrix that `flat` holds row after row: entry
/// `(i, j)` is `flat[i * n + j]`.
pub fn rows_from_flat<S: Scalar>(flat: &Vec<S>, n: usize) -> (r: Result<Vec<Vec<S>>, ShapeError>)
    ensures
        r is Ok <==> is_flat_square(flat@, n as nat),
        r is Err ==> r->Err_0 == (if n == 0 {
            ShapeError::Empty
        } else {
            ShapeError::NotSquare
        }),
        r is Ok ==> is_square(r->Ok_0@, n as nat),
        r is Ok ==> forall|i: int, j: int|
            0 <= i < n && 0 <= j < n ==> #[trigger] r->Ok_0@[i]@[j] == flat@[i * n + j],
        r is Ok ==> rows_view(r->Ok_0@) == flat_rows(flat@, n as nat),
{
    if n == 0 {
        return Err(ShapeError::Empty);
    }
    let flat_len = flat.len();
    match n.checked_mul(n) {
        Some(len) => {
            if len != flat_len {
                return Err(ShapeError::NotSquare);
            }
        },
        None => {
            return Err(ShapeError::NotSquare);
        },
    }
    let mut rows: Vec<Vec<S>> = Vec::new();
    let mut i: usize = 0;
    while i < n
        invariant
            n >= 1,
            flat@.len() == n * n,
            flat_len == flat@.len(),
            i <= n,
            rows@.len() == i,
            rows_have_len(rows@, n as int),
            forall|ii: int, j: int|
                0 <= ii < i && 0 <= j < n ==> #[trigger] rows@[ii]@[j] == flat@[ii * n + j],
        decreases n - i,
    {
        let mut row: Vec<S> = Vec::new();
        let mut j: usize = 0;
        while j < n
            invariant
                n >= 1,
                flat@.len() == n * n,
                flat_len == flat@.len(),
                i < n,
                j <= n,
                row@.len() == j,
                forall|jj: int| 0 <= jj < j ==> #[trigger] row@[jj] == flat@[i * n + jj],
            decreases n - j,
        {
            assert(i * n + j < n * n) by (nonlinear_arith)
                requires
                    i < n,
                    j < n,
            ;
            row.push(flat[i * n + j]);
            j = j + 1;
        }
        rows.push(row);
        i = i + 1;
    }
    assert forall|i: int| 0 <= i < n implies #[trigger] rows_view(rows@)[i] =~= flat_rows(
        flat@,
        n as nat,
    )[i] by {}
    assert(rows_view(rows@) =~= flat_rows(flat@, n as nat));
    Ok(rows)
}

/// [`pagerank`] on an `n` by `n` adjacency matrix held row after row in `adjacency`.
pub fn pagerank_flat<S: Scalar>(
    adjacency: &Vec<S>,
    n: usize,
    rank: &Vec<S>,
    max_iter: usize,
    q: S,
    eps: S,
) -> (r: Result<Vec<S>, ShapeError>)
    ensures
        r is Ok <==> is_flat_square(adjacency@, n as nat) && rank@.len() == n,
        r is Err ==> r->Err_0 == (if n == 0 {
            ShapeError::Empty
        } else if adjacency@.len() != n * n {
            ShapeError::NotSquare
        } else {
            ShapeError::RankLength
        }),
        r is Ok ==> r->Ok_0@ == pagerank_spec(
            flat_rows(adjacency@, n as nat),
            rank@,
            max_iter as nat,
            q,
            eps,
        ),
        r is Ok ==> r->Ok_0@.len() == n,
        r is Ok && max_iter == 0 ==> r->Ok_0@ == rank@,
{
    let rows = match rows_from_flat(adjacency, n) {
        Ok(rows) => rows,
        Err(e) => return Err(e),
    };
    pagerank(&rows, rank, max_iter, q, eps)
}

} // verus!
