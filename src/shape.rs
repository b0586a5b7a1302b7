use vstd::prelude::*;

verus! {

/// Why the inputs of a rank computation were refused.
#[derive(Debug, Clone, Copy, PartialEq, Eq, Structural)]
pub enum ShapeError {
    /// The graph has no nodes.
    Empty,
    /// The adjacency matrix is not square.
    NotSquare,
    /// The rank vector does not have one entry per node.
    RankLength,
}

/// Every row of `m` has exactly `n` entries.
pub open spec fn rows_have_len<T>(m: Seq<Vec<T>>, n: int) -> bool {
    forall|i: int| 0 <= i < m.len() ==> #[trigger] m[i]@.len() == n
}

/// The adjacency matrix is a non-empty square matrix and the rank vector fits it.
pub open spec fn valid_shape<T>(adjacency: Seq<Vec<T>>, rank: Seq<T>) -> bool {
    &&& adjacency.len() >= 1
    &&& rows_have_len(adjacency, adjacency.len() as int)
    &&& rank.len() == adjacency.len()
}

/// The error that inputs of a given shape call for, checked in order.
pub open spec fn shape_error<T>(adjacency: Seq<Vec<T>>, rank: Seq<T>) -> ShapeError {
    if adjacency.len() == 0 {
        ShapeError::Empty
    } else if !rows_have_len(adjacency, adjacency.len() as int) {
        ShapeError::NotSquare
    } else {
        ShapeError::RankLength
    }
}

/// Checks that `adjacency` is n by n with n >= 1 and that `rank` has n entries,
/// and returns n.
pub fn check_shape<T>(adjacency: &Vec<Vec<T>>, rank: &Vec<T>) -> (r: Result<usize, ShapeError>)
    ensures
        r is Ok <==> valid_shape(adjacency@, rank@),
        r is Ok ==> r->Ok_0 == adjacency@.len(),
        r is Err ==> r->Err_0 == shape_error(adjacency@, rank@),
{
    let n = adjacency.len();
    if n == 0 {
        return Err(ShapeError::Empty);
    }
    let mut i: usize = 0;
    while i < n
        invariant
            n == adjacency@.len(),
            i <= n,
            forall|k: int| 0 <= k < i ==> #[trigger] adjacency@[k]@.len() == n,
        decreases n - i,
    {
        if adjacency[i].len() != n {
            return Err(ShapeError::NotSquare);
        }
        i = i + 1;
    }
    if rank.len() != n {
        return Err(ShapeError::RankLength);
    }
    Ok(n)
}

} // verus!
