use vstd::prelude::*;

use crate::scalar::Scalar;
use crate::schedule::{stops_at_first_pass, Schedule};
use crate::shape::{check_shape, rows_have_len, shape_error, valid_shape, ShapeError};

verus! {

/// An `n` by `n` matrix, as a vector of rows.
pub open spec fn is_square<S>(m: Seq<Vec<S>>, n: nat) -> bool {
    m.len() == n && rows_have_len(m, n as int)
}

/// The rows of `m` as sequences.
pub open spec fn rows_view<S>(m: Seq<Vec<S>>) -> Seq<Seq<S>> {
    m.map_values(|r: Vec<S>| r@)
}

/// The sum of the first `k` entries of `s`, added from left to right.
pub open spec fn sum_prefix<S: Scalar>(s: Seq<S>, k: nat) -> S
    decreases k,
{
    if k == 0 {
        S::spec_zero()
    } else {
        sum_prefix(s, (k - 1) as nat).spec_plus(s[k - 1])
    }
}

/// The sum of the entries of `s`, added from left to right.
pub open spec fn row_sum<S: Scalar>(s: Seq<S>) -> S {
    sum_prefix(s, s.len())
}

/// The sum of `a[i] * b[i]` over the first `k` indices, from left to right.
pub open spec fn dot_prefix<S: Scalar>(a: Seq<S>, b: Seq<S>, k: nat) -> S
    decreases k,
{
    if k == 0 {
        S::spec_zero()
    } else {
        dot_prefix(a, b, (k - 1) as nat).spec_plus(a[k - 1].spec_times(b[k - 1]))
    }
}

/// The dot product of `a` and `b`, summed from left to right.
pub open spec fn dot<S: Scalar>(a: Seq<S>, b: Seq<S>) -> S {
    dot_prefix(a, b, a.len())
}

/// The sum of `|a[i] - b[i]|` over the first `k` indices, from left to right.
pub open spec fn l1_prefix<S: Scalar>(a: Seq<S>, b: Seq<S>, k: nat) -> S
    decreases k,
{
    if k == 0 {
        S::spec_zero()
    } else {
        l1_prefix(a, b, (k - 1) as nat).spec_plus(a[k - 1].spec_minus(b[k - 1]).spec_magnitude())
    }
}

/// The L1 distance of `a` and `b`, summed from left to right.
pub open spec fn l1<S: Scalar>(a: Seq<S>, b: Seq<S>) -> S {
    l1_prefix(a, b, a.len())
}

/// The share `1 / n` that a dangling node gives to each of the `n` nodes.
pub open spec fn uniform_share<S: Scalar>(n: nat) -> S {
    S::spec_one().spec_over(S::spec_of_count(n as usize))
}

/// Entry `(j, i)` of the transition matrix of `a`: `a[i][j]` divided by the
/// out-degree of `i`, or `1 / n` when `i` is dangling (out-degree zero).
pub open spec fn transition_entry<S: Scalar>(a: Seq<Seq<S>>, j: int, i: int) -> S {
    let degree = row_sum(a[i]);
    if degree.spec_is_zero() {
        uniform_share(a.len())
    } else {
        a[i][j].spec_over(degree)
    }
}

/// The damped operator of the graph `a` with damping factor `q`: the transition
/// matrix scaled by `q`, plus `(1 - q) / n` in every entry.
pub open spec fn operator<S: Scalar>(a: Seq<Seq<S>>, q: S) -> Seq<Seq<S>> {
    let n = a.len();
    let teleport = S::spec_one().spec_minus(q).spec_over(S::spec_of_count(n as usize));
    Seq::new(n, |j: int| Seq::new(n, |i: int| q.spec_times(transition_entry(a, j, i)).spec_plus(teleport)))
}

/// The product of the matrix `m` with the column `v`.
pub open spec fn mat_vec<S: Scalar>(m: Seq<Seq<S>>, v: Seq<S>) -> Seq<S> {
    Seq::new(m.len(), |j: int| dot(m[j], v))
}

/// `v` multiplied `k` times by `m`.
pub open spec fn iterate<S: Scalar>(m: Seq<Seq<S>>, v: Seq<S>, k: nat) -> Seq<S>
    decreases k,
{
    if k == 0 {
        v
    } else {
        mat_vec(m, iterate(m, v, (k - 1) as nat))
    }
}

/// Whether the convergence test after the `k`-th multiplication passes.
pub open spec fn passes<S: Scalar>(m: Seq<Seq<S>>, v: Seq<S>, k: nat, eps: S) -> bool {
    l1(iterate(m, v, (k - 1) as nat), iterate(m, v, k)).spec_below(eps)
}

/// The first `j` in `k + 1 ..= max_iter` whose test passes, else `max_iter`.
pub open spec fn stop_from<S: Scalar>(m: Seq<Seq<S>>, v: Seq<S>, k: nat, max_iter: nat, eps: S) -> nat
    decreases max_iter - k,
{
    if k >= max_iter {
        max_iter
    } else if passes(m, v, k + 1, eps) {
        k + 1
    } else {
        stop_from(m, v, k + 1, max_iter, eps)
    }
}

/// How many multiplications a run makes: the first `k` in `1 ..= max_iter`
/// whose convergence test passes, else `max_iter`.
pub open spec fn stop_index<S: Scalar>(m: Seq<Seq<S>>, v: Seq<S>, max_iter: nat, eps: S) -> nat {
    stop_from(m, v, 0, max_iter, eps)
}

/// The rank vector that PageRank of the graph `a` from `v` ends with.
pub open spec fn pagerank_spec<S: Scalar>(
    a: Seq<Seq<S>>,
    v: Seq<S>,
    max_iter: nat,
    q: S,
    eps: S,
) -> Seq<S> {
    let m = operator(a, q);
    iterate(m, v, stop_index(m, v, max_iter, eps))
}

/// The out-degree of each node: the sum of its row of the adjacency matrix.
pub fn out_degrees<S: Scalar>(adjacency: &Vec<Vec<S>>) -> (r: Vec<S>)
    requires
        is_square(adjacency@, adjacency@.len()),
    ensures
        r@.len() == adjacency@.len(),
        forall|i: int| 0 <= i < r@.len() ==> #[trigger] r@[i] == row_sum(adjacency@[i]@),
{
    let n = adjacency.len();
    let mut r: Vec<S> = Vec::new();
    let mut i: usize = 0;
    while i < n
        invariant
            n == adjacency@.len(),
            is_square(adjacency@, n as nat),
            i <= n,
            r@.len() == i,
            forall|k: int| 0 <= k < i ==> #[trigger] r@[k] == row_sum(adjacency@[k]@),
        decreases n - i,
    {
        let row = &adjacency[i];
        assert(row@.len() == n);
        let mut sum = S::zero();
        let mut j: usize = 0;
        while j < n
            invariant
                row@.len() == n,
                j <= n,
                sum == sum_prefix(row@, j as nat),
            decreases n - j,
        {
            sum = sum.plus(row[j]);
            j = j + 1;
        }
        r.push(sum);
        i = i + 1;
    }
    r
}

/// Which nodes are dangling: those whose out-degree is zero.
pub fn dangling_nodes<S: Scalar>(degrees: &Vec<S>) -> (r: Vec<bool>)
    ensures
        r@.len() == degrees@.len(),
        forall|i: int| 0 <= i < r@.len() ==> #[trigger] r@[i] == degrees@[i].spec_is_zero(),
{
    let mut r: Vec<bool> = Vec::new();
    let mut i: usize = 0;
    while i < degrees.len()
        invariant
            i <= degrees@.len(),
            r@.len() == i,
            forall|k: int| 0 <= k < i ==> #[trigger] r@[k] == degrees@[k].spec_is_zero(),
        decreases degrees@.len() - i,
    {
        r.push(degrees[i].is_zero());
        i = i + 1;
    }
    r
}

/// The transition matrix, with column `i` holding the shares of node `i`'s rank:
/// entry `(j, i)` is `adjacency[i][j] / degrees[i]`, and every entry of the column
/// of a dangling node is `uniform`, so that its rank is spread over all nodes.
pub fn transition_matrix<S: Scalar>(
    adjacency: &Vec<Vec<S>>,
    degrees: &Vec<S>,
    dangling: &Vec<bool>,
    uniform: S,
) -> (r: Vec<Vec<S>>)
    requires
        is_square(adjacency@, adjacency@.len()),
        degrees@.len() == adjacency@.len(),
        dangling@.len() == adjacency@.len(),
    ensures
        is_square(r@, adjacency@.len()),
        forall|j: int, i: int|
            0 <= j < r@.len() && 0 <= i < r@.len() ==> #[trigger] r@[j]@[i] == (if dangling@[i] {
                uniform
            } else {
                adjacency@[i]@[j].spec_over(degrees@[i])
            }),
{
    let n = adjacency.len();
    let mut r: Vec<Vec<S>> = Vec::new();
    let mut j: usize = 0;
    while j < n
        invariant
            n == adjacency@.len(),
            is_square(adjacency@, n as nat),
            degrees@.len() == n,
            dangling@.len() == n,
            j <= n,
            r@.len() == j,
            rows_have_len(r@, n as int),
            forall|jj: int, i: int|
                0 <= jj < j && 0 <= i < n ==> #[trigger] r@[jj]@[i] == (if dangling@[i] {
                    uniform
                } else {
                    adjacency@[i]@[jj].spec_over(degrees@[i])
                }),
        decreases n - j,
    {
        let mut column: Vec<S> = Vec::new();
        let mut i: usize = 0;
        while i < n
            invariant
                n == adjacency@.len(),
                is_square(adjacency@, n as nat),
                degrees@.len() == n,
                dangling@.len() == n,
                j < n,
                i <= n,
                column@.len() == i,
                forall|k: int|
                    0 <= k < i ==> #[trigger] column@[k] == (if dangling@[k] {
                        uniform
                    } else {
                        adjacency@[k]@[j as int].spec_over(degrees@[k])
                    }),
            decreases n - i,
        {
            if dangling[i] {
                column.push(uniform);
            } else {
                assert(adjacency@[i as int]@.len() == n);
                column.push(adjacency[i][j].over(degrees[i]));
            }
            i = i + 1;
        }
        r.push(column);
        j = j + 1;
    }
    r
}

/// The damped operator: every entry of `transition` scaled by `q`, plus `teleport`.
pub fn damp<S: Scalar>(transition: &Vec<Vec<S>>, q: S, teleport: S) -> (r: Vec<Vec<S>>)
    requires
        is_square(transition@, transition@.len()),
    ensures
        is_square(r@, transition@.len()),
        forall|j: int, i: int|
            0 <= j < r@.len() && 0 <= i < r@.len() ==> #[trigger] r@[j]@[i] == q.spec_times(
                transition@[j]@[i],
            ).spec_plus(teleport),
{
    let n = transition.len();
    let mut r: Vec<Vec<S>> = Vec::new();
    let mut j: usize = 0;
    while j < n
        invariant
            n == transition@.len(),
            is_square(transition@, n as nat),
            j <= n,
            r@.len() == j,
            rows_have_len(r@, n as int),
            forall|jj: int, i: int|
                0 <= jj < j && 0 <= i < n ==> #[trigger] r@[jj]@[i] == q.spec_times(
                    transition@[jj]@[i],
                ).spec_plus(teleport),
        decreases n - j,
    {
        let row = &transition[j];
        assert(row@.len() == n);
        let mut out: Vec<S> = Vec::new();
        let mut i: usize = 0;
        while i < n
            invariant
                row@.len() == n,
                row@ == transition@[j as int]@,
                i <= n,
                out@.len() == i,
                forall|k: int|
                    0 <= k < i ==> #[trigger] out@[k] == q.spec_times(row@[k]).spec_plus(teleport),
            decreases n - i,
        {
            out.push(q.times(row[i]).plus(teleport));
            i = i + 1;
        }
        r.push(out);
        j = j + 1;
    }
    r
}

/// The product of the square matrix `m` with the column `v`: entry `j` is the sum,
/// from left to right, of `m[j][i] * v[i]`.
pub fn multiply<S: Scalar>(m: &Vec<Vec<S>>, v: &Vec<S>) -> (r: Vec<S>)
    requires
        is_square(m@, v@.len()),
    ensures
        r@ == mat_vec(rows_view(m@), v@),
{
    let n = v.len();
    let mut r: Vec<S> = Vec::new();
    let mut j: usize = 0;
    while j < n
        invariant
            n == v@.len(),
            is_square(m@, n as nat),
            j <= n,
            r@.len() == j,
            forall|k: int| 0 <= k < j ==> #[trigger] r@[k] == dot(m@[k]@, v@),
        decreases n - j,
    {
        let row = &m[j];
        assert(row@.len() == n);
        let mut sum = S::zero();
        let mut i: usize = 0;
        while i < n
            invariant
                row@.len() == n,
                v@.len() == n,
                i <= n,
                sum == dot_prefix(row@, v@, i as nat),
            decreases n - i,
        {
            sum = sum.plus(row[i].times(v[i]));
            i = i + 1;
        }
        r.push(sum);
        j = j + 1;
    }
    assert(r@ =~= mat_vec(rows_view(m@), v@));
    r
}

/// The L1 distance of `a` and `b`: the sum, from left to right, of `|a[i] - b[i]|`.
pub fn l1_distance<S: Scalar>(a: &Vec<S>, b: &Vec<S>) -> (r: S)
    requires
        a@.len() == b@.len(),
    ensures
        r == l1(a@, b@),
{
    let mut sum = S::zero();
    let mut i: usize = 0;
    while i < a.len()
        invariant
            a@.len() == b@.len(),
            i <= a@.len(),
            sum == l1_prefix(a@, b@, i as nat),
        decreases a@.len() - i,
    {
        sum = sum.plus(a[i].minus(b[i]).magnitude());
        i = i + 1;
    }
    sum
}

/// What a power iteration ended with.
pub struct Outcome<S> {
    /// The last rank vector computed, or the initial one when none was.
    pub rank: Vec<S>,
    /// How many multiplications were made.
    pub iterations: usize,
    /// Whether the run stopped because the last convergence test passed.
    pub converged: bool,
    /// For each multiplication, whether the convergence test after it passed.
    pub tests: Ghost<Seq<bool>>,
}

/// A copy of `v`.
pub fn copy_vector<S: Scalar>(v: &Vec<S>) -> (r: Vec<S>)
    ensures
        r@ == v@,
{
    let mut r: Vec<S> = Vec::new();
    let mut i: usize = 0;
    while i < v.len()
        invariant
            i <= v@.len(),
            r@ == v@.subrange(0, i as int),
        decreases v@.len() - i,
    {
        r.push(v[i]);
        i = i + 1;
        assert(r@ =~= v@.subrange(0, i as int));
    }
    assert(r@ =~= v@);
    r
}

/// A run whose tests are those of [`passes`], stopped at its first passing test
/// or after `max_iter` multiplications, makes [`stop_from`] multiplications
/// counted from any point before its end.
proof fn lemma_run_length<S: Scalar>(
    m: Seq<Seq<S>>,
    v: Seq<S>,
    max_iter: nat,
    eps: S,
    tests: Seq<bool>,
    converged: bool,
    k: nat,
)
    requires
        stops_at_first_pass(tests, max_iter, converged),
        forall|i: int| 0 <= i < tests.len() ==> #[trigger] tests[i] == passes(m, v, (i + 1) as nat, eps),
        k < tests.len(),
    ensures
        stop_from(m, v, k, max_iter, eps) == tests.len(),
    decreases tests.len() - k,
{
    assert(tests[k as int] == passes(m, v, k + 1, eps));
    if k + 1 < tests.len() {
        lemma_run_length(m, v, max_iter, eps, tests, converged, k + 1);
    } else if !tests[k as int] {
        assert(stop_from(m, v, k + 1, max_iter, eps) == max_iter);
    }
}

/// The number of multiplications of a run, from its record of tests.
proof fn lemma_stop_index<S: Scalar>(
    m: Seq<Seq<S>>,
    v: Seq<S>,
    max_iter: nat,
    eps: S,
    tests: Seq<bool>,
    converged: bool,
)
    requires
        stops_at_first_pass(tests, max_iter, converged),
        forall|i: int| 0 <= i < tests.len() ==> #[trigger] tests[i] == passes(m, v, (i + 1) as nat, eps),
    ensures
        stop_index(m, v, max_iter, eps) == tests.len(),
{
    if tests.len() > 0 {
        lemma_run_length(m, v, max_iter, eps, tests, converged, 0);
    }
}

/// Power iteration with the damped operator `m` from `rank`: at most `max_iter`
/// times, replace the rank vector by its product with `m`, and stop as soon as
/// the L1 distance between the old and the new vector is below `eps`.
pub fn power_iteration<S: Scalar>(m: &Vec<Vec<S>>, rank: &Vec<S>, max_iter: usize, eps: S) -> (r:
    Outcome<S>)
    requires
        is_square(m@, rank@.len()),
    ensures
        r.iterations == stop_index(rows_view(m@), rank@, max_iter as nat, eps),
        r.rank@ == iterate(rows_view(m@), rank@, r.iterations as nat),
        r.iterations == r.tests@.len(),
        stops_at_first_pass(r.tests@, max_iter as nat, r.converged),
        forall|i: int|
            0 <= i < r.tests@.len() ==> #[trigger] r.tests@[i] == passes(
                rows_view(m@),
                rank@,
                (i + 1) as nat,
                eps,
            ),
{
    let ghost mv = rows_view(m@);
    let mut current = copy_vector(rank);
    let mut schedule = Schedule::new(max_iter);
    while !schedule.is_finished()
        invariant
            is_square(m@, rank@.len()),
            mv == rows_view(m@),
            current@.len() == rank@.len(),
            schedule.wf(),
            schedule.max_iter == max_iter,
            current@ == iterate(mv, rank@, schedule.done as nat),
            forall|i: int|
                0 <= i < schedule.tests@.len() ==> #[trigger] schedule.tests@[i] == passes(
                    mv,
                    rank@,
                    (i + 1) as nat,
                    eps,
                ),
        decreases max_iter - schedule.done,
    {
        let next = multiply(m, &current);
        let distance = l1_distance(&current, &next);
        let ghost before = schedule.done as nat;
        assert(next@ == iterate(mv, rank@, before + 1));
        assert(distance.spec_below(eps) == passes(mv, rank@, before + 1, eps));
        schedule.record(distance.below(eps));
        current = next;
    }
    proof {
        schedule.lemma_finished();
        lemma_stop_index(mv, rank@, max_iter as nat, eps, schedule.tests@, schedule.converged);
    }
    Outcome {
        rank: current,
        iterations: schedule.done,
        converged: schedule.converged,
        tests: schedule.tests,
    }
}

/// PageRank of the graph with the given adjacency matrix (entry `(i, j)` is the
/// weight of the link from `i` to `j`), from the initial vector `rank`, with
/// damping factor `q`: the column-normalised transition matrix, dangling nodes
/// spreading their rank uniformly, is scaled by `q` and has `(1 - q) / n` added to
/// every entry; then [`power_iteration`] runs with `max_iter` and `eps`.
pub fn solve<S: Scalar>(adjacency: &Vec<Vec<S>>, rank: &Vec<S>, max_iter: usize, q: S, eps: S) -> (r:
    Result<Outcome<S>, ShapeError>)
    ensures
        r is Ok <==> valid_shape(adjacency@, rank@),
        r is Err ==> r->Err_0 == shape_error(adjacency@, rank@),
        r is Ok ==> {
            let o = r->Ok_0;
            let m = operator(rows_view(adjacency@), q);
            &&& o.iterations == stop_index(m, rank@, max_iter as nat, eps)
            &&& o.rank@ == iterate(m, rank@, o.iterations as nat)
            &&& o.rank@ == pagerank_spec(rows_view(adjacency@), rank@, max_iter as nat, q, eps)
            &&& o.iterations == o.tests@.len()
            &&& stops_at_first_pass(o.tests@, max_iter as nat, o.converged)
            &&& forall|i: int|
                0 <= i < o.tests@.len() ==> #[trigger] o.tests@[i] == passes(
                    m,
                    rank@,
                    (i + 1) as nat,
                    eps,
                )
        },
{
    let n = match check_shape(adjacency, rank) {
        Ok(n) => n,
        Err(e) => return Err(e),
    };
    let degrees = out_degrees(adjacency);
    let dangling = dangling_nodes(&degrees);
    let count = S::of_count(n);
    let uniform = S::one().over(count);
    let transition = transition_matrix(adjacency, &degrees, &dangling, uniform);
    let teleport = S::one().minus(q).over(count);
    let operator_m = damp(&transition, q, teleport);
    proof {
        let a = rows_view(adjacency@);
        let spec_m = operator(a, q);
        assert forall|j: int| 0 <= j < n implies #[trigger] rows_view(operator_m@)[j] =~= spec_m[j] by {
            assert forall|i: int| 0 <= i < n implies operator_m@[j]@[i] == spec_m[j][i] by {
                assert(operator_m@[j]@[i] == q.spec_times(transition@[j]@[i]).spec_plus(teleport));
                assert(degrees@[i] == row_sum(adjacency@[i]@));
                assert(a[i] == adjacency@[i]@);
            }
        }
        assert(rows_view(operator_m@) =~= spec_m);
    }
    Ok(power_iteration(&operator_m, rank, max_iter, eps))
}

/// The rank vector that [`solve`] ends with.
pub fn pagerank<S: Scalar>(adjacency: &Vec<Vec<S>>, rank: &Vec<S>, max_iter: usize, q: S, eps: S) -> (r:
    Result<Vec<S>, ShapeError>)
    ensures
        r is Ok <==> valid_shape(adjacency@, rank@),
        r is Err ==> r->Err_0 == shape_error(adjacency@, rank@),
        r is Ok ==> r->Ok_0@ == pagerank_spec(rows_view(adjacency@), rank@, max_iter as nat, q, eps),
        r is Ok ==> r->Ok_0@.len() == rank@.len(),
        r is Ok && max_iter == 0 ==> r->Ok_0@ == rank@,
{
    match solve(adjacency, rank, max_iter, q, eps) {
        Ok(o) => Ok(o.rank),
        Err(e) => Err(e),
    }
}

/// When no test from the `k + 1`-th multiplication on passes, the run goes to the cap.
proof fn lemma_stop_from_cap<S: Scalar>(m: Seq<Seq<S>>, v: Seq<S>, k: nat, max_iter: nat, eps: S)
    requires
        forall|j: nat| k < j <= max_iter ==> !#[trigger] passes(m, v, j, eps),
    ensures
        stop_from(m, v, k, max_iter, eps) == max_iter,
    decreases max_iter - k,
{
    if k < max_iter {
        assert(!passes(m, v, k + 1, eps));
        lemma_stop_from_cap(m, v, k + 1, max_iter, eps);
    }
}

/// Early stop: when the initial vector already passes the convergence test
/// against its product with the damped operator, PageRank returns that single
/// product.
pub proof fn lemma_early_stop<S: Scalar>(a: Seq<Seq<S>>, v: Seq<S>, max_iter: nat, q: S, eps: S)
    requires
        max_iter >= 1,
        passes(operator(a, q), v, 1, eps),
    ensures
        stop_index(operator(a, q), v, max_iter, eps) == 1,
        pagerank_spec(a, v, max_iter, q, eps) == mat_vec(operator(a, q), v),
{
    let m = operator(a, q);
    assert(iterate(m, v, 1) == mat_vec(m, iterate(m, v, 0)));
}

/// Iteration cap: when no convergence test passes (as with a threshold of zero),
/// PageRank makes exactly `max_iter` multiplications and returns the initial
/// vector multiplied `max_iter` times by the damped operator; with a cap of zero,
/// the initial vector itself.
pub proof fn lemma_iteration_cap<S: Scalar>(a: Seq<Seq<S>>, v: Seq<S>, max_iter: nat, q: S, eps: S)
    requires
        forall|k: nat| 1 <= k <= max_iter ==> !#[trigger] passes(operator(a, q), v, k, eps),
    ensures
        stop_index(operator(a, q), v, max_iter, eps) == max_iter,
        pagerank_spec(a, v, max_iter, q, eps) == iterate(operator(a, q), v, max_iter),
        max_iter == 0 ==> pagerank_spec(a, v, max_iter, q, eps) == v,
{
    lemma_stop_from_cap(operator(a, q), v, 0, max_iter, eps);
}

/// Determinism: PageRank is a function of its inputs, so equal inputs give
/// equal rank vectors.
pub proof fn lemma_deterministic<S: Scalar>(
    a1: Seq<Seq<S>>,
    v1: Seq<S>,
    a2: Seq<Seq<S>>,
    v2: Seq<S>,
    max_iter: nat,
    q: S,
    eps: S,
)
    requires
        a1 == a2,
        v1 == v2,
    ensures
        pagerank_spec(a1, v1, max_iter, q, eps) == pagerank_spec(a2, v2, max_iter, q, eps),
{
}

} // verus!
