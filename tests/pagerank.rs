use pagerank::flat::{pagerank_flat, rows_from_flat};
use pagerank::scalar::Scalar;
use pagerank::schedule::Schedule;
use pagerank::shape::{check_shape, ShapeError};
use pagerank::solver::{
    damp, dangling_nodes, l1_distance, multiply, out_degrees, pagerank, solve, transition_matrix,
};

#[derive(Clone, Copy, Debug, PartialEq)]
struct Real(f64);

impl Scalar for Real {
    fn spec_zero() -> Self {
        Real(0.0)
    }
    fn spec_one() -> Self {
        Real(1.0)
    }
    fn spec_of_count(n: usize) -> Self {
        Real(n as f64)
    }
    fn spec_plus(self, o: Self) -> Self {
        Real(self.0 + o.0)
    }
    fn spec_minus(self, o: Self) -> Self {
        Real(self.0 - o.0)
    }
    fn spec_times(self, o: Self) -> Self {
        Real(self.0 * o.0)
    }
    fn spec_over(self, o: Self) -> Self {
        Real(self.0 / o.0)
    }
    fn spec_magnitude(self) -> Self {
        Real(self.0.abs())
    }
    fn spec_is_zero(self) -> bool {
        self.0 == 0.0
    }
    fn spec_below(self, o: Self) -> bool {
        self.0 < o.0
    }
    fn zero() -> Self {
        Real(0.0)
    }
    fn one() -> Self {
        Real(1.0)
    }
    fn of_count(n: usize) -> Self {
        Real(n as f64)
    }
    fn plus(self, o: Self) -> Self {
        Real(self.0 + o.0)
    }
    fn minus(self, o: Self) -> Self {
        Real(self.0 - o.0)
    }
    fn times(self, o: Self) -> Self {
        Real(self.0 * o.0)
    }
    fn over(self, o: Self) -> Self {
        Real(self.0 / o.0)
    }
    fn magnitude(self) -> Self {
        Real(self.0.abs())
    }
    fn is_zero(self) -> bool {
        self.0 == 0.0
    }
    fn below(self, o: Self) -> bool {
        self.0 < o.0
    }
}

fn matrix(rows: &[&[f64]]) -> Vec<Vec<Real>> {
    rows.iter().map(|r| r.iter().map(|&x| Real(x)).collect()).collect()
}

fn vector(v: &[f64]) -> Vec<Real> {
    v.iter().map(|&x| Real(x)).collect()
}

fn values(v: &[Real]) -> Vec<f64> {
    v.iter().map(|x| x.0).collect()
}

fn four_nodes() -> Vec<Vec<Real>> {
    matrix(&[
        &[0., 1., 0., 1.],
        &[1., 0., 1., 0.],
        &[0., 1., 0., 0.],
        &[0., 0., 1., 0.],
    ])
}

/// The damped operator built from the library's own steps.
fn operator(adjacency: &Vec<Vec<Real>>, q: f64) -> Vec<Vec<Real>> {
    let n = adjacency.len();
    let degrees = out_degrees(adjacency);
    let dangling = dangling_nodes(&degrees);
    let uniform = Real(1.0 / n as f64);
    let t = transition_matrix(adjacency, &degrees, &dangling, uniform);
    damp(&t, Real(q), Real((1.0 - q) / n as f64))
}

#[test]
fn test_1() {
    let adjm = four_nodes();
    let mut rank = vector(&[0.2, 0.4, 0.2, 0.2]);
    rank = pagerank(&adjm, &rank, 1000, Real(0.85), Real(0.001)).unwrap();
    let sum: f64 = rank.iter().fold(0f64, |acc, b| acc + b.0);
    println!("{:?},{}", values(&rank), sum);
    assert_eq!(rank.len(), 4);
}

#[test]
fn four_node_graph_converges_and_ranks_by_in_links() {
    let adjm = four_nodes();
    let rank = vector(&[0.2, 0.4, 0.2, 0.2]);
    let out = solve(&adjm, &rank, 1000, Real(0.85), Real(0.001)).unwrap();
    assert!(out.converged);
    assert!(out.iterations >= 1 && out.iterations < 1000);
    let sum: f64 = out.rank.iter().map(|x| x.0).sum();
    assert!((sum - 1.0).abs() < 1e-9);
    assert!(out.rank[1].0 >= out.rank[3].0);
    // One more step moves the vector by less than the threshold.
    let m = operator(&adjm, 0.85);
    let next = multiply(&m, &out.rank);
    assert!(l1_distance(&out.rank, &next).0 < 0.001);
}

#[test]
fn output_has_one_entry_per_node() {
    for n in 1..6usize {
        let adj: Vec<Vec<Real>> = (0..n)
            .map(|i| (0..n).map(|j| Real(if (i + 1) % n == j { 1.0 } else { 0.0 })).collect())
            .collect();
        let rank = vec![Real(1.0 / n as f64); n];
        let r = pagerank(&adj, &rank, 50, Real(0.85), Real(1e-12)).unwrap();
        assert_eq!(r.len(), n);
    }
}

#[test]
fn dangling_nodes_keep_ranks_non_negative_and_finite() {
    let adj = matrix(&[&[0., 1., 1.], &[0., 0., 0.], &[1., 0., 0.]]);
    let rank = vector(&[1.0 / 3.0, 1.0 / 3.0, 1.0 / 3.0]);
    for &q in &[0.0, 0.5, 0.85, 1.0] {
        let r = pagerank(&adj, &rank, 200, Real(q), Real(1e-12)).unwrap();
        for x in &r {
            assert!(x.0 >= 0.0 && x.0.is_finite(), "q = {}: {:?}", q, values(&r));
        }
    }
}

#[test]
fn all_rows_dangling_gives_uniform_ranks() {
    let adj = matrix(&[&[0., 0.], &[0., 0.]]);
    let rank = vector(&[1.0, 0.0]);
    let r = pagerank(&adj, &rank, 1, Real(0.85), Real(0.0)).unwrap();
    assert_eq!(values(&r), vec![0.5, 0.5]);
}

#[test]
fn mass_is_kept_without_dangling_nodes() {
    let adj = four_nodes();
    let rank = vector(&[0.1, 0.2, 0.3, 0.4]);
    for &k in &[1usize, 5, 50] {
        let r = pagerank(&adj, &rank, k, Real(0.85), Real(0.0)).unwrap();
        let sum: f64 = r.iter().map(|x| x.0).sum();
        assert!((sum - 1.0).abs() < 1e-9, "after {} steps: {}", k, sum);
    }
}

#[test]
fn converged_start_stops_after_one_step() {
    let adj = matrix(&[&[0., 1.], &[1., 0.]]);
    let rank = vector(&[0.5, 0.5]);
    let m = operator(&adj, 0.85);
    let once = multiply(&m, &rank);
    let out = solve(&adj, &rank, 100, Real(0.85), Real(0.1)).unwrap();
    assert_eq!(out.iterations, 1);
    assert!(out.converged);
    assert_eq!(values(&out.rank), values(&once));
}

#[test]
fn zero_threshold_runs_to_the_cap() {
    let adj = four_nodes();
    let rank = vector(&[0.2, 0.4, 0.2, 0.2]);
    let m = operator(&adj, 0.85);
    let mut expected = rank.clone();
    for k in 0..6usize {
        let out = solve(&adj, &rank, k, Real(0.85), Real(0.0)).unwrap();
        assert_eq!(out.iterations, k);
        assert!(!out.converged);
        assert_eq!(values(&out.rank), values(&expected));
        expected = multiply(&m, &expected);
    }
}

#[test]
fn zero_iterations_return_the_initial_rank() {
    let adj = four_nodes();
    let rank = vector(&[0.7, 0.1, 0.1, 0.1]);
    let r = pagerank(&adj, &rank, 0, Real(0.85), Real(0.001)).unwrap();
    assert_eq!(values(&r), vec![0.7, 0.1, 0.1, 0.1]);
}

#[test]
fn identical_calls_give_identical_bits() {
    let adj = four_nodes();
    let rank = vector(&[0.2, 0.4, 0.2, 0.2]);
    let a = pagerank(&adj, &rank, 1000, Real(0.85), Real(0.001)).unwrap();
    let b = pagerank(&adj, &rank, 1000, Real(0.85), Real(0.001)).unwrap();
    let bits = |v: &[Real]| v.iter().map(|x| x.0.to_bits()).collect::<Vec<u64>>();
    assert_eq!(bits(&a), bits(&b));
}

#[test]
fn empty_graph_is_refused() {
    let adj: Vec<Vec<Real>> = Vec::new();
    let rank: Vec<Real> = Vec::new();
    assert_eq!(pagerank(&adj, &rank, 10, Real(0.85), Real(0.001)), Err(ShapeError::Empty));
    assert_eq!(check_shape(&adj, &rank), Err(ShapeError::Empty));
}

#[test]
fn non_square_matrix_is_refused() {
    let adj = matrix(&[&[0., 1.], &[1.]]);
    let rank = vector(&[0.5, 0.5]);
    assert_eq!(pagerank(&adj, &rank, 10, Real(0.85), Real(0.001)), Err(ShapeError::NotSquare));
    let wide = matrix(&[&[0., 1., 0.], &[1., 0., 0.]]);
    assert_eq!(check_shape(&wide, &rank), Err(ShapeError::NotSquare));
}

#[test]
fn rank_of_wrong_length_is_refused() {
    let adj = matrix(&[&[0., 1.], &[1., 0.]]);
    let rank = vector(&[0.5, 0.25, 0.25]);
    assert_eq!(pagerank(&adj, &rank, 10, Real(0.85), Real(0.001)), Err(ShapeError::RankLength));
    assert_eq!(check_shape(&adj, &vector(&[1.0, 0.0])), Ok(2));
}

#[test]
fn out_degrees_are_row_sums() {
    let adj = matrix(&[&[0., 2., 1.], &[0., 0., 0.], &[1., 0., 0.5]]);
    assert_eq!(values(&out_degrees(&adj)), vec![3.0, 0.0, 1.5]);
    assert_eq!(dangling_nodes(&out_degrees(&adj)), vec![false, true, false]);
}

#[test]
fn transition_matrix_normalises_rows_into_columns() {
    let adj = matrix(&[&[0., 2., 2.], &[0., 0., 0.], &[1., 0., 0.]]);
    let degrees = out_degrees(&adj);
    let dangling = dangling_nodes(&degrees);
    let t = transition_matrix(&adj, &degrees, &dangling, Real(0.25));
    let t: Vec<Vec<f64>> = t.iter().map(|r| values(r)).collect();
    assert_eq!(t, vec![vec![0.0, 0.25, 1.0], vec![0.5, 0.25, 0.0], vec![0.5, 0.25, 0.0]]);
}

#[test]
fn damping_scales_and_adds_teleport() {
    let t = matrix(&[&[0., 1.], &[1., 0.]]);
    let m = damp(&t, Real(0.5), Real(0.25));
    let m: Vec<Vec<f64>> = m.iter().map(|r| values(r)).collect();
    assert_eq!(m, vec![vec![0.25, 0.75], vec![0.75, 0.25]]);
}

#[test]
fn multiply_and_distance_values() {
    let m = matrix(&[&[1., 2.], &[3., 4.]]);
    assert_eq!(values(&multiply(&m, &vector(&[1.0, 0.5]))), vec![2.0, 5.0]);
    assert_eq!(l1_distance(&vector(&[1.0, 2.0]), &vector(&[0.5, 4.0])).0, 2.5);
}

#[test]
fn flat_layout_is_row_major() {
    let flat = vector(&[1., 2., 3., 4., 5., 6., 7., 8., 9.]);
    let rows = rows_from_flat(&flat, 3).unwrap();
    let rows: Vec<Vec<f64>> = rows.iter().map(|r| values(r)).collect();
    assert_eq!(rows, vec![vec![1., 2., 3.], vec![4., 5., 6.], vec![7., 8., 9.]]);
    assert_eq!(rows_from_flat(&flat, 2), Err(ShapeError::NotSquare));
    assert_eq!(rows_from_flat(&flat, 0), Err(ShapeError::Empty));
}

#[test]
fn flat_entry_point_matches_rows() {
    let flat = vector(&[0., 1., 0., 1., 1., 0., 1., 0., 0., 1., 0., 0., 0., 0., 1., 0.]);
    let rank = vector(&[0.2, 0.4, 0.2, 0.2]);
    let a = pagerank_flat(&flat, 4, &rank, 1000, Real(0.85), Real(0.001)).unwrap();
    let b = pagerank(&four_nodes(), &rank, 1000, Real(0.85), Real(0.001)).unwrap();
    assert_eq!(values(&a), values(&b));
    assert_eq!(
        pagerank_flat(&flat, 4, &vector(&[1.0]), 10, Real(0.85), Real(0.001)),
        Err(ShapeError::RankLength)
    );
    assert_eq!(
        pagerank_flat(&flat, 3, &rank, 10, Real(0.85), Real(0.001)),
        Err(ShapeError::NotSquare)
    );
    assert_eq!(
        pagerank_flat(&flat, 0, &rank, 10, Real(0.85), Real(0.001)),
        Err(ShapeError::Empty)
    );
}

#[test]
fn schedule_stops_at_first_pass_or_cap() {
    let mut s = Schedule::new(3);
    assert!(!s.is_finished());
    s.record(false);
    assert_eq!((s.done, s.converged), (1, false));
    s.record(true);
    assert!(s.is_finished());
    assert_eq!((s.done, s.converged), (2, true));
    let mut c = Schedule::new(2);
    c.record(false);
    c.record(false);
    assert!(c.is_finished());
    assert!(!c.converged);
    assert!(Schedule::new(0).is_finished());
}
