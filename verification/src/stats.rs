use vstd::prelude::*;

verus! {

/// The sum of the first `n` scores.
pub open spec fn prefix_total(scores: Seq<u64>, n: int) -> int
    decreases n,
{
    if n <= 0 {
        0
    } else {
        prefix_total(scores, n - 1) + scores[n - 1]
    }
}

/// The sum of all scores.
pub open spec fn total_score(scores: Seq<u64>) -> int {
    prefix_total(scores, scores.len() as int)
}

/// `best` is the largest score, or zero where there is none.
pub open spec fn is_best_score(scores: Seq<u64>, best: u64) -> bool {
    &&& forall|i: int| 0 <= i < scores.len() ==> scores[i] <= best
    &&& if scores.len() == 0 {
        best == 0
    } else {
        exists|i: int| 0 <= i < scores.len() && scores[i] == best
    }
}

/// The mean of `size` scores that sum to `total` is at least `threshold`.
pub open spec fn mean_at_least(total: u128, size: usize, threshold: u64) -> bool {
    size > 0 && total >= threshold * size
}

/// The mean of `size` scores that sum to `total` exceeds `threshold`.
pub open spec fn mean_exceeds(total: u128, size: usize, threshold: u64) -> bool {
    size > 0 && total > threshold * size
}

/// The squared Euclidean distance between two points over their first `n`
/// coordinates.
pub open spec fn squared_distance_upto(a: Seq<i64>, b: Seq<i64>, n: int) -> int
    decreases n,
{
    if n <= 0 {
        0
    } else {
        squared_distance_upto(a, b, n - 1) + (a[n - 1] - b[n - 1]) * (a[n - 1] - b[n - 1])
    }
}

/// The squared Euclidean distance between two points, over the coordinates
/// that both have, capped at the largest value a `u128` holds.
pub open spec fn squared_distance(a: Seq<i64>, b: Seq<i64>) -> int {
    let n = if a.len() <= b.len() { a.len() as int } else { b.len() as int };
    let exact = squared_distance_upto(a, b, n);
    if exact <= u128::MAX { exact } else { u128::MAX as int }
}

/// The points that the vectors hold.
pub open spec fn views(points: Seq<Vec<i64>>) -> Seq<Seq<i64>> {
    Seq::new(points.len(), |i: int| points[i]@)
}

/// `diameter` is the largest squared distance between two of the points, or
/// zero where there are fewer than two.
pub open spec fn is_squared_diameter(points: Seq<Seq<i64>>, diameter: int) -> bool {
    &&& forall|i: int, j: int|
        0 <= i < j < points.len() ==> #[trigger] squared_distance(points[i], points[j])
            <= diameter
    &&& if points.len() < 2 {
        diameter == 0
    } else {
        exists|i: int, j: int|
            0 <= i < j < points.len() && #[trigger] squared_distance(points[i], points[j])
                == diameter
    }
}

/// The first `n` scores sum to at most `n` times the largest score there
/// is.
pub proof fn lemma_prefix_total_bounds(scores: Seq<u64>, n: int)
    requires
        0 <= n <= scores.len(),
    ensures
        0 <= prefix_total(scores, n) <= n * u64::MAX,
    decreases n,
{
    if n > 0 {
        lemma_prefix_total_bounds(scores, n - 1);
    }
}

/// The running total of the scores never falls.
pub proof fn lemma_prefix_total_monotone(scores: Seq<u64>, m: int, n: int)
    requires
        0 <= m <= n <= scores.len(),
    ensures
        prefix_total(scores, m) <= prefix_total(scores, n),
    decreases n - m,
{
    if m < n {
        lemma_prefix_total_monotone(scores, m, n - 1);
    }
}

/// Scores that all exceed a bar sum to more than the bar for each of them.
pub proof fn lemma_prefix_total_above(scores: Seq<u64>, n: int, bar: u64)
    requires
        0 <= n <= scores.len(),
        forall|i: int| 0 <= i < n ==> scores[i] > bar,
    ensures
        prefix_total(scores, n) >= n * (bar + 1),
    decreases n,
{
    if n > 0 {
        lemma_prefix_total_above(scores, n - 1, bar);
        assert((n - 1) * (bar + 1) + (bar + 1) == n * (bar + 1)) by (nonlinear_arith);
        assert(scores[n - 1] >= bar + 1);
    } else {
        assert(n * (bar + 1) == 0) by (nonlinear_arith)
            requires
                n == 0,
        ;
    }
}

/// A squared distance is not negative.
proof fn lemma_squared_distance_nonnegative(a: Seq<i64>, b: Seq<i64>, n: int)
    ensures
        0 <= squared_distance_upto(a, b, n),
    decreases n,
{
    if n > 0 {
        lemma_squared_distance_nonnegative(a, b, n - 1);
        let d = a[n - 1] - b[n - 1];
        assert(0 <= d * d) by (nonlinear_arith);
    }
}

/// The sum of the scores.
pub fn sum_scores(scores: &Vec<u64>) -> (total: u128)
    ensures
        total == total_score(scores@),
{
    let mut total: u128 = 0;
    let mut i: usize = 0;
    while i < scores.len()
        invariant
            i <= scores.len(),
            total == prefix_total(scores@, i as int),
        decreases scores.len() - i,
    {
        proof {
            lemma_prefix_total_bounds(scores@, i as int + 1);
        }
        total = total + scores[i] as u128;
        i += 1;
    }
    total
}

/// Whether the mean of `size` scores that sum to `total` is at least
/// `threshold`. No mean is taken of no scores.
pub fn check_mean_at_least(total: u128, size: usize, threshold: u64) -> (reached: bool)
    ensures
        reached == mean_at_least(total, size, threshold),
{
    assert(threshold * size <= 0xffff_ffff_ffff_ffff * 0xffff_ffff_ffff_ffff) by (nonlinear_arith)
        requires
            0 <= threshold <= 0xffff_ffff_ffff_ffff,
            0 <= size <= 0xffff_ffff_ffff_ffff,
    ;
    size > 0 && total >= threshold as u128 * size as u128
}

/// Whether the mean of `size` scores that sum to `total` exceeds
/// `threshold`. No mean is taken of no scores.
pub fn check_mean_exceeds(total: u128, size: usize, threshold: u64) -> (exceeded: bool)
    ensures
        exceeded == mean_exceeds(total, size, threshold),
{
    assert(threshold * size <= 0xffff_ffff_ffff_ffff * 0xffff_ffff_ffff_ffff) by (nonlinear_arith)
        requires
            0 <= threshold <= 0xffff_ffff_ffff_ffff,
            0 <= size <= 0xffff_ffff_ffff_ffff,
    ;
    size > 0 && total > threshold as u128 * size as u128
}

/// The largest score, or zero where there is none.
pub fn best_score(scores: &Vec<u64>) -> (best: u64)
    ensures
        is_best_score(scores@, best),
{
    let mut best: u64 = 0;
    let mut i: usize = 0;
    let ghost mut witness: int = 0;
    while i < scores.len()
        invariant
            i <= scores.len(),
            forall|k: int| 0 <= k < i ==> scores@[k] <= best,
            i == 0 ==> best == 0,
            i > 0 ==> 0 <= witness < i && scores@[witness] == best,
        decreases scores.len() - i,
    {
        if i == 0 || scores[i] > best {
            best = scores[i];
            proof {
                witness = i as int;
            }
        }
        i += 1;
    }
    best
}

/// The squared Euclidean distance between two points, capped at the largest
/// value a `u128` holds.
pub fn squared_distance_between(a: &Vec<i64>, b: &Vec<i64>) -> (distance: u128)
    ensures
        distance == squared_distance(a@, b@),
{
    let n: usize = if a.len() <= b.len() { a.len() } else { b.len() };
    let mut sum: u128 = 0;
    let mut capped: bool = false;
    let mut k: usize = 0;
    while k < n
        invariant
            k <= n,
            n <= a.len(),
            n <= b.len(),
            !capped ==> sum == squared_distance_upto(a@, b@, k as int),
            capped ==> squared_distance_upto(a@, b@, k as int) > u128::MAX,
        decreases n - k,
    {
        let x: i128 = a[k] as i128;
        let y: i128 = b[k] as i128;
        let gap: u128 = if x >= y { (x - y) as u128 } else { (y - x) as u128 };
        proof {
            let d = a@[k as int] - b@[k as int];
            assert(gap * gap == d * d) by (nonlinear_arith)
                requires
                    gap == d || gap == -d,
            ;
            assert(gap * gap <= 0xffff_ffff_ffff_ffff * 0xffff_ffff_ffff_ffff)
                by (nonlinear_arith)
                requires
                    0 <= gap <= 0xffff_ffff_ffff_ffff,
            ;
        }
        let square: u128 = gap * gap;
        if !capped {
            if sum > u128::MAX - square {
                capped = true;
            } else {
                sum = sum + square;
            }
        }
        k += 1;
    }
    if capped {
        u128::MAX
    } else {
        sum
    }
}

/// The largest squared distance between two of the points.
pub fn squared_diameter(points: &Vec<Vec<i64>>) -> (diameter: u128)
    ensures
        is_squared_diameter(views(points@), diameter as int),
{
    let ghost pts = views(points@);
    let mut diameter: u128 = 0;
    let ghost mut far_i: int = 0;
    let ghost mut far_j: int = 1;
    let mut i: usize = 0;
    while i < points.len()
        invariant
            i <= points.len(),
            pts == views(points@),
            forall|p: int, q: int|
                0 <= p < i && p < q < pts.len() ==> #[trigger] squared_distance(pts[p], pts[q])
                    <= diameter,
            diameter == 0 || (0 <= far_i < far_j < pts.len() && squared_distance(
                pts[far_i],
                pts[far_j],
            ) == diameter),
        decreases points.len() - i,
    {
        let mut j: usize = i + 1;
        while j < points.len()
            invariant
                i < points.len(),
                i < j <= points.len(),
                pts == views(points@),
                forall|p: int, q: int|
                    0 <= p < i && p < q < pts.len() ==> #[trigger] squared_distance(
                        pts[p],
                        pts[q],
                    ) <= diameter,
                forall|q: int|
                    i < q < j ==> #[trigger] squared_distance(pts[i as int], pts[q]) <= diameter,
                diameter == 0 || (0 <= far_i < far_j < pts.len() && squared_distance(
                    pts[far_i],
                    pts[far_j],
                ) == diameter),
            decreases points.len() - j,
        {
            let distance: u128 = squared_distance_between(&points[i], &points[j]);
            if distance > diameter {
                diameter = distance;
                proof {
                    far_i = i as int;
                    far_j = j as int;
                }
            }
            j += 1;
        }
        i += 1;
    }
    proof {
        if pts.len() >= 2 && diameter == 0 {
            assert(squared_distance(pts[0], pts[1]) <= 0);
            lemma_squared_distance_nonnegative(
                pts[0],
                pts[1],
                if pts[0].len() <= pts[1].len() {
                    pts[0].len() as int
                } else {
                    pts[1].len() as int
                },
            );
        }
    }
    diameter
}

} // verus!
