//! The router's integer screening of the curve that a split search
//! sampled: in whole units, where rounding cannot blur it, the curve must
//! not fall. What is left to compare by slope is handed back as landmarks.

use vstd::prelude::*;

verus! {

/// Smallest input, in units, that a sample needs to count.
pub const MIN_INPUT_NANO: u64 = 1_000_000;

/// Smallest distance, in units of input, between two landmarks.
pub const MIN_DIN: u64 = 100_000;

/// Fewest landmarks that can show a shape.
pub const MIN_LANDMARKS: usize = 3;

/// Whether a sample counts: its input is large enough, and its output is
/// above zero and below the most that could be paid out.
pub open spec fn eligible(sample: (u64, u64), max_output_nano: u64) -> bool {
    sample.0 >= MIN_INPUT_NANO && sample.1 != 0 && sample.1 < max_output_nano
}

/// Whether `curve` is the curve that `samples` show: one point for each
/// input that an eligible sample has, with the largest output seen at that
/// input, in rising order of input.
#[verifier::opaque]
pub open spec fn is_curve_of(
    curve: Seq<(u64, u64)>,
    samples: Seq<(u64, u64)>,
    max_output_nano: u64,
) -> bool {
    &&& forall|i: int, j: int| 0 <= i < j < curve.len() ==> curve[i].0 < curve[j].0
    &&& forall|i: int|
        0 <= i < curve.len() ==> samples.contains(#[trigger] curve[i]) && eligible(
            curve[i],
            max_output_nano,
        )
    &&& forall|k: int|
        0 <= k < samples.len() && eligible(#[trigger] samples[k], max_output_nano) ==> shows(
            curve,
            samples[k],
        )
}

/// Whether `curve` has a point at the input of `sample` with at least its
/// output.
pub open spec fn shows(curve: Seq<(u64, u64)>, sample: (u64, u64)) -> bool {
    exists|i: int| 0 <= i < curve.len() && curve[i].0 == sample.0 && curve[i].1 >= sample.1
}

/// Order of samples: by input, then by output.
spec fn ordered(a: (u64, u64), b: (u64, u64)) -> bool {
    a.0 < b.0 || (a.0 == b.0 && a.1 <= b.1)
}

/// The eligible samples, in order.
fn sorted_eligible(samples: &[(u64, u64)], max_output_nano: u64) -> (sorted: Vec<(u64, u64)>)
    ensures
        forall|i: int, j: int| 0 <= i < j < sorted@.len() ==> ordered(sorted@[i], sorted@[j]),
        forall|i: int|
            0 <= i < sorted@.len() ==> samples@.contains(#[trigger] sorted@[i]) && eligible(
                sorted@[i],
                max_output_nano,
            ),
        forall|k: int|
            0 <= k < samples@.len() && eligible(#[trigger] samples@[k], max_output_nano)
                ==> sorted@.contains(samples@[k]),
        sorted@.len() <= samples@.len(),
{
    let n: usize = samples.len();
    let mut sorted: Vec<(u64, u64)> = Vec::new();
    let mut k: usize = 0;
    while k < n
        invariant
            k <= n,
            n == samples@.len(),
            sorted@.len() <= k,
            forall|i: int, j: int| 0 <= i < j < sorted@.len() ==> ordered(sorted@[i], sorted@[j]),
            forall|i: int|
                0 <= i < sorted@.len() ==> samples@.contains(#[trigger] sorted@[i]) && eligible(
                    sorted@[i],
                    max_output_nano,
                ),
            forall|m: int|
                0 <= m < k && eligible(#[trigger] samples@[m], max_output_nano)
                    ==> sorted@.contains(samples@[m]),
        decreases n - k,
    {
        let sample: (u64, u64) = samples[k];
        if sample.0 >= MIN_INPUT_NANO && sample.1 != 0 && sample.1 < max_output_nano {
            let len: usize = sorted.len();
            let mut at: usize = 0;
            while at < len && (sorted[at].0 < sample.0 || (sorted[at].0 == sample.0
                && sorted[at].1 <= sample.1))
                invariant
                    at <= len,
                    len == sorted@.len(),
                    forall|i: int| 0 <= i < at ==> ordered(sorted@[i], sample),
                decreases len - at,
            {
                at += 1;
            }
            let ghost before = sorted@;
            assert forall|i: int| at <= i < before.len() implies ordered(sample, before[i]) by {
                assert(!ordered(before[at as int], sample));
                if at < i {
                    assert(ordered(before[at as int], before[i]));
                }
            }
            sorted.insert(at, sample);
            assert(sorted@[at as int] == sample);
            assert(forall|i: int| 0 <= i < at ==> sorted@[i] == before[i]);
            assert(forall|i: int| at < i < sorted@.len() ==> sorted@[i] == before[i - 1]);
            assert(samples@.contains(sample));
            assert forall|i: int, j: int| 0 <= i < j < sorted@.len() implies ordered(
                sorted@[i],
                sorted@[j],
            ) by {
                if j < at {
                } else if j == at {
                    assert(ordered(before[i], sample));
                } else if i == at {
                    assert(ordered(sample, before[j - 1]));
                } else if i < at {
                    assert(ordered(before[i], before[j - 1]));
                } else {
                    assert(ordered(before[i - 1], before[j - 1]));
                }
            }
            assert forall|m: int|
                0 <= m < k + 1 && eligible(
                    #[trigger] samples@[m],
                    max_output_nano,
                ) implies sorted@.contains(samples@[m]) by {
                if m < k {
                    let w = choose|w: int| 0 <= w < before.len() && before[w] == samples@[m];
                    if w < at {
                        assert(sorted@[w] == samples@[m]);
                    } else {
                        assert(sorted@[w + 1] == samples@[m]);
                    }
                } else {
                    assert(sorted@[at as int] == samples@[m]);
                }
            }
        }
        k += 1;
    }
    sorted
}

/// The curve that `samples` show.
fn collapsed_curve(samples: &[(u64, u64)], max_output_nano: u64) -> (curve: Vec<(u64, u64)>)
    ensures
        is_curve_of(curve@, samples@, max_output_nano),
{
    let sorted = sorted_eligible(samples, max_output_nano);
    let n: usize = sorted.len();
    let mut curve: Vec<(u64, u64)> = Vec::new();
    let ghost mut source: Seq<int> = Seq::empty();
    let ghost mut place: Seq<int> = Seq::empty();
    let mut i: usize = 0;
    while i < n
        invariant
            i <= n,
            n == sorted@.len(),
            curve@.len() <= i,
            source.len() == curve@.len(),
            place.len() == i,
            i > 0 ==> curve@.len() > 0 && curve@[curve@.len() - 1].0 == sorted@[i - 1].0,
            forall|a: int, b: int| 0 <= a < b < sorted@.len() ==> ordered(sorted@[a], sorted@[b]),
            forall|a: int, b: int| 0 <= a < b < curve@.len() ==> curve@[a].0 < curve@[b].0,
            forall|a: int|
                0 <= a < curve@.len() ==> 0 <= #[trigger] source[a] < i && sorted@[source[a]]
                    == curve@[a],
            forall|m: int|
                0 <= m < i ==> 0 <= #[trigger] place[m] < curve@.len() && curve@[place[m]].0
                    == sorted@[m].0 && curve@[place[m]].1 >= sorted@[m].1,
        decreases n - i,
    {
        let point: (u64, u64) = sorted[i];
        let len: usize = curve.len();
        if len > 0 && curve[len - 1].0 == point.0 {
            let last: (u64, u64) = curve[len - 1];
            assert(ordered(sorted@[source[len - 1]], sorted@[i as int]));
            if point.1 > last.1 {
                curve[len - 1] = point;
            }
            proof {
                source = source.update(len - 1, i as int);
                place = place.push(len - 1);
            }
        } else {
            proof {
                if len > 0 {
                    assert(ordered(sorted@[i - 1], sorted@[i as int]));
                }
            }
            curve.push(point);
            proof {
                source = source.push(i as int);
                place = place.push(len as int);
            }
        }
        i += 1;
    }
    proof {
        reveal(is_curve_of);
        assert forall|k: int|
            0 <= k < samples@.len() && eligible(
                #[trigger] samples@[k],
                max_output_nano,
            ) implies shows(curve@, samples@[k]) by {
            assert(sorted@.contains(samples@[k]));
            let m = choose|m: int| 0 <= m < sorted@.len() && sorted@[m] == samples@[k];
            assert(curve@[place[m]].0 == samples@[k].0 && curve@[place[m]].1 >= samples@[k].1);
        }
        assert forall|a: int| 0 <= a < curve@.len() implies samples@.contains(
            #[trigger] curve@[a],
        ) && eligible(curve@[a], max_output_nano) by {
            assert(sorted@[source[a]] == curve@[a]);
        }
    }
    curve
}

/// The inputs of a curve rise.
proof fn lemma_curve_rises(
    curve: Seq<(u64, u64)>,
    samples: Seq<(u64, u64)>,
    max_output_nano: u64,
    i: int,
    j: int,
)
    requires
        is_curve_of(curve, samples, max_output_nano),
        0 <= i < j < curve.len(),
    ensures
        curve[i].0 < curve[j].0,
{
    reveal(is_curve_of);
}

/// Each point of one curve of some samples is shown by every curve of
/// them.
proof fn lemma_curve_point_shown(
    c1: Seq<(u64, u64)>,
    c2: Seq<(u64, u64)>,
    samples: Seq<(u64, u64)>,
    max_output_nano: u64,
    t: int,
)
    requires
        is_curve_of(c1, samples, max_output_nano),
        is_curve_of(c2, samples, max_output_nano),
        0 <= t < c1.len(),
    ensures
        shows(c2, c1[t]),
{
    reveal(is_curve_of);
    assert(samples.contains(c1[t]));
    let k = choose|k: int| 0 <= k < samples.len() && samples[k] == c1[t];
    assert(eligible(samples[k], max_output_nano));
}

/// Two curves of the same samples agree on their first `upto` points.
proof fn lemma_curves_agree(
    c1: Seq<(u64, u64)>,
    c2: Seq<(u64, u64)>,
    samples: Seq<(u64, u64)>,
    max_output_nano: u64,
    upto: nat,
)
    requires
        is_curve_of(c1, samples, max_output_nano),
        is_curve_of(c2, samples, max_output_nano),
        upto <= c1.len(),
    ensures
        upto <= c2.len(),
        forall|j: int| 0 <= j < upto ==> c1[j] == c2[j],
    decreases upto,
{
    if upto > 0 {
        let t = (upto - 1) as int;
        lemma_curves_agree(c1, c2, samples, max_output_nano, t as nat);
        lemma_curve_point_shown(c1, c2, samples, max_output_nano, t);
        let j = choose|j: int| 0 <= j < c2.len() && c2[j].0 == c1[t].0 && c2[j].1 >= c1[t].1;
        if j < t {
            lemma_curve_rises(c1, samples, max_output_nano, j, t);
        }
        assert(t <= j);
        lemma_curve_point_shown(c2, c1, samples, max_output_nano, t);
        let i = choose|i: int| 0 <= i < c1.len() && c1[i].0 == c2[t].0 && c1[i].1 >= c2[t].1;
        if i < t {
            lemma_curve_rises(c2, samples, max_output_nano, i, t);
        }
        assert(t <= i);
        if t < j {
            lemma_curve_rises(c2, samples, max_output_nano, t, j);
        }
        if t < i {
            lemma_curve_rises(c1, samples, max_output_nano, t, i);
        }
        assert(i == t && j == t);
        assert(c1[t].0 == c2[t].0 && c1[t].1 == c2[t].1);
    }
}

/// Samples show one curve and no other.
pub proof fn lemma_curve_unique(
    c1: Seq<(u64, u64)>,
    c2: Seq<(u64, u64)>,
    samples: Seq<(u64, u64)>,
    max_output_nano: u64,
)
    requires
        is_curve_of(c1, samples, max_output_nano),
        is_curve_of(c2, samples, max_output_nano),
    ensures
        c1 == c2,
{
    lemma_curves_agree(c1, c2, samples, max_output_nano, c1.len());
    lemma_curves_agree(c2, c1, samples, max_output_nano, c2.len());
    assert(c1 =~= c2);
}

/// The curve that `samples` show.
pub open spec fn sampled_curve(samples: Seq<(u64, u64)>, max_output_nano: u64) -> Seq<(u64, u64)> {
    choose|curve: Seq<(u64, u64)>| is_curve_of(curve, samples, max_output_nano)
}

/// The landmarks of a curve: its first point, and from there on each next
/// point that lies at least `MIN_DIN` of input behind the last landmark.
pub open spec fn landmarks_of(curve: Seq<(u64, u64)>) -> Seq<(u64, u64)>
    decreases curve.len(),
{
    if curve.len() == 0 {
        Seq::empty()
    } else {
        let earlier = landmarks_of(curve.drop_last());
        if earlier.len() > 0 && curve.last().0 - earlier.last().0 < MIN_DIN {
            earlier
        } else {
            earlier.push(curve.last())
        }
    }
}

/// Whether the points fall somewhere: from one point to the next the
/// output drops by more than one unit.
pub open spec fn falls(points: Seq<(u64, u64)>) -> bool {
    exists|i: int| 0 <= i < points.len() - 1 && falls_at(points, i)
}

/// Whether the output drops by more than one unit from point `i` to the
/// next.
pub open spec fn falls_at(points: Seq<(u64, u64)>, i: int) -> bool {
    points[i + 1].1 + 1 < points[i].1
}

/// The landmarks of a curve are points of the curve, in rising order of
/// input.
proof fn lemma_landmarks_rise(curve: Seq<(u64, u64)>)
    requires
        forall|a: int, b: int| 0 <= a < b < curve.len() ==> curve[a].0 < curve[b].0,
    ensures
        forall|i: int|
            0 <= i < landmarks_of(curve).len() ==> curve.contains(
                #[trigger] landmarks_of(curve)[i],
            ),
        forall|i: int, j: int|
            0 <= i < j < landmarks_of(curve).len() ==> landmarks_of(curve)[i].0 < landmarks_of(
                curve,
            )[j].0,
    decreases curve.len(),
{
    if curve.len() > 0 {
        let front = curve.drop_last();
        let earlier = landmarks_of(front);
        let marks = landmarks_of(curve);
        lemma_landmarks_rise(front);
        assert forall|i: int| 0 <= i < earlier.len() implies curve.contains(
            #[trigger] earlier[i],
        ) && earlier[i].0 < curve.last().0 by {
            assert(front.contains(earlier[i]));
            let k = choose|k: int| 0 <= k < front.len() && front[k] == earlier[i];
            assert(curve[k] == earlier[i]);
        }
        assert(curve.contains(curve.last())) by {
            assert(curve[curve.len() - 1] == curve.last());
        }
        assert forall|i: int| 0 <= i < marks.len() implies curve.contains(#[trigger] marks[i]) by {
            if i < earlier.len() {
                assert(marks[i] == earlier[i]);
            }
        }
        assert forall|i: int, j: int| 0 <= i < j < marks.len() implies marks[i].0
            < marks[j].0 by {
            if j < earlier.len() {
                assert(marks[i] == earlier[i] && marks[j] == earlier[j]);
            } else {
                assert(marks[i] == earlier[i]);
            }
        }
    }
}

/// Whether the samples rise: one with a larger input never has a smaller
/// output.
pub open spec fn rising(samples: Seq<(u64, u64)>) -> bool {
    forall|i: int, j: int|
        0 <= i < samples.len() && 0 <= j < samples.len() && samples[i].0 <= samples[j].0
            ==> samples[i].1 <= samples[j].1
}

/// The screening never refuses a rising curve for its fall: the landmarks
/// of the curve of rising samples do not fall.
pub proof fn lemma_rising_samples_do_not_fall(
    curve: Seq<(u64, u64)>,
    samples: Seq<(u64, u64)>,
    max_output_nano: u64,
)
    requires
        is_curve_of(curve, samples, max_output_nano),
        rising(samples),
    ensures
        !falls(landmarks_of(curve)),
{
    reveal(is_curve_of);
    lemma_landmarks_rise(curve);
    let marks = landmarks_of(curve);
    assert forall|i: int| 0 <= i < marks.len() - 1 implies !falls_at(marks, i) by {
        assert(curve.contains(marks[i]));
        assert(curve.contains(marks[i + 1]));
        let a = choose|a: int| 0 <= a < curve.len() && curve[a] == marks[i];
        let b = choose|b: int| 0 <= b < curve.len() && curve[b] == marks[i + 1];
        assert(samples.contains(curve[a]));
        assert(samples.contains(curve[b]));
        let x = choose|x: int| 0 <= x < samples.len() && samples[x] == marks[i];
        let y = choose|y: int| 0 <= y < samples.len() && samples[y] == marks[i + 1];
        assert(samples[x].0 <= samples[y].0);
    }
}

/// What the screening of a sampled curve found.
#[derive(Debug)]
pub enum CurveScreen {
    /// The curve is refused: nothing could have been paid out, or the
    /// landmarks fall.
    Rejected,
    /// The curve is accepted: it has too few landmarks to show a shape.
    Accepted,
    /// The landmarks do not fall; their slopes are left to compare.
    Landmarks(Vec<(u64, u64)>),
}

/// Splits retail orders between two market makers, and screens the curve
/// that its search sampled.
pub struct OrderRouter;

impl OrderRouter {
    /// A router.
    pub fn new() -> (router: Self) {
        OrderRouter
    }

    /// Screens the samples of one split search, `(input, output)` in units,
    /// against the most that could have been paid out. Samples with an
    /// input below 10^6 units, with no output or with an output at or above
    /// `max_output_nano` do not count. The others are put in order of
    /// input, equal inputs made one with their largest output, and thinned
    /// to landmarks at least 10^5 units of input apart.
    pub fn screen_curve(samples: &[(u64, u64)], max_output_nano: u64) -> (screen: CurveScreen)
        ensures
            is_curve_of(sampled_curve(samples@, max_output_nano), samples@, max_output_nano),
            ({
                let landmarks = landmarks_of(sampled_curve(samples@, max_output_nano));
                match screen {
                    CurveScreen::Rejected => max_output_nano == 0 || (landmarks.len()
                        >= MIN_LANDMARKS && falls(landmarks)),
                    CurveScreen::Accepted => max_output_nano != 0 && landmarks.len()
                        < MIN_LANDMARKS,
                    CurveScreen::Landmarks(points) => max_output_nano != 0 && landmarks.len()
                        >= MIN_LANDMARKS && !falls(landmarks) && points@ == landmarks,
                }
            }),
    {
        let curve = collapsed_curve(samples, max_output_nano);
        proof {
            reveal(is_curve_of);
            lemma_curve_unique(
                curve@,
                sampled_curve(samples@, max_output_nano),
                samples@,
                max_output_nano,
            );
        }
        if max_output_nano == 0 {
            return CurveScreen::Rejected;
        }
        let landmarks = spaced_landmarks(&curve);
        if landmarks.len() < MIN_LANDMARKS {
            return CurveScreen::Accepted;
        }
        if any_fall(&landmarks) {
            return CurveScreen::Rejected;
        }
        CurveScreen::Landmarks(landmarks)
    }
}

/// The landmarks of `curve`, whose inputs rise.
fn spaced_landmarks(curve: &Vec<(u64, u64)>) -> (landmarks: Vec<(u64, u64)>)
    requires
        forall|a: int, b: int| 0 <= a < b < curve@.len() ==> curve@[a].0 < curve@[b].0,
    ensures
        landmarks@ == landmarks_of(curve@),
{
    let n: usize = curve.len();
    let mut landmarks: Vec<(u64, u64)> = Vec::new();
    let mut i: usize = 0;
    let ghost mut source: int = 0;
    while i < n
        invariant
            i <= n,
            n == curve@.len(),
            landmarks@ == landmarks_of(curve@.take(i as int)),
            landmarks@.len() > 0 ==> 0 <= source < i && landmarks@[landmarks@.len() - 1]
                == curve@[source],
            forall|a: int, b: int| 0 <= a < b < curve@.len() ==> curve@[a].0 < curve@[b].0,
        decreases n - i,
    {
        let point: (u64, u64) = curve[i];
        let len: usize = landmarks.len();
        proof {
            let upto = curve@.take(i + 1);
            assert(upto.drop_last() =~= curve@.take(i as int));
            assert(upto.last() == point);
            if len > 0 {
                assert(curve@[source].0 < curve@[i as int].0);
            }
        }
        if len > 0 && point.0 - landmarks[len - 1].0 < MIN_DIN {
        } else {
            landmarks.push(point);
            proof {
                source = i as int;
            }
        }
        i += 1;
    }
    assert(curve@.take(n as int) =~= curve@);
    landmarks
}

/// Whether `points` fall somewhere.
fn any_fall(points: &Vec<(u64, u64)>) -> (found: bool)
    ensures
        found == falls(points@),
{
    let n: usize = points.len();
    if n < 2 {
        return false;
    }
    let mut i: usize = 0;
    while i < n - 1
        invariant
            2 <= n,
            i <= n - 1,
            n == points@.len(),
            forall|j: int| 0 <= j < i ==> !falls_at(points@, j),
        decreases n - 1 - i,
    {
        let out_a: u64 = points[i].1;
        let out_b: u64 = points[i + 1].1;
        if out_b < out_a && out_a - out_b > 1 {
            assert(falls_at(points@, i as int));
            return true;
        }
        i += 1;
    }
    false
}

} // verus!
