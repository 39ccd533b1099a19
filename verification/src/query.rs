//! What a query over the measurements answers.
//!
//! A query names a criterion. Its answer holds every stored measurement
//! that fits the criterion, each once, in the order of their measurement
//! time: earlier first, measurements without a time last, and measurements
//! that tie in the order in which they were stored.

use vstd::prelude::*;
use crate::records::{MeasurementView, NodeKind};
use crate::text::{lemma_text_le_total, lemma_text_le_transitive, text_le};

verus! {

/// What a query asks for.
pub enum CriterionView {
    /// Measurements that refer to this node of the hierarchy.
    Node { kind: NodeKind, id: Seq<char> },
    /// Measurements of this type.
    Type { measurement_type: Seq<char> },
    /// Measurements whose time lies between the two bounds, bounds
    /// included.
    Between { start: Seq<char>, end: Seq<char> },
}

impl CriterionView {
    /// The measurement is one the query asks for. A measurement without a
    /// time lies in no range.
    pub open spec fn fits(self, m: MeasurementView) -> bool {
        match self {
            CriterionView::Node { kind, id } => match kind {
                NodeKind::AdministrativeUnit => m.administrative_unit_id == Some(id),
                NodeKind::Workshop => m.workshop_id == Some(id),
                NodeKind::Well => m.well_id == Some(id),
            },
            CriterionView::Type { measurement_type } => m.measurement_type == Some(
                measurement_type,
            ),
            CriterionView::Between { start, end } => match m.measurement_date_time {
                Some(time) => text_le(start, time) && text_le(time, end),
                None => false,
            },
        }
    }
}

/// The order of measurement times: by text, an absent time after every
/// time that is present.
pub open spec fn time_le(a: Option<Seq<char>>, b: Option<Seq<char>>) -> bool {
    match (a, b) {
        (Some(x), Some(y)) => text_le(x, y),
        (Some(_), None) => true,
        (None, Some(_)) => false,
        (None, None) => true,
    }
}

/// The row at position `i` belongs before the row at position `j` in an
/// answer: its time is earlier, or the times tie and it was stored first.
pub open spec fn comes_before(rows: Seq<MeasurementView>, i: int, j: int) -> bool {
    let a = rows[i].measurement_date_time;
    let b = rows[j].measurement_date_time;
    time_le(a, b) && (time_le(b, a) ==> i < j)
}

/// `picks` lists, in the order of an answer, the positions of exactly those
/// among the first `n` rows that fit the criterion.
pub open spec fn selects_among(
    rows: Seq<MeasurementView>,
    criterion: CriterionView,
    picks: Seq<int>,
    n: int,
) -> bool {
    &&& forall|k: int|
        0 <= k < picks.len() ==> 0 <= (#[trigger] picks[k]) < n && criterion.fits(rows[picks[k]])
    &&& forall|r: int|
        0 <= r < n && criterion.fits(#[trigger] rows[r]) ==> exists|k: int|
            0 <= k < picks.len() && picks[k] == r
    &&& forall|k: int, l: int|
        0 <= k < l < picks.len() ==> comes_before(rows, #[trigger] picks[k], #[trigger] picks[l])
}

/// `picks` lists the positions of the rows of an answer, in its order.
pub open spec fn selects(rows: Seq<MeasurementView>, criterion: CriterionView, picks: Seq<int>) -> bool {
    selects_among(rows, criterion, picks, rows.len() as int)
}

/// `answer` is what a query with this criterion returns on these rows.
pub open spec fn answers(
    rows: Seq<MeasurementView>,
    criterion: CriterionView,
    answer: Seq<MeasurementView>,
) -> bool {
    exists|picks: Seq<int>| #[trigger]
        selects(rows, criterion, picks) && answer == picks.map_values(|p: int| rows[p])
}

/// Of two times one is not later than the other.
pub proof fn lemma_time_le_total(a: Option<Seq<char>>, b: Option<Seq<char>>)
    ensures
        time_le(a, b) || time_le(b, a),
{
    if a is Some && b is Some {
        lemma_text_le_total(a->Some_0, b->Some_0);
    }
}

/// The order of times is transitive.
pub proof fn lemma_time_le_transitive(
    a: Option<Seq<char>>,
    b: Option<Seq<char>>,
    c: Option<Seq<char>>,
)
    requires
        time_le(a, b),
        time_le(b, c),
    ensures
        time_le(a, c),
{
    if a is Some && b is Some && c is Some {
        lemma_text_le_transitive(a->Some_0, b->Some_0, c->Some_0);
    }
}

/// A row that does not fit leaves the selection as it is.
pub proof fn lemma_selection_passes(
    rows: Seq<MeasurementView>,
    criterion: CriterionView,
    picks: Seq<int>,
    n: int,
)
    requires
        0 <= n < rows.len(),
        selects_among(rows, criterion, picks, n),
        !criterion.fits(rows[n]),
    ensures
        selects_among(rows, criterion, picks, n + 1),
{
}

/// A row that fits enters the selection behind the last pick whose time is
/// not later than its own.
pub proof fn lemma_selection_takes(
    rows: Seq<MeasurementView>,
    criterion: CriterionView,
    picks: Seq<int>,
    n: int,
    place: int,
)
    requires
        0 <= n < rows.len(),
        selects_among(rows, criterion, picks, n),
        criterion.fits(rows[n]),
        0 <= place <= picks.len(),
        forall|k: int|
            place <= k < picks.len() ==> !time_le(
                rows[#[trigger] picks[k]].measurement_date_time,
                rows[n].measurement_date_time,
            ),
        place > 0 ==> time_le(
            rows[picks[place - 1]].measurement_date_time,
            rows[n].measurement_date_time,
        ),
    ensures
        selects_among(rows, criterion, picks.insert(place, n), n + 1),
{
    let next = picks.insert(place, n);
    let time = rows[n].measurement_date_time;
    assert(next.len() == picks.len() + 1);
    assert(next[place] == n);
    assert forall|k: int| 0 <= k < place implies #[trigger] next[k] == picks[k] by {}
    assert forall|k: int| place < k < next.len() implies #[trigger] next[k] == picks[k - 1] by {}
    assert forall|k: int| 0 <= k < next.len() implies 0 <= (#[trigger] next[k]) < n + 1
        && criterion.fits(rows[next[k]]) by {
        if k < place {
            assert(next[k] == picks[k]);
        } else if k > place {
            assert(next[k] == picks[k - 1]);
        }
    }
    assert forall|r: int| 0 <= r < n + 1 && criterion.fits(#[trigger] rows[r]) implies exists|
        k: int,
    |
        0 <= k < next.len() && next[k] == r by {
        if r == n {
            assert(next[place] == r);
        } else {
            let k = choose|k: int| 0 <= k < picks.len() && picks[k] == r;
            if k < place {
                assert(next[k] == r);
            } else {
                assert(next[k + 1] == picks[k]);
            }
        }
    }
    assert forall|k: int, l: int| 0 <= k < l < next.len() implies comes_before(
        rows,
        #[trigger] next[k],
        #[trigger] next[l],
    ) by {
        if l < place {
            assert(next[k] == picks[k] && next[l] == picks[l]);
        } else if l == place {
            assert(next[k] == picks[k]);
            let last = rows[picks[place - 1]].measurement_date_time;
            let mine = rows[picks[k]].measurement_date_time;
            if k < place - 1 {
                assert(comes_before(rows, picks[k], picks[place - 1]));
                lemma_time_le_transitive(mine, last, time);
            }
            assert(picks[k] < n);
        } else if k == place {
            assert(next[l] == picks[l - 1]);
            let other = rows[picks[l - 1]].measurement_date_time;
            lemma_time_le_total(time, other);
        } else if k > place {
            assert(next[k] == picks[k - 1] && next[l] == picks[l - 1]);
        } else {
            assert(next[k] == picks[k] && next[l] == picks[l - 1]);
        }
    }
}

/// Positions listed in the order of an answer.
pub open spec fn in_order(rows: Seq<MeasurementView>, picks: Seq<int>) -> bool {
    forall|k: int, l: int|
        0 <= k < l < picks.len() ==> comes_before(rows, #[trigger] picks[k], #[trigger] picks[l])
}

/// Two lists of the same positions, both in the order of an answer, are the
/// same list.
pub proof fn lemma_order_is_unique(rows: Seq<MeasurementView>, p: Seq<int>, q: Seq<int>)
    requires
        in_order(rows, p),
        in_order(rows, q),
        forall|x: int| p.contains(x) <==> q.contains(x),
    ensures
        p == q,
    decreases p.len(),
{
    if p.len() == 0 {
        if q.len() > 0 {
            assert(q.contains(q[0]));
        }
        assert(p =~= q);
    } else {
        let first = p[0];
        assert(p.contains(first));
        let k = choose|k: int| 0 <= k < q.len() && q[k] == first;
        assert(q.contains(q[0]));
        let l = choose|l: int| 0 <= l < p.len() && p[l] == q[0];
        let time = rows[first].measurement_date_time;
        lemma_time_le_total(time, time);
        if k > 0 {
            assert(comes_before(rows, q[0], q[k]));
            if l > 0 {
                assert(comes_before(rows, p[0], p[l]));
            }
        }
        assert(q[0] == first);
        let p_rest = p.drop_first();
        let q_rest = q.drop_first();
        assert forall|i: int, j: int| 0 <= i < j < p_rest.len() implies comes_before(
            rows,
            #[trigger] p_rest[i],
            #[trigger] p_rest[j],
        ) by {
            assert(p_rest[i] == p[i + 1] && p_rest[j] == p[j + 1]);
        }
        assert forall|i: int, j: int| 0 <= i < j < q_rest.len() implies comes_before(
            rows,
            #[trigger] q_rest[i],
            #[trigger] q_rest[j],
        ) by {
            assert(q_rest[i] == q[i + 1] && q_rest[j] == q[j + 1]);
        }
        assert forall|x: int| p_rest.contains(x) <==> q_rest.contains(x) by {
            if p_rest.contains(x) {
                let i = choose|i: int| 0 <= i < p_rest.len() && p_rest[i] == x;
                assert(p[i + 1] == x);
                assert(comes_before(rows, p[0], p[i + 1]));
                assert(p.contains(x));
                let j = choose|j: int| 0 <= j < q.len() && q[j] == x;
                assert(j > 0);
                assert(q_rest[j - 1] == x);
            }
            if q_rest.contains(x) {
                let i = choose|i: int| 0 <= i < q_rest.len() && q_rest[i] == x;
                assert(q[i + 1] == x);
                assert(comes_before(rows, q[0], q[i + 1]));
                assert(q.contains(x));
                let j = choose|j: int| 0 <= j < p.len() && p[j] == x;
                assert(j > 0);
                assert(p_rest[j - 1] == x);
            }
        }
        lemma_order_is_unique(rows, p_rest, q_rest);
        assert(p =~= seq![first] + p_rest);
        assert(q =~= seq![first] + q_rest);
    }
}

/// A query has one answer: what the contract of a query says of its result
/// holds of no other sequence.
pub proof fn lemma_answer_is_unique(
    rows: Seq<MeasurementView>,
    criterion: CriterionView,
    first: Seq<MeasurementView>,
    second: Seq<MeasurementView>,
)
    requires
        answers(rows, criterion, first),
        answers(rows, criterion, second),
    ensures
        first == second,
{
    let p = choose|picks: Seq<int>| #[trigger]
        selects(rows, criterion, picks) && first == picks.map_values(|p: int| rows[p]);
    let q = choose|picks: Seq<int>| #[trigger]
        selects(rows, criterion, picks) && second == picks.map_values(|p: int| rows[p]);
    assert forall|x: int| p.contains(x) <==> q.contains(x) by {
        if p.contains(x) {
            let k = choose|k: int| 0 <= k < p.len() && p[k] == x;
            assert(criterion.fits(rows[p[k]]));
            let l = choose|l: int| 0 <= l < q.len() && q[l] == x;
        }
        if q.contains(x) {
            let k = choose|k: int| 0 <= k < q.len() && q[k] == x;
            assert(criterion.fits(rows[q[k]]));
            let l = choose|l: int| 0 <= l < p.len() && p[l] == x;
        }
    }
    lemma_order_is_unique(rows, p, q);
}

/// In an answer no measurement comes before one with an earlier time, and
/// none without a time comes before one that has a time.
pub proof fn lemma_answer_is_ordered(
    rows: Seq<MeasurementView>,
    criterion: CriterionView,
    answer: Seq<MeasurementView>,
)
    requires
        answers(rows, criterion, answer),
    ensures
        forall|k: int, l: int|
            0 <= k < l < answer.len() ==> time_le(
                (#[trigger] answer[k]).measurement_date_time,
                (#[trigger] answer[l]).measurement_date_time,
            ),
        forall|k: int| 0 <= k < answer.len() ==> criterion.fits(#[trigger] answer[k]),
        forall|r: int|
            0 <= r < rows.len() && criterion.fits(#[trigger] rows[r]) ==> answer.contains(rows[r]),
{
    let p = choose|picks: Seq<int>| #[trigger]
        selects(rows, criterion, picks) && answer == picks.map_values(|p: int| rows[p]);
    assert forall|k: int, l: int| 0 <= k < l < answer.len() implies time_le(
        (#[trigger] answer[k]).measurement_date_time,
        (#[trigger] answer[l]).measurement_date_time,
    ) by {
        assert(comes_before(rows, p[k], p[l]));
    }
    assert forall|k: int| 0 <= k < answer.len() implies criterion.fits(#[trigger] answer[k]) by {
        assert(criterion.fits(rows[p[k]]));
    }
    assert forall|r: int| 0 <= r < rows.len() && criterion.fits(#[trigger] rows[r]) implies answer.contains(
        rows[r],
    ) by {
        let k = choose|k: int| 0 <= k < p.len() && p[k] == r;
        assert(answer[k] == rows[r]);
    }
}

} // verus!
