//! Choosing the cells of a price curve that cover a requested duration most cheaply.

use vstd::prelude::*;

use crate::model::consumption_plan::ConsumptionPlanItem;
use crate::model::errors::AppError;
use crate::model::price_list::{price_in_cents, whole_cents, PriceListItem};
use crate::model::time::{is_instant, is_valid_instant, MILLIS_PER_MINUTE};
use crate::power_consumers::ordering::{
    all_satisfy, insertion_point, lemma_sort_all, sort_ordered, sum_of,
};

verus! {

/// The length of what the stretch from `from` to `to` shares with the window
/// from `start_from` to `finish_at`; nothing if the two do not meet.
pub open spec fn overlap_length(from: int, to: int, start_from: int, finish_at: int) -> int {
    let lo = if from > start_from {
        from
    } else {
        start_from
    };
    let hi = if to < finish_at {
        to
    } else {
        finish_at
    };
    if lo < hi {
        hi - lo
    } else {
        0
    }
}

/// How much of a cell lies between `start_from` and `finish_at`: the length
/// of the cell cut down to that window, nothing if the two do not meet.
pub open spec fn effective_duration(item: PriceListItem, start_from: int, finish_at: int) -> int {
    overlap_length(item.starts_at as int, item.end(), start_from, finish_at)
}

/// [`effective_duration`] within a fixed window, as a function of the cell.
pub open spec fn effective_in(start_from: int, finish_at: int) -> spec_fn(PriceListItem) -> int {
    |item: PriceListItem| effective_duration(item, start_from, finish_at)
}

/// The whole minutes of [`effective_duration`], as a function of the cell.
pub open spec fn minutes_in(start_from: int, finish_at: int) -> spec_fn(PriceListItem) -> int {
    |item: PriceListItem| effective_duration(item, start_from, finish_at) / (MILLIS_PER_MINUTE as int)
}

/// A price curve: valid cells in ascending order of time, none reaching into a later one.
pub open spec fn is_price_curve(list: Seq<PriceListItem>) -> bool {
    &&& forall|i: int| 0 <= i < list.len() ==> (#[trigger] list[i]).is_valid()
    &&& forall|i: int, j: int|
        0 <= i < j < list.len() ==> (#[trigger] list[i]).end() <= (#[trigger] list[j]).starts_at
}

/// The cell shares more than an instant with the window from `start_from` to `finish_at`.
pub open spec fn overlaps_window(item: PriceListItem, start_from: int, finish_at: int) -> bool {
    item.end() > start_from && item.starts_at < finish_at
}

/// A price curve put together for a window that starts before it ends:
/// every cell of it overlaps the window.
pub open spec fn is_assembled_price_list(
    list: Seq<PriceListItem>,
    start_from: int,
    finish_at: int,
) -> bool {
    &&& is_instant(start_from)
    &&& is_instant(finish_at)
    &&& start_from < finish_at
    &&& is_price_curve(list)
    &&& forall|i: int| 0 <= i < list.len() ==> overlaps_window(#[trigger] list[i], start_from, finish_at)
}

/// The time that the cells of `list` offer within the window.
pub open spec fn available_duration(
    list: Seq<PriceListItem>,
    start_from: int,
    finish_at: int,
) -> int {
    sum_of(list, effective_in(start_from, finish_at))
}

/// Two cells cost the same: their prices agree in whole cents.
pub open spec fn same_price(a: PriceListItem, b: PriceListItem) -> bool {
    price_in_cents(a.price) == price_in_cents(b.price)
}

/// The index at which the stretch of equally priced cells around cell `i` begins.
pub open spec fn run_first(list: Seq<PriceListItem>, i: int) -> int
    decreases i,
{
    if i <= 0 || !same_price(list[i - 1], list[i]) {
        i
    } else {
        run_first(list, i - 1)
    }
}

/// The index just behind the stretch of equally priced cells around cell `i`.
pub open spec fn run_end(list: Seq<PriceListItem>, i: int) -> int
    decreases list.len() - i,
{
    if i + 1 >= list.len() || !same_price(list[i], list[i + 1]) {
        i + 1
    } else {
        run_end(list, i + 1)
    }
}

/// The weight of cell `i`: the minutes that its stretch of equally priced
/// neighbours offers within the window, cell by cell in whole minutes.
pub open spec fn run_weight(
    list: Seq<PriceListItem>,
    start_from: int,
    finish_at: int,
    i: int,
) -> int {
    sum_of(list.subrange(run_first(list, i), run_end(list, i)), minutes_in(start_from, finish_at))
}

/// The curve with every cell's weight set to its [`run_weight`].
pub open spec fn with_weights(
    list: Seq<PriceListItem>,
    start_from: int,
    finish_at: int,
) -> Seq<PriceListItem> {
    Seq::new(
        list.len(),
        |i: int| PriceListItem { weight: run_weight(list, start_from, finish_at, i) as i64, ..list[i] },
    )
}

/// Within a price curve, the cells from `from` up to `to` offer no more time
/// within the window than the stretch from the first one's start to the last one's end.
pub proof fn lemma_curve_stretch_fits_window(
    list: Seq<PriceListItem>,
    start_from: int,
    finish_at: int,
    from: int,
    to: int,
)
    requires
        is_price_curve(list),
        0 <= from <= to <= list.len(),
    ensures
        0 <= sum_of(list.subrange(from, to), effective_in(start_from, finish_at)),
        from < to ==> sum_of(list.subrange(from, to), effective_in(start_from, finish_at))
            <= overlap_length(
            list[from].starts_at as int,
            list[to - 1].end(),
            start_from,
            finish_at,
        ),
        from == to ==> sum_of(list.subrange(from, to), effective_in(start_from, finish_at)) == 0,
    decreases to - from,
{
    let s = list.subrange(from, to);
    if from < to {
        assert(s.drop_last() =~= list.subrange(from, to - 1));
        assert(s.last() == list[to - 1]);
        lemma_curve_stretch_fits_window(list, start_from, finish_at, from, to - 1);
        assert(list[from].is_valid() && list[to - 1].is_valid());
        if from < to - 1 {
            assert(list[to - 2].is_valid());
            assert(list[to - 2].end() <= list[to - 1].starts_at);
            assert(list[from].end() <= list[to - 1].starts_at);
        }
    }
}

/// The whole minutes that the cells from `from` up to `to` offer are no more
/// than the milliseconds they offer.
pub proof fn lemma_minutes_at_most_millis(
    list: Seq<PriceListItem>,
    start_from: int,
    finish_at: int,
    from: int,
    to: int,
)
    requires
        0 <= from <= to <= list.len(),
    ensures
        0 <= sum_of(list.subrange(from, to), minutes_in(start_from, finish_at)) <= sum_of(
            list.subrange(from, to),
            effective_in(start_from, finish_at),
        ),
    decreases to - from,
{
    let s = list.subrange(from, to);
    if from < to {
        assert(s.drop_last() =~= list.subrange(from, to - 1));
        lemma_minutes_at_most_millis(list, start_from, finish_at, from, to - 1);
    }
}

/// Inside a stretch of equally priced cells that begins at `first`, every
/// cell's stretch begins at `first`.
pub proof fn lemma_run_first(list: Seq<PriceListItem>, first: int, i: int)
    requires
        0 <= first <= i < list.len(),
        first == 0 || !same_price(list[first - 1], list[first]),
        forall|k: int| first < k <= i ==> same_price(#[trigger] list[k - 1], list[k]),
    ensures
        run_first(list, i) == first,
    decreases i - first,
{
    if i > first {
        assert(same_price(list[i - 1], list[i]));
        lemma_run_first(list, first, i - 1);
    }
}

/// Inside a stretch of equally priced cells that ends before `end`, every
/// cell's stretch ends before `end`.
pub proof fn lemma_run_end(list: Seq<PriceListItem>, i: int, end: int)
    requires
        0 <= i < end <= list.len(),
        end == list.len() || !same_price(list[end - 1], list[end]),
        forall|k: int| i < k < end ==> same_price(#[trigger] list[k - 1], list[k]),
    ensures
        run_end(list, i) == end,
    decreases end - i,
{
    if i + 1 < end {
        assert(same_price(list[i + 1 - 1], list[i + 1]));
        lemma_run_end(list, i + 1, end);
    }
}

/// The stretch of equally priced cells around a cell of the list lies
/// within the list and holds the cell.
pub proof fn lemma_run_bounds(list: Seq<PriceListItem>, i: int)
    requires
        0 <= i < list.len(),
    ensures
        0 <= run_first(list, i) <= i < run_end(list, i) <= list.len(),
{
    lemma_run_first_bounds(list, i);
    lemma_run_end_bounds(list, i);
}

proof fn lemma_run_first_bounds(list: Seq<PriceListItem>, i: int)
    requires
        0 <= i < list.len(),
    ensures
        0 <= run_first(list, i) <= i,
    decreases i,
{
    if i > 0 && same_price(list[i - 1], list[i]) {
        lemma_run_first_bounds(list, i - 1);
    }
}

proof fn lemma_run_end_bounds(list: Seq<PriceListItem>, i: int)
    requires
        0 <= i < list.len(),
    ensures
        i < run_end(list, i) <= list.len(),
    decreases list.len() - i,
{
    if i + 1 < list.len() && same_price(list[i], list[i + 1]) {
        lemma_run_end_bounds(list, i + 1);
    }
}

/// The weight of a cell of a price curve is no more than the minutes of
/// the window, and so is a number that a cell can hold.
pub proof fn lemma_run_weight_fits(
    list: Seq<PriceListItem>,
    start_from: int,
    finish_at: int,
    i: int,
)
    requires
        is_price_curve(list),
        is_instant(start_from),
        is_instant(finish_at),
        0 <= i < list.len(),
    ensures
        0 <= run_weight(list, start_from, finish_at, i) <= overlap_length(
            start_from,
            finish_at,
            start_from,
            finish_at,
        ),
        run_weight(list, start_from, finish_at, i) <= i64::MAX,
{
    lemma_run_bounds(list, i);
    let first = run_first(list, i);
    let end = run_end(list, i);
    lemma_minutes_at_most_millis(list, start_from, finish_at, first, end);
    lemma_curve_stretch_fits_window(list, start_from, finish_at, first, end);
}

/// How much of the cell lies within the window; see [`effective_duration`].
pub fn apply_constraints_to_duration(
    price_list_item: &PriceListItem,
    start_from: i64,
    finish_at: i64,
) -> (duration: i64)
    requires
        price_list_item.is_valid(),
        is_instant(start_from as int),
        is_instant(finish_at as int),
    ensures
        duration == effective_duration(*price_list_item, start_from as int, finish_at as int),
        0 <= duration <= price_list_item.duration,
{
    let cell_end = price_list_item.ends_at();
    let from = if price_list_item.starts_at > start_from {
        price_list_item.starts_at
    } else {
        start_from
    };
    let to = if cell_end < finish_at {
        cell_end
    } else {
        finish_at
    };
    if from < to {
        to - from
    } else {
        0
    }
}

/// Tells whether `price_list` is a price curve put together for the window
/// from `start_from` to `finish_at`; see [`is_assembled_price_list`].
pub fn check_assembled_price_list(
    price_list: &Vec<PriceListItem>,
    start_from: i64,
    finish_at: i64,
) -> (assembled: bool)
    ensures
        assembled == is_assembled_price_list(price_list@, start_from as int, finish_at as int),
{
    if !is_valid_instant(start_from) || !is_valid_instant(finish_at) || start_from >= finish_at {
        return false;
    }
    let mut i: usize = 0;
    while i < price_list.len()
        invariant
            i <= price_list.len(),
            is_instant(start_from as int),
            is_instant(finish_at as int),
            start_from < finish_at,
            is_assembled_price_list(price_list@.take(i as int), start_from as int, finish_at as int),
        decreases price_list.len() - i,
    {
        let item = &price_list[i];
        let ghost before = price_list@.take(i as int);
        let ghost after = price_list@.take(i + 1);
        if !item.check_valid() {
            assert(after[i as int] == price_list@[i as int]);
            assert(!is_price_curve(price_list@)) by {
                assert(!price_list@[i as int].is_valid());
            }
            return false;
        }
        if !(item.ends_at() > start_from && item.starts_at < finish_at) {
            assert(!overlaps_window(price_list@[i as int], start_from as int, finish_at as int));
            return false;
        }
        if i > 0 && price_list[i - 1].ends_at() > item.starts_at {
            assert(price_list@[i - 1].is_valid()) by {
                assert(before[i - 1] == price_list@[i - 1]);
            }
            assert(!is_price_curve(price_list@)) by {
                assert(price_list@[i - 1].end() > price_list@[i as int].starts_at);
            }
            return false;
        }
        proof {
            assert forall|k: int| 0 <= k < after.len() implies (#[trigger] after[k]).is_valid()
                && overlaps_window(after[k], start_from as int, finish_at as int) by {
                if k < i {
                    assert(after[k] == before[k]);
                }
            }
            assert forall|k: int, j: int| 0 <= k < j < after.len() implies (#[trigger] after[k]).end()
                <= (#[trigger] after[j]).starts_at by {
                assert(after[k] == before[k]);
                if j < i {
                    assert(after[j] == before[j]);
                } else if k < i - 1 {
                    assert(before[k].end() <= before[i - 1].starts_at);
                    assert(before[i - 1].is_valid());
                    assert(before[i - 1] == price_list@[i - 1]);
                } else {
                    assert(before[i - 1] == price_list@[i - 1]);
                }
            }
        }
        i += 1;
    }
    assert(price_list@.take(i as int) =~= price_list@);
    true
}

/// Sets the weight of every cell of the curve to the minutes that its
/// stretch of equally priced neighbours offers within the window.
///
/// Among cells of one price the planner prefers the heavier ones: the longer
/// a cheap stretch, the fewer switches it takes to use it.
pub fn calculate_price_items_weights(
    price_list: &mut Vec<PriceListItem>,
    start_from: i64,
    finish_at: i64,
)
    requires
        is_price_curve(old(price_list)@),
        is_instant(start_from as int),
        is_instant(finish_at as int),
    ensures
        final(price_list)@ == with_weights(old(price_list)@, start_from as int, finish_at as int),
{
    let ghost given = price_list@;
    let ghost minutes = minutes_in(start_from as int, finish_at as int);
    let n = price_list.len();
    let mut first: usize = 0;
    while first < n
        invariant
            n == given.len(),
            price_list@.len() == n,
            first <= n,
            is_price_curve(given),
            is_instant(start_from as int),
            is_instant(finish_at as int),
            minutes == minutes_in(start_from as int, finish_at as int),
            first == 0 || first == n || !same_price(given[first - 1], given[first as int]),
            forall|k: int|
                0 <= k < first ==> price_list@[k] == with_weights(
                    given,
                    start_from as int,
                    finish_at as int,
                )[k],
            forall|k: int| first <= k < n ==> price_list@[k] == given[k],
        decreases n - first,
    {
        let cents = whole_cents(price_list[first].price);
        let mut weight: i64 = apply_constraints_to_duration(&price_list[first], start_from, finish_at)
            / MILLIS_PER_MINUTE;
        let mut end: usize = first + 1;
        proof {
            let stretch = given.subrange(first as int, end as int);
            assert(stretch.drop_last() =~= Seq::<PriceListItem>::empty());
            assert(stretch.last() == given[first as int]);
            assert(sum_of(stretch.drop_last(), minutes) == 0);
            assert(sum_of(stretch, minutes) == sum_of(stretch.drop_last(), minutes) + minutes(
                stretch.last(),
            ));
            lemma_curve_stretch_fits_window(
                given,
                start_from as int,
                finish_at as int,
                first as int,
                end as int,
            );
        }
        while end < n && whole_cents(price_list[end].price) == cents
            invariant
                n == given.len(),
                price_list@.len() == n,
                first < end <= n,
                is_price_curve(given),
                is_instant(start_from as int),
                is_instant(finish_at as int),
                minutes == minutes_in(start_from as int, finish_at as int),
                cents == price_in_cents(given[first as int].price),
                forall|k: int| first <= k < n ==> price_list@[k] == given[k],
                forall|k: int| first <= k < end ==> price_in_cents(#[trigger] given[k].price) == cents,
                weight == sum_of(given.subrange(first as int, end as int), minutes),
            decreases n - end,
        {
            assert(given[end as int].is_valid());
            let more = apply_constraints_to_duration(&price_list[end], start_from, finish_at)
                / MILLIS_PER_MINUTE;
            proof {
                let stretch = given.subrange(first as int, end + 1);
                assert(stretch.drop_last() =~= given.subrange(first as int, end as int));
                assert(stretch.last() == given[end as int]);
                lemma_minutes_at_most_millis(
                    given,
                    start_from as int,
                    finish_at as int,
                    first as int,
                    end + 1,
                );
                lemma_curve_stretch_fits_window(
                    given,
                    start_from as int,
                    finish_at as int,
                    first as int,
                    end + 1,
                );
                assert(given[first as int].is_valid() && given[end as int].is_valid());
            }
            weight = weight + more;
            end += 1;
        }
        proof {
            assert forall|k: int| first <= k < end implies run_first(given, k) == first
                && run_end(given, k) == end by {
                assert forall|j: int| first < j < end implies same_price(
                    #[trigger] given[j - 1],
                    given[j],
                ) by {
                    assert(price_in_cents(given[j - 1].price) == cents);
                    assert(price_in_cents(given[j].price) == cents);
                }
                if end < n {
                    assert(price_in_cents(given[end - 1].price) == cents);
                }
                lemma_run_first(given, first as int, k);
                lemma_run_end(given, k, end as int);
            }
        }
        let mut k: usize = first;
        while k < end
            invariant
                n == given.len(),
                price_list@.len() == n,
                first <= k <= end <= n,
                forall|j: int|
                    0 <= j < k ==> price_list@[j] == with_weights(
                        given,
                        start_from as int,
                        finish_at as int,
                    )[j],
                forall|j: int| k <= j < n ==> price_list@[j] == given[j],
                forall|j: int|
                    first <= j < end ==> run_weight(given, start_from as int, finish_at as int, j)
                        == weight,
            decreases end - k,
        {
            let mut item = price_list[k];
            item.set_weight(weight);
            price_list.set(k, item);
            k += 1;
        }
        proof {
            if end < n {
                assert(price_in_cents(given[end - 1].price) == cents);
            }
        }
        first = end;
    }
    assert(price_list@ =~= with_weights(given, start_from as int, finish_at as int));
}

/// The order in which cells are taken into a plan: the cheaper cell first;
/// at one price the heavier; at one price and weight the earlier.
pub open spec fn precedes(a: PriceListItem, b: PriceListItem) -> bool {
    ||| a.price < b.price
    ||| a.price == b.price && a.weight > b.weight
    ||| a.price == b.price && a.weight == b.weight && a.starts_at < b.starts_at
}

/// [`precedes`] as a relation.
pub open spec fn by_preference() -> spec_fn(PriceListItem, PriceListItem) -> bool {
    |a: PriceListItem, b: PriceListItem| precedes(a, b)
}

/// A cell together with the time that a plan takes from it.
pub struct Selection {
    pub cell: PriceListItem,
    pub duration: int,
}

/// The order of a plan: the selection with the earlier cell first.
pub open spec fn by_start() -> spec_fn(Selection, Selection) -> bool {
    |a: Selection, b: Selection| a.cell.starts_at < b.cell.starts_at
}

/// The cell and duration of a plan item.
pub open spec fn selection_of(item: ConsumptionPlanItem) -> Selection {
    Selection { cell: item.price_list_item, duration: item.duration as int }
}

/// The cells and durations of a list of plan items, in order.
pub open spec fn selections_of(items: Seq<ConsumptionPlanItem>) -> Seq<Selection> {
    items.map_values(|item: ConsumptionPlanItem| selection_of(item))
}

/// Covers `needed` with the cells of `ordered`, in their order: each cell in
/// turn is taken for all that it offers within the window, as long as that
/// is not more than what is still needed; the first cell that offers more
/// is taken for exactly the rest, and the cells behind it are left out.
pub open spec fn greedy_cover(
    ordered: Seq<PriceListItem>,
    needed: int,
    start_from: int,
    finish_at: int,
) -> Seq<Selection>
    decreases ordered.len(),
{
    if ordered.len() == 0 || needed <= 0 {
        Seq::empty()
    } else {
        let offered = effective_duration(ordered[0], start_from, finish_at);
        if offered <= needed {
            seq![Selection { cell: ordered[0], duration: offered }] + greedy_cover(
                ordered.drop_first(),
                needed - offered,
                start_from,
                finish_at,
            )
        } else {
            seq![Selection { cell: ordered[0], duration: needed }]
        }
    }
}

/// The plan for running `consumption_duration` between `start_from` and
/// `finish_at` on the price curve `price_list`: the cells are weighed,
/// ordered by preference and taken until the duration is covered; what was
/// taken is put back in order of time.
pub open spec fn selected_plan(
    price_list: Seq<PriceListItem>,
    consumption_duration: int,
    start_from: int,
    finish_at: int,
) -> Seq<Selection> {
    sort_ordered(
        greedy_cover(
            sort_ordered(with_weights(price_list, start_from, finish_at), by_preference()),
            consumption_duration,
            start_from,
            finish_at,
        ),
        by_start(),
    )
}

/// The duration of a selection, as a function.
pub open spec fn duration_of() -> spec_fn(Selection) -> int {
    |selection: Selection| selection.duration
}

/// The duration of a selection times the price of its cell, as a function.
pub open spec fn priced_duration_of() -> spec_fn(Selection) -> int {
    |selection: Selection| selection.cell.price * selection.duration
}

/// The time that a plan consumes: the sum of its durations.
pub open spec fn total_duration(plan: Seq<Selection>) -> int {
    sum_of(plan, duration_of())
}

/// What a plan costs when every cell's price is paid per millisecond used:
/// the sum of price times duration.
///
/// On a curve whose cells all last equally long, the price paid for a plan,
/// each cell counted by the share of it that is used, is this number divided
/// by the length of a cell.
pub open spec fn plan_cost(plan: Seq<Selection>) -> int {
    sum_of(plan, priced_duration_of())
}

/// A plan within a window: every selection takes some time, and no more
/// than its valid cell offers within the window; the cells follow each
/// other in time without reaching into one another.
pub open spec fn is_plan_within(plan: Seq<Selection>, start_from: int, finish_at: int) -> bool {
    &&& forall|i: int|
        0 <= i < plan.len() ==> {
            &&& (#[trigger] plan[i]).cell.is_valid()
            &&& 0 < plan[i].duration <= effective_duration(plan[i].cell, start_from, finish_at)
        }
    &&& forall|i: int, j: int|
        0 <= i < j < plan.len() ==> (#[trigger] plan[i]).cell.end() <= (
        #[trigger] plan[j]).cell.starts_at
}

/// Another way to spend `consumption_duration` on the curve: for every cell
/// of `price_list`, in order, how long it is used; never longer than the
/// cell offers within the window, and `consumption_duration` in all.
pub open spec fn is_alternative(
    alternative: Seq<Selection>,
    price_list: Seq<PriceListItem>,
    consumption_duration: int,
    start_from: int,
    finish_at: int,
) -> bool {
    &&& alternative.len() == price_list.len()
    &&& forall|i: int|
        0 <= i < alternative.len() ==> {
            &&& (#[trigger] alternative[i]).cell == price_list[i]
            &&& 0 <= alternative[i].duration <= effective_duration(
                price_list[i],
                start_from,
                finish_at,
            )
        }
    &&& total_duration(alternative) == consumption_duration
}

/// Tells whether `a` is taken into a plan before `b`; see [`precedes`].
pub fn precedes_by_price_weight_and_start_at(a: &PriceListItem, b: &PriceListItem) -> (first: bool)
    ensures
        first == precedes(*a, *b),
{
    if a.price != b.price {
        a.price < b.price
    } else if a.weight != b.weight {
        a.weight > b.weight
    } else {
        a.starts_at < b.starts_at
    }
}

/// Tells whether the cell of `a` starts before the cell of `b`.
pub fn precedes_by_start_at(a: &ConsumptionPlanItem, b: &ConsumptionPlanItem) -> (first: bool)
    ensures
        first == by_start()(selection_of(*a), selection_of(*b)),
{
    a.price_list_item.starts_at < b.price_list_item.starts_at
}

/// Orders the cells for selection: by price, then by weight, then by time.
pub fn sort_by_price_weight_and_start_at(
    price_list: &Vec<PriceListItem>,
) -> (ordered: Vec<PriceListItem>)
    ensures
        ordered@ == sort_ordered(price_list@, by_preference()),
{
    let mut ordered: Vec<PriceListItem> = Vec::new();
    let mut i: usize = 0;
    while i < price_list.len()
        invariant
            i <= price_list.len(),
            ordered@ == sort_ordered(price_list@.take(i as int), by_preference()),
        decreases price_list.len() - i,
    {
        let item = price_list[i];
        let mut at: usize = ordered.len();
        assert(ordered@.take(at as int) =~= ordered@);
        while at > 0 && precedes_by_price_weight_and_start_at(&item, &ordered[at - 1])
            invariant
                at <= ordered.len(),
                insertion_point(ordered@, item, by_preference()) == insertion_point(
                    ordered@.take(at as int),
                    item,
                    by_preference(),
                ),
            decreases at,
        {
            assert(ordered@.take(at as int).drop_last() =~= ordered@.take(at - 1));
            at -= 1;
        }
        ordered.insert(at, item);
        proof {
            let prefix = price_list@.take(i + 1);
            assert(prefix.drop_last() =~= price_list@.take(i as int));
            assert(prefix.last() == item);
        }
        i += 1;
    }
    assert(price_list@.take(i as int) =~= price_list@);
    ordered
}

/// Puts the items of a plan in order of time.
pub fn sort_by_start_at(items: Vec<ConsumptionPlanItem>) -> (ordered: Vec<ConsumptionPlanItem>)
    ensures
        selections_of(ordered@) == sort_ordered(selections_of(items@), by_start()),
        ordered@.to_multiset() == items@.to_multiset(),
{
    let ghost given = items@;
    let mut items = items;
    let mut ordered: Vec<ConsumptionPlanItem> = Vec::new();
    let ghost mut taken: int = 0;
    proof {
        assert(given.take(0) =~= Seq::<ConsumptionPlanItem>::empty());
        assert(selections_of(given).take(0) =~= Seq::<Selection>::empty());
        assert(selections_of(ordered@) =~= Seq::<Selection>::empty());
        assert(ordered@.to_multiset() =~= given.take(0).to_multiset());
    }
    while items.len() > 0
        invariant
            0 <= taken <= given.len(),
            items@ == given.skip(taken),
            selections_of(ordered@) == sort_ordered(
                selections_of(given).take(taken),
                by_start(),
            ),
            ordered@.to_multiset() == given.take(taken).to_multiset(),
        decreases items.len(),
    {
        let item = items.remove(0);
        assert(item == given[taken]);
        let mut at: usize = ordered.len();
        let ghost chosen = selections_of(ordered@);
        assert(chosen.take(at as int) =~= chosen);
        while at > 0 && precedes_by_start_at(&item, &ordered[at - 1])
            invariant
                at <= ordered.len(),
                chosen == selections_of(ordered@),
                insertion_point(chosen, selection_of(item), by_start()) == insertion_point(
                    chosen.take(at as int),
                    selection_of(item),
                    by_start(),
                ),
            decreases at,
        {
            assert(chosen.take(at as int).drop_last() =~= chosen.take(at - 1));
            assert(chosen.take(at as int).last() == selection_of(ordered@[at - 1]));
            at -= 1;
        }
        let ghost before = ordered@;
        ordered.insert(at, item);
        proof {
            broadcast use vstd::seq_lib::group_to_multiset_ensures;

            assert(selections_of(ordered@) =~= chosen.insert(at as int, selection_of(item)));
            let prefix = selections_of(given).take(taken + 1);
            assert(prefix.drop_last() =~= selections_of(given).take(taken));
            assert(prefix.last() == selection_of(item));
            assert(items@ =~= given.skip(taken + 1));
            // the inserted item joins the multiset of what was taken
            vstd::seq_lib::lemma_multiset_commutative(
                before.subrange(0, at as int).push(item),
                before.subrange(at as int, before.len() as int),
            );
            vstd::seq_lib::lemma_multiset_commutative(
                before.subrange(0, at as int),
                before.subrange(at as int, before.len() as int),
            );
            assert(before.subrange(0, at as int) + before.subrange(at as int, before.len() as int)
                =~= before);
            assert(given.take(taken + 1) =~= given.take(taken).push(item));
            assert(ordered@.to_multiset() =~= given.take(taken + 1).to_multiset());
            taken = taken + 1;
        }
    }
    proof {
        assert(given.skip(taken).len() == 0);
        assert(selections_of(given).take(taken) =~= selections_of(given));
        assert(given.take(taken) =~= given);
    }
    ordered
}

/// A valid cell that offers some time within the window, as a property of the cell.
pub open spec fn usable_in(start_from: int, finish_at: int) -> spec_fn(PriceListItem) -> bool {
    |item: PriceListItem| item.is_valid() && effective_duration(item, start_from, finish_at) > 0
}

/// Weighing a curve changes nothing but the weights.
pub proof fn lemma_with_weights_keeps_cells(
    price_list: Seq<PriceListItem>,
    start_from: int,
    finish_at: int,
)
    ensures
        with_weights(price_list, start_from, finish_at).len() == price_list.len(),
        forall|i: int|
            0 <= i < price_list.len() ==> {
                let weighed = #[trigger] with_weights(price_list, start_from, finish_at)[i];
                &&& weighed.starts_at == price_list[i].starts_at
                &&& weighed.duration == price_list[i].duration
                &&& weighed.price == price_list[i].price
                &&& weighed.category == price_list[i].category
            },
{
}

/// Every cell of an assembled price list, weighed and ordered for selection,
/// is still a valid cell that overlaps the window.
pub proof fn lemma_ordered_cells_usable(
    price_list: Seq<PriceListItem>,
    start_from: int,
    finish_at: int,
)
    requires
        is_assembled_price_list(price_list, start_from, finish_at),
    ensures
        all_satisfy(
            sort_ordered(with_weights(price_list, start_from, finish_at), by_preference()),
            usable_in(start_from, finish_at),
        ),
{
    let weighed = with_weights(price_list, start_from, finish_at);
    assert forall|i: int| 0 <= i < weighed.len() implies usable_in(start_from, finish_at)(
        #[trigger] weighed[i],
    ) by {
        assert(price_list[i].is_valid());
        assert(overlaps_window(price_list[i], start_from, finish_at));
    }
    lemma_sort_all(weighed, by_preference(), usable_in(start_from, finish_at));
}

/// Picks from the price list the cheapest cells that cover
/// `consumption_duration` between `start_from` and `finish_at`.
///
/// The cells are weighed and ordered by price, weight and time. They are
/// taken in that order, each for all it offers within the window, until the
/// next one would be too much: that one is taken for the rest. The result is
/// the list of what was taken, in order of time, without switch actions yet.
pub fn select_price_list_items_for_consumption_plan(
    price_list: Vec<PriceListItem>,
    consumption_duration: i64,
    start_from: i64,
    finish_at: i64,
) -> (plan: Vec<ConsumptionPlanItem>)
    requires
        is_assembled_price_list(price_list@, start_from as int, finish_at as int),
        consumption_duration > 0,
    ensures
        selections_of(plan@) == selected_plan(
            price_list@,
            consumption_duration as int,
            start_from as int,
            finish_at as int,
        ),
        forall|i: int| 0 <= i < plan.len() ==> (#[trigger] plan[i]).switch_actions@.len() == 0,
{
    let ghost curve = price_list@;
    let mut price_list = price_list;
    calculate_price_items_weights(&mut price_list, start_from, finish_at);
    let ordered = sort_by_price_weight_and_start_at(&price_list);
    proof {
        lemma_ordered_cells_usable(curve, start_from as int, finish_at as int);
    }
    let mut covered: i64 = 0;
    let mut chosen: Vec<ConsumptionPlanItem> = Vec::new();
    let mut i: usize = 0;
    proof {
        assert(ordered@.skip(0) =~= ordered@);
        assert(selections_of(chosen@) =~= Seq::<Selection>::empty());
        assert(Seq::<Selection>::empty() + greedy_cover(
            ordered@,
            consumption_duration as int,
            start_from as int,
            finish_at as int,
        ) =~= greedy_cover(
            ordered@,
            consumption_duration as int,
            start_from as int,
            finish_at as int,
        ));
    }
    while i < ordered.len() && covered < consumption_duration
        invariant
            i <= ordered.len(),
            0 <= covered <= consumption_duration,
            is_instant(start_from as int),
            is_instant(finish_at as int),
            all_satisfy(ordered@, usable_in(start_from as int, finish_at as int)),
            greedy_cover(
                ordered@,
                consumption_duration as int,
                start_from as int,
                finish_at as int,
            ) == selections_of(chosen@) + greedy_cover(
                ordered@.skip(i as int),
                consumption_duration - covered,
                start_from as int,
                finish_at as int,
            ),
            forall|k: int| 0 <= k < chosen.len() ==> (#[trigger] chosen[k]).switch_actions@.len() == 0,
        decreases ordered.len() - i,
    {
        let price_list_item = ordered[i];
        assert(usable_in(start_from as int, finish_at as int)(ordered@[i as int]));
        let offered = apply_constraints_to_duration(&price_list_item, start_from, finish_at);
        let ghost rest = ordered@.skip(i as int);
        let ghost before = selections_of(chosen@);
        proof {
            assert(rest[0] == price_list_item);
            assert(rest.drop_first() =~= ordered@.skip(i + 1));
        }
        if offered <= consumption_duration - covered {
            covered = covered + offered;
            chosen.push(ConsumptionPlanItem::new(price_list_item, offered));
            proof {
                let taken = Selection { cell: price_list_item, duration: offered as int };
                assert(selections_of(chosen@) =~= before + seq![taken]);
                assert(before + (seq![taken] + greedy_cover(
                    ordered@.skip(i + 1),
                    consumption_duration - covered,
                    start_from as int,
                    finish_at as int,
                )) =~= (before + seq![taken]) + greedy_cover(
                    ordered@.skip(i + 1),
                    consumption_duration - covered,
                    start_from as int,
                    finish_at as int,
                ));
            }
        } else {
            let delta = consumption_duration - covered;
            chosen.push(ConsumptionPlanItem::new(price_list_item, delta));
            covered = consumption_duration;
            proof {
                let taken = Selection { cell: price_list_item, duration: delta as int };
                assert(selections_of(chosen@) =~= before + seq![taken]);
                assert((before + seq![taken]) + Seq::<Selection>::empty() =~= before + seq![taken]);
            }
        }
        i += 1;
    }
    proof {
        assert(selections_of(chosen@) + Seq::<Selection>::empty() =~= selections_of(chosen@));
    }
    let ghost unordered = chosen@;
    let plan = sort_by_start_at(chosen);
    proof {
        broadcast use vstd::seq_lib::group_to_multiset_ensures;

        assert forall|k: int| 0 <= k < plan.len() implies (#[trigger] plan[k]).switch_actions@.len()
            == 0 by {
            assert(plan@.contains(plan@[k]));
            assert(unordered.to_multiset().count(plan@[k]) > 0);
            assert(unordered.contains(plan@[k]));
        }
    }
    plan
}

/// The time that the cells of an assembled price list offer within the window.
pub fn available_time(
    price_list: &Vec<PriceListItem>,
    start_from: i64,
    finish_at: i64,
) -> (available: i64)
    requires
        is_assembled_price_list(price_list@, start_from as int, finish_at as int),
    ensures
        available == available_duration(price_list@, start_from as int, finish_at as int),
        0 <= available <= finish_at - start_from,
{
    let ghost offers = effective_in(start_from as int, finish_at as int);
    let mut available: i64 = 0;
    let mut i: usize = 0;
    proof {
        assert(price_list@.take(0) =~= Seq::<PriceListItem>::empty());
    }
    while i < price_list.len()
        invariant
            i <= price_list.len(),
            is_assembled_price_list(price_list@, start_from as int, finish_at as int),
            offers == effective_in(start_from as int, finish_at as int),
            available == sum_of(price_list@.take(i as int), offers),
            0 <= available <= finish_at - start_from,
        decreases price_list.len() - i,
    {
        assert(price_list@[i as int].is_valid());
        let offered = apply_constraints_to_duration(&price_list[i], start_from, finish_at);
        proof {
            let next = price_list@.take(i + 1);
            assert(next.drop_last() =~= price_list@.take(i as int));
            assert(next.last() == price_list@[i as int]);
            assert(next =~= price_list@.subrange(0, i + 1));
            lemma_curve_stretch_fits_window(
                price_list@,
                start_from as int,
                finish_at as int,
                0,
                i + 1,
            );
        }
        available = available + offered;
        i += 1;
    }
    assert(price_list@.take(i as int) =~= price_list@);
    available
}

/// What is said when a price list cannot carry a plan.
pub open spec fn uncovered_period_message() -> Seq<char> {
    "Price list does not cover the requested period"@
}

/// Plans `consumption_duration` between `start_from` and `finish_at` on the
/// price list that a source has answered.
///
/// The price list has to be a price curve assembled for the window and to
/// offer the requested duration within it; then the plan is the selected
/// one. Any other list is refused as a system error.
pub fn plan_from_price_list(
    price_list: Vec<PriceListItem>,
    consumption_duration: i64,
    start_from: i64,
    finish_at: i64,
) -> (plan: Result<Vec<ConsumptionPlanItem>, AppError>)
    requires
        consumption_duration > 0,
    ensures
        match plan {
            Ok(items) => {
                &&& is_assembled_price_list(price_list@, start_from as int, finish_at as int)
                &&& consumption_duration <= available_duration(
                    price_list@,
                    start_from as int,
                    finish_at as int,
                )
                &&& selections_of(items@) == selected_plan(
                    price_list@,
                    consumption_duration as int,
                    start_from as int,
                    finish_at as int,
                )
                &&& forall|i: int| 0 <= i < items.len() ==> (#[trigger] items[i]).switch_actions@.len() == 0
            },
            Err(error) => {
                &&& !(is_assembled_price_list(price_list@, start_from as int, finish_at as int)
                    && consumption_duration <= available_duration(
                    price_list@,
                    start_from as int,
                    finish_at as int,
                ))
                &&& error.is_system_error(uncovered_period_message())
            },
        },
{
    if !check_assembled_price_list(&price_list, start_from, finish_at) {
        return Err(AppError::system_error("Price list does not cover the requested period"));
    }
    if available_time(&price_list, start_from, finish_at) < consumption_duration {
        return Err(AppError::system_error("Price list does not cover the requested period"));
    }
    Ok(
        select_price_list_items_for_consumption_plan(
            price_list,
            consumption_duration,
            start_from,
            finish_at,
        ),
    )
}

} // verus!
