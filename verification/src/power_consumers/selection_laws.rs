//! What holds of every plan that the selection produces.

use vstd::prelude::*;

use crate::model::price_list::PriceListItem;
use crate::power_consumers::ordering::{
    all_satisfy, is_ordered, is_ranking, lemma_sort_all, lemma_sort_is_ordered,
    lemma_sort_is_the_ordered_arrangement, lemma_sort_len, lemma_sort_pairwise, lemma_sort_sum,
    lemma_sum_of_concat, lemma_sum_of_nonnegative, lemma_sum_of_pointwise, sort_ordered, sum_of,
};
use crate::power_consumers::selection::{
    available_duration, by_preference, by_start, duration_of, effective_duration, effective_in,
    greedy_cover, is_alternative, is_assembled_price_list, is_plan_within,
    lemma_ordered_cells_usable, lemma_with_weights_keeps_cells, plan_cost, priced_duration_of,
    selected_plan, total_duration, usable_in, with_weights, Selection,
};

verus! {

/// A selection that takes some time, no more than its valid cell offers.
spec fn fits_cell(start_from: int, finish_at: int) -> spec_fn(Selection) -> bool {
    |selection: Selection|
        selection.cell.is_valid() && 0 < selection.duration <= effective_duration(
            selection.cell,
            start_from,
            finish_at,
        )
}

/// Two cells that do not reach into one another.
spec fn apart() -> spec_fn(PriceListItem, PriceListItem) -> bool {
    |a: PriceListItem, b: PriceListItem| a.end() <= b.starts_at || b.end() <= a.starts_at
}

/// Two selections whose cells do not reach into one another.
spec fn cells_apart() -> spec_fn(Selection, Selection) -> bool {
    |a: Selection, b: Selection| a.cell.end() <= b.cell.starts_at || b.cell.end() <= a.cell.starts_at
}

/// The sum over a sequence is the value at its first element plus the sum over the rest.
proof fn lemma_sum_of_front<A>(s: Seq<A>, f: spec_fn(A) -> int)
    requires
        s.len() > 0,
    ensures
        sum_of(s, f) == f(s[0]) + sum_of(s.drop_first(), f),
{
    let head = seq![s[0]];
    assert(head + s.drop_first() =~= s);
    assert(head.drop_last() =~= Seq::<A>::empty());
    assert(sum_of(head, f) == sum_of(head.drop_last(), f) + f(head.last()));
    lemma_sum_of_concat(head, s.drop_first(), f);
}

/// What the cover takes: the first cells of the order, each for all that it
/// offers but the last, which is taken for some time and no more than it
/// offers; in all, what was needed or, if the cells offer less, all that
/// they offer.
pub proof fn lemma_greedy_cover(
    ordered: Seq<PriceListItem>,
    needed: int,
    start_from: int,
    finish_at: int,
)
    requires
        all_satisfy(ordered, usable_in(start_from, finish_at)),
    ensures
        greedy_cover(ordered, needed, start_from, finish_at).len() <= ordered.len(),
        forall|k: int|
            0 <= k < greedy_cover(ordered, needed, start_from, finish_at).len() ==> {
                let taken = #[trigger] greedy_cover(ordered, needed, start_from, finish_at)[k];
                &&& taken.cell == ordered[k]
                &&& 0 < taken.duration <= effective_duration(ordered[k], start_from, finish_at)
                &&& k + 1 < greedy_cover(ordered, needed, start_from, finish_at).len()
                    ==> taken.duration == effective_duration(ordered[k], start_from, finish_at)
            },
        total_duration(greedy_cover(ordered, needed, start_from, finish_at)) == if needed <= 0 {
            0
        } else if needed <= sum_of(ordered, effective_in(start_from, finish_at)) {
            needed
        } else {
            sum_of(ordered, effective_in(start_from, finish_at))
        },
        sum_of(ordered, effective_in(start_from, finish_at)) >= 0,
    decreases ordered.len(),
{
    let offers = effective_in(start_from, finish_at);
    let cover = greedy_cover(ordered, needed, start_from, finish_at);
    assert forall|i: int| 0 <= i < ordered.len() implies offers(#[trigger] ordered[i]) >= 0 by {}
    lemma_sum_of_nonnegative(ordered, offers);
    if ordered.len() == 0 {
    } else {
        let rest = ordered.drop_first();
        assert(usable_in(start_from, finish_at)(ordered[0]));
        let offered = effective_duration(ordered[0], start_from, finish_at);
        assert(offered > 0);
        lemma_sum_of_front(ordered, offers);
        assert forall|i: int| 0 <= i < rest.len() implies usable_in(start_from, finish_at)(
            #[trigger] rest[i],
        ) by {
            assert(rest[i] == ordered[i + 1]);
        }
        lemma_greedy_cover(rest, needed - offered, start_from, finish_at);
        if needed <= 0 {
        } else if offered <= needed {
            let first = seq![Selection { cell: ordered[0], duration: offered }];
            let more = greedy_cover(rest, needed - offered, start_from, finish_at);
            assert(cover == first + more);
            lemma_sum_of_front(cover, duration_of());
            assert(cover.drop_first() =~= more);
            assert forall|k: int| 0 <= k < cover.len() implies {
                &&& (#[trigger] cover[k]).cell == ordered[k]
                &&& 0 < cover[k].duration <= effective_duration(ordered[k], start_from, finish_at)
                &&& k + 1 < cover.len() ==> cover[k].duration == effective_duration(
                    ordered[k],
                    start_from,
                    finish_at,
                )
            } by {
                if k > 0 {
                    assert(cover[k] == more[k - 1]);
                    assert(rest[k - 1] == ordered[k]);
                }
            }
        } else {
            lemma_sum_of_front(cover, duration_of());
            assert(cover.drop_first() =~= Seq::<Selection>::empty());
        }
    }
}

/// Ordering by start is a ranking.
proof fn lemma_by_start_ranks()
    ensures
        is_ranking(by_start()),
{
}

/// Ordering by preference is a ranking.
proof fn lemma_by_preference_ranks()
    ensures
        is_ranking(by_preference()),
{
}

/// The order of selection is the only one: whoever arranges the weighed
/// cells of a price curve so that none stands behind one that it precedes
/// has arranged them as the selection does.
pub proof fn lemma_order_of_selection_is_unique(
    price_list: Seq<PriceListItem>,
    start_from: int,
    finish_at: int,
    arranged: Seq<PriceListItem>,
)
    requires
        is_assembled_price_list(price_list, start_from, finish_at),
        arranged.to_multiset() == with_weights(price_list, start_from, finish_at).to_multiset(),
        is_ordered(arranged, by_preference()),
    ensures
        arranged == sort_ordered(with_weights(price_list, start_from, finish_at), by_preference()),
{
    broadcast use vstd::seq_lib::group_to_multiset_ensures;

    let weighed = with_weights(price_list, start_from, finish_at);
    lemma_with_weights_keeps_cells(price_list, start_from, finish_at);
    assert forall|i: int, j: int|
        0 <= i < arranged.len() && 0 <= j < arranged.len() && arranged[i]
            != arranged[j] implies by_preference()(#[trigger] arranged[i], #[trigger] arranged[j])
        || by_preference()(arranged[j], arranged[i]) by {
        assert(arranged.contains(arranged[i]) && arranged.contains(arranged[j]));
        assert(weighed.to_multiset().count(arranged[i]) > 0);
        assert(weighed.to_multiset().count(arranged[j]) > 0);
        assert(weighed.contains(arranged[i]) && weighed.contains(arranged[j]));
        let a = choose|a: int| 0 <= a < weighed.len() && weighed[a] == arranged[i];
        let b = choose|b: int| 0 <= b < weighed.len() && weighed[b] == arranged[j];
        assert(price_list[a].is_valid() && price_list[b].is_valid());
        if a < b {
            assert(price_list[a].end() <= price_list[b].starts_at);
        } else if b < a {
            assert(price_list[b].end() <= price_list[a].starts_at);
        }
    }
    lemma_by_preference_ranks();
    lemma_sort_is_the_ordered_arrangement(weighed, arranged, by_preference());
}

/// The order of a plan is the only one: whoever arranges what the cover
/// took from the cells of a price curve so that no cell stands behind a
/// later one has arranged it as the plan is arranged.
pub proof fn lemma_order_of_plan_is_unique(
    price_list: Seq<PriceListItem>,
    consumption_duration: int,
    start_from: int,
    finish_at: int,
    arranged: Seq<Selection>,
)
    requires
        is_assembled_price_list(price_list, start_from, finish_at),
        arranged.to_multiset() == greedy_cover(
            sort_ordered(with_weights(price_list, start_from, finish_at), by_preference()),
            consumption_duration,
            start_from,
            finish_at,
        ).to_multiset(),
        is_ordered(arranged, by_start()),
    ensures
        arranged == selected_plan(price_list, consumption_duration, start_from, finish_at),
{
    broadcast use vstd::seq_lib::group_to_multiset_ensures;

    let weighed = with_weights(price_list, start_from, finish_at);
    let ordered = sort_ordered(weighed, by_preference());
    let cover = greedy_cover(ordered, consumption_duration, start_from, finish_at);
    lemma_with_weights_keeps_cells(price_list, start_from, finish_at);
    lemma_ordered_cells_usable(price_list, start_from, finish_at);
    lemma_sort_len(weighed, by_preference());
    assert forall|i: int, j: int|
        0 <= i < weighed.len() && 0 <= j < weighed.len() && i != j implies apart()(
        #[trigger] weighed[i],
        #[trigger] weighed[j],
    ) by {
        if i < j {
            assert(price_list[i].end() <= price_list[j].starts_at);
        } else {
            assert(price_list[j].end() <= price_list[i].starts_at);
        }
    }
    lemma_sort_pairwise(weighed, by_preference(), apart());
    lemma_greedy_cover(ordered, consumption_duration, start_from, finish_at);
    assert forall|i: int, j: int|
        0 <= i < arranged.len() && 0 <= j < arranged.len() && arranged[i]
            != arranged[j] implies by_start()(#[trigger] arranged[i], #[trigger] arranged[j])
        || by_start()(arranged[j], arranged[i]) by {
        assert(arranged.contains(arranged[i]) && arranged.contains(arranged[j]));
        assert(cover.to_multiset().count(arranged[i]) > 0);
        assert(cover.to_multiset().count(arranged[j]) > 0);
        assert(cover.contains(arranged[i]) && cover.contains(arranged[j]));
        let a = choose|a: int| 0 <= a < cover.len() && cover[a] == arranged[i];
        let b = choose|b: int| 0 <= b < cover.len() && cover[b] == arranged[j];
        assert(a != b);
        assert(usable_in(start_from, finish_at)(ordered[a]));
        assert(usable_in(start_from, finish_at)(ordered[b]));
        assert(apart()(ordered[a], ordered[b]));
    }
    lemma_by_start_ranks();
    lemma_sort_is_the_ordered_arrangement(cover, arranged, by_start());
}

/// The plan selected from an assembled price list lies within the window:
/// its cells are cells of the curve, in order of time and apart from each
/// other, each used for some time and for no more than it offers.
pub proof fn lemma_selected_plan_within_window(
    price_list: Seq<PriceListItem>,
    consumption_duration: int,
    start_from: int,
    finish_at: int,
)
    requires
        is_assembled_price_list(price_list, start_from, finish_at),
    ensures
        is_plan_within(
            selected_plan(price_list, consumption_duration, start_from, finish_at),
            start_from,
            finish_at,
        ),
        selected_plan(price_list, consumption_duration, start_from, finish_at).len()
            <= price_list.len(),
{
    let weighed = with_weights(price_list, start_from, finish_at);
    let ordered = sort_ordered(weighed, by_preference());
    let cover = greedy_cover(ordered, consumption_duration, start_from, finish_at);
    let plan = sort_ordered(cover, by_start());
    lemma_with_weights_keeps_cells(price_list, start_from, finish_at);
    lemma_ordered_cells_usable(price_list, start_from, finish_at);
    lemma_sort_len(weighed, by_preference());
    lemma_sort_len(cover, by_start());
    assert forall|i: int, j: int|
        0 <= i < weighed.len() && 0 <= j < weighed.len() && i != j implies apart()(
        #[trigger] weighed[i],
        #[trigger] weighed[j],
    ) by {
        if i < j {
            assert(price_list[i].end() <= price_list[j].starts_at);
        } else {
            assert(price_list[j].end() <= price_list[i].starts_at);
        }
    }
    lemma_sort_pairwise(weighed, by_preference(), apart());
    lemma_greedy_cover(ordered, consumption_duration, start_from, finish_at);
    assert forall|i: int| 0 <= i < cover.len() implies fits_cell(start_from, finish_at)(
        #[trigger] cover[i],
    ) by {
        assert(usable_in(start_from, finish_at)(ordered[i]));
    }
    assert forall|i: int, j: int|
        0 <= i < cover.len() && 0 <= j < cover.len() && i != j implies cells_apart()(
        #[trigger] cover[i],
        #[trigger] cover[j],
    ) by {
        assert(apart()(ordered[i], ordered[j]));
    }
    lemma_sort_all(cover, by_start(), fits_cell(start_from, finish_at));
    lemma_sort_pairwise(cover, by_start(), cells_apart());
    lemma_by_start_ranks();
    lemma_sort_is_ordered(cover, by_start());
    assert forall|i: int| 0 <= i < plan.len() implies {
        &&& (#[trigger] plan[i]).cell.is_valid()
        &&& 0 < plan[i].duration <= effective_duration(plan[i].cell, start_from, finish_at)
    } by {
        assert(fits_cell(start_from, finish_at)(plan[i]));
    }
    assert forall|i: int, j: int| 0 <= i < j < plan.len() implies (#[trigger] plan[i]).cell.end() <= (
    #[trigger] plan[j]).cell.starts_at by {
        assert(fits_cell(start_from, finish_at)(plan[i]));
        assert(fits_cell(start_from, finish_at)(plan[j]));
        assert(cells_apart()(plan[i], plan[j]));
        assert(!by_start()(plan[j], plan[i]));
    }
}

/// The selected plan consumes what was asked for, or all that the price list
/// offers within the window where that is less.
pub proof fn lemma_selected_plan_duration(
    price_list: Seq<PriceListItem>,
    consumption_duration: int,
    start_from: int,
    finish_at: int,
)
    requires
        is_assembled_price_list(price_list, start_from, finish_at),
        consumption_duration > 0,
    ensures
        total_duration(selected_plan(price_list, consumption_duration, start_from, finish_at)) == if consumption_duration
            <= available_duration(price_list, start_from, finish_at) {
            consumption_duration
        } else {
            available_duration(price_list, start_from, finish_at)
        },
{
    let weighed = with_weights(price_list, start_from, finish_at);
    let ordered = sort_ordered(weighed, by_preference());
    let cover = greedy_cover(ordered, consumption_duration, start_from, finish_at);
    let offers = effective_in(start_from, finish_at);
    lemma_with_weights_keeps_cells(price_list, start_from, finish_at);
    lemma_ordered_cells_usable(price_list, start_from, finish_at);
    lemma_greedy_cover(ordered, consumption_duration, start_from, finish_at);
    lemma_sort_sum(cover, by_start(), duration_of());
    lemma_sort_sum(weighed, by_preference(), offers);
    assert forall|i: int| 0 <= i < weighed.len() implies offers(#[trigger] weighed[i]) == offers(
        price_list[i],
    ) by {}
    lemma_sum_of_pointwise(weighed, offers, price_list, offers);
}

/// The durations of a produced plan add up to exactly the requested
/// duration, whenever the price list offers that much within the window.
pub proof fn lemma_selected_plan_covers_duration(
    price_list: Seq<PriceListItem>,
    consumption_duration: int,
    start_from: int,
    finish_at: int,
)
    requires
        is_assembled_price_list(price_list, start_from, finish_at),
        0 < consumption_duration <= available_duration(price_list, start_from, finish_at),
    ensures
        total_duration(selected_plan(price_list, consumption_duration, start_from, finish_at))
            == consumption_duration,
{
    lemma_selected_plan_duration(price_list, consumption_duration, start_from, finish_at);
}

/// The items of a produced plan are sorted by the start of their cells,
/// strictly ascending.
pub proof fn lemma_selected_plan_ascending(
    price_list: Seq<PriceListItem>,
    consumption_duration: int,
    start_from: int,
    finish_at: int,
)
    requires
        is_assembled_price_list(price_list, start_from, finish_at),
    ensures
        forall|i: int, j: int|
            0 <= i < j < selected_plan(
                price_list,
                consumption_duration,
                start_from,
                finish_at,
            ).len() ==> (#[trigger] selected_plan(
                price_list,
                consumption_duration,
                start_from,
                finish_at,
            )[i]).cell.starts_at < (#[trigger] selected_plan(
                price_list,
                consumption_duration,
                start_from,
                finish_at,
            )[j]).cell.starts_at,
{
    let plan = selected_plan(price_list, consumption_duration, start_from, finish_at);
    lemma_selected_plan_within_window(price_list, consumption_duration, start_from, finish_at);
    assert forall|i: int, j: int| 0 <= i < j < plan.len() implies (#[trigger] plan[i]).cell.starts_at
        < (#[trigger] plan[j]).cell.starts_at by {
        assert(plan[i].cell.is_valid());
        assert(plan[i].cell.end() <= plan[j].cell.starts_at);
    }
}

/// The time that `alternative` spends on the cell that starts at `starts_at`;
/// nothing if it names no such cell.
spec fn assigned(alternative: Seq<Selection>, starts_at: int) -> int
    decreases alternative.len(),
{
    if alternative.len() == 0 {
        0
    } else if alternative.last().cell.starts_at == starts_at {
        alternative.last().duration
    } else {
        assigned(alternative.drop_last(), starts_at)
    }
}

/// [`assigned`], as a function of the cell.
spec fn assigned_by(alternative: Seq<Selection>) -> spec_fn(PriceListItem) -> int {
    |item: PriceListItem| assigned(alternative, item.starts_at as int)
}

/// [`assigned`] times the price of the cell, as a function of the cell.
spec fn charged_by(alternative: Seq<Selection>) -> spec_fn(PriceListItem) -> int {
    |item: PriceListItem| item.price * assigned(alternative, item.starts_at as int)
}

/// Where no two cells start together, the time spent on the cell of a
/// selection is that selection's duration.
proof fn lemma_assigned_at(alternative: Seq<Selection>, i: int)
    requires
        0 <= i < alternative.len(),
        forall|a: int, b: int|
            0 <= a < b < alternative.len() ==> (#[trigger] alternative[a]).cell.starts_at != (
            #[trigger] alternative[b]).cell.starts_at,
    ensures
        assigned(alternative, alternative[i].cell.starts_at as int) == alternative[i].duration,
    decreases alternative.len(),
{
    if i < alternative.len() - 1 {
        let init = alternative.drop_last();
        assert(alternative[i].cell.starts_at != alternative[alternative.len() - 1].cell.starts_at);
        assert forall|a: int, b: int| 0 <= a < b < init.len() implies (
        #[trigger] init[a]).cell.starts_at != (#[trigger] init[b]).cell.starts_at by {
            assert(init[a] == alternative[a] && init[b] == alternative[b]);
        }
        assert(init[i] == alternative[i]);
        lemma_assigned_at(init, i);
    }
}

/// On cells in ascending order of price, none cheaper than `floor`, the
/// cover is the cheapest way to spend what is needed: whoever spends
/// `spent` on the cells, each within what it offers, pays at least the price
/// of the cover and, for what is spent beyond the need, at least `floor`.
proof fn lemma_cover_is_cheapest(
    ordered: Seq<PriceListItem>,
    needed: int,
    start_from: int,
    finish_at: int,
    alternative: Seq<Selection>,
    floor: int,
)
    requires
        all_satisfy(ordered, usable_in(start_from, finish_at)),
        forall|i: int, j: int|
            0 <= i < j < ordered.len() ==> (#[trigger] ordered[i]).price <= (
            #[trigger] ordered[j]).price,
        forall|i: int| 0 <= i < ordered.len() ==> floor <= (#[trigger] ordered[i]).price,
        forall|i: int|
            0 <= i < ordered.len() ==> 0 <= assigned(
                alternative,
                (#[trigger] ordered[i]).starts_at as int,
            ) <= effective_duration(ordered[i], start_from, finish_at),
        0 <= needed <= sum_of(ordered, assigned_by(alternative)),
    ensures
        plan_cost(greedy_cover(ordered, needed, start_from, finish_at)) + floor * (sum_of(
            ordered,
            assigned_by(alternative),
        ) - needed) <= sum_of(ordered, charged_by(alternative)),
    decreases ordered.len(),
{
    let spends = assigned_by(alternative);
    let pays = charged_by(alternative);
    let cover = greedy_cover(ordered, needed, start_from, finish_at);
    if ordered.len() == 0 {
        assert(floor * 0 == 0);
    } else {
        let rest = ordered.drop_first();
        let price = ordered[0].price as int;
        let offered = effective_duration(ordered[0], start_from, finish_at);
        let spent_here = spends(ordered[0]);
        let spent = sum_of(ordered, spends);
        let spent_later = sum_of(rest, spends);
        lemma_sum_of_front(ordered, spends);
        lemma_sum_of_front(ordered, pays);
        assert(usable_in(start_from, finish_at)(ordered[0]));
        assert forall|i: int| 0 <= i < rest.len() implies {
            &&& usable_in(start_from, finish_at)(#[trigger] rest[i])
            &&& price <= rest[i].price
            &&& 0 <= spends(rest[i]) <= effective_duration(rest[i], start_from, finish_at)
        } by {
            assert(rest[i] == ordered[i + 1]);
        }
        assert forall|i: int, j: int| 0 <= i < j < rest.len() implies (#[trigger] rest[i]).price <= (
        #[trigger] rest[j]).price by {
            assert(rest[i] == ordered[i + 1] && rest[j] == ordered[j + 1]);
        }
        lemma_sum_of_nonnegative(rest, spends);
        let needed_later = if needed > 0 && offered <= needed {
            needed - offered
        } else {
            0
        };
        lemma_cover_is_cheapest(rest, needed_later, start_from, finish_at, alternative, price);
        let later = greedy_cover(rest, needed_later, start_from, finish_at);
        let paid_later = sum_of(rest, pays);
        assert(plan_cost(later) + price * (spent_later - needed_later) <= paid_later);
        assert(pays(ordered[0]) == price * spent_here);
        if needed > 0 && offered <= needed {
            let first = seq![Selection { cell: ordered[0], duration: offered }];
            assert(cover == first + later);
            lemma_sum_of_front(cover, priced_duration_of());
            assert(cover.drop_first() =~= later);
            assert(plan_cost(cover) == price * offered + plan_cost(later));
            assert(price * spent_here + price * (spent_later - needed_later) == price * offered
                + price * (spent - needed)) by (nonlinear_arith)
                requires
                    spent == spent_here + spent_later,
                    needed_later == needed - offered,
            ;
        } else if needed > 0 {
            lemma_sum_of_front(cover, priced_duration_of());
            assert(cover.drop_first() =~= Seq::<Selection>::empty());
            assert(plan_cost(cover) == price * needed);
            assert(plan_cost(later) == 0);
            assert(price * spent_here + price * (spent_later - needed_later) == price * needed
                + price * (spent - needed)) by (nonlinear_arith)
                requires
                    spent == spent_here + spent_later,
                    needed_later == 0,
            ;
        } else {
            assert(plan_cost(cover) == 0);
            assert(plan_cost(later) == 0);
            assert(price * spent_here + price * (spent_later - needed_later) == price * (spent
                - needed)) by (nonlinear_arith)
                requires
                    spent == spent_here + spent_later,
                    needed_later == 0,
                    needed == 0,
            ;
        }
        assert(floor * (spent - needed) <= price * (spent - needed)) by (nonlinear_arith)
            requires
                floor <= price,
                spent - needed >= 0,
        ;
    }
}

/// No other way of spending the requested duration on the curve is cheaper
/// than the plan that the selection produces.
///
/// Cost is [`plan_cost`]: every cell's price paid for the time it is used.
/// On a curve of equally long cells this ranks plans as the price per cell,
/// counted by the share of the cell that is used, ranks them.
pub proof fn lemma_selected_plan_is_cheapest(
    price_list: Seq<PriceListItem>,
    consumption_duration: int,
    start_from: int,
    finish_at: int,
    alternative: Seq<Selection>,
)
    requires
        is_assembled_price_list(price_list, start_from, finish_at),
        consumption_duration > 0,
        is_alternative(alternative, price_list, consumption_duration, start_from, finish_at),
    ensures
        plan_cost(selected_plan(price_list, consumption_duration, start_from, finish_at))
            <= plan_cost(alternative),
{
    let weighed = with_weights(price_list, start_from, finish_at);
    let ordered = sort_ordered(weighed, by_preference());
    let cover = greedy_cover(ordered, consumption_duration, start_from, finish_at);
    let spends = assigned_by(alternative);
    let pays = charged_by(alternative);
    lemma_with_weights_keeps_cells(price_list, start_from, finish_at);
    lemma_ordered_cells_usable(price_list, start_from, finish_at);
    lemma_sort_len(weighed, by_preference());
    // what the alternative spends on a cell is found by the cell's start
    assert forall|a: int, b: int| 0 <= a < b < alternative.len() implies (
    #[trigger] alternative[a]).cell.starts_at != (#[trigger] alternative[b]).cell.starts_at by {
        assert(price_list[a].is_valid());
        assert(price_list[a].end() <= price_list[b].starts_at);
    }
    assert forall|i: int| 0 <= i < weighed.len() implies {
        &&& spends(#[trigger] weighed[i]) == duration_of()(alternative[i])
        &&& pays(weighed[i]) == priced_duration_of()(alternative[i])
    } by {
        lemma_assigned_at(alternative, i);
    }
    lemma_sum_of_pointwise(weighed, spends, alternative, duration_of());
    lemma_sum_of_pointwise(weighed, pays, alternative, priced_duration_of());
    lemma_sort_sum(weighed, by_preference(), spends);
    lemma_sort_sum(weighed, by_preference(), pays);
    let within = |item: PriceListItem|
        0 <= assigned(alternative, item.starts_at as int) <= effective_duration(
            item,
            start_from,
            finish_at,
        );
    assert forall|i: int| 0 <= i < weighed.len() implies within(#[trigger] weighed[i]) by {
        lemma_assigned_at(alternative, i);
        assert(alternative[i].cell == price_list[i]);
    }
    lemma_sort_all(weighed, by_preference(), within);
    assert forall|i: int| 0 <= i < ordered.len() implies 0 <= assigned(
        alternative,
        (#[trigger] ordered[i]).starts_at as int,
    ) <= effective_duration(ordered[i], start_from, finish_at) by {
        assert(within(ordered[i]));
    }
    lemma_by_preference_ranks();
    lemma_sort_is_ordered(weighed, by_preference());
    assert forall|i: int, j: int| 0 <= i < j < ordered.len() implies (#[trigger] ordered[i]).price <= (
    #[trigger] ordered[j]).price by {
        assert(!by_preference()(ordered[j], ordered[i]));
    }
    if ordered.len() == 0 {
        assert(sum_of(ordered, spends) == 0);
    } else {
        let floor = ordered[0].price as int;
        assert forall|i: int| 0 <= i < ordered.len() implies floor <= (#[trigger] ordered[i]).price by {
            if i > 0 {
                assert(ordered[0].price <= ordered[i].price);
            }
        }
        lemma_cover_is_cheapest(
            ordered,
            consumption_duration,
            start_from,
            finish_at,
            alternative,
            floor,
        );
        assert(floor * 0 == 0);
        lemma_sort_sum(cover, by_start(), priced_duration_of());
    }
}

} // verus!
