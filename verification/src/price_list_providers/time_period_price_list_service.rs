use std::sync::Arc;
use vstd::prelude::*;

use crate::model::errors::AppError;
use crate::model::price_list::PriceListItem;
use crate::model::time::{MAX_INSTANT, MILLIS_PER_DAY};
use crate::power_consumers::selection::overlaps_window;
use crate::price_list_providers::commons::{
    cut_off_time_from_date, may_be_start_of_day, SingleDayPriceList,
};

verus! {

/// Price lists come one day at a time; a consumption may span several
/// days. This service takes a period and puts the cells of the days it
/// touches into one list, keeping the cells that overlap the period. It
/// hands out copies, because the planner writes weights into the cells.
pub struct TimePeriodPriceListService<Source: SingleDayPriceList> {
    pub single_day_price_list: Arc<Source>,
}

/// A cell that overlaps the period, as a property of the cell.
pub open spec fn overlapping(
    from_the_time: int,
    to_the_time: int,
) -> spec_fn(PriceListItem) -> bool {
    |item: PriceListItem| overlaps_window(item, from_the_time, to_the_time)
}

/// Adds to `price_list` a copy of every cell of `single_day_price_list` that
/// overlaps the period from `from_the_time` to `to_the_time`, keeping their order.
pub fn extend_with_overlapping(
    price_list: &mut Vec<PriceListItem>,
    single_day_price_list: &Vec<PriceListItem>,
    from_the_time: i64,
    to_the_time: i64,
)
    ensures
        final(price_list)@ == old(price_list)@ + single_day_price_list@.filter(
            overlapping(from_the_time as int, to_the_time as int),
        ),
{
    let ghost kept = overlapping(from_the_time as int, to_the_time as int);
    let ghost before = price_list@;
    let mut i: usize = 0;
    assert(single_day_price_list@.take(0).filter(kept) =~= Seq::<PriceListItem>::empty()) by {
        reveal(Seq::filter);
    }
    assert(before + Seq::<PriceListItem>::empty() =~= before);
    while i < single_day_price_list.len()
        invariant
            i <= single_day_price_list.len(),
            kept == overlapping(from_the_time as int, to_the_time as int),
            price_list@ == before + single_day_price_list@.take(i as int).filter(kept),
        decreases single_day_price_list.len() - i,
    {
        let item = single_day_price_list[i];
        let overlaps = item.starts_at as i128 + item.duration as i128 > from_the_time as i128
            && item.starts_at < to_the_time;
        proof {
            let so_far = single_day_price_list@.take(i as int);
            let next = single_day_price_list@.take(i + 1);
            assert(next.drop_last() =~= so_far);
            assert(next.last() == item);
            assert(overlaps == kept(item));
            reveal(Seq::filter);
            assert(next.filter(kept) == if kept(item) {
                so_far.filter(kept).push(item)
            } else {
                so_far.filter(kept)
            });
            assert(before + so_far.filter(kept).push(item) =~= (before + so_far.filter(kept)).push(
                item,
            ));
        }
        if overlaps {
            price_list.push(item);
        }
        i += 1;
    }
    assert(single_day_price_list@.take(i as int) =~= single_day_price_list@);
}

/// The cells of the answers of a source that overlap the period, answer by
/// answer, each in the order in which the source gave its cells.
pub open spec fn assembled(
    answers: Seq<Arc<Vec<PriceListItem>>>,
    from_the_time: int,
    to_the_time: int,
) -> Seq<PriceListItem>
    decreases answers.len(),
{
    if answers.len() == 0 {
        Seq::empty()
    } else {
        assembled(answers.drop_last(), from_the_time, to_the_time) + answers.last()@.filter(
            overlapping(from_the_time, to_the_time),
        )
    }
}

/// What the source was asked, and what it answered: one day after the
/// other, twenty-four hours apart, beginning with `first_day`.
pub open spec fn are_answers_of<Source: SingleDayPriceList>(
    source: Source,
    first_day: i64,
    answers: Seq<Arc<Vec<PriceListItem>>>,
) -> bool {
    forall|k: int|
        0 <= k < answers.len() ==> source.may_answer(
            (first_day + k * MILLIS_PER_DAY) as i64,
            Ok::<Arc<Vec<PriceListItem>>, AppError>(#[trigger] answers[k]),
        )
}

/// The number of days that are asked for: one for `first_day` and one more
/// for every twenty-four hours from there that do not lead beyond `last_day`.
pub open spec fn days_asked(first_day: i64, last_day: i64) -> int {
    if last_day < first_day {
        0
    } else {
        (last_day - first_day) / (MILLIS_PER_DAY as int) + 1
    }
}

/// What is said when the period has no local day to start from.
pub open spec fn no_first_day_message() -> Seq<char> {
    "The requested period has no day to start from"@
}

/// What is said when the period has no local day to end with.
pub open spec fn no_last_day_message() -> Seq<char> {
    "The requested period has no day to end with"@
}

/// `list` is a price list of the period from `from_the_time` to
/// `to_the_time`: the cells that overlap the period, out of what the source
/// answered for one day after the other, from the day of `from_the_time` on.
pub open spec fn is_price_list_of_period<Source: SingleDayPriceList>(
    source: Source,
    list: Seq<PriceListItem>,
    from_the_time: i64,
    to_the_time: i64,
) -> bool {
    exists|first_day: i64, last_day: i64, answers: Seq<Arc<Vec<PriceListItem>>>|
        {
            &&& may_be_start_of_day(first_day, from_the_time)
            &&& may_be_start_of_day(last_day, to_the_time)
            &&& answers.len() == #[trigger] days_asked(first_day, last_day)
            &&& #[trigger] are_answers_of(source, first_day, answers)
            &&& list == assembled(answers, from_the_time as int, to_the_time as int)
        }
}

/// `error` is why there is no price list of a period: the failure of the
/// source for one of its days, or a system error where the period has no
/// local day to start from or to end with.
pub open spec fn is_failure_of_period<Source: SingleDayPriceList>(
    source: Source,
    error: AppError,
) -> bool {
    ||| error.is_system_error(no_first_day_message())
    ||| error.is_system_error(no_last_day_message())
    ||| exists|day: i64| #[trigger]
        source.may_answer(day, Err::<Arc<Vec<PriceListItem>>, AppError>(error))
}

impl<Source: SingleDayPriceList> TimePeriodPriceListService<Source> {
    pub fn new(single_day_price_list: Arc<Source>) -> (service: Self)
        ensures
            service.single_day_price_list == single_day_price_list,
    {
        Self { single_day_price_list }
    }

    /// The cells that overlap the period from `from_the_time` to
    /// `to_the_time`, day by day from the local day of the first instant to
    /// the local day of the second, each day in the order in which the source
    /// gave its cells.
    ///
    /// A failure of the source is handed on as it is. Where one of the two
    /// instants has no local day to start from, the failure is a system error.
    pub fn get_price_list(
        &self,
        from_the_time: i64,
        to_the_time: i64,
    ) -> (price_list: Result<Vec<PriceListItem>, AppError>)
        ensures
            match price_list {
                Ok(list) => {
                    &&& is_price_list_of_period(
                        *self.single_day_price_list,
                        list@,
                        from_the_time,
                        to_the_time,
                    )
                    &&& forall|i: int|
                        0 <= i < list.len() ==> overlaps_window(
                            #[trigger] list[i],
                            from_the_time as int,
                            to_the_time as int,
                        )
                },
                Err(error) => is_failure_of_period(*self.single_day_price_list, error),
            },
    {
        let from_the_day = match cut_off_time_from_date(from_the_time) {
            Some(day) => day,
            None => {
                return Err(AppError::system_error("The requested period has no day to start from"));
            },
        };
        let to_the_day = match cut_off_time_from_date(to_the_time) {
            Some(day) => day,
            None => {
                return Err(AppError::system_error("The requested period has no day to end with"));
            },
        };
        let ghost kept = overlapping(from_the_time as int, to_the_time as int);
        let ghost mut answers: Seq<Arc<Vec<PriceListItem>>> = Seq::empty();
        let mut price_list: Vec<PriceListItem> = Vec::new();
        let mut next_day = from_the_day;
        while next_day <= to_the_day
            invariant
                kept == overlapping(from_the_time as int, to_the_time as int),
                to_the_day <= MAX_INSTANT,
                next_day == from_the_day + answers.len() * MILLIS_PER_DAY,
                answers.len() > 0 ==> next_day - MILLIS_PER_DAY <= to_the_day,
                are_answers_of(*self.single_day_price_list, from_the_day, answers),
                price_list@ == assembled(answers, from_the_time as int, to_the_time as int),
                forall|i: int| 0 <= i < price_list.len() ==> kept(#[trigger] price_list[i]),
            decreases to_the_day - next_day + MILLIS_PER_DAY,
        {
            let single_day_price_list = match self.single_day_price_list.get_price_list(next_day) {
                Ok(list) => list,
                Err(error) => {
                    assert(self.single_day_price_list.may_answer(
                        next_day,
                        Err::<Arc<Vec<PriceListItem>>, AppError>(error),
                    ));
                    return Err(error);
                },
            };
            let ghost before = price_list@;
            extend_with_overlapping(
                &mut price_list,
                &single_day_price_list,
                from_the_time,
                to_the_time,
            );
            proof {
                broadcast use vstd::seq_lib::group_filter_ensures;

                let added = single_day_price_list@.filter(kept);
                assert forall|i: int| 0 <= i < price_list.len() implies kept(
                    #[trigger] price_list[i],
                ) by {
                    if i >= before.len() {
                        assert(price_list[i] == added[i - before.len()]);
                    } else {
                        assert(price_list[i] == before[i]);
                    }
                }
                let asked = answers;
                answers = answers.push(single_day_price_list);
                assert(answers.drop_last() =~= asked);
                assert forall|k: int| 0 <= k < answers.len() implies self.single_day_price_list.may_answer(
                    (from_the_day + k * MILLIS_PER_DAY) as i64,
                    Ok::<Arc<Vec<PriceListItem>>, AppError>(#[trigger] answers[k]),
                ) by {
                    if k < asked.len() {
                        assert(answers[k] == asked[k]);
                    }
                }
            }
            next_day += MILLIS_PER_DAY;
        }
        assert(are_answers_of(*self.single_day_price_list, from_the_day, answers));
        assert(answers.len() == days_asked(from_the_day, to_the_day));
        assert(may_be_start_of_day(to_the_day, to_the_time));
        Ok(price_list)
    }
}

} // verus!
