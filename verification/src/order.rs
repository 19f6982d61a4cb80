//! The order of the seasons: ascending by number, and among seasons of one
//! number the order in which they were declared.

use vstd::prelude::*;
use vstd::seq_lib::lemma_multiset_commutative;
use crate::season::{Season, SeasonView};

verus! {

/// No season comes before one of a smaller number.
pub open spec fn is_sorted(seasons: Seq<SeasonView>) -> bool {
    forall|i: int, j: int| 0 <= i <= j < seasons.len() ==> seasons[i].number <= seasons[j].number
}

/// How many of the seasons have a number up to `number`.
pub open spec fn count_upto(seasons: Seq<SeasonView>, number: u32) -> nat
    decreases seasons.len(),
{
    if seasons.len() == 0 {
        0
    } else {
        count_upto(seasons.drop_last(), number) + if seasons.last().number <= number {
            1nat
        } else {
            0nat
        }
    }
}

/// The seasons of the given number, in their order.
pub open spec fn numbered(seasons: Seq<SeasonView>, number: u32) -> Seq<SeasonView>
    decreases seasons.len(),
{
    if seasons.len() == 0 {
        seasons
    } else if seasons.last().number == number {
        numbered(seasons.drop_last(), number).push(seasons.last())
    } else {
        numbered(seasons.drop_last(), number)
    }
}

/// The seasons in ascending order of their numbers. Each season in turn goes
/// behind the seasons, among those before it, whose numbers are not greater
/// than its own: seasons of one number keep their order.
pub open spec fn sorted_by_number(seasons: Seq<SeasonView>) -> Seq<SeasonView>
    decreases seasons.len(),
{
    if seasons.len() == 0 {
        seasons
    } else {
        let sorted = sorted_by_number(seasons.drop_last());
        let season = seasons.last();
        sorted.insert(count_upto(sorted, season.number) as int, season)
    }
}

/// In sorted seasons, those with a number up to `number` come first, and
/// `count_upto` is where they end.
pub proof fn lemma_count_splits(seasons: Seq<SeasonView>, number: u32)
    requires
        is_sorted(seasons),
    ensures
        count_upto(seasons, number) <= seasons.len(),
        forall|i: int| 0 <= i < count_upto(seasons, number) ==> seasons[i].number <= number,
        forall|i: int|
            count_upto(seasons, number) <= i < seasons.len() ==> seasons[i].number > number,
    decreases seasons.len(),
{
    if seasons.len() > 0 {
        let front = seasons.drop_last();
        assert(is_sorted(front)) by {
            assert forall|i: int, j: int| 0 <= i <= j < front.len() implies front[i].number
                <= front[j].number by {
                assert(front[i] == seasons[i] && front[j] == seasons[j]);
            }
        }
        lemma_count_splits(front, number);
        let c = count_upto(front, number);
        if seasons.last().number <= number {
            if c < front.len() {
                assert(front[c as int] == seasons[c as int]);
                assert(seasons[c as int].number <= seasons[seasons.len() - 1].number);
            }
        }
        assert forall|i: int| 0 <= i < count_upto(seasons, number) implies seasons[i].number
            <= number by {
            if i < front.len() {
                assert(front[i] == seasons[i]);
            }
        }
        assert forall|i: int|
            count_upto(seasons, number) <= i < seasons.len() implies seasons[i].number
            > number by {
            if i < front.len() {
                assert(front[i] == seasons[i]);
            }
        }
    }
}

/// In sorted seasons, the place that parts the numbers up to `number` from
/// the greater ones is `count_upto`.
pub proof fn lemma_count_is_place(seasons: Seq<SeasonView>, number: u32, place: int)
    requires
        is_sorted(seasons),
        0 <= place <= seasons.len(),
        forall|i: int| 0 <= i < place ==> seasons[i].number <= number,
        forall|i: int| place <= i < seasons.len() ==> seasons[i].number > number,
    ensures
        count_upto(seasons, number) == place,
{
    lemma_count_splits(seasons, number);
    let c = count_upto(seasons, number) as int;
    if c < place {
        assert(seasons[c].number <= number);
    } else if c > place {
        assert(seasons[place].number > number);
    }
}

/// Sorting gives sorted seasons, as many as there were.
pub proof fn lemma_sorted(seasons: Seq<SeasonView>)
    ensures
        is_sorted(sorted_by_number(seasons)),
        sorted_by_number(seasons).len() == seasons.len(),
    decreases seasons.len(),
{
    if seasons.len() > 0 {
        let sorted = sorted_by_number(seasons.drop_last());
        let season = seasons.last();
        lemma_sorted(seasons.drop_last());
        lemma_count_splits(sorted, season.number);
        let place = count_upto(sorted, season.number) as int;
        let after = sorted.insert(place, season);
        assert forall|i: int, j: int| 0 <= i <= j < after.len() implies after[i].number
            <= after[j].number by {
            if i < place && j > place {
                assert(after[i] == sorted[i] && after[j] == sorted[j - 1]);
            } else if i < place && j < place {
                assert(after[i] == sorted[i] && after[j] == sorted[j]);
            } else if i > place {
                assert(after[i] == sorted[i - 1] && after[j] == sorted[j - 1]);
            } else if i == place && j > place {
                assert(after[j] == sorted[j - 1]);
            } else if j == place && i < place {
                assert(after[i] == sorted[i]);
            }
        }
    }
}

/// The seasons of one number in two lists, one after the other.
pub proof fn lemma_numbered_concat(a: Seq<SeasonView>, b: Seq<SeasonView>, number: u32)
    ensures
        numbered(a + b, number) == numbered(a, number) + numbered(b, number),
    decreases b.len(),
{
    if b.len() == 0 {
        assert(a + b =~= a);
        assert(numbered(a, number) + numbered(b, number) =~= numbered(a, number));
    } else {
        assert((a + b).drop_last() =~= a + b.drop_last());
        assert((a + b).last() == b.last());
        lemma_numbered_concat(a, b.drop_last(), number);
        if b.last().number == number {
            assert((numbered(a, number) + numbered(b.drop_last(), number)).push(b.last())
                =~= numbered(a, number) + numbered(b.drop_last(), number).push(b.last()));
        }
    }
}

/// Where no season has the number, none is chosen.
pub proof fn lemma_numbered_none(seasons: Seq<SeasonView>, number: u32)
    requires
        forall|i: int| 0 <= i < seasons.len() ==> seasons[i].number != number,
    ensures
        numbered(seasons, number) == Seq::<SeasonView>::empty(),
    decreases seasons.len(),
{
    if seasons.len() > 0 {
        let front = seasons.drop_last();
        assert forall|i: int| 0 <= i < front.len() implies front[i].number != number by {
            assert(front[i] == seasons[i]);
        }
        lemma_numbered_none(front, number);
    } else {
        assert(seasons =~= Seq::<SeasonView>::empty());
    }
}

/// Sorting is stable: the seasons of any one number come out in the order
/// in which they went in.
pub proof fn lemma_sort_is_stable(seasons: Seq<SeasonView>, number: u32)
    ensures
        numbered(sorted_by_number(seasons), number) == numbered(seasons, number),
    decreases seasons.len(),
{
    if seasons.len() > 0 {
        let sorted = sorted_by_number(seasons.drop_last());
        let season = seasons.last();
        lemma_sort_is_stable(seasons.drop_last(), number);
        lemma_sorted(seasons.drop_last());
        lemma_count_splits(sorted, season.number);
        let place = count_upto(sorted, season.number) as int;
        let head = sorted.take(place);
        let tail = sorted.skip(place);
        assert(sorted =~= head + tail);
        assert(sorted.insert(place, season) =~= head.push(season) + tail);
        lemma_numbered_concat(head, tail, number);
        lemma_numbered_concat(head.push(season), tail, number);
        assert(head.push(season).drop_last() =~= head);
        if season.number == number {
            assert forall|i: int| 0 <= i < tail.len() implies tail[i].number != number by {
                assert(tail[i] == sorted[place + i]);
            }
            lemma_numbered_none(tail, number);
            assert(numbered(head, number) + Seq::<SeasonView>::empty() =~= numbered(
                head,
                number,
            ));
            assert(numbered(head, number).push(season) + Seq::<SeasonView>::empty()
                =~= numbered(head, number).push(season));
        }
    }
}

/// The seasons of a number are among the seasons, and the last season is
/// the last of its number.
pub proof fn lemma_numbered_last(seasons: Seq<SeasonView>, number: u32)
    ensures
        numbered(seasons, number).len() <= seasons.len(),
        numbered(seasons, number).len() > 0 <==> exists|i: int|
            0 <= i < seasons.len() && #[trigger] seasons[i].number == number,
        seasons.len() > 0 && seasons.last().number == number ==> numbered(seasons, number).len()
            > 0 && numbered(seasons, number).last() == seasons.last() && numbered(
            seasons,
            number,
        ).drop_last() == numbered(seasons.drop_last(), number),
    decreases seasons.len(),
{
    if seasons.len() > 0 {
        let front = seasons.drop_last();
        lemma_numbered_last(front, number);
        if seasons.last().number == number {
            assert(seasons[seasons.len() - 1].number == number);
            assert(numbered(front, number).push(seasons.last()).drop_last() =~= numbered(
                front,
                number,
            ));
        } else {
            if numbered(front, number).len() > 0 {
                let i = choose|i: int| 0 <= i < front.len() && #[trigger] front[i].number == number;
                assert(seasons[i].number == number);
            }
            if exists|i: int| 0 <= i < seasons.len() && #[trigger] seasons[i].number == number {
                let i = choose|i: int|
                    0 <= i < seasons.len() && #[trigger] seasons[i].number == number;
                assert(front[i].number == number);
            }
        }
    }
}

/// The sorted, stable order is the only one: two sorted lists that hold the
/// same seasons of every number, in the same order, are one list.
pub proof fn lemma_stable_order_is_unique(a: Seq<SeasonView>, b: Seq<SeasonView>)
    requires
        is_sorted(a),
        is_sorted(b),
        forall|number: u32| numbered(a, number) == numbered(b, number),
    ensures
        a == b,
    decreases a.len(),
{
    if a.len() == 0 {
        if b.len() > 0 {
            lemma_numbered_last(b, b.last().number);
            lemma_numbered_last(a, b.last().number);
        }
        assert(a =~= b);
    } else {
        let top = a.last().number;
        lemma_numbered_last(a, top);
        lemma_numbered_last(b, top);
        let i = choose|i: int| 0 <= i < b.len() && #[trigger] b[i].number == top;
        let over = b.last().number;
        lemma_numbered_last(a, over);
        lemma_numbered_last(b, over);
        let j = choose|j: int| 0 <= j < a.len() && #[trigger] a[j].number == over;
        assert(a[j].number <= a[a.len() - 1].number);
        assert(b[i].number <= b[b.len() - 1].number);
        assert(over == top);
        assert(a.last() == b.last());
        let a0 = a.drop_last();
        let b0 = b.drop_last();
        assert(is_sorted(a0)) by {
            assert forall|i: int, j: int| 0 <= i <= j < a0.len() implies a0[i].number
                <= a0[j].number by {
                assert(a0[i] == a[i] && a0[j] == a[j]);
            }
        }
        assert(is_sorted(b0)) by {
            assert forall|i: int, j: int| 0 <= i <= j < b0.len() implies b0[i].number
                <= b0[j].number by {
                assert(b0[i] == b[i] && b0[j] == b[j]);
            }
        }
        assert forall|number: u32| numbered(a0, number) == numbered(b0, number) by {
            assert(numbered(a, number) == numbered(b, number));
        }
        lemma_stable_order_is_unique(a0, b0);
        assert(a =~= a0.push(a.last()));
        assert(b =~= b0.push(b.last()));
    }
}

/// Sorting gives the one order that is sorted and stable.
pub proof fn lemma_sort_is_the_stable_order(seasons: Seq<SeasonView>, order: Seq<SeasonView>)
    requires
        is_sorted(order),
        forall|number: u32| numbered(order, number) == numbered(seasons, number),
    ensures
        order == sorted_by_number(seasons),
{
    lemma_sorted(seasons);
    assert forall|number: u32|
        numbered(order, number) == numbered(sorted_by_number(seasons), number) by {
        lemma_sort_is_stable(seasons, number);
    }
    lemma_stable_order_is_unique(order, sorted_by_number(seasons));
}

/// Sorting keeps the seasons: each comes out as often as it went in.
pub proof fn lemma_sort_keeps_seasons(seasons: Seq<SeasonView>)
    ensures
        sorted_by_number(seasons).to_multiset() == seasons.to_multiset(),
    decreases seasons.len(),
{
    if seasons.len() > 0 {
        let front = seasons.drop_last();
        let sorted = sorted_by_number(front);
        let season = seasons.last();
        lemma_sort_keeps_seasons(front);
        lemma_sorted(front);
        lemma_count_splits(sorted, season.number);
        let place = count_upto(sorted, season.number) as int;
        let head = sorted.take(place);
        let tail = sorted.skip(place);
        assert(sorted =~= head + tail);
        assert(sorted.insert(place, season) =~= head + (seq![season] + tail));
        assert(seasons =~= front + seq![season]);
        lemma_multiset_commutative(head, tail);
        lemma_multiset_commutative(head, seq![season] + tail);
        lemma_multiset_commutative(seq![season], tail);
        lemma_multiset_commutative(front, seq![season]);
        assert(sorted.insert(place, season).to_multiset() =~= seasons.to_multiset());
    }
}

/// Sorts the seasons by number, keeping the order of seasons of one number.
pub fn sort_by_number(seasons: &mut Vec<Season>)
    ensures
        final(seasons).deep_view() == sorted_by_number(old(seasons).deep_view()),
        is_sorted(final(seasons).deep_view()),
        final(seasons).len() == old(seasons).len(),
{
    let ghost all = seasons.deep_view();
    let mut i: usize = 0;
    assert(seasons.deep_view() =~= sorted_by_number(all.take(0)) + all.skip(0));
    while i < seasons.len()
        invariant
            i <= seasons.len(),
            seasons.len() == all.len(),
            seasons.deep_view() == sorted_by_number(all.take(i as int)) + all.skip(i as int),
        decreases seasons.len() - i,
    {
        let ghost sorted = sorted_by_number(all.take(i as int));
        let ghost rest = all.skip(i + 1);
        proof {
            lemma_sorted(all.take(i as int));
        }
        let ghost before = seasons.deep_view();
        let season = seasons.remove(i);
        assert(season.deep_view() == before[i as int]);
        assert(seasons.deep_view() =~= before.remove(i as int));
        assert(before.remove(i as int) =~= sorted + rest);
        let mut place: usize = i;
        while place > 0 && seasons[place - 1].number > season.number
            invariant
                place <= i,
                i <= seasons.len(),
                sorted.len() == i,
                seasons.deep_view() == sorted + rest,
                forall|k: int| place <= k < i ==> sorted[k].number > season.number,
            decreases place,
        {
            assert(seasons[place - 1].deep_view() == (sorted + rest)[place - 1]);
            place -= 1;
        }
        proof {
            if place > 0 {
                assert(seasons[place - 1].deep_view() == (sorted + rest)[place - 1]);
            }
            assert forall|k: int| 0 <= k < place implies sorted[k].number
                <= season.number by {
                assert(sorted[k].number <= sorted[place - 1].number);
            }
            lemma_count_is_place(sorted, season.number, place as int);
            assert(all.take(i + 1).drop_last() =~= all.take(i as int));
            assert(all.take(i + 1).last() == season.deep_view());
        }
        let ghost removed = seasons.deep_view();
        seasons.insert(place, season);
        assert(seasons.deep_view() =~= removed.insert(place as int, season.deep_view()));
        assert(seasons.deep_view() =~= sorted.insert(place as int, season.deep_view()) + rest);
        i += 1;
    }
    proof {
        assert(all.take(all.len() as int) =~= all);
        assert(sorted_by_number(all) + all.skip(all.len() as int) =~= sorted_by_number(all));
        lemma_sorted(all);
    }
}

} // verus!
