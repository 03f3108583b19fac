//! The piece randomizer: shapes are dealt from shuffled bags of all seven.

use rand::rngs::ThreadRng;
use rand::seq::SliceRandom;
use vstd::prelude::*;
use vstd::seq_lib::{
    lemma_multiset_commutative, to_multiset_contains, to_multiset_len, to_multiset_remove,
};
use crate::shape::MinoType;

verus! {

/// Number of shapes in a full bag.
pub const BAG_SIZE: usize = 7;

/// rand's handle to the generator of the current thread. Nothing is known of its state.
#[verifier::external_type_specification]
#[verifier::external_body]
pub struct ExThreadRng(ThreadRng);

/// `rand::thread_rng` hands out the generator of the current thread. Nothing is
/// claimed of the handle it returns.
pub assume_specification[ rand::thread_rng ]() -> (rng: ThreadRng);

/// Calls rand's `SliceRandom::shuffle` on the slice of `shapes`. That function only
/// swaps elements of the slice, with partners chosen by `rng`; so the claim is that
/// the vector afterwards holds the same shapes, each as often as before, in an order
/// of which nothing is said.
#[verifier::external_body]
fn shuffle(shapes: &mut Vec<MinoType>, rng: &mut ThreadRng)
    ensures
        final(shapes)@.to_multiset() == old(shapes)@.to_multiset(),
{
    shapes.shuffle(rng);
}

/// True iff every one of the seven shapes occurs exactly once in `shapes`.
pub open spec fn full_bag(shapes: Seq<MinoType>) -> bool {
    forall|shape: MinoType| #[trigger] shapes.to_multiset().count(shape) == 1
}

/// True iff no shape occurs twice in `shapes`.
pub open spec fn distinct_shapes(shapes: Seq<MinoType>) -> bool {
    forall|shape: MinoType| #[trigger] shapes.to_multiset().count(shape) <= 1
}

/// The relation between a bag before a draw, the bag after it and the shape drawn.
/// The shape comes off the end of the stock; the stock is the old list, or a full bag
/// in some order if the old list was used up.
pub open spec fn draw(pre: Seq<MinoType>, post: Seq<MinoType>, shape: MinoType) -> bool {
    let stock = post.push(shape);
    if pre.len() > 0 {
        stock == pre
    } else {
        full_bag(stock)
    }
}

/// The seven shapes in their listed order.
pub open spec fn sorted_bag() -> Seq<MinoType> {
    seq![
        MinoType::I,
        MinoType::J,
        MinoType::L,
        MinoType::O,
        MinoType::S,
        MinoType::T,
        MinoType::Z,
    ]
}

/// The seven shapes in their listed order form a full bag.
pub proof fn lemma_sorted_bag_is_full()
    ensures
        full_bag(sorted_bag()),
{
    let s = sorted_bag();
    assert(s.no_duplicates());
    s.lemma_multiset_has_no_duplicates();
    assert forall|shape: MinoType| #[trigger] s.to_multiset().count(shape) == 1 by {
        assert(s[shape.ordinal()] == shape);
        assert(s.contains(shape));
        to_multiset_contains(s, shape);
    }
}

/// A full bag holds seven shapes.
pub proof fn lemma_full_bag_len(shapes: Seq<MinoType>)
    requires
        full_bag(shapes),
    ensures
        shapes.len() == BAG_SIZE,
{
    lemma_sorted_bag_is_full();
    assert(shapes.to_multiset() =~= sorted_bag().to_multiset());
    to_multiset_len(shapes);
    to_multiset_len(sorted_bag());
}

/// Taking the last shape off a list takes one occurrence of it out of the multiset.
pub proof fn lemma_drop_last_counts(shapes: Seq<MinoType>)
    requires
        shapes.len() > 0,
    ensures
        shapes.drop_last().to_multiset() == shapes.to_multiset().remove(shapes.last()),
{
    assert(shapes.drop_last() =~= shapes.remove(shapes.len() - 1));
    to_multiset_remove(shapes, shapes.len() - 1);
}

/// A list in which no shape occurs twice has no two equal entries.
pub proof fn lemma_distinct_has_no_duplicates(shapes: Seq<MinoType>)
    requires
        distinct_shapes(shapes),
    ensures
        shapes.no_duplicates(),
{
    assert forall|x: MinoType| shapes.to_multiset().contains(x) implies shapes.to_multiset().count(
        x,
    ) == 1 by {
        assert(shapes.to_multiset().count(x) <= 1);
    }
    shapes.lemma_multiset_has_no_duplicates_conv();
}

/// A list without two equal entries holds no shape twice.
pub proof fn lemma_no_duplicates_is_distinct(shapes: Seq<MinoType>)
    requires
        shapes.no_duplicates(),
    ensures
        distinct_shapes(shapes),
{
    shapes.lemma_multiset_has_no_duplicates();
    assert forall|shape: MinoType| #[trigger] shapes.to_multiset().count(shape) <= 1 by {
        if shapes.to_multiset().count(shape) > 0 {
            assert(shapes.to_multiset().contains(shape));
        }
    }
}

/// A freshly shuffled bag of all seven shapes.
pub fn get_bag() -> (bag: Vec<MinoType>)
    ensures
        full_bag(bag@),
{
    let mut bag = vec![
        MinoType::I,
        MinoType::J,
        MinoType::L,
        MinoType::O,
        MinoType::S,
        MinoType::T,
        MinoType::Z,
    ];
    proof {
        lemma_sorted_bag_is_full();
        assert(bag@ =~= sorted_bag());
    }
    let mut rng = rand::thread_rng();
    shuffle(&mut bag, &mut rng);
    bag
}

pub struct Bag {
    pub list: Vec<MinoType>,
}

impl View for Bag {
    type V = Seq<MinoType>;

    open spec fn view(&self) -> Seq<MinoType> {
        self.list@
    }
}

impl Bag {
    /// True iff the list is what is left of one full bag: no shape occurs twice.
    pub open spec fn wf(self) -> bool {
        distinct_shapes(self@)
    }

    /// Whether no shape occurs twice in the list.
    pub fn is_wf(&self) -> (ok: bool)
        ensures
            ok == self.wf(),
    {
        let mut seen: [bool; 7] = [false; 7];
        let mut i: usize = 0;
        while i < self.list.len()
            invariant
                i <= self.list.len(),
                self@.take(i as int).no_duplicates(),
                forall|k: int|
                    0 <= k < 7 ==> (#[trigger] seen[k] <==> exists|j: int|
                        0 <= j < i && (#[trigger] self@[j]).ordinal() == k),
            decreases self.list.len() - i,
        {
            let k = self.list[i].index();
            if seen[k] {
                proof {
                    let j = choose|j: int| 0 <= j < i && (#[trigger] self@[j]).ordinal() == k;
                    assert(self@[j] == self@[i as int]);
                    if self.wf() {
                        lemma_distinct_has_no_duplicates(self@);
                    }
                }
                return false;
            }
            let ghost before = seen;
            seen[k] = true;
            proof {
                let longer = self@.take(i + 1);
                assert forall|a: int, b: int|
                    0 <= a < longer.len() && 0 <= b < longer.len() && a != b implies #[trigger] longer[a]
                    != #[trigger] longer[b] by {
                    if a < i && b < i {
                        assert(self@.take(i as int)[a] != self@.take(i as int)[b]);
                    } else {
                        let other = if a < i {
                            a
                        } else {
                            b
                        };
                        assert(self@[other].ordinal() != k);
                    }
                }
                assert forall|m: int| 0 <= m < 7 implies (#[trigger] seen[m] <==> exists|j: int|
                    0 <= j < i + 1 && (#[trigger] self@[j]).ordinal() == m) by {
                    if m == k {
                        assert(self@[i as int].ordinal() == m);
                    } else {
                        assert(seen[m] == before[m]);
                        if before[m] {
                            let j = choose|j: int|
                                0 <= j < i && (#[trigger] self@[j]).ordinal() == m;
                            assert(self@[j].ordinal() == m);
                        }
                    }
                }
            }
            i += 1;
        }
        proof {
            assert(self@.take(self@.len() as int) =~= self@);
            lemma_no_duplicates_is_distinct(self@);
        }
        true
    }

    pub fn new() -> (bag: Bag)
        ensures
            full_bag(bag@),
            bag.wf(),
    {
        Bag { list: get_bag() }
    }

    /// Deals the next shape: the last of the list, after refilling the list with a
    /// fresh bag if it was used up.
    pub fn next(&mut self) -> (shape: MinoType)
        ensures
            draw(old(self)@, final(self)@, shape),
            old(self).wf() ==> final(self).wf(),
    {
        if self.list.len() == 0 {
            let mut fresh = get_bag();
            self.list.append(&mut fresh);
        }
        proof {
            if old(self)@.len() == 0 {
                assert(self@ =~= self@ + Seq::<MinoType>::empty());
                lemma_full_bag_len(self@);
            }
            lemma_drop_last_counts(self@);
        }
        let ghost stock = self@;
        let shape = self.list.pop().unwrap();
        assert(self@.push(shape) =~= stock);
        shape
    }
}

/// True iff `shapes` is dealt by draws in a row: `lists[i]` is the list before draw
/// `i`, `lists[i + 1]` the list after it and `shapes[i]` the shape it deals.
pub open spec fn dealt(lists: Seq<Seq<MinoType>>, shapes: Seq<MinoType>) -> bool {
    &&& lists.len() == shapes.len() + 1
    &&& forall|i: int| 0 <= i < shapes.len() ==> draw(#[trigger] lists[i], lists[i + 1], shapes[i])
}

/// The draws that follow a refill take the fresh bag apart from its end: after `n`
/// of them, `n` from one to seven, the list together with the shapes dealt, last one
/// first, is the bag that the refill put in.
pub proof fn lemma_bag_unwinds(lists: Seq<Seq<MinoType>>, shapes: Seq<MinoType>, start: int, n: int)
    requires
        dealt(lists, shapes),
        0 <= start,
        lists[start].len() == 0,
        1 <= n <= BAG_SIZE,
        start + n <= shapes.len(),
    ensures
        full_bag(lists[start + 1].push(shapes[start])),
        lists[start + n] + shapes.subrange(start, start + n).reverse() == lists[start + 1].push(
            shapes[start],
        ),
        lists[start + n].len() == BAG_SIZE - n,
    decreases n,
{
    let stock = lists[start + 1].push(shapes[start]);
    assert(draw(lists[start], lists[start + 1], shapes[start]));
    lemma_full_bag_len(stock);
    if n == 1 {
        assert(shapes.subrange(start, start + 1).reverse() =~= seq![shapes[start]]);
        assert(lists[start + 1] + seq![shapes[start]] =~= stock);
    } else {
        lemma_bag_unwinds(lists, shapes, start, n - 1);
        let before = lists[start + n - 1];
        let after = lists[start + n];
        assert(draw(before, lists[start + n - 1 + 1], shapes[start + n - 1]));
        assert(after.push(shapes[start + n - 1]) == before);
        let shorter = shapes.subrange(start, start + n - 1);
        let longer = shapes.subrange(start, start + n);
        assert(longer.reverse() =~= seq![shapes[start + n - 1]] + shorter.reverse());
        assert(after + longer.reverse() =~= before + shorter.reverse());
    }
}

/// Bag fairness in the long run. Of any number of draws in a row that begin on a
/// used-up list, every full group of seven (the first seven, the next seven, and so
/// on) deals each shape exactly once, each such group begins on a used-up list again,
/// and the draws left over after the last full group deal no shape twice.
pub proof fn lemma_bag_fairness_in_the_long_run(
    lists: Seq<Seq<MinoType>>,
    shapes: Seq<MinoType>,
    group: int,
)
    requires
        dealt(lists, shapes),
        lists[0].len() == 0,
        0 <= group,
        BAG_SIZE * group <= shapes.len(),
    ensures
        lists[BAG_SIZE * group].len() == 0,
        BAG_SIZE * (group + 1) <= shapes.len() ==> full_bag(
            shapes.subrange(BAG_SIZE * group, BAG_SIZE * group + BAG_SIZE),
        ),
        shapes.len() < BAG_SIZE * (group + 1) ==> distinct_shapes(
            shapes.subrange(BAG_SIZE * group, shapes.len() as int),
        ),
    decreases group,
{
    let start = BAG_SIZE * group;
    if group > 0 {
        lemma_bag_fairness_in_the_long_run(lists, shapes, group - 1);
        lemma_bag_unwinds(lists, shapes, start - BAG_SIZE, BAG_SIZE as int);
    }
    assert(lists[start].len() == 0);
    let rest = shapes.len() - start;
    if rest >= BAG_SIZE {
        let dealt_here = shapes.subrange(start, start + BAG_SIZE);
        lemma_bag_unwinds(lists, shapes, start, BAG_SIZE as int);
        assert(lists[start + BAG_SIZE] + dealt_here.reverse() =~= dealt_here.reverse());
        dealt_here.lemma_reverse_to_multiset();
    } else {
        let dealt_here = shapes.subrange(start, shapes.len() as int);
        if rest == 0 {
            assert(dealt_here =~= Seq::<MinoType>::empty());
            assert forall|shape: MinoType| #[trigger] dealt_here.to_multiset().count(shape)
                <= 1 by {
                to_multiset_contains(dealt_here, shape);
            }
        } else {
            lemma_bag_unwinds(lists, shapes, start, rest);
            let stock = lists[start + 1].push(shapes[start]);
            lemma_multiset_commutative(lists[start + rest], dealt_here.reverse());
            dealt_here.lemma_reverse_to_multiset();
            assert forall|shape: MinoType| #[trigger] dealt_here.to_multiset().count(shape)
                <= 1 by {
                assert(stock.to_multiset().count(shape) == 1);
                assert(stock.to_multiset().count(shape) == lists[start + rest].to_multiset().count(
                    shape,
                ) + dealt_here.reverse().to_multiset().count(shape));
            }
        }
    }
}

/// Bag fairness. Seven draws in a row that begin on a used-up list deal every shape
/// exactly once and leave the list used up again, so that the next seven draws begin
/// in the same way.
pub proof fn lemma_bag_fairness(lists: Seq<Seq<MinoType>>, shapes: Seq<MinoType>)
    requires
        dealt(lists, shapes),
        shapes.len() == BAG_SIZE,
        lists[0].len() == 0,
    ensures
        full_bag(shapes),
        lists[BAG_SIZE as int].len() == 0,
{
    lemma_bag_fairness_in_the_long_run(lists, shapes, 0);
    lemma_bag_fairness_in_the_long_run(lists, shapes, 1);
    assert(shapes.subrange(0, BAG_SIZE as int) =~= shapes);
}

/// Bag fairness, counted. Among the first `7 * groups` draws of a run that begins on
/// a used-up list, every shape is dealt exactly `groups` times.
pub proof fn lemma_each_shape_once_per_group(
    lists: Seq<Seq<MinoType>>,
    shapes: Seq<MinoType>,
    groups: int,
    shape: MinoType,
)
    requires
        dealt(lists, shapes),
        lists[0].len() == 0,
        0 <= groups,
        BAG_SIZE * groups <= shapes.len(),
    ensures
        shapes.take(BAG_SIZE * groups).to_multiset().count(shape) == groups,
    decreases groups,
{
    if groups == 0 {
        let none = shapes.take(0);
        assert(none =~= Seq::<MinoType>::empty());
        to_multiset_contains(none, shape);
    } else {
        lemma_each_shape_once_per_group(lists, shapes, groups - 1, shape);
        lemma_bag_fairness_in_the_long_run(lists, shapes, groups - 1);
        let start = BAG_SIZE * (groups - 1);
        let earlier = shapes.take(start);
        let last = shapes.subrange(start, start + BAG_SIZE);
        assert(shapes.take(BAG_SIZE * groups) =~= earlier + last);
        lemma_multiset_commutative(earlier, last);
        assert(last.to_multiset().count(shape) == 1);
    }
}

/// A stretch of a list holds no shape more often than the list does.
pub proof fn lemma_stretch_counts(shapes: Seq<MinoType>, from: int, to: int, shape: MinoType)
    requires
        0 <= from <= to <= shapes.len(),
    ensures
        shapes.subrange(from, to).to_multiset().count(shape) <= shapes.to_multiset().count(shape),
{
    let head = shapes.take(from);
    let stretch = shapes.subrange(from, to);
    let tail = shapes.skip(to);
    assert(shapes =~= (head + stretch) + tail);
    lemma_multiset_commutative(head + stretch, tail);
    lemma_multiset_commutative(head, stretch);
}

/// A stretch that lies in two neighbouring stretches holds a shape at most as often as
/// the two together.
pub proof fn lemma_two_stretches(
    shapes: Seq<MinoType>,
    start: int,
    from: int,
    mid: int,
    to: int,
    end: int,
    shape: MinoType,
)
    requires
        0 <= start <= from <= mid <= to <= end <= shapes.len(),
    ensures
        shapes.subrange(from, to).to_multiset().count(shape) <= shapes.subrange(
            start,
            mid,
        ).to_multiset().count(shape) + shapes.subrange(mid, end).to_multiset().count(shape),
{
    let first_bag = shapes.subrange(start, mid);
    let second_bag = shapes.subrange(mid, end);
    let first = shapes.subrange(from, mid);
    let second = shapes.subrange(mid, to);
    assert(first =~= first_bag.subrange(from - start, mid - start));
    assert(second =~= second_bag.subrange(0, to - mid));
    lemma_stretch_counts(first_bag, from - start, mid - start, shape);
    lemma_stretch_counts(second_bag, 0, to - mid, shape);
    assert(shapes.subrange(from, to) =~= first + second);
    lemma_multiset_commutative(first, second);
}

/// Bag fairness, close up. Among any eight draws in a row of a run that begins on a
/// used-up list, no shape is dealt three times: the eight come from two bags at most.
pub proof fn lemma_no_shape_thrice_in_eight(
    lists: Seq<Seq<MinoType>>,
    shapes: Seq<MinoType>,
    from: int,
    shape: MinoType,
)
    requires
        dealt(lists, shapes),
        lists[0].len() == 0,
        0 <= from,
        from + 8 <= shapes.len(),
    ensures
        shapes.subrange(from, from + 8).to_multiset().count(shape) <= 2,
{
    let group = from / 7;
    let start = 7 * group;
    let mid = start + 7;
    let end = if mid + 7 <= shapes.len() {
        mid + 7
    } else {
        shapes.len() as int
    };
    assert(0 <= start <= from < mid <= from + 8 <= end);
    assert(shapes.subrange(start, mid).to_multiset().count(shape) <= 1) by {
        lemma_bag_fairness_in_the_long_run(lists, shapes, group);
    }
    assert(shapes.subrange(mid, end).to_multiset().count(shape) <= 1) by {
        lemma_bag_fairness_in_the_long_run(lists, shapes, group + 1);
    }
    lemma_two_stretches(shapes, start, from, mid, from + 8, end, shape);
}

} // verus!
