//! Sorted lists, as they are shown.

use vstd::prelude::*;
use vstd::string::StringExecFns;

use crate::text::chars_of;
use crate::text::text_views;

verus! {

/// Whether a text comes before another, or is the same: characters are compared
/// by their code points, and a beginning comes before the whole.
pub open spec fn in_order(first: Seq<char>, second: Seq<char>) -> bool
    decreases first.len(),
{
    if first.len() == 0 {
        true
    } else if second.len() == 0 {
        false
    } else if first[0] != second[0] {
        first[0] < second[0]
    } else {
        in_order(first.drop_first(), second.drop_first())
    }
}

/// The order of texts is total.
proof fn lemma_order_is_total(first: Seq<char>, second: Seq<char>)
    ensures
        in_order(first, second) || in_order(second, first),
    decreases first.len(),
{
    if first.len() > 0 && second.len() > 0 && first[0] == second[0] {
        lemma_order_is_total(first.drop_first(), second.drop_first());
    }
}

/// The order of texts is transitive.
proof fn lemma_order_is_transitive(first: Seq<char>, second: Seq<char>, third: Seq<char>)
    requires
        in_order(first, second),
        in_order(second, third),
    ensures
        in_order(first, third),
    decreases first.len(),
{
    if first.len() > 0 && second.len() > 0 && third.len() > 0 && first[0] == second[0] && second[0]
        == third[0] {
        lemma_order_is_transitive(first.drop_first(), second.drop_first(), third.drop_first());
    }
}

/// Whether a text comes before another, or is the same.
pub fn comes_first(first: &str, second: &str) -> (yes: bool)
    ensures
        yes == in_order(first@, second@),
{
    let left = chars_of(first);
    let right = chars_of(second);
    let mut index: usize = 0;
    assert(first@.skip(0) =~= first@);
    assert(second@.skip(0) =~= second@);
    while index < left.len() && index < right.len()
        invariant
            index <= left.len(),
            index <= right.len(),
            left@ == first@,
            right@ == second@,
            in_order(first@, second@) == in_order(
                first@.skip(index as int),
                second@.skip(index as int),
            ),
        decreases left.len() - index,
    {
        assert(first@.skip(index as int).drop_first() =~= first@.skip(index + 1));
        assert(second@.skip(index as int).drop_first() =~= second@.skip(index + 1));
        if left[index] != right[index] {
            return left[index] < right[index];
        }
        index = index + 1;
    }
    index >= left.len()
}

/// Whether a list of texts is sorted.
pub open spec fn is_sorted(texts: Seq<Seq<char>>) -> bool {
    forall|first: int, second: int|
        0 <= first <= second < texts.len() ==> in_order(
            #[trigger] texts[first],
            #[trigger] texts[second],
        )
}

/// Whether a list of numbers is sorted.
pub open spec fn is_ascending(codes: Seq<u16>) -> bool {
    forall|first: int, second: int|
        0 <= first <= second < codes.len() ==> codes[first] <= codes[second]
}

/// A text is in order with itself.
proof fn lemma_order_is_reflexive(text: Seq<char>)
    ensures
        in_order(text, text),
{
    lemma_order_is_total(text, text);
}

/// Sorts a list of texts.
pub fn sorted_texts(texts: &Vec<String>) -> (sorted: Vec<String>)
    ensures
        is_sorted(text_views(sorted@)),
        text_views(sorted@).to_multiset() == text_views(texts@).to_multiset(),
{
    let mut sorted: Vec<String> = Vec::new();
    let mut index: usize = 0;
    let ghost views = text_views(texts@);
    assert(views.take(0) =~= text_views(sorted@));
    while index < texts.len()
        invariant
            index <= texts.len(),
            views == text_views(texts@),
            is_sorted(text_views(sorted@)),
            text_views(sorted@).to_multiset() == views.take(index as int).to_multiset(),
        decreases texts.len() - index,
    {
        let ghost before = text_views(sorted@);
        let text = texts[index].as_str();
        let mut place: usize = 0;
        while place < sorted.len() && comes_first(sorted[place].as_str(), text)
            invariant
                place <= sorted.len(),
                before == text_views(sorted@),
                forall|i: int| 0 <= i < place ==> in_order(#[trigger] before[i], text@),
            decreases sorted.len() - place,
        {
            assert(before[place as int] == sorted@[place as int]@);
            place = place + 1;
        }
        proof {
            if place < sorted@.len() {
                assert(before[place as int] == sorted@[place as int]@);
                lemma_order_is_total(before[place as int], text@);
            }
        }
        sorted.insert(place, String::from_str(text));
        proof {
            let after = text_views(sorted@);
            assert(after =~= before.insert(place as int, text@));
            vstd::seq_lib::to_multiset_insert(before, place as int, text@);
            assert(views.take(index + 1) =~= views.take(index as int).push(views[index as int]));
            assert(views[index as int] == text@);
            vstd::seq_lib::to_multiset_build(views.take(index as int), text@);
            assert forall|first: int, second: int|
                0 <= first <= second < after.len() implies in_order(
                #[trigger] after[first],
                #[trigger] after[second],
            ) by {
                if second < place {
                    assert(after[first] == before[first] && after[second] == before[second]);
                } else if second == place {
                    if first < place {
                        assert(after[first] == before[first]);
                        assert(in_order(before[first], text@));
                    } else {
                        lemma_order_is_reflexive(text@);
                    }
                } else if first > place {
                    assert(after[first] == before[first - 1] && after[second] == before[second
                        - 1]);
                } else {
                    assert(after[second] == before[second - 1]);
                    assert(in_order(text@, before[place as int]));
                    assert(in_order(before[place as int], before[second - 1]));
                    lemma_order_is_transitive(text@, before[place as int], before[second - 1]);
                    if first < place {
                        assert(after[first] == before[first]);
                        assert(in_order(before[first], before[second - 1]));
                    }
                }
            }
        }
        index = index + 1;
    }
    assert(views.take(index as int) =~= views);
    sorted
}

/// Sorts a list of numbers.
pub fn sorted_codes(codes: &Vec<u16>) -> (sorted: Vec<u16>)
    ensures
        is_ascending(sorted@),
        sorted@.to_multiset() == codes@.to_multiset(),
{
    let mut sorted: Vec<u16> = Vec::new();
    let mut index: usize = 0;
    assert(codes@.take(0) =~= sorted@);
    while index < codes.len()
        invariant
            index <= codes.len(),
            is_ascending(sorted@),
            sorted@.to_multiset() == codes@.take(index as int).to_multiset(),
        decreases codes.len() - index,
    {
        let ghost before = sorted@;
        let code: u16 = codes[index];
        let mut place: usize = 0;
        while place < sorted.len() && sorted[place] <= code
            invariant
                place <= sorted.len(),
                before == sorted@,
                forall|i: int| 0 <= i < place ==> #[trigger] before[i] <= code,
            decreases sorted.len() - place,
        {
            place = place + 1;
        }
        sorted.insert(place, code);
        proof {
            assert(sorted@ =~= before.insert(place as int, code));
            vstd::seq_lib::to_multiset_insert(before, place as int, code);
            assert(codes@.take(index + 1) =~= codes@.take(index as int).push(code));
            vstd::seq_lib::to_multiset_build(codes@.take(index as int), code);
        }
        index = index + 1;
    }
    assert(codes@.take(index as int) =~= codes@);
    sorted
}

/// The order of texts is total and transitive, and two texts that come before each
/// other are the same.
pub proof fn law_texts_are_in_one_order(first: Seq<char>, second: Seq<char>, third: Seq<char>)
    ensures
        in_order(first, second) || in_order(second, first),
        in_order(first, second) && in_order(second, third) ==> in_order(first, third),
        in_order(first, second) && in_order(second, first) ==> first == second,
{
    lemma_order_is_total(first, second);
    if in_order(first, second) && in_order(second, third) {
        lemma_order_is_transitive(first, second, third);
    }
    if in_order(first, second) && in_order(second, first) {
        lemma_order_is_antisymmetric(first, second);
    }
}

/// Texts that come before each other are the same.
proof fn lemma_order_is_antisymmetric(first: Seq<char>, second: Seq<char>)
    requires
        in_order(first, second),
        in_order(second, first),
    ensures
        first == second,
    decreases first.len(),
{
    if first.len() == 0 {
        assert(first =~= second);
    } else {
        lemma_order_is_antisymmetric(first.drop_first(), second.drop_first());
        assert(first =~= seq![first[0]] + first.drop_first());
        assert(second =~= seq![second[0]] + second.drop_first());
    }
}

/// Where two texts begin alike, the first character in which they differ decides,
/// and a text comes before every longer one that begins with it.
pub proof fn law_the_first_difference_decides(
    start: Seq<char>,
    first: char,
    second: char,
    left: Seq<char>,
    right: Seq<char>,
)
    requires
        first != second,
    ensures
        in_order(start + seq![first] + left, start + seq![second] + right) <==> first < second,
        in_order(start, start + right),
        right.len() > 0 ==> !in_order(start + right, start),
    decreases start.len(),
{
    let one = start + seq![first] + left;
    let two = start + seq![second] + right;
    if start.len() == 0 {
        assert(one[0] == first);
        assert(two[0] == second);
    } else {
        let rest = start.drop_first();
        law_the_first_difference_decides(rest, first, second, left, right);
        assert(one.drop_first() =~= rest + seq![first] + left);
        assert(two.drop_first() =~= rest + seq![second] + right);
        assert((start + right).drop_first() =~= rest + right);
        assert(one[0] == start[0] && two[0] == start[0] && (start + right)[0] == start[0]);
    }
}

} // verus!
