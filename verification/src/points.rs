//! Story points written at the start of a card's title, and their sum over a list of cards.
use crate::text::{decimal_text, digit_number, digit_value, is_digit, lemma_digit_round_trip};
use vstd::prelude::*;
use vstd::string::*;

verus! {

/// A card of the board. Only the start of its title carries meaning.
pub struct Card {
    pub id: String,
    pub title: String,
}

/// The estimate found in a title: the story points, and how many asterisks of uncertainty
/// followed them.
#[derive(Clone, Copy, Debug, PartialEq, Eq, Structural)]
pub struct PointValue {
    pub value: u8,
    pub uncertainty: u8,
}

/// Whether `c` may start an estimate: a digit other than zero.
pub open spec fn is_leading_digit(c: char) -> bool {
    '1' <= c && c <= '9'
}

/// The number of asterisks, at most three, that fill the gap between position `from` of `title`
/// and a closing parenthesis; `None` where the gap holds anything else or never closes.
pub open spec fn uncertainty_before_closing(title: Seq<char>, from: int) -> Option<u8> {
    if title.len() > from && title[from] == ')' {
        Some(0u8)
    } else if title.len() > from + 1 && title[from] == '*' && title[from + 1] == ')' {
        Some(1u8)
    } else if title.len() > from + 2 && title[from] == '*' && title[from + 1] == '*' && title[from
        + 2] == ')' {
        Some(2u8)
    } else if title.len() > from + 3 && title[from] == '*' && title[from + 1] == '*' && title[from
        + 2] == '*' && title[from + 3] == ')' {
        Some(3u8)
    } else {
        None
    }
}

/// The estimate that a title carries: an opening parenthesis, one or two digits of which the
/// first is not zero, up to three asterisks and a closing parenthesis, all at the very start.
pub open spec fn title_points(title: Seq<char>) -> Option<PointValue> {
    if title.len() >= 3 && title[0] == '(' && is_leading_digit(title[1]) {
        let two = is_digit(title[2]);
        let value = if two {
            10 * digit_value(title[1]) + digit_value(title[2])
        } else {
            digit_value(title[1])
        };
        let from: int = if two { 3 } else { 2 };
        match uncertainty_before_closing(title, from) {
            Some(stars) => Some(PointValue { value: value as u8, uncertainty: stars }),
            None => None,
        }
    } else {
        None
    }
}

/// The text that marks a title with `value` points and `stars` asterisks.
pub open spec fn point_mark(value: u8, stars: nat) -> Seq<char> {
    seq!['('] + decimal_text(value) + Seq::new(stars, |i: int| '*') + seq![')']
}

/// Whether `title` starts with the mark of the estimate `found`, which lies between 1 and 99
/// and has at most three asterisks.
pub open spec fn starts_with_mark(title: Seq<char>, found: PointValue) -> bool {
    &&& 1 <= found.value <= 99
    &&& found.uncertainty <= 3
    &&& point_mark(found.value, found.uncertainty as nat).is_prefix_of(title)
}

/// A title that starts with the mark of an estimate between 1 and 99, with up to three
/// asterisks, carries exactly that estimate.
pub proof fn lemma_marked_title_carries_points(title: Seq<char>, found: PointValue)
    requires
        starts_with_mark(title, found),
    ensures
        title_points(title) == Some(found),
{
    lemma_digit_round_trip();
    let value = found.value;
    let stars = found.uncertainty;
    let mark = point_mark(value, stars as nat);
    let digits = decimal_text(value);
    let from: int = 1 + digits.len() as int;
    assert(mark =~= title.subrange(0, mark.len() as int));
    assert(mark.len() == from + stars + 1);
    assert(title[0] == mark[0]);
    assert(title[1] == mark[1] && mark[1] == digits[0]);
    assert(title[2] == mark[2]);
    if value >= 10 {
        assert(mark[2] == digits[1]);
    }
    if stars >= 1 {
        assert(title[from] == mark[from] && mark[from] == '*');
    }
    if stars >= 2 {
        assert(title[from + 1] == mark[from + 1] && mark[from + 1] == '*');
    }
    if stars >= 3 {
        assert(title[from + 2] == mark[from + 2] && mark[from + 2] == '*');
    }
    assert(title[from + stars] == mark[from + stars] && mark[from + stars] == ')');
    assert(uncertainty_before_closing(title, from) == Some(stars));
}

/// Whatever estimate a title carries lies between 1 and 99, has at most three asterisks, and
/// its mark stands at the start of the title; so a title without such a mark carries none.
pub proof fn lemma_points_come_from_mark(title: Seq<char>)
    requires
        title_points(title) is Some,
    ensures
        starts_with_mark(title, title_points(title)->0),
{
    lemma_digit_round_trip();
    let found = title_points(title)->0;
    let mark = point_mark(found.value, found.uncertainty as nat);
    let digits = decimal_text(found.value);
    let two = is_digit(title[2]);
    let from: int = if two { 3 } else { 2 };
    assert(uncertainty_before_closing(title, from) == Some(found.uncertainty));
    assert(1 <= digit_value(title[1]) <= 9);
    if two {
        assert(0 <= digit_value(title[2]) <= 9);
        assert(found.value == 10 * digit_value(title[1]) + digit_value(title[2]));
        assert(found.value as int / 10 == digit_value(title[1]));
        assert(found.value as int % 10 == digit_value(title[2]));
        assert(digits =~= seq![title[1], title[2]]);
    } else {
        assert(digits =~= seq![title[1]]);
    }
    assert(mark.len() == from + found.uncertainty + 1);
    assert(mark.len() <= title.len());
    assert forall|i: int| 0 <= i < mark.len() implies mark[i] == title[i] by {
        if i == 0 {
        } else if i < from {
            assert(mark[i] == digits[i - 1]);
        } else if i < from + found.uncertainty {
            assert(mark[i] == '*');
        } else {
            assert(mark[i] == ')');
        }
    }
    assert(mark =~= title.subrange(0, mark.len() as int));
}

/// Reads the estimate at the start of a card's title, if there is one: the estimate whose
/// mark the title starts with, and none where it starts with no such mark.
pub fn extract(title: &str) -> (points: Option<PointValue>)
    ensures
        points == title_points(title@),
        match points {
            Some(found) => starts_with_mark(title@, found),
            None => forall|found: PointValue| !starts_with_mark(title@, found),
        },
{
    proof {
        if title_points(title@) is Some {
            lemma_points_come_from_mark(title@);
        } else {
            assert forall|found: PointValue| !starts_with_mark(title@, found) by {
                if starts_with_mark(title@, found) {
                    lemma_marked_title_carries_points(title@, found);
                }
            }
        }
    }
    let len = title.unicode_len();
    if len < 3 || title.get_char(0) != '(' {
        return None;
    }
    let first = title.get_char(1);
    if first < '1' || first > '9' {
        return None;
    }
    let second = title.get_char(2);
    let mut value: u8 = digit_number(first);
    let mut from: usize = 2;
    if '0' <= second && second <= '9' {
        value = value * 10 + digit_number(second);
        from = 3;
    }
    let mut stars: u8 = 0;
    while stars <= 3
        invariant
            title_points(title@) is Some ==> starts_with_mark(title@, title_points(title@)->0),
            title_points(title@) is None ==> forall|found: PointValue|
                !starts_with_mark(title@, found),
            stars <= 4,
            len == title@.len(),
            len >= 3,
            title@[0] == '(',
            is_leading_digit(title@[1]),
            from == if is_digit(title@[2]) { 3int } else { 2int },
            value as int == if is_digit(title@[2]) {
                10 * digit_value(title@[1]) + digit_value(title@[2])
            } else {
                digit_value(title@[1])
            },
            stars >= 1 ==> from < len && title@[from as int] == '*',
            stars >= 2 ==> from + 1 < len && title@[from + 1] == '*',
            stars >= 3 ==> from + 2 < len && title@[from + 2] == '*',
            stars >= 4 ==> from + 3 < len && title@[from + 3] == '*',
        decreases 4 - stars,
    {
        let at: usize = from + stars as usize;
        if at >= len {
            return None;
        }
        let c = title.get_char(at);
        if c == ')' {
            return Some(PointValue { value, uncertainty: stars });
        }
        if c != '*' {
            return None;
        }
        stars = stars + 1;
    }
    None
}

/// The points that one card adds to its list's sum: its estimate, or nothing.
pub open spec fn card_points(card: Card) -> nat {
    match title_points(card.title@) {
        Some(found) => found.value as nat,
        None => 0,
    }
}

/// The sum of the estimates of all cards.
pub open spec fn total_points(cards: Seq<Card>) -> nat
    decreases cards.len(),
{
    if cards.len() == 0 {
        0
    } else {
        total_points(cards.drop_last()) + card_points(cards.last())
    }
}

/// The sum of the estimates of a list's cards, held at 255 where it would go beyond.
pub fn aggregate(cards: &Vec<Card>) -> (velocity: u8)
    ensures
        velocity as nat == if total_points(cards@) > 255 { 255 } else { total_points(cards@) },
        total_points(cards@) > 255 ==> velocity == 255,
{
    let mut velocity: u8 = 0;
    let mut i: usize = 0;
    while i < cards.len()
        invariant
            i <= cards.len(),
            velocity as nat == if total_points(cards@.take(i as int)) > 255 {
                255
            } else {
                total_points(cards@.take(i as int))
            },
        decreases cards.len() - i,
    {
        proof {
            assert(cards@.take(i + 1).drop_last() =~= cards@.take(i as int));
        }
        match extract(cards[i].title.as_str()) {
            Some(found) => {
                velocity = velocity.saturating_add(found.value);
            },
            None => {},
        }
        i = i + 1;
    }
    proof {
        assert(cards@.take(cards.len() as int) =~= cards@);
    }
    velocity
}

/// Removing one card lowers the sum by that card's points.
proof fn lemma_total_points_remove(cards: Seq<Card>, i: int)
    requires
        0 <= i < cards.len(),
    ensures
        total_points(cards) == total_points(cards.remove(i)) + card_points(cards[i]),
    decreases cards.len(),
{
    if i == cards.len() - 1 {
        assert(cards.remove(i) =~= cards.drop_last());
    } else {
        lemma_total_points_remove(cards.drop_last(), i);
        assert(cards.remove(i).drop_last() =~= cards.drop_last().remove(i));
        assert(cards.remove(i).last() == cards.last());
    }
}

/// The sum does not depend on the order of the cards: two lists that hold the same cards,
/// each as often as the other, have the same sum.
pub proof fn lemma_total_points_ignores_order(a: Seq<Card>, b: Seq<Card>)
    requires
        a.to_multiset() == b.to_multiset(),
    ensures
        total_points(a) == total_points(b),
    decreases a.len(),
{
    broadcast use vstd::seq_lib::group_to_multiset_ensures;

    a.to_multiset_ensures();
    b.to_multiset_ensures();
    if a.len() == 0 {
        assert(b.len() == 0);
    } else {
        let last = a.last();
        assert(a.contains(last));
        assert(b.to_multiset().count(last) > 0);
        assert(b.contains(last));
        let i = choose|i: int| 0 <= i < b.len() && b[i] == last;
        assert(a.drop_last() =~= a.remove(a.len() - 1));
        assert(a.drop_last().to_multiset() =~= b.remove(i).to_multiset());
        lemma_total_points_ignores_order(a.drop_last(), b.remove(i));
        lemma_total_points_remove(b, i);
    }
}

} // verus!
