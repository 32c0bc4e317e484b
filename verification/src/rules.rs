//! The scoring rules: what a hand of five dice is worth in each category.

use vstd::prelude::*;

verus! {

/// The fifteen categories a hand can be scored in, in board order.
#[derive(Clone, Copy, PartialEq, Eq, Structural, Debug)]
pub enum Category {
    Ones,
    Twos,
    Threes,
    Fours,
    Fives,
    Sixes,
    OnePair,
    TwoPairs,
    ThreeKind,
    FourKind,
    SmallStraight,
    LargeStraight,
    FullHouse,
    Chance,
    Yatzy,
}

/// A hand is five dice, each showing a face from 1 to 6.
pub open spec fn valid_hand(hand: Seq<usize>) -> bool {
    &&& hand.len() == 5
    &&& forall|i: int| 0 <= i < 5 ==> 1 <= #[trigger] hand[i] <= 6
}

/// How many of the first `n` dice show `face`.
pub open spec fn count_in(hand: Seq<usize>, face: int, n: int) -> int
    decreases n,
{
    if n <= 0 {
        0
    } else {
        count_in(hand, face, n - 1) + if hand[n - 1] == face {
            1int
        } else {
            0int
        }
    }
}

/// How many dice of the hand show `face`.
pub open spec fn count(hand: Seq<usize>, face: int) -> int {
    count_in(hand, face, hand.len() as int)
}

/// The pips of the first `n` dice, added up.
pub open spec fn sum_in(hand: Seq<usize>, n: int) -> int
    decreases n,
{
    if n <= 0 {
        0
    } else {
        sum_in(hand, n - 1) + hand[n - 1]
    }
}

/// The pips of all dice of the hand, added up.
pub open spec fn sum(hand: Seq<usize>) -> int {
    sum_in(hand, hand.len() as int)
}

/// Whether the faces never fall from one die to the next.
pub open spec fn ascending(hand: Seq<usize>) -> bool {
    forall|i: int, j: int| 0 <= i <= j < hand.len() ==> hand[i] <= hand[j]
}

/// Whether two hands show every face equally often.
pub open spec fn same_dice(a: Seq<usize>, b: Seq<usize>) -> bool {
    forall|face: int| count(a, face) == count(b, face)
}

/// The highest face below `limit` that at least `k` dice show, or 0 where
/// no face below `limit` is shown that often.
pub open spec fn top_face(hand: Seq<usize>, k: int, limit: int) -> int
    decreases limit,
{
    if limit <= 1 {
        0
    } else if count(hand, limit - 1) >= k {
        limit - 1
    } else {
        top_face(hand, k, limit - 1)
    }
}

/// Whether some face is shown by exactly `k` dice.
pub open spec fn shows(hand: Seq<usize>, k: int) -> bool {
    exists|face: int| 1 <= face <= 6 && #[trigger] count(hand, face) == k
}

/// What the upper-section category of `face` is worth: every die that
/// shows `face` counts its pips, and a hand without such a die does not
/// score.
pub open spec fn upper_score(hand: Seq<usize>, face: int) -> Option<int> {
    if count(hand, face) >= 1 {
        Some(count(hand, face) * face)
    } else {
        None
    }
}

/// One Pair: twice the highest face that at least two dice show.
pub open spec fn one_pair_score(hand: Seq<usize>) -> Option<int> {
    let pair = top_face(hand, 2, 7);
    if pair > 0 {
        Some(2 * pair)
    } else {
        None
    }
}

/// Two Pairs: the two highest faces that at least two dice show each,
/// twice the one and twice the other.
pub open spec fn two_pairs_score(hand: Seq<usize>) -> Option<int> {
    let high = top_face(hand, 2, 7);
    let low = top_face(hand, 2, high);
    if low > 0 {
        Some(2 * low + 2 * high)
    } else {
        None
    }
}

/// Three of a Kind: three times the face that at least three dice show.
pub open spec fn three_kind_score(hand: Seq<usize>) -> Option<int> {
    let triple = top_face(hand, 3, 7);
    if triple > 0 {
        Some(3 * triple)
    } else {
        None
    }
}

/// Four of a Kind: four times the face that at least four dice show.
pub open spec fn four_kind_score(hand: Seq<usize>) -> Option<int> {
    let quad = top_face(hand, 4, 7);
    if quad > 0 {
        Some(4 * quad)
    } else {
        None
    }
}

/// Small Straight: each of the faces 1 to 5 once, worth 15.
pub open spec fn small_str_score(hand: Seq<usize>) -> Option<int> {
    if forall|face: int| 1 <= face <= 5 ==> #[trigger] count(hand, face) == 1 {
        Some(15)
    } else {
        None
    }
}

/// Large Straight: each of the faces 2 to 6 once, worth 20.
pub open spec fn large_str_score(hand: Seq<usize>) -> Option<int> {
    if forall|face: int| 2 <= face <= 6 ==> #[trigger] count(hand, face) == 1 {
        Some(20)
    } else {
        None
    }
}

/// Full House: one face on exactly three dice and another on exactly two,
/// worth the pips of all five.
pub open spec fn full_house_score(hand: Seq<usize>) -> Option<int> {
    if shows(hand, 3) && shows(hand, 2) {
        Some(sum(hand))
    } else {
        None
    }
}

/// Chance: the pips of all five dice, whatever they show.
pub open spec fn chance_score(hand: Seq<usize>) -> Option<int> {
    Some(sum(hand))
}

/// Yatzy: all dice show the face of the first, worth 50.
pub open spec fn yatzy_score(hand: Seq<usize>) -> Option<int> {
    if forall|i: int| 0 <= i < hand.len() ==> #[trigger] hand[i] == hand[0] {
        Some(50)
    } else {
        None
    }
}

/// The categories in board order: the upper section from Ones to Sixes,
/// then the lower section from One Pair to Yatzy.
pub open spec fn board_order() -> Seq<Category> {
    seq![
        Category::Ones,
        Category::Twos,
        Category::Threes,
        Category::Fours,
        Category::Fives,
        Category::Sixes,
        Category::OnePair,
        Category::TwoPairs,
        Category::ThreeKind,
        Category::FourKind,
        Category::SmallStraight,
        Category::LargeStraight,
        Category::FullHouse,
        Category::Chance,
        Category::Yatzy,
    ]
}

impl Category {
    /// The place of the category in board order, from 0.
    pub open spec fn position(self) -> int {
        match self {
            Category::Ones => 0,
            Category::Twos => 1,
            Category::Threes => 2,
            Category::Fours => 3,
            Category::Fives => 4,
            Category::Sixes => 5,
            Category::OnePair => 6,
            Category::TwoPairs => 7,
            Category::ThreeKind => 8,
            Category::FourKind => 9,
            Category::SmallStraight => 10,
            Category::LargeStraight => 11,
            Category::FullHouse => 12,
            Category::Chance => 13,
            Category::Yatzy => 14,
        }
    }

    /// The most that any hand scores in the category.
    pub open spec fn max_score(self) -> int {
        match self {
            Category::Ones => 5,
            Category::Twos => 10,
            Category::Threes => 15,
            Category::Fours => 20,
            Category::Fives => 25,
            Category::Sixes => 30,
            Category::OnePair => 12,
            Category::TwoPairs => 22,
            Category::ThreeKind => 18,
            Category::FourKind => 24,
            Category::SmallStraight => 15,
            Category::LargeStraight => 20,
            Category::FullHouse => 28,
            Category::Chance => 30,
            Category::Yatzy => 50,
        }
    }

    /// The name of the category as the board shows it.
    pub open spec fn label(self) -> Seq<char> {
        match self {
            Category::Ones => "Ones"@,
            Category::Twos => "Twos"@,
            Category::Threes => "Threes"@,
            Category::Fours => "Fours"@,
            Category::Fives => "Fives"@,
            Category::Sixes => "Sixes"@,
            Category::OnePair => "One Pair"@,
            Category::TwoPairs => "Two Pairs"@,
            Category::ThreeKind => "Three of a Kind"@,
            Category::FourKind => "Four of a Kind"@,
            Category::SmallStraight => "Small Straight"@,
            Category::LargeStraight => "Large Straight"@,
            Category::FullHouse => "Full House"@,
            Category::Chance => "Chance"@,
            Category::Yatzy => "Yatzy"@,
        }
    }

    /// What `hand` is worth in the category, `None` where the category does
    /// not apply to it.
    pub open spec fn score(self, hand: Seq<usize>) -> Option<int> {
        match self {
            Category::Ones => upper_score(hand, 1),
            Category::Twos => upper_score(hand, 2),
            Category::Threes => upper_score(hand, 3),
            Category::Fours => upper_score(hand, 4),
            Category::Fives => upper_score(hand, 5),
            Category::Sixes => upper_score(hand, 6),
            Category::OnePair => one_pair_score(hand),
            Category::TwoPairs => two_pairs_score(hand),
            Category::ThreeKind => three_kind_score(hand),
            Category::FourKind => four_kind_score(hand),
            Category::SmallStraight => small_str_score(hand),
            Category::LargeStraight => large_str_score(hand),
            Category::FullHouse => full_house_score(hand),
            Category::Chance => chance_score(hand),
            Category::Yatzy => yatzy_score(hand),
        }
    }

    /// The place of the category in board order, from 0.
    pub fn index(self) -> (i: usize)
        ensures
            i == self.position(),
            i < 15,
            board_order()[i as int] == self,
    {
        match self {
            Category::Ones => 0,
            Category::Twos => 1,
            Category::Threes => 2,
            Category::Fours => 3,
            Category::Fives => 4,
            Category::Sixes => 5,
            Category::OnePair => 6,
            Category::TwoPairs => 7,
            Category::ThreeKind => 8,
            Category::FourKind => 9,
            Category::SmallStraight => 10,
            Category::LargeStraight => 11,
            Category::FullHouse => 12,
            Category::Chance => 13,
            Category::Yatzy => 14,
        }
    }

    /// The name of the category as the board shows it.
    pub fn name(self) -> (name: &'static str)
        ensures
            name@ == self.label(),
    {
        match self {
            Category::Ones => "Ones",
            Category::Twos => "Twos",
            Category::Threes => "Threes",
            Category::Fours => "Fours",
            Category::Fives => "Fives",
            Category::Sixes => "Sixes",
            Category::OnePair => "One Pair",
            Category::TwoPairs => "Two Pairs",
            Category::ThreeKind => "Three of a Kind",
            Category::FourKind => "Four of a Kind",
            Category::SmallStraight => "Small Straight",
            Category::LargeStraight => "Large Straight",
            Category::FullHouse => "Full House",
            Category::Chance => "Chance",
            Category::Yatzy => "Yatzy",
        }
    }

    /// The most that any hand scores in the category.
    pub fn max(self) -> (most: usize)
        ensures
            most == self.max_score(),
    {
        match self {
            Category::Ones => 5,
            Category::Twos => 10,
            Category::Threes => 15,
            Category::Fours => 20,
            Category::Fives => 25,
            Category::Sixes => 30,
            Category::OnePair => 12,
            Category::TwoPairs => 22,
            Category::ThreeKind => 18,
            Category::FourKind => 24,
            Category::SmallStraight => 15,
            Category::LargeStraight => 20,
            Category::FullHouse => 28,
            Category::Chance => 30,
            Category::Yatzy => 50,
        }
    }

    /// The category that follows on the board; after the last comes the
    /// first.
    pub open spec fn following(self) -> Category {
        board_order()[(self.position() + 1) % 15]
    }

    /// The category that precedes on the board; before the first comes the
    /// last.
    pub open spec fn preceding(self) -> Category {
        board_order()[(self.position() + 14) % 15]
    }

    /// The category that follows on the board; after the last comes the
    /// first.
    pub fn next(self) -> (after: Category)
        ensures
            after == self.following(),
    {
        let table = ScoreValidator::new();
        table[(self.index() + 1) % 15]
    }

    /// The category that precedes on the board; before the first comes the
    /// last.
    pub fn prev(self) -> (before: Category)
        ensures
            before == self.preceding(),
    {
        let table = ScoreValidator::new();
        table[(self.index() + 14) % 15]
    }
}

/// A score as a mathematical integer.
pub open spec fn as_int(score: Option<usize>) -> Option<int> {
    match score {
        Some(v) => Some(v as int),
        None => None,
    }
}

/// `top_face` is 0 or a face below `limit` that `k` dice show, and no face
/// between it and `limit` is shown by `k` dice.
pub proof fn lemma_top_face(hand: Seq<usize>, k: int, limit: int)
    ensures
        top_face(hand, k, limit) == 0 || 1 <= top_face(hand, k, limit) < limit,
        top_face(hand, k, limit) > 0 ==> count(hand, top_face(hand, k, limit)) >= k,
        forall|face: int|
            1 <= face && top_face(hand, k, limit) < face < limit ==> count(hand, face) < k,
    decreases limit,
{
    if limit > 1 && count(hand, limit - 1) < k {
        lemma_top_face(hand, k, limit - 1);
    }
}

/// A face below `limit` that `k` dice show, with no higher such face below
/// `limit`, is `top_face`.
pub proof fn lemma_top_face_is(hand: Seq<usize>, k: int, limit: int, face: int)
    requires
        1 <= face < limit,
        count(hand, face) >= k,
        forall|other: int| face < other < limit ==> count(hand, other) < k,
    ensures
        top_face(hand, k, limit) == face,
{
    lemma_top_face(hand, k, limit);
}

/// Where no face below `limit` is shown by `k` dice, `top_face` is 0.
pub proof fn lemma_top_face_none(hand: Seq<usize>, k: int, limit: int)
    requires
        forall|face: int| 1 <= face < limit ==> count(hand, face) < k,
    ensures
        top_face(hand, k, limit) == 0,
{
    lemma_top_face(hand, k, limit);
}

/// The count of a face over five dice, die by die.
proof fn lemma_count_five(hand: Seq<usize>)
    requires
        hand.len() == 5,
    ensures
        forall|face: int| #[trigger]
            count(hand, face) == (if hand[0] == face {
                1int
            } else {
                0int
            }) + (if hand[1] == face {
                1int
            } else {
                0int
            }) + (if hand[2] == face {
                1int
            } else {
                0int
            }) + (if hand[3] == face {
                1int
            } else {
                0int
            }) + (if hand[4] == face {
                1int
            } else {
                0int
            }),
{
    reveal_with_fuel(count_in, 6);
}

/// A face is shown by no more dice than the hand has.
proof fn lemma_count_range(hand: Seq<usize>, face: int)
    requires
        hand.len() == 5,
    ensures
        0 <= count(hand, face) <= 5,
{
    lemma_count_five(hand);
}

/// An upper-section score is at most five times its face.
proof fn lemma_upper_bounds(hand: Seq<usize>, face: int)
    requires
        hand.len() == 5,
        1 <= face <= 6,
    ensures
        upper_score(hand, face) matches Some(value) ==> 0 <= value <= 5 * face,
{
    lemma_count_range(hand, face);
    assert(0 <= count(hand, face) * face <= 5 * face) by (nonlinear_arith)
        requires
            0 <= count(hand, face) <= 5,
            1 <= face,
    ;
}

/// The pips of a hand with a face on three dice and another on two.
proof fn lemma_full_house_bounds(hand: Seq<usize>)
    requires
        valid_hand(hand),
    ensures
        full_house_score(hand) matches Some(value) ==> 0 <= value <= 28,
{
    if shows(hand, 3) && shows(hand, 2) {
        let triple = choose|face: int| 1 <= face <= 6 && #[trigger] count(hand, face) == 3;
        let pair = choose|face: int| 1 <= face <= 6 && #[trigger] count(hand, face) == 2;
        lemma_count_five(hand);
        reveal_with_fuel(sum_in, 6);
        assert(sum(hand) == 3 * triple + 2 * pair);
    }
}

/// No hand scores more in a category than the category's maximum, and a
/// score is never negative.
pub proof fn lemma_score_bounds(category: Category, hand: Seq<usize>)
    requires
        valid_hand(hand),
    ensures
        category.score(hand) matches Some(value) ==> 0 <= value <= category.max_score(),
{
    match category {
        Category::Ones => lemma_upper_bounds(hand, 1),
        Category::Twos => lemma_upper_bounds(hand, 2),
        Category::Threes => lemma_upper_bounds(hand, 3),
        Category::Fours => lemma_upper_bounds(hand, 4),
        Category::Fives => lemma_upper_bounds(hand, 5),
        Category::Sixes => lemma_upper_bounds(hand, 6),
        Category::OnePair => lemma_top_face(hand, 2, 7),
        Category::TwoPairs => {
            lemma_top_face(hand, 2, 7);
            lemma_top_face(hand, 2, top_face(hand, 2, 7));
        },
        Category::ThreeKind => lemma_top_face(hand, 3, 7),
        Category::FourKind => lemma_top_face(hand, 4, 7),
        Category::FullHouse => lemma_full_house_bounds(hand),
        Category::Chance => {
            reveal_with_fuel(sum_in, 6);
        },
        _ => {},
    }
}

/// 1 for a die that shows `face`, 0 for any other.
#[verifier::opaque]
spec fn hit(die: usize, face: int) -> int {
    if die == face {
        1
    } else {
        0
    }
}

/// The count of a face over five dice, die by die.
proof fn lemma_count_hits(hand: Seq<usize>, face: int)
    requires
        hand.len() == 5,
    ensures
        count(hand, face) == hit(hand[0], face) + hit(hand[1], face) + hit(hand[2], face) + hit(
            hand[3],
            face,
        ) + hit(hand[4], face),
{
    reveal(hit);
    lemma_count_five(hand);
}

/// The pips of a die are its face.
proof fn lemma_die_by_faces(die: usize)
    requires
        1 <= die <= 6,
    ensures
        die == hit(die, 1) + 2 * hit(die, 2) + 3 * hit(die, 3) + 4 * hit(die, 4) + 5 * hit(die, 5)
            + 6 * hit(die, 6),
{
    reveal(hit);
}

/// The pips of a hand are the faces, each as often as it is shown.
proof fn lemma_sum_by_faces(hand: Seq<usize>)
    requires
        valid_hand(hand),
    ensures
        sum(hand) == count(hand, 1) + 2 * count(hand, 2) + 3 * count(hand, 3) + 4 * count(hand, 4)
            + 5 * count(hand, 5) + 6 * count(hand, 6),
{
    assert(sum(hand) == hand[0] + hand[1] + hand[2] + hand[3] + hand[4]) by {
        reveal_with_fuel(sum_in, 6);
    }
    lemma_die_by_faces(hand[0]);
    lemma_die_by_faces(hand[1]);
    lemma_die_by_faces(hand[2]);
    lemma_die_by_faces(hand[3]);
    lemma_die_by_faces(hand[4]);
    lemma_count_hits(hand, 1);
    lemma_count_hits(hand, 2);
    lemma_count_hits(hand, 3);
    lemma_count_hits(hand, 4);
    lemma_count_hits(hand, 5);
    lemma_count_hits(hand, 6);
}

/// `top_face` looks at the counts only.
proof fn lemma_top_face_order_free(a: Seq<usize>, b: Seq<usize>, k: int, limit: int)
    requires
        same_dice(a, b),
    ensures
        top_face(a, k, limit) == top_face(b, k, limit),
    decreases limit,
{
    if limit > 1 {
        lemma_top_face_order_free(a, b, k, limit - 1);
    }
}

/// `shows` looks at the counts only.
proof fn lemma_shows_order_free(a: Seq<usize>, b: Seq<usize>, k: int)
    requires
        same_dice(a, b),
    ensures
        shows(a, k) == shows(b, k),
{
    if shows(a, k) {
        let face = choose|face: int| 1 <= face <= 6 && #[trigger] count(a, face) == k;
        assert(count(b, face) == k);
    }
    if shows(b, k) {
        let face = choose|face: int| 1 <= face <= 6 && #[trigger] count(b, face) == k;
        assert(count(a, face) == k);
    }
}

/// The order of the dice does not count: two hands that show every face
/// equally often are worth the same in every category.
pub proof fn lemma_order_free(category: Category, a: Seq<usize>, b: Seq<usize>)
    requires
        valid_hand(a),
        valid_hand(b),
        same_dice(a, b),
    ensures
        category.score(a) == category.score(b),
{
    match category {
        Category::OnePair => lemma_top_face_order_free(a, b, 2, 7),
        Category::TwoPairs => {
            lemma_top_face_order_free(a, b, 2, 7);
            lemma_top_face_order_free(a, b, 2, top_face(a, 2, 7));
        },
        Category::ThreeKind => lemma_top_face_order_free(a, b, 3, 7),
        Category::FourKind => lemma_top_face_order_free(a, b, 4, 7),
        Category::FullHouse => {
            lemma_sum_by_faces(a);
            lemma_sum_by_faces(b);
            lemma_shows_order_free(a, b, 3);
            lemma_shows_order_free(a, b, 2);
        },
        Category::Chance => {
            lemma_sum_by_faces(a);
            lemma_sum_by_faces(b);
        },
        Category::Yatzy => {
            lemma_count_five(a);
            lemma_count_five(b);
            if yatzy_score(a) is Some {
                assert(count(b, a[0] as int) == 5);
            }
            if yatzy_score(b) is Some {
                assert(count(a, b[0] as int) == 5);
            }
        },
        _ => {},
    }
}

/// The pips of the dice that show `face`, if there is one.
fn upper(current: &[usize; 5], face: usize) -> (score: Option<usize>)
    requires
        1 <= face <= 6,
    ensures
        as_int(score) == upper_score(current@, face as int),
{
    let mut value: usize = 0;
    let mut i: usize = 0;
    while i < 5
        invariant
            i <= 5,
            1 <= face <= 6,
            value == face * count_in(current@, face as int, i as int),
            0 <= count_in(current@, face as int, i as int) <= i,
        decreases 5 - i,
    {
        let ghost seen = count_in(current@, face as int, i as int);
        assert(face * seen <= 30 && face * (seen + 1) == face * seen + face) by (nonlinear_arith)
            requires
                1 <= face <= 6,
                0 <= seen <= 5,
        ;
        if current[i] == face {
            value += face;
        }
        i += 1;
    }
    let ghost seen = count(current@, face as int);
    assert((face * seen > 0) <==> seen >= 1) by (nonlinear_arith)
        requires
            1 <= face <= 6,
            0 <= seen,
    ;
    if value > 0 {
        Some(value)
    } else {
        None
    }
}

/// The dice of `current` in ascending order.
fn sorted(current: &[usize; 5]) -> (s: [usize; 5])
    ensures
        ascending(s@),
        same_dice(s@, current@),
        valid_hand(current@) ==> valid_hand(s@),
{
    let mut s: [usize; 5] = *current;
    let mut i: usize = 1;
    while i < 5
        invariant
            1 <= i <= 5,
            same_dice(s@, current@),
            valid_hand(current@) ==> valid_hand(s@),
            forall|a: int, b: int| 0 <= a <= b < i ==> s@[a] <= s@[b],
        decreases 5 - i,
    {
        let mut j: usize = i;
        while j > 0 && s[j - 1] > s[j]
            invariant
                j <= i < 5,
                same_dice(s@, current@),
                valid_hand(current@) ==> valid_hand(s@),
                forall|a: int, b: int| 0 <= a <= b <= i && a != j && b != j ==> s@[a] <= s@[b],
                forall|b: int| j < b <= i ==> s@[j as int] <= s@[b],
            decreases j,
        {
            let ghost before = s@;
            let low: usize = s[j];
            let high: usize = s[j - 1];
            s[j - 1] = low;
            s[j] = high;
            proof {
                lemma_count_five(before);
                lemma_count_five(s@);
            }
            j -= 1;
        }
        i += 1;
    }
    s
}

/// The pips of all five dice of a hand.
fn pips(current: &[usize; 5]) -> (value: usize)
    requires
        valid_hand(current@),
    ensures
        value == sum(current@),
        5 <= value <= 30,
{
    let mut value: usize = 0;
    let mut i: usize = 0;
    while i < 5
        invariant
            i <= 5,
            valid_hand(current@),
            value == sum_in(current@, i as int),
            i <= value <= 6 * i,
        decreases 5 - i,
    {
        value += current[i];
        i += 1;
    }
    value
}

/// The rule table: one scoring rule for each category.
pub struct ScoreValidator;

impl ScoreValidator {
    /// The rule table: the fifteen categories in board order, each standing
    /// for its rule.
    pub fn new() -> (table: [Category; 15])
        ensures
            table@ == board_order(),
            forall|i: int| 0 <= i < 15 ==> (#[trigger] table@[i]).position() == i,
    {
        let table = [
            Category::Ones,
            Category::Twos,
            Category::Threes,
            Category::Fours,
            Category::Fives,
            Category::Sixes,
            Category::OnePair,
            Category::TwoPairs,
            Category::ThreeKind,
            Category::FourKind,
            Category::SmallStraight,
            Category::LargeStraight,
            Category::FullHouse,
            Category::Chance,
            Category::Yatzy,
        ];
        table
    }

    /// Applies the rule of `category` to the hand.
    pub fn score(category: Category, current: &[usize; 5]) -> (score: Option<usize>)
        requires
            valid_hand(current@),
        ensures
            as_int(score) == category.score(current@),
    {
        match category {
            Category::Ones => Self::ones(current),
            Category::Twos => Self::twos(current),
            Category::Threes => Self::threes(current),
            Category::Fours => Self::fours(current),
            Category::Fives => Self::fives(current),
            Category::Sixes => Self::sixes(current),
            Category::OnePair => Self::one_pair(current),
            Category::TwoPairs => Self::two_pairs(current),
            Category::ThreeKind => Self::three_kind(current),
            Category::FourKind => Self::four_kind(current),
            Category::SmallStraight => Self::small_str(current),
            Category::LargeStraight => Self::large_str(current),
            Category::FullHouse => Self::full_house(current),
            Category::Chance => Self::chance(current),
            Category::Yatzy => Self::yatzy(current),
        }
    }

    /// Ones: the pips of the dice that show 1.
    pub fn ones(current: &[usize; 5]) -> (score: Option<usize>)
        ensures
            as_int(score) == upper_score(current@, 1),
    {
        upper(current, 1)
    }

    /// Twos: the pips of the dice that show 2.
    pub fn twos(current: &[usize; 5]) -> (score: Option<usize>)
        ensures
            as_int(score) == upper_score(current@, 2),
    {
        upper(current, 2)
    }

    /// Threes: the pips of the dice that show 3.
    pub fn threes(current: &[usize; 5]) -> (score: Option<usize>)
        ensures
            as_int(score) == upper_score(current@, 3),
    {
        upper(current, 3)
    }

    /// Fours: the pips of the dice that show 4.
    pub fn fours(current: &[usize; 5]) -> (score: Option<usize>)
        ensures
            as_int(score) == upper_score(current@, 4),
    {
        upper(current, 4)
    }

    /// Fives: the pips of the dice that show 5.
    pub fn fives(current: &[usize; 5]) -> (score: Option<usize>)
        ensures
            as_int(score) == upper_score(current@, 5),
    {
        upper(current, 5)
    }

    /// Sixes: the pips of the dice that show 6.
    pub fn sixes(current: &[usize; 5]) -> (score: Option<usize>)
        ensures
            as_int(score) == upper_score(current@, 6),
    {
        upper(current, 6)
    }

    /// One Pair: the highest pair in the hand.
    pub fn one_pair(current: &[usize; 5]) -> (score: Option<usize>)
        requires
            valid_hand(current@),
        ensures
            as_int(score) == one_pair_score(current@),
    {
        let s = sorted(current);
        let mut value: usize = 0;
        if s[0] == s[1] {
            value = s[0] + s[1];
        }
        if s[1] == s[2] {
            if s[1] + s[2] > value {
                value = s[1] + s[2];
            }
        }
        if s[2] == s[3] {
            if s[2] + s[3] > value {
                value = s[2] + s[3];
            }
        }
        if s[3] == s[4] {
            if s[3] + s[4] > value {
                value = s[3] + s[4];
            }
        }
        proof {
            lemma_count_five(s@);
            if value > 1 {
                lemma_top_face_is(current@, 2, 7, value as int / 2);
            } else {
                lemma_top_face_none(current@, 2, 7);
            }
        }
        if value > 1 {
            return Some(value);
        }
        None
    }

    /// Two Pairs: two pairs of different faces.
    pub fn two_pairs(current: &[usize; 5]) -> (score: Option<usize>)
        requires
            valid_hand(current@),
        ensures
            as_int(score) == two_pairs_score(current@),
    {
        let s = sorted(current);
        let mut value_fst: usize = 0;
        let mut value_snd: usize = 0;
        if s[0] == s[1] {
            value_fst = s[0] + s[1];
        } else if s[1] == s[2] {
            value_fst = s[1] + s[2];
        }
        if s[2] == s[3] {
            value_snd = s[2] + s[3];
        } else if s[3] == s[4] {
            value_snd = s[3] + s[4];
        }
        proof {
            lemma_count_five(s@);
            lemma_top_face(current@, 2, 7);
            lemma_top_face(current@, 2, top_face(current@, 2, 7));
            if value_fst > 1 && value_snd > 1 && value_fst != value_snd {
                lemma_top_face_is(current@, 2, 7, value_snd as int / 2);
                lemma_top_face_is(current@, 2, value_snd as int / 2, value_fst as int / 2);
            }
        }
        if value_fst > 1 && value_snd > 1 && value_fst != value_snd {
            return Some(value_fst + value_snd);
        }
        None
    }

    /// Three of a Kind: three dice of one face.
    pub fn three_kind(current: &[usize; 5]) -> (score: Option<usize>)
        requires
            valid_hand(current@),
        ensures
            as_int(score) == three_kind_score(current@),
    {
        let s = sorted(current);
        proof {
            lemma_count_five(s@);
            lemma_top_face(current@, 3, 7);
        }
        if s[0] == s[1] && s[1] == s[2] {
            proof {
                lemma_top_face_is(current@, 3, 7, s@[0] as int);
            }
            return Some(s[0] + s[1] + s[2]);
        } else if s[1] == s[2] && s[2] == s[3] {
            proof {
                lemma_top_face_is(current@, 3, 7, s@[1] as int);
            }
            return Some(s[1] + s[2] + s[3]);
        } else if s[2] == s[3] && s[3] == s[4] {
            proof {
                lemma_top_face_is(current@, 3, 7, s@[2] as int);
            }
            return Some(s[2] + s[3] + s[4]);
        }
        None
    }

    /// Four of a Kind: four dice of one face.
    pub fn four_kind(current: &[usize; 5]) -> (score: Option<usize>)
        requires
            valid_hand(current@),
        ensures
            as_int(score) == four_kind_score(current@),
    {
        let s = sorted(current);
        proof {
            lemma_count_five(s@);
            lemma_top_face(current@, 4, 7);
        }
        if s[0] == s[1] && s[1] == s[2] && s[2] == s[3] {
            proof {
                lemma_top_face_is(current@, 4, 7, s@[0] as int);
            }
            return Some(s[0] + s[1] + s[2] + s[3]);
        } else if s[1] == s[2] && s[2] == s[3] && s[3] == s[4] {
            proof {
                lemma_top_face_is(current@, 4, 7, s@[1] as int);
            }
            return Some(s[1] + s[2] + s[3] + s[4]);
        }
        None
    }

    /// Small Straight: the faces 1, 2, 3, 4 and 5.
    pub fn small_str(current: &[usize; 5]) -> (score: Option<usize>)
        ensures
            as_int(score) == small_str_score(current@),
    {
        let s = sorted(current);
        proof {
            lemma_count_five(s@);
        }
        if s[0] == 1 && s[1] == 2 && s[2] == 3 && s[3] == 4 && s[4] == 5 {
            return Some(15);
        }
        proof {
            if small_str_score(current@) is Some {
                assert(count(s@, 1) == 1);
                assert(count(s@, 2) == 1);
                assert(count(s@, 3) == 1);
                assert(count(s@, 4) == 1);
                assert(count(s@, 5) == 1);
            }
        }
        None
    }

    /// Large Straight: the faces 2, 3, 4, 5 and 6.
    pub fn large_str(current: &[usize; 5]) -> (score: Option<usize>)
        ensures
            as_int(score) == large_str_score(current@),
    {
        let s = sorted(current);
        proof {
            lemma_count_five(s@);
        }
        if s[0] == 2 && s[1] == 3 && s[2] == 4 && s[3] == 5 && s[4] == 6 {
            return Some(20);
        }
        proof {
            if large_str_score(current@) is Some {
                assert(count(s@, 2) == 1);
                assert(count(s@, 3) == 1);
                assert(count(s@, 4) == 1);
                assert(count(s@, 5) == 1);
                assert(count(s@, 6) == 1);
            }
        }
        None
    }

    /// Full House: three dice of one face and two of another.
    pub fn full_house(current: &[usize; 5]) -> (score: Option<usize>)
        requires
            valid_hand(current@),
        ensures
            as_int(score) == full_house_score(current@),
    {
        let s = sorted(current);
        proof {
            lemma_count_five(s@);
        }
        let three_two = s[0] == s[1] && s[1] == s[2] && s[3] == s[4];
        let two_three = s[0] == s[1] && s[2] == s[3] && s[3] == s[4];
        if (three_two || two_three) && s[0] != s[4] {
            proof {
                if three_two {
                    assert(count(s@, s@[0] as int) == 3);
                    assert(count(s@, s@[4] as int) == 2);
                } else {
                    assert(count(s@, s@[0] as int) == 2);
                    assert(count(s@, s@[4] as int) == 3);
                }
            }
            let value = pips(current);
            return Some(value);
        }
        proof {
            if shows(current@, 3) && shows(current@, 2) {
                let triple = choose|face: int| 1 <= face <= 6 && #[trigger] count(current@, face) == 3;
                let pair = choose|face: int| 1 <= face <= 6 && #[trigger] count(current@, face) == 2;
                assert(count(s@, triple) == 3 && count(s@, pair) == 2);
                assert(false);
            }
        }
        None
    }

    /// Chance: any hand, for the pips it shows.
    pub fn chance(current: &[usize; 5]) -> (score: Option<usize>)
        requires
            valid_hand(current@),
        ensures
            as_int(score) == chance_score(current@),
    {
        let value = pips(current);
        Some(value)
    }

    /// Yatzy: five dice of one face.
    pub fn yatzy(current: &[usize; 5]) -> (score: Option<usize>)
        ensures
            as_int(score) == yatzy_score(current@),
    {
        let mut i: usize = 0;
        while i < 5
            invariant
                i <= 5,
                forall|j: int| 0 <= j < i ==> #[trigger] current@[j] == current@[0],
            decreases 5 - i,
        {
            if current[i] != current[0] {
                return None;
            }
            i += 1;
        }
        Some(50)
    }
}

} // verus!
