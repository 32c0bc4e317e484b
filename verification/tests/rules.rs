use rusty_yacht::{Category, ScoreValidator};

#[test]
fn twos_counts_the_pips_of_the_twos() {
    assert_eq!(ScoreValidator::twos(&[2, 2, 3, 4, 5]), Some(4));
}

#[test]
fn upper_section_scores_the_matching_dice() {
    let hand = [1, 1, 1, 6, 6];
    assert_eq!(ScoreValidator::ones(&hand), Some(3));
    assert_eq!(ScoreValidator::twos(&hand), None);
    assert_eq!(ScoreValidator::threes(&hand), None);
    assert_eq!(ScoreValidator::fours(&hand), None);
    assert_eq!(ScoreValidator::fives(&hand), None);
    assert_eq!(ScoreValidator::sixes(&hand), Some(12));
}

#[test]
fn upper_section_scores_a_single_matching_die() {
    let hand = [1, 2, 3, 4, 5];
    assert_eq!(ScoreValidator::ones(&hand), Some(1));
    assert_eq!(ScoreValidator::twos(&hand), Some(2));
    assert_eq!(ScoreValidator::threes(&hand), Some(3));
    assert_eq!(ScoreValidator::fours(&hand), Some(4));
    assert_eq!(ScoreValidator::fives(&hand), Some(5));
    assert_eq!(ScoreValidator::sixes(&hand), None);
    assert_eq!(ScoreValidator::sixes(&[6, 2, 3, 4, 5]), Some(6));
}

#[test]
fn upper_section_scores_five_of_a_face() {
    assert_eq!(ScoreValidator::ones(&[1, 1, 1, 1, 1]), Some(5));
    assert_eq!(ScoreValidator::threes(&[3, 3, 3, 3, 3]), Some(15));
    assert_eq!(ScoreValidator::fours(&[4, 4, 4, 4, 4]), Some(20));
    assert_eq!(ScoreValidator::fives(&[5, 5, 5, 5, 5]), Some(25));
    assert_eq!(ScoreValidator::sixes(&[6, 6, 6, 6, 6]), Some(30));
}

#[test]
fn one_pair_takes_the_highest_pair() {
    assert_eq!(ScoreValidator::one_pair(&[1, 1, 2, 2, 3]), Some(4));
}

#[test]
fn one_pair_in_any_order_of_the_dice() {
    assert_eq!(ScoreValidator::one_pair(&[6, 1, 6, 2, 3]), Some(12));
    assert_eq!(ScoreValidator::one_pair(&[3, 2, 2, 1, 1]), Some(4));
    assert_eq!(ScoreValidator::one_pair(&[5, 5, 5, 5, 5]), Some(10));
    assert_eq!(ScoreValidator::one_pair(&[1, 1, 3, 4, 5]), Some(2));
}

#[test]
fn one_pair_needs_two_equal_dice() {
    assert_eq!(ScoreValidator::one_pair(&[1, 2, 3, 4, 5]), None);
    assert_eq!(ScoreValidator::one_pair(&[6, 4, 2, 3, 1]), None);
}

#[test]
fn two_pairs_adds_both_pairs() {
    assert_eq!(ScoreValidator::two_pairs(&[1, 1, 2, 2, 3]), Some(6));
}

#[test]
fn two_pairs_in_any_order_of_the_dice() {
    assert_eq!(ScoreValidator::two_pairs(&[6, 5, 6, 5, 1]), Some(22));
    assert_eq!(ScoreValidator::two_pairs(&[3, 4, 4, 6, 6]), Some(20));
    assert_eq!(ScoreValidator::two_pairs(&[2, 2, 4, 5, 5]), Some(14));
}

// The lower pair is looked for among the three lowest dice and the upper
// pair among the three highest, so three dice of one face give the lower
// pair and two dice of a higher face give the upper one.
#[test]
fn two_pairs_from_three_and_two_of_a_kind() {
    assert_eq!(ScoreValidator::two_pairs(&[1, 1, 1, 2, 2]), Some(6));
    assert_eq!(ScoreValidator::two_pairs(&[1, 1, 2, 2, 2]), Some(6));
}

#[test]
fn two_pairs_needs_two_different_faces() {
    assert_eq!(ScoreValidator::two_pairs(&[1, 1, 1, 1, 2]), None);
    assert_eq!(ScoreValidator::two_pairs(&[2, 3, 3, 3, 3]), None);
    assert_eq!(ScoreValidator::two_pairs(&[4, 4, 4, 4, 4]), None);
    assert_eq!(ScoreValidator::two_pairs(&[1, 1, 3, 4, 5]), None);
    assert_eq!(ScoreValidator::two_pairs(&[1, 3, 3, 3, 5]), None);
    assert_eq!(ScoreValidator::two_pairs(&[1, 2, 3, 4, 5]), None);
}

#[test]
fn three_kind_adds_the_three_dice() {
    assert_eq!(ScoreValidator::three_kind(&[4, 4, 4, 1, 2]), Some(12));
    assert_eq!(ScoreValidator::three_kind(&[1, 3, 3, 3, 5]), Some(9));
    assert_eq!(ScoreValidator::three_kind(&[1, 2, 6, 6, 6]), Some(18));
    assert_eq!(ScoreValidator::three_kind(&[2, 2, 2, 2, 5]), Some(6));
    assert_eq!(ScoreValidator::three_kind(&[1, 1, 2, 2, 3]), None);
}

#[test]
fn four_kind_adds_the_four_dice() {
    assert_eq!(ScoreValidator::four_kind(&[4, 4, 4, 4, 2]), Some(16));
    assert_eq!(ScoreValidator::four_kind(&[1, 6, 6, 6, 6]), Some(24));
    assert_eq!(ScoreValidator::four_kind(&[3, 3, 3, 3, 3]), Some(12));
    assert_eq!(ScoreValidator::four_kind(&[3, 3, 3, 2, 2]), None);
}

#[test]
fn full_house_is_three_and_two() {
    assert_eq!(ScoreValidator::full_house(&[2, 2, 2, 3, 3]), Some(12));
    assert_eq!(ScoreValidator::full_house(&[2, 2, 2, 2, 3]), None);
}

#[test]
fn full_house_in_any_order_of_the_dice() {
    assert_eq!(ScoreValidator::full_house(&[6, 5, 6, 5, 6]), Some(28));
    assert_eq!(ScoreValidator::full_house(&[1, 1, 4, 4, 4]), Some(14));
}

#[test]
fn full_house_needs_two_faces() {
    assert_eq!(ScoreValidator::full_house(&[2, 2, 2, 2, 2]), None);
    assert_eq!(ScoreValidator::full_house(&[1, 1, 2, 2, 3]), None);
    assert_eq!(ScoreValidator::full_house(&[1, 2, 3, 3, 3]), None);
}

#[test]
fn straights_need_their_five_faces() {
    assert_eq!(ScoreValidator::small_str(&[1, 2, 3, 4, 5]), Some(15));
    assert_eq!(ScoreValidator::large_str(&[2, 3, 4, 5, 6]), Some(20));
    assert_eq!(ScoreValidator::small_str(&[1, 2, 3, 4, 6]), None);
    assert_eq!(ScoreValidator::large_str(&[1, 2, 3, 4, 6]), None);
}

#[test]
fn straights_in_any_order_of_the_dice() {
    assert_eq!(ScoreValidator::small_str(&[5, 3, 1, 2, 4]), Some(15));
    assert_eq!(ScoreValidator::large_str(&[6, 2, 5, 3, 4]), Some(20));
    assert_eq!(ScoreValidator::small_str(&[2, 3, 4, 5, 6]), None);
    assert_eq!(ScoreValidator::large_str(&[1, 2, 3, 4, 5]), None);
    assert_eq!(ScoreValidator::small_str(&[1, 2, 3, 4, 4]), None);
}

#[test]
fn chance_adds_all_dice() {
    assert_eq!(ScoreValidator::chance(&[1, 2, 3, 4, 6]), Some(16));
    assert_eq!(ScoreValidator::chance(&[6, 6, 6, 6, 6]), Some(30));
    assert_eq!(ScoreValidator::chance(&[1, 1, 1, 1, 1]), Some(5));
}

#[test]
fn yatzy_is_five_of_a_kind() {
    assert_eq!(ScoreValidator::yatzy(&[4, 4, 4, 4, 4]), Some(50));
    assert_eq!(ScoreValidator::yatzy(&[4, 4, 4, 4, 5]), None);
    assert_eq!(ScoreValidator::yatzy(&[1, 4, 4, 4, 4]), None);
}

#[test]
fn rule_table_is_in_board_order() {
    let table = ScoreValidator::new();
    assert_eq!(
        table,
        [
            Category::Ones,
            Category::Twos,
            Category::Threes,
            Category::Fours,
            Category::Fives,
            Category::Sixes,
            Category::OnePair,
            Category::TwoPairs,
            Category::ThreeKind,
            Category::FourKind,
            Category::SmallStraight,
            Category::LargeStraight,
            Category::FullHouse,
            Category::Chance,
            Category::Yatzy,
        ]
    );
    for (i, category) in table.iter().enumerate() {
        assert_eq!(category.index(), i);
    }
}

#[test]
fn score_applies_the_rule_of_the_category() {
    let hand = [2, 2, 2, 3, 3];
    let expected = [
        None,
        Some(6),
        Some(6),
        None,
        None,
        None,
        Some(6),
        Some(10),
        Some(6),
        None,
        None,
        None,
        Some(12),
        Some(12),
        None,
    ];
    for (category, points) in ScoreValidator::new().iter().zip(expected.iter()) {
        assert_eq!(ScoreValidator::score(*category, &hand), *points);
    }
}

#[test]
fn no_hand_scores_more_than_the_maximum() {
    let maxima = [5, 10, 15, 20, 25, 30, 12, 22, 18, 24, 15, 20, 28, 30, 50];
    let table = ScoreValidator::new();
    let mut reached = [0usize; 15];
    for a in 1..=6 {
        for b in 1..=6 {
            for c in 1..=6 {
                for d in 1..=6 {
                    for e in 1..=6 {
                        let hand = [a, b, c, d, e];
                        for (i, category) in table.iter().enumerate() {
                            if let Some(points) = ScoreValidator::score(*category, &hand) {
                                assert!(points <= maxima[i]);
                                if points > reached[i] {
                                    reached[i] = points;
                                }
                            }
                        }
                    }
                }
            }
        }
    }
    assert_eq!(reached, maxima);
}

#[test]
fn cursor_goes_round_the_board() {
    assert_eq!(Category::Ones.next(), Category::Twos);
    assert_eq!(Category::Sixes.next(), Category::OnePair);
    assert_eq!(Category::Yatzy.next(), Category::Ones);
    assert_eq!(Category::Ones.prev(), Category::Yatzy);
    assert_eq!(Category::OnePair.prev(), Category::Sixes);
    assert_eq!(Category::Yatzy.prev(), Category::Chance);
}

#[test]
fn categories_have_their_names_and_maxima() {
    let names = [
        "Ones",
        "Twos",
        "Threes",
        "Fours",
        "Fives",
        "Sixes",
        "One Pair",
        "Two Pairs",
        "Three of a Kind",
        "Four of a Kind",
        "Small Straight",
        "Large Straight",
        "Full House",
        "Chance",
        "Yatzy",
    ];
    let maxima = [5, 10, 15, 20, 25, 30, 12, 22, 18, 24, 15, 20, 28, 30, 50];
    for (i, category) in ScoreValidator::new().iter().enumerate() {
        assert_eq!(category.name(), names[i]);
        assert_eq!(category.max(), maxima[i]);
    }
}
