use conclave::dice::{
    check_rollable, parse_dice_expression, roll_dice, roll_terms, roll_with_draws, DiceTerm, GivenDraws, RandomDraws,
};

#[test]
fn parses_dice_and_flat_terms() {
    assert_eq!(
        parse_dice_expression("2d20+5"),
        vec![DiceTerm::Dice { count: 2, sides: 20 }, DiceTerm::Flat { value: 5 }]
    );
}

#[test]
fn parse_defaults() {
    assert_eq!(parse_dice_expression("d6"), vec![DiceTerm::Dice { count: 1, sides: 6 }]);
    assert_eq!(parse_dice_expression("3d"), vec![DiceTerm::Dice { count: 3, sides: 20 }]);
    assert_eq!(parse_dice_expression("x"), vec![DiceTerm::Flat { value: 0 }]);
    assert_eq!(parse_dice_expression("1d2d3"), vec![DiceTerm::Unused]);
    assert_eq!(parse_dice_expression(""), vec![DiceTerm::Flat { value: 0 }]);
    assert_eq!(
        parse_dice_expression("-4+"),
        vec![DiceTerm::Flat { value: -4 }, DiceTerm::Flat { value: 0 }]
    );
}

#[test]
fn flat_expressions_roll_their_sum() {
    assert_eq!(roll_dice("5"), 5);
    assert_eq!(roll_dice("2+3"), 5);
    assert_eq!(roll_dice("10+-4"), 6);
}

#[test]
fn one_sided_dice_always_show_one() {
    assert_eq!(roll_dice("3d1+4"), 7);
    assert_eq!(roll_dice("2d-1"), 2);
    assert_eq!(roll_dice("0d0+1"), 1);
}

#[test]
fn rolls_stay_within_faces() {
    for _ in 0..200 {
        let r = roll_dice("2d6+1");
        assert!((3..=13).contains(&r));
    }
}

#[test]
fn rollable_refuses_zero_sides_and_overflow() {
    assert!(!check_rollable(&parse_dice_expression("1d0")));
    assert!(check_rollable(&parse_dice_expression("0d0")));
    assert!(!check_rollable(&parse_dice_expression("9223372036854775807+1")));
    assert!(check_rollable(&parse_dice_expression("9223372036854775807")));
    assert!(check_rollable(&parse_dice_expression("2d20+5")));
}

#[test]
fn numbers_parse_like_std() {
    assert_eq!(parse_dice_expression("+7"), vec![DiceTerm::Flat { value: 0 }, DiceTerm::Flat { value: 7 }]);
    assert_eq!(parse_dice_expression("99999999999999999999"), vec![DiceTerm::Flat { value: 0 }]);
    assert_eq!(
        parse_dice_expression("-9223372036854775808"),
        vec![DiceTerm::Flat { value: i64::MIN }]
    );
}

#[test]
fn rollable_follows_running_total() {
    assert!(check_rollable(&parse_dice_expression("9223372036854775807+-1")));
    assert_eq!(roll_dice("9223372036854775807+-1"), 9223372036854775806);
    assert!(check_rollable(&parse_dice_expression("-9223372036854775808+1")));
    assert!(!check_rollable(&parse_dice_expression("-9223372036854775808+-1")));
    assert!(!check_rollable(&parse_dice_expression("1+9223372036854775807+-1")));
    assert!(!check_rollable(&parse_dice_expression("9223372036854775807d2")));
    assert!(check_rollable(&parse_dice_expression("4611686018427387903d2")));
    assert!(check_rollable(&parse_dice_expression("1d9223372036854775807")));
    assert!(!check_rollable(&parse_dice_expression("9223372036854775807+1d1")));
    assert!(check_rollable(&parse_dice_expression("9223372036854775806+1d1")));
}

#[test]
fn readme_roll_stays_in_range() {
    for _ in 0..200 {
        let r = roll_dice("2d20+5");
        assert!((7..=45).contains(&r));
    }
}

#[test]
fn rolls_with_given_draws() {
    let terms = parse_dice_expression("2d20+5");
    assert_eq!(roll_with_draws(&terms, &[0, 19]), 26);
    assert_eq!(roll_with_draws(&terms, &[20, 39]), 26);
    assert_eq!(roll_with_draws(&terms, &[4294967295, 4294967295]), 2 * (4294967295 % 20 + 1) + 5);
    let big = parse_dice_expression("1d5000000000");
    assert_eq!(roll_with_draws(&big, &[4294967295]), 4294967296);
    let negative = parse_dice_expression("3d-6+-2");
    assert_eq!(roll_with_draws(&negative, &[5, 6, 7]), 6 + 1 + 2 - 2);
    let flat = parse_dice_expression("0d7+4+1d2d3");
    assert_eq!(roll_with_draws(&flat, &[]), 4);
}

#[test]
fn roll_terms_takes_one_number_per_die() {
    let terms = parse_dice_expression("2d6+1d4+3");
    let numbers = [5u32, 0, 7, 99];
    let mut source = GivenDraws::new(&numbers);
    assert_eq!(roll_terms(&terms, &mut source), 6 + 1 + 4 + 3);
    let mut random = RandomDraws::new();
    for _ in 0..100 {
        let r = roll_terms(&terms, &mut random);
        assert!((6..=19).contains(&r));
    }
}
