use chess_fields::color::{color_of_square, is_even, FieldColor};
use chess_fields::coordinate::{
    calculate_field_color, compose_field, generate_random_field, is_valid_field,
    parse_file_number, rank_position, RANKS,
};

#[test]
fn calc_e4_and_d4() {
    let e4 = calculate_field_color("e4".to_string());
    let d4 = calculate_field_color("d4".to_string());
    assert!(matches!(e4, FieldColor::Light));
    assert!(matches!(d4, FieldColor::Dark));
}

#[test]
fn calc_f4_and_c6() {
    let f4 = calculate_field_color("f4".to_string());
    let c6 = calculate_field_color("c6".to_string());
    assert!(matches!(c6, FieldColor::Light));
    assert!(matches!(f4, FieldColor::Dark));
}

#[test]
fn calc_a8_h8_a1_h1() {
    let a8 = calculate_field_color("a8".to_string());
    let h8 = calculate_field_color("h8".to_string());
    let a1 = calculate_field_color("a1".to_string());
    let h1 = calculate_field_color("h1".to_string());
    assert!(matches!(a8, FieldColor::Light));
    assert!(matches!(h8, FieldColor::Dark));
    assert!(matches!(a1, FieldColor::Dark));
    assert!(matches!(h1, FieldColor::Light));
}

#[test]
fn every_square_is_light_iff_index_plus_file_is_even() {
    for (index, letter) in RANKS.iter().enumerate() {
        for file in 1..=8usize {
            let name = format!("{}{}", letter, file);
            let expected = if (index + file) % 2 == 0 {
                FieldColor::Light
            } else {
                FieldColor::Dark
            };
            assert_eq!(calculate_field_color(name.clone()), expected, "{}", name);
            assert_eq!(color_of_square(index, file as i32), expected, "{}", name);
        }
    }
}

#[test]
fn a_board_has_as_many_light_squares_as_dark() {
    let mut light = 0;
    let mut dark = 0;
    for index in 0..8usize {
        for file in 1..=8i32 {
            match color_of_square(index, file) {
                FieldColor::Light => light += 1,
                FieldColor::Dark => dark += 1,
            }
        }
    }
    assert_eq!(light, 32);
    assert_eq!(dark, 32);
}

#[test]
fn neighbours_differ_in_colour() {
    for index in 0..7usize {
        for file in 1..=7i32 {
            let here = color_of_square(index, file);
            assert_ne!(here, color_of_square(index + 1, file));
            assert_ne!(here, color_of_square(index, file + 1));
            assert_eq!(here, color_of_square(index + 1, file + 1));
        }
    }
}

#[test]
fn is_even_on_both_sides_of_zero() {
    assert!(is_even(0));
    assert!(is_even(2));
    assert!(is_even(-4));
    assert!(!is_even(1));
    assert!(!is_even(-3));
    assert!(!is_even(i32::MAX));
    assert!(is_even(i32::MIN));
}

#[test]
fn rank_position_follows_the_alphabet() {
    assert_eq!(rank_position('a'), Some(0));
    assert_eq!(rank_position('d'), Some(3));
    assert_eq!(rank_position('h'), Some(7));
    assert_eq!(rank_position('i'), None);
    assert_eq!(rank_position('A'), None);
    assert_eq!(rank_position('4'), None);
    assert_eq!(rank_position('`'), None);
}

fn file_of(text: &str) -> Option<i32> {
    let chars: Vec<char> = text.chars().collect();
    parse_file_number(&chars, 0)
}

#[test]
fn file_numbers_are_read_in_base_ten() {
    assert_eq!(file_of("4"), Some(4));
    assert_eq!(file_of("8"), Some(8));
    assert_eq!(file_of("0"), Some(0));
    assert_eq!(file_of("12"), Some(12));
    assert_eq!(file_of("007"), Some(7));
    assert_eq!(file_of("1234567"), Some(1234567));
}

#[test]
fn file_numbers_may_carry_a_sign() {
    assert_eq!(file_of("+4"), Some(4));
    assert_eq!(file_of("-3"), Some(-3));
    assert_eq!(file_of("-0"), Some(0));
    assert_eq!(file_of("+"), None);
    assert_eq!(file_of("-"), None);
    assert_eq!(file_of("+-4"), None);
    assert_eq!(file_of("--4"), None);
    assert_eq!(file_of("4-"), None);
}

#[test]
fn file_numbers_stay_within_i32() {
    assert_eq!(file_of("2147483647"), Some(i32::MAX));
    assert_eq!(file_of("+2147483647"), Some(i32::MAX));
    assert_eq!(file_of("-2147483648"), Some(i32::MIN));
    assert_eq!(file_of("2147483648"), None);
    assert_eq!(file_of("-2147483649"), None);
    assert_eq!(file_of("99999999999999999999999999"), None);
    assert_eq!(file_of("000000000000000000000000002147483647"), Some(i32::MAX));
}

#[test]
fn file_numbers_hold_digits_only() {
    assert_eq!(file_of(""), None);
    assert_eq!(file_of(" 4"), None);
    assert_eq!(file_of("4 "), None);
    assert_eq!(file_of("4x"), None);
    assert_eq!(file_of("x"), None);
    assert_eq!(file_of("4.0"), None);
    assert_eq!(file_of("\u{664}"), None);
    assert_eq!(file_of("99999999999999999999999999x"), None);
}

#[test]
fn file_numbers_agree_with_the_standard_parser() {
    let texts = [
        "", "+", "-", "0", "-0", "+0", "4", "+4", "-4", "08", "4x", "x4", "++4", " 4",
        "2147483647", "2147483648", "-2147483648", "-2147483649", "1_0", "١",
    ];
    for text in texts {
        assert_eq!(file_of(text), text.parse::<i32>().ok(), "{:?}", text);
    }
}

#[test]
fn file_numbers_start_where_asked() {
    let chars: Vec<char> = "e42".chars().collect();
    assert_eq!(parse_file_number(&chars, 0), None);
    assert_eq!(parse_file_number(&chars, 1), Some(42));
    assert_eq!(parse_file_number(&chars, 2), Some(2));
    assert_eq!(parse_file_number(&chars, 3), None);
}

#[test]
fn valid_fields_are_a_rank_letter_and_a_file_number() {
    assert!(is_valid_field("e4"));
    assert!(is_valid_field("a1"));
    assert!(is_valid_field("h8"));
    assert!(is_valid_field("a10"));
    assert!(is_valid_field("c-3"));
    assert!(is_valid_field("c+3"));
    assert!(!is_valid_field(""));
    assert!(!is_valid_field("e"));
    assert!(!is_valid_field("4"));
    assert!(!is_valid_field("4e"));
    assert!(!is_valid_field("i4"));
    assert!(!is_valid_field("E4"));
    assert!(!is_valid_field(" e4"));
    assert!(!is_valid_field("e4 "));
    assert!(!is_valid_field("e 4"));
    assert!(!is_valid_field("\u{e9}4"));
    assert!(!is_valid_field("e99999999999"));
}

#[test]
fn colour_goes_by_the_whole_file_number() {
    assert_eq!(calculate_field_color("a10".to_string()), FieldColor::Light);
    assert_eq!(calculate_field_color("a11".to_string()), FieldColor::Dark);
    assert_eq!(calculate_field_color("b10".to_string()), FieldColor::Dark);
    assert_eq!(calculate_field_color("a-3".to_string()), FieldColor::Dark);
    assert_eq!(calculate_field_color("b-3".to_string()), FieldColor::Light);
    assert_eq!(calculate_field_color("a+4".to_string()), FieldColor::Light);
    assert_eq!(calculate_field_color("a0".to_string()), FieldColor::Light);
    assert_eq!(calculate_field_color("h2147483647".to_string()), FieldColor::Light);
    assert_eq!(calculate_field_color("h-2147483648".to_string()), FieldColor::Dark);
}

#[test]
fn composed_fields_read_back() {
    assert_eq!(compose_field(0, 1), "a1");
    assert_eq!(compose_field(4, 4), "e4");
    assert_eq!(compose_field(7, 8), "h8");
    for rank in 0..8usize {
        for file in 1..=8usize {
            let field = compose_field(rank, file);
            assert!(is_valid_field(&field));
            let chars: Vec<char> = field.chars().collect();
            assert_eq!(chars.len(), 2);
            assert_eq!(rank_position(chars[0]), Some(rank));
            assert_eq!(parse_file_number(&chars, 1), Some(file as i32));
        }
    }
}

#[test]
fn generated_fields_are_valid_squares() {
    for _ in 0..2000 {
        let field = generate_random_field();
        assert!(is_valid_field(&field), "{}", field);
        let chars: Vec<char> = field.chars().collect();
        assert_eq!(chars.len(), 2);
        let rank = rank_position(chars[0]).unwrap();
        let file = parse_file_number(&chars, 1).unwrap();
        assert!((1..=7).contains(&rank), "{}", field);
        assert!((1..=7).contains(&file), "{}", field);
        let colour = calculate_field_color(field);
        assert_eq!(colour, color_of_square(rank, file));
    }
}

#[test]
fn generated_fields_vary() {
    let first = generate_random_field();
    let mut ranks = [false; 8];
    let mut files = [false; 9];
    let mut other = false;
    for _ in 0..5000 {
        let field = generate_random_field();
        if field != first {
            other = true;
        }
        let chars: Vec<char> = field.chars().collect();
        ranks[rank_position(chars[0]).unwrap()] = true;
        files[parse_file_number(&chars, 1).unwrap() as usize] = true;
    }
    assert!(other);
    assert_eq!(ranks, [false, true, true, true, true, true, true, true]);
    assert_eq!(files, [false, true, true, true, true, true, true, true, false]);
}
