use std::collections::HashSet;
use url_shortener::{generate_short_code, short_code_from};

#[test]
fn test_generate_unique_codes() {
    let mut codes = HashSet::new();
    for _ in 0..1000 {
        let code = generate_short_code();
        assert!(!codes.contains(&code), "Generated duplicate code");
        codes.insert(code);
    }
}

#[test]
fn generated_code_has_seven_alphanumerics_then_three_digits() {
    for _ in 0..50 {
        let code = generate_short_code();
        let chars: Vec<char> = code.chars().collect();
        assert_eq!(chars.len(), 10);
        assert!(chars[..7].iter().all(|c| c.is_ascii_alphanumeric()));
        assert!(chars[7..].iter().all(|c| c.is_ascii_digit()));
    }
}

#[test]
fn code_from_picks_and_clock() {
    let picks = vec![0, 25, 26, 51, 52, 61, 1];
    assert_eq!(short_code_from(&picks, 1234), "azAZ09b234");
    assert_eq!(short_code_from(&picks, 7), "azAZ09b007");
    assert_eq!(short_code_from(&picks, 1_700_000_000_050), "azAZ09b050");
}

#[test]
fn code_from_clock_before_epoch_stays_in_range() {
    let picks = vec![2, 2, 2, 2, 2, 2, 2];
    assert_eq!(short_code_from(&picks, -1), "ccccccc999");
}
