use rstimer::asci::digit_type::DigitType;
use rstimer::asci::digits::get_digits;
use rstimer::num_parser::{get_time_length, time_rows, time_str};
use rstimer::solve_time::SolveTime;

#[test]
fn time_str_shows_three_decimals() {
    assert_eq!(time_str(&SolveTime::new(0, 12_000_000)), "0.012");
    assert_eq!(time_str(&SolveTime::new(1, 500_000_000)), "1.500");
    assert_eq!(time_str(&SolveTime::new(0, 0)), "0.000");
    assert_eq!(time_str(&SolveTime::new(75, 250_000_000)), "75.250");
}

#[test]
fn time_str_rounds_to_the_nearest_millisecond() {
    assert_eq!(time_str(&SolveTime::new(0, 999_999_500)), "1.000");
    assert_eq!(time_str(&SolveTime::new(0, 999_499_999)), "0.999");
    assert_eq!(time_str(&SolveTime::new(0, 500_000)), "0.001");
    assert_eq!(time_str(&SolveTime::new(0, 499_999)), "0.000");
}

#[test]
fn from_millis_builds_the_expected_duration() {
    let t = SolveTime::from_millis(12);
    assert_eq!(t, SolveTime::new(0, 12_000_000));
    let t = SolveTime::from_millis(2500);
    assert_eq!(t, SolveTime::new(2, 500_000_000));
}

#[test]
fn get_time_length_is_the_first_row_width() {
    let rows = vec!["abc".to_string(), "def".to_string()];
    assert_eq!(get_time_length(&rows), 3);
    let empty: Vec<String> = Vec::new();
    assert_eq!(get_time_length(&empty), 0);
}

#[test]
fn italic_digits_are_five_rows_of_nine() {
    for c in ['0', '5', '9'] {
        let rows = get_digits(&DigitType::Italic, c);
        assert_eq!(rows.len(), 5);
        for row in &rows {
            assert_eq!(row.chars().count(), 9);
        }
    }
    let dot = get_digits(&DigitType::Italic, '.');
    assert_eq!(dot.len(), 5);
    for row in &dot {
        assert_eq!(row.chars().count(), 5);
    }
}

#[test]
fn train_and_card_digits_are_six_rows_of_eight() {
    for font in [DigitType::Train, DigitType::Card] {
        for c in ['0', '3', '7', '.'] {
            let rows = get_digits(&font, c);
            assert_eq!(rows.len(), 6);
            for row in &rows {
                assert_eq!(row.chars().count(), 8);
            }
        }
    }
}

#[test]
fn time_rows_build_a_block_of_uniform_rows() {
    let rows = time_rows("1.500", &DigitType::Train);
    assert_eq!(rows.len(), 6);
    for row in &rows {
        assert_eq!(row.chars().count(), 5 * 8);
    }
    let rows = time_rows("0.012", &DigitType::Italic);
    assert_eq!(rows.len(), 5);
    for row in &rows {
        // Four digits at width nine plus the narrow decimal point.
        assert_eq!(row.chars().count(), 4 * 9 + 5);
    }
}

#[test]
fn time_rows_of_the_empty_text_are_empty_rows() {
    let rows = time_rows("", &DigitType::Card);
    assert_eq!(rows.len(), 6);
    for row in &rows {
        assert_eq!(row.chars().count(), 0);
    }
}
