use rstimer::asci::digit_type::DigitType;
use rstimer::config::Config;

#[test]
fn default_font_is_italic() {
    let c = Config::default();
    assert_eq!(c.font, DigitType::Italic);
}

#[test]
fn fonts_cycle_forward_and_backward() {
    assert_eq!(DigitType::Italic.next(), DigitType::Train);
    assert_eq!(DigitType::Train.next(), DigitType::Card);
    assert_eq!(DigitType::Card.next(), DigitType::Italic);
    assert_eq!(DigitType::Italic.prev(), DigitType::Card);
    assert_eq!(DigitType::Train.prev(), DigitType::Italic);
    assert_eq!(DigitType::Card.prev(), DigitType::Train);
}

#[test]
fn config_round_trips_for_every_font() {
    for font in [DigitType::Italic, DigitType::Train, DigitType::Card] {
        let mut c = Config::default();
        c.set_font(font);
        let text = c.to_json();
        let back = Config::from_json(&text).expect("own output must parse");
        assert_eq!(back.font, font);
    }
}

#[test]
fn emitted_config_has_the_expected_shape() {
    let mut c = Config::default();
    c.set_font(DigitType::Train);
    assert_eq!(c.to_json(), "{\n  \"font\": \"Train\"\n}");
}

#[test]
fn malformed_config_yields_none() {
    assert!(Config::from_json("").is_none());
    assert!(Config::from_json("{}").is_none());
    assert!(Config::from_json("{\"font\": \"Bold\"}").is_none());
    assert!(Config::from_json("{\"font\": 3}").is_none());
}

#[test]
fn set_font_changes_the_font() {
    let mut c = Config::default();
    c.set_font(DigitType::Card);
    assert_eq!(c.font, DigitType::Card);
}
