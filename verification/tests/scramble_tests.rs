use rstimer::scramble::{get_scramble, Scramble};

fn tokens(s: &str) -> Vec<String> {
    s.split_whitespace().map(|t| t.to_string()).collect()
}

fn face_of(token: &str) -> char {
    token.chars().next().unwrap()
}

#[test]
fn empty_until_first_generate() {
    let sc = Scramble::new("3x3x3");
    assert_eq!(sc.get(), "");
}

#[test]
fn scramble_length_2x2x2() {
    let mut sc = Scramble::new("2x2x2");
    sc.generate();
    assert_eq!(tokens(sc.get()).len(), 9);
}

#[test]
fn scramble_length_3x3x3() {
    let mut sc = Scramble::new("3x3x3");
    sc.generate();
    assert_eq!(tokens(sc.get()).len(), 21);
}

#[test]
fn scramble_length_4x4x4() {
    let mut sc = Scramble::new("4x4x4");
    sc.generate();
    assert_eq!(tokens(sc.get()).len(), 43);
}

#[test]
fn unknown_family_yields_empty_scramble() {
    let mut sc = Scramble::new("5x5x5");
    sc.generate();
    assert_eq!(sc.get(), "");
}

#[test]
fn no_consecutive_tokens_share_a_face() {
    for family in ["2x2x2", "3x3x3", "4x4x4"] {
        let mut sc = Scramble::new(family);
        for _ in 0..50 {
            sc.generate();
            let toks = tokens(sc.get());
            for pair in toks.windows(2) {
                assert_ne!(
                    face_of(&pair[0]),
                    face_of(&pair[1]),
                    "consecutive tokens {} {} share a face in {}",
                    pair[0],
                    pair[1],
                    sc.get()
                );
            }
        }
    }
}

#[test]
fn tokens_come_from_the_family_groups() {
    let mut sc = Scramble::new("3x3x3");
    sc.generate();
    let legal = [
        "R", "R'", "R2", "L", "L'", "L2", "U", "U'", "U2", "D", "D'", "D2", "F", "F'", "F2", "B",
        "B'", "B2",
    ];
    for t in tokens(sc.get()) {
        assert!(legal.contains(&t.as_str()), "illegal token {}", t);
    }
}

#[test]
fn wide_tokens_appear_only_on_4x4x4_groups() {
    let mut sc = Scramble::new("4x4x4");
    sc.generate();
    for t in tokens(sc.get()) {
        assert!(t.starts_with(['R', 'L', 'U', 'D', 'F', 'B']));
    }
}

#[test]
fn get_scramble_matches_new() {
    let sc = get_scramble("2x2x2");
    assert_eq!(sc.get(), "");
}

#[test]
fn custom_scramble_generates_requested_length() {
    let moves = vec![
        vec!["A".to_string(), "A'".to_string()],
        vec!["B".to_string(), "B'".to_string()],
    ];
    let mut sc = Scramble::custom(5, moves);
    sc.generate();
    assert_eq!(tokens(sc.get()).len(), 5);
}
