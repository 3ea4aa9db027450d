use rhythm_core::score::{calc_score, Grade, Score};

#[test]
fn combo_score_breakpoints() {
    assert_eq!(calc_score(0), 100);
    assert_eq!(calc_score(1), 100);
    assert_eq!(calc_score(9), 100);
    assert_eq!(calc_score(10), 110);
    assert_eq!(calc_score(19), 110);
    assert_eq!(calc_score(20), 120);
    assert_eq!(calc_score(29), 120);
    assert_eq!(calc_score(30), 130);
    assert_eq!(calc_score(39), 130);
    assert_eq!(calc_score(40), 140);
    assert_eq!(calc_score(49), 140);
    assert_eq!(calc_score(50), 150);
    assert_eq!(calc_score(51), 150);
    assert_eq!(calc_score(1000), 150);
}

#[test]
fn combo_score_non_decreasing() {
    let mut last = 0;
    for c in 0..200 {
        let s = calc_score(c);
        assert!(s >= last);
        last = s;
    }
}

#[test]
fn grade_boundaries() {
    assert_eq!(Score::new(0, 0, 100).grade(), Grade::SSS);
    assert_eq!(Score::new(0, 0, 99).grade(), Grade::SS);
    assert_eq!(Score::new(0, 0, 95).grade(), Grade::SS);
    assert_eq!(Score::new(0, 0, 94).grade(), Grade::S);
    assert_eq!(Score::new(0, 0, 90).grade(), Grade::S);
    assert_eq!(Score::new(0, 0, 89).grade(), Grade::A);
    assert_eq!(Score::new(0, 0, 80).grade(), Grade::A);
    assert_eq!(Score::new(0, 0, 79).grade(), Grade::B);
    assert_eq!(Score::new(0, 0, 70).grade(), Grade::B);
    assert_eq!(Score::new(0, 0, 69).grade(), Grade::C);
    assert_eq!(Score::new(0, 0, 60).grade(), Grade::C);
    assert_eq!(Score::new(0, 0, 59).grade(), Grade::D);
    assert_eq!(Score::new(0, 0, 0).grade(), Grade::D);
}

#[test]
fn grade_names() {
    assert_eq!(Grade::SSS.to_str(), "SSS");
    assert_eq!(Grade::SS.to_str(), "SS");
    assert_eq!(Grade::S.to_str(), "S");
    assert_eq!(Grade::A.to_str(), "A");
    assert_eq!(Grade::B.to_str(), "B");
    assert_eq!(Grade::C.to_str(), "C");
    assert_eq!(Grade::D.to_str(), "D");
    assert_eq!(Grade::SSS.to_print_str(), "S");
    assert_eq!(Grade::SS.to_print_str(), "S");
    assert_eq!(Grade::S.to_print_str(), "S");
    assert_eq!(Grade::A.to_print_str(), "A");
    assert_eq!(Grade::D.to_print_str(), "D");
}

#[test]
fn score_getters() {
    let s = Score::new(1010, 10, 100);
    assert_eq!(s.score(), 1010);
    assert_eq!(s.max_combo(), 10);
    assert_eq!(s.accuracy(), 100);
}
