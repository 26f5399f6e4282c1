use colemak_bigrams::Bigram;
use colemak_bigrams::KeyboardSide;

fn colemak_right() -> KeyboardSide {
    KeyboardSide { outer: ['j', 'm', 'k'], inner: ['l', 'n', 'h'] }
}

fn colemak_left() -> KeyboardSide {
    KeyboardSide { outer: ['b', 'g', 'v'], inner: ['d', 't', 'p'] }
}

#[test]
fn short_words_yield_no_match() {
    let side = colemak_right();
    assert!(side.check_bigram("").is_none());
    assert!(side.check_bigram("j").is_none());
    assert!(side.check_bigram("l").is_none());
}

#[test]
fn word_outside_both_columns_yields_no_match() {
    let side = colemak_right();
    assert!(side.check_bigram("abc").is_none());
    assert!(side.check_bigram("ewqroiu").is_none());
}

#[test]
fn jln_matches_at_zero_with_strength_one() {
    let side = colemak_right();
    let m = side.check_bigram("jln").unwrap();
    assert_eq!(m.position, 0);
    assert_eq!(m.pair, Bigram::new('j', 'l'));
    assert_eq!(m.prefix, "");
    assert_eq!(m.suffix, "n");
    assert_eq!(side.strength(Bigram::new('j', 'l')), 1);
}

#[test]
fn pair_within_one_column_is_not_crossing() {
    let side = colemak_right();
    assert!(side.check_bigram("jm").is_none());
    assert!(side.check_bigram("ln").is_none());
}

#[test]
fn hj_crosses_with_strength_zero() {
    let side = colemak_right();
    let m = side.check_bigram("hj").unwrap();
    assert_eq!(m.position, 0);
    assert_eq!(m.pair, Bigram::new('h', 'j'));
    assert_eq!(side.strength(Bigram::new('h', 'j')), 0);
}

#[test]
fn leftmost_crossing_wins() {
    let side = colemak_right();
    let m = side.check_bigram("jlhk").unwrap();
    assert_eq!(m.position, 0);
    assert_eq!(m.pair, Bigram::new('j', 'l'));
    assert_eq!(m.prefix, "");
    assert_eq!(m.suffix, "hk");
}

#[test]
fn repeated_scans_agree() {
    let side = colemak_right();
    let a = side.check_bigram("jlhk").unwrap();
    let b = side.check_bigram("jlhk").unwrap();
    assert_eq!(a.position, b.position);
    assert_eq!(a.pair, b.pair);
    assert_eq!(a.prefix, b.prefix);
    assert_eq!(a.suffix, b.suffix);
}

#[test]
fn match_in_the_middle_splits_the_word() {
    let side = colemak_right();
    let m = side.check_bigram("ajlno").unwrap();
    assert_eq!(m.position, 1);
    assert_eq!(m.pair, Bigram::new('j', 'l'));
    assert_eq!(m.prefix, "a");
    assert_eq!(m.suffix, "no");
}

#[test]
fn prefix_pair_suffix_spell_the_word() {
    let side = colemak_right();
    let word = "oakhxy";
    let m = side.check_bigram(word).unwrap();
    let rebuilt = format!("{}{}{}{}", m.prefix, m.pair.first, m.pair.second, m.suffix);
    assert_eq!(rebuilt, word);
}

#[test]
fn last_character_never_crosses_with_the_word_end() {
    let side = colemak_right();
    assert!(side.check_bigram("al").is_none());
    assert!(side.check_bigram("aaj").is_none());
}

#[test]
fn strength_rewards_matching_rows_only() {
    let side = colemak_right();
    assert_eq!(side.strength(Bigram::new('m', 'n')), 1);
    assert_eq!(side.strength(Bigram::new('k', 'h')), 1);
    assert_eq!(side.strength(Bigram::new('l', 'j')), 1);
    assert_eq!(side.strength(Bigram::new('j', 'n')), 0);
    assert_eq!(side.strength(Bigram::new('j', 'm')), 0);
    assert_eq!(side.strength(Bigram::new('a', 'b')), 0);
}

#[test]
fn left_side_classifies_with_its_own_columns() {
    let side = colemak_left();
    let m = side.check_bigram("bd").unwrap();
    assert_eq!(m.position, 0);
    assert_eq!(m.pair, Bigram::new('b', 'd'));
    assert_eq!(side.strength(Bigram::new('b', 'd')), 1);
    assert!(side.check_bigram("jln").is_none());
}

#[test]
fn bigram_constructors_take_the_first_two_characters() {
    let b = Bigram::new('x', 'y');
    assert_eq!(b.first, 'x');
    assert_eq!(b.second, 'y');
    let c = Bigram::from_string("jln");
    assert_eq!(c, Bigram::new('j', 'l'));
}

#[test]
fn word_report_pairs_the_match_with_its_score() {
    let side = colemak_right();
    let (m, strength) = side.word_report("jln").unwrap();
    assert_eq!(strength, 1);
    assert_eq!(m.position, 0);
    assert_eq!(m.pair, Bigram::new('j', 'l'));
}

#[test]
fn word_report_skips_weak_leading_bigrams() {
    let side = colemak_right();
    // "hj" crosses, but its leading bigram scores 0, so no report is made.
    assert!(side.word_report("hjx").is_none());
    assert!(side.word_report("hj").is_none());
}

#[test]
fn word_report_skips_short_and_plain_words() {
    let side = colemak_right();
    assert!(side.word_report("").is_none());
    assert!(side.word_report("j").is_none());
    assert!(side.word_report("abc").is_none());
}
