use lsystem_plant::lsystem::{GrammarError, LSystem};
use lsystem_plant::plant::Plant;
use lsystem_plant::rewrite::{choose_rule, rewrite};
use lsystem_plant::rule::{copy_symbols, symbols_of, Rule, RuleError, PROBABILITY_ONE};
use rand::rngs::StdRng;
use rand::SeedableRng;

fn chars(text: &str) -> Vec<char> {
    text.chars().collect()
}

fn text(symbols: &[char]) -> String {
    symbols.iter().collect()
}

// 0.33 in units of 2^-24, rounded up.
const THIRD: i64 = 5_536_482;

fn flower_rules() -> Vec<Rule> {
    vec![
        Rule::new('P', "N+[P+O]--//[--L]N[++L]-[PO]++PO").unwrap(),
        Rule::new('N', "FS[//&&L][//^^L]FS").unwrap(),
        Rule::with_probability('S', "S[//&&L][//^^L]FS", THIRD).unwrap(),
        Rule::with_probability('S', "SFS", THIRD).unwrap(),
        Rule::with_probability('S', "S", THIRD).unwrap(),
    ]
}

#[test]
fn symbols_of_keeps_every_symbol_in_order() {
    assert_eq!(symbols_of("F+[f]"), vec!['F', '+', '[', 'f', ']']);
    assert_eq!(symbols_of(""), Vec::<char>::new());
    assert_eq!(symbols_of("a\u{e9}\u{1F33F}b"), vec!['a', '\u{e9}', '\u{1F33F}', 'b']);
}

#[test]
fn copy_symbols_gives_an_equal_vector() {
    let v = chars("F-[[X]+X]");
    assert_eq!(copy_symbols(&v), v);
    assert_eq!(copy_symbols(&Vec::new()), Vec::<char>::new());
}

#[test]
fn rule_new_has_probability_one() {
    let rule = Rule::new('F', "F+F").unwrap();
    assert_eq!(rule.predecessor, 'F');
    assert_eq!(rule.successor, chars("F+F"));
    assert_eq!(rule.probability, PROBABILITY_ONE);
    assert_eq!(PROBABILITY_ONE, 1 << 24);
}

#[test]
fn rule_with_probability_keeps_its_arguments() {
    let rule = Rule::with_probability('S', "SFS", THIRD).unwrap();
    assert_eq!(rule.predecessor, 'S');
    assert_eq!(rule.successor, chars("SFS"));
    assert_eq!(rule.probability, THIRD);
    assert!(Rule::with_probability('S', "S", 0).is_ok());
    assert!(Rule::with_probability('S', "S", PROBABILITY_ONE).is_ok());
}

#[test]
fn empty_replacement_is_refused() {
    assert_eq!(Rule::new('X', "").unwrap_err(), RuleError::EmptyReplacement);
    assert_eq!(
        Rule::with_probability('X', "", -1).unwrap_err(),
        RuleError::EmptyReplacement
    );
}

#[test]
fn negative_probability_is_refused() {
    assert_eq!(
        Rule::with_probability('X', "F", -1).unwrap_err(),
        RuleError::ProbabilityOutOfRange
    );
    assert_eq!(
        Rule::with_probability('X', "F", i64::MIN).unwrap_err(),
        RuleError::ProbabilityOutOfRange
    );
}

#[test]
fn probability_above_one_is_refused() {
    assert_eq!(
        Rule::with_probability('X', "F", PROBABILITY_ONE + 1).unwrap_err(),
        RuleError::ProbabilityOutOfRange
    );
}

#[test]
fn check_reports_an_edited_rule() {
    let mut rule = Rule::new('F', "FF").unwrap();
    assert_eq!(rule.check(), Ok(()));
    rule.probability = -5;
    assert_eq!(rule.check(), Err(RuleError::ProbabilityOutOfRange));
    rule.successor.clear();
    assert_eq!(rule.check(), Err(RuleError::EmptyReplacement));
}

#[test]
fn grammar_names_its_first_bad_rule() {
    let good = Rule::new('F', "FF").unwrap();
    let mut negative = Rule::new('X', "F").unwrap();
    negative.probability = -1;
    let mut empty = Rule::new('Y', "F").unwrap();
    empty.successor.clear();
    let made = LSystem::new("F", vec![good.clone(), negative, empty], 90_000);
    assert_eq!(
        made.unwrap_err(),
        GrammarError { rule: 1, cause: RuleError::ProbabilityOutOfRange }
    );
    let mut grammar = LSystem::new("F", vec![good.clone(), good], 90_000).unwrap();
    assert_eq!(grammar.validate(), Ok(()));
    grammar.rules[1].successor.clear();
    assert_eq!(
        grammar.validate(),
        Err(GrammarError { rule: 1, cause: RuleError::EmptyReplacement })
    );
}

#[test]
fn grammar_keeps_its_parts() {
    let grammar = LSystem::new("F+F", vec![Rule::new('F', "FF").unwrap()], 22_500).unwrap();
    assert_eq!(grammar.initiator, chars("F+F"));
    assert_eq!(grammar.rules.len(), 1);
    assert_eq!(grammar.rules[0].successor, chars("FF"));
    assert_eq!(grammar.angle, 22_500);
    let no_rules = LSystem::new("", Vec::new(), 0).unwrap();
    assert!(no_rules.initiator.is_empty());
}

#[test]
fn a_draw_is_the_upper_24_bits_of_the_word() {
    let mut rule = Rule::new('F', "F").unwrap();
    rule.probability = 1;
    assert!(rule.fires(0));
    assert!(rule.fires(255));
    assert!(!rule.fires(256));
    rule.probability = THIRD;
    assert!(rule.fires(((THIRD as u32) - 1) << 8));
    assert!(!rule.fires((THIRD as u32) << 8));
}

#[test]
fn probability_one_fires_on_every_word() {
    let rule = Rule::new('F', "F").unwrap();
    assert!(rule.fires(0));
    assert!(rule.fires(u32::MAX));
    assert!(rule.fires(0x8000_0000));
}

#[test]
fn probability_zero_fires_on_no_word() {
    let rule = Rule::with_probability('F', "F", 0).unwrap();
    assert!(!rule.fires(0));
    assert!(!rule.fires(u32::MAX));
}

#[test]
fn scenario_koch_square_one_pass() {
    let grammar = LSystem::new("F+F+F+F", vec![Rule::new('F', "F+F-F-F+F").unwrap()], 90_000).unwrap();
    let mut plant = Plant::new(grammar, 5_000, 5, 1_000);
    plant.step();
    assert_eq!(
        text(&plant.current_string),
        "F+F-F-F+F+F+F-F-F+F+F+F-F-F+F+F+F-F-F+F"
    );
    assert_eq!(plant.current_string.len(), 4 * 9 + 3);
    assert_eq!(plant.iteration, 1);
}

#[test]
fn scenario_rule_of_probability_zero_never_fires() {
    let rules = vec![Rule::with_probability('X', "FFF", 0).unwrap()];
    let mut rng = StdRng::seed_from_u64(11);
    for input in ["X", "XX", "aXbXc", "FX+X-"] {
        for _ in 0..50 {
            assert_eq!(rewrite(&chars(input), &rules, &mut rng), chars(input));
        }
    }
}

#[test]
fn rewrite_length_is_the_sum_of_replacement_lengths() {
    let rules = vec![
        Rule::new('A', "AB").unwrap(),
        Rule::new('B', "A").unwrap(),
        Rule::new('C', "CCCC").unwrap(),
    ];
    let mut rng = StdRng::seed_from_u64(3);
    // A -> 2, B -> 1, C -> 4, x -> 1 (unmatched)
    let out = rewrite(&chars("ABCxA"), &rules, &mut rng);
    assert_eq!(out.len(), 2 + 1 + 4 + 1 + 2);
    assert_eq!(text(&out), "ABACCCCxAB");
    let again = rewrite(&chars("ABCxA"), &rules, &mut StdRng::seed_from_u64(4));
    assert_eq!(again, out);
    let mut plant = Plant::new(LSystem::new("ABCxA", rules, 0).unwrap(), 1, 1, 1);
    plant.step();
    assert_eq!(plant.current_string, out);
}

#[test]
fn symbols_without_a_rule_are_copied_in_every_generation() {
    let grammar = LSystem::new("+-[]xyz", vec![Rule::new('F', "FF").unwrap()], 90_000).unwrap();
    let mut plant = Plant::new(grammar, 1_000, 6, 1_000);
    for generation in 1..=6 {
        plant.step();
        assert_eq!(text(&plant.current_string), "+-[]xyz");
        assert_eq!(plant.iteration, generation);
    }
}

#[test]
fn rewrite_of_the_empty_string_is_empty() {
    let rules = vec![Rule::new('F', "FF").unwrap()];
    let mut rng = StdRng::seed_from_u64(0);
    assert!(rewrite(&Vec::new(), &rules, &mut rng).is_empty());
    assert_eq!(rewrite(&chars("F"), &Vec::new(), &mut rng), chars("F"));
}

#[test]
fn the_first_certain_candidate_wins() {
    let rules = vec![
        Rule::with_probability('F', "a", 0).unwrap(),
        Rule::new('F', "b").unwrap(),
        Rule::new('F', "c").unwrap(),
    ];
    let mut rng = StdRng::seed_from_u64(5);
    for _ in 0..50 {
        assert_eq!(choose_rule(&rules, 'F', &mut rng), Some(1));
        assert_eq!(choose_rule(&rules, 'G', &mut rng), None);
    }
    assert_eq!(text(&rewrite(&chars("FGF"), &rules, &mut rng)), "bGb");
}

#[test]
fn a_stochastic_symbol_becomes_one_of_its_productions() {
    let rules = flower_rules();
    let mut rng = StdRng::seed_from_u64(2024);
    let mut seen = [0usize; 4];
    for _ in 0..400 {
        let out = text(&rewrite(&chars("S"), &rules, &mut rng));
        match out.as_str() {
            "S[//&&L][//^^L]FS" => seen[0] += 1,
            "SFS" => seen[1] += 1,
            "S" => seen[2] += 1,
            other => panic!("not a production of S: {}", other),
        }
        match choose_rule(&rules, 'S', &mut rng) {
            Some(i) => assert!((2..=4).contains(&i)),
            None => seen[3] += 1,
        }
    }
    assert!(seen[0] > 0 && seen[1] > 0 && seen[2] > 0 && seen[3] > 0);
}

#[test]
fn equal_seeds_give_equal_generations() {
    let rules = flower_rules();
    let input = chars("PNSSSSLSNSPSS");
    let first = rewrite(&input, &rules, &mut StdRng::seed_from_u64(77));
    let second = rewrite(&input, &rules, &mut StdRng::seed_from_u64(77));
    assert_eq!(first, second);
    let mut a = Plant::new(LSystem::new("P", flower_rules(), 18_000).unwrap(), 5_000, 4, 1_000);
    let mut b = a.clone();
    let mut rng_a = StdRng::seed_from_u64(9);
    let mut rng_b = StdRng::seed_from_u64(9);
    for _ in 0..4 {
        a.step_with(&mut rng_a);
        b.step_with(&mut rng_b);
        assert_eq!(a.current_string, b.current_string);
    }
}

#[test]
fn a_new_plant_stands_at_its_initiator() {
    let grammar = LSystem::new("X", vec![Rule::new('X', "F[X]").unwrap()], 22_500).unwrap();
    let plant = Plant::new(grammar, 10_000, 7, 5_000);
    assert_eq!(plant.current_string, chars("X"));
    assert_eq!(plant.iteration, 0);
    assert_eq!(plant.max_iterations, 7);
    assert_eq!(plant.step_size, 10_000);
    assert_eq!(plant.thickness, 5_000);
    assert_eq!(plant.lsystem.angle, 22_500);
    assert!(!plant.finished());
}

#[test]
fn a_plant_grows_until_its_limit_and_no_further() {
    let grammar = LSystem::new("X", vec![Rule::new('X', "F[X]").unwrap()], 22_500).unwrap();
    let mut plant = Plant::new(grammar, 10_000, 2, 5_000);
    plant.step();
    assert_eq!(text(&plant.current_string), "F[X]");
    assert!(!plant.finished());
    plant.step();
    assert_eq!(text(&plant.current_string), "F[F[X]]");
    assert_eq!(plant.iteration, 2);
    assert!(plant.finished());
    plant.step();
    plant.step_with(&mut StdRng::seed_from_u64(1));
    assert_eq!(text(&plant.current_string), "F[F[X]]");
    assert_eq!(plant.iteration, 2);
}

#[test]
fn a_plant_with_limit_zero_is_finished_at_once() {
    let grammar = LSystem::new("F", vec![Rule::new('F', "FF").unwrap()], 0).unwrap();
    let mut plant = Plant::new(grammar, 1, 0, 1);
    assert!(plant.finished());
    plant.step();
    assert_eq!(plant.current_string, chars("F"));
    assert_eq!(plant.iteration, 0);
}

#[test]
fn reset_returns_to_the_initiator() {
    let grammar = LSystem::new("F", vec![Rule::new('F', "F+F").unwrap()], 60_000).unwrap();
    let mut plant = Plant::new(grammar, 3_000, 3, 2_000);
    plant.step();
    plant.step();
    plant.step();
    assert!(plant.finished());
    assert_eq!(text(&plant.current_string), "F+F+F+F+F+F+F+F");
    plant.reset();
    assert_eq!(plant.current_string, chars("F"));
    assert_eq!(plant.iteration, 0);
    assert_eq!(plant.max_iterations, 3);
    assert_eq!(plant.step_size, 3_000);
    assert_eq!(plant.thickness, 2_000);
    assert!(!plant.finished());
    plant.step();
    assert_eq!(text(&plant.current_string), "F+F");
}

#[test]
fn rewriting_two_strings_joined_is_joining_their_rewrites() {
    let rules = vec![
        Rule::new('X', "F-[[X]+X]+F[+FX]-X").unwrap(),
        Rule::new('F', "FF").unwrap(),
    ];
    let mut rng = StdRng::seed_from_u64(8);
    let left = chars("F[X]");
    let right = chars("-XF");
    let mut joined = left.clone();
    joined.extend(right.iter());
    let mut expected = rewrite(&left, &rules, &mut rng);
    expected.extend(rewrite(&right, &rules, &mut rng));
    assert_eq!(rewrite(&joined, &rules, &mut rng), expected);
    assert_eq!(text(&expected), "FF[F-[[X]+X]+F[+FX]-X]-F-[[X]+X]+F[+FX]-XFF");
}

#[test]
fn a_candidate_that_cannot_fail_hides_the_rules_after_it() {
    let rules = vec![
        Rule::with_probability('S', "a", THIRD).unwrap(),
        Rule::new('S', "b").unwrap(),
        Rule::new('S', "c").unwrap(),
    ];
    let mut rng = StdRng::seed_from_u64(21);
    let mut seen = [0usize; 2];
    for _ in 0..300 {
        match choose_rule(&rules, 'S', &mut rng) {
            Some(0) => seen[0] += 1,
            Some(1) => seen[1] += 1,
            other => panic!("not an admissible choice: {:?}", other),
        }
    }
    assert!(seen[0] > 0 && seen[1] > 0);
}
