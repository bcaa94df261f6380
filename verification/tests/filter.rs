use media_tags::evaluate::{atoms_are_usable, evaluate, is_well_formed, try_evaluate};
use media_tags::filter::{compile, parse, try_parse, Token};
use media_tags::Tag;
use std::collections::VecDeque;

fn atom(text: &str) -> Token {
    Token::Atom(text.to_string())
}

fn tags(texts: &[&str]) -> Vec<Tag> {
    texts.iter().map(|text| Tag::new(text.to_string())).collect()
}

fn run(expression: &str, texts: &[&str]) -> bool {
    let program = parse(expression.to_string()).unwrap();
    evaluate(&program, Some(&tags(texts)))
}

#[test]
fn test_parse() {
    println!("{:?}", parse("car and (cat or tree)".to_string()));
}

#[test]
fn parse_orders_a_grouped_expression() {
    assert_eq!(
        parse("car and (cat or tree)".to_string()),
        Some(vec![atom("car"), atom("cat"), atom("tree"), Token::Or, Token::And])
    );
}

#[test]
fn into_recognises_operators_in_any_case() {
    assert_eq!(Token::into("AND"), Token::And);
    assert_eq!(Token::into("and"), Token::And);
    assert_eq!(Token::into("&"), Token::And);
    assert_eq!(Token::into("OR"), Token::Or);
    assert_eq!(Token::into("Or"), Token::Or);
    assert_eq!(Token::into("|"), Token::Or);
    assert_eq!(Token::into("NOT"), Token::Not);
    assert_eq!(Token::into("not"), Token::Not);
    assert_eq!(Token::into("!"), Token::Not);
    assert_eq!(Token::into("xor"), Token::Xor);
    assert_eq!(Token::into("nAnD"), Token::Nand);
    assert_eq!(Token::into("XNOR"), Token::Xnor);
    assert_eq!(Token::into("("), Token::GroupOpen);
    assert_eq!(Token::into(")"), Token::GroupClose);
}

#[test]
fn into_keeps_the_case_of_an_atom() {
    assert_eq!(Token::into("Tree"), atom("Tree"));
    assert_eq!(Token::into("ANDY"), atom("ANDY"));
    assert_eq!(Token::into(""), atom(""));
}

#[test]
fn classify_goes_by_the_upper_case_form_it_is_given() {
    assert_eq!(Token::classify("AND", "and"), Token::And);
    assert_eq!(Token::classify("and", "and"), atom("and"));
    assert_eq!(Token::classify("TREE", "tree"), atom("tree"));
}

#[test]
fn compile_emits_atoms_and_drains_operators_last_in_first_out() {
    let tokens = VecDeque::from(vec![atom("a"), Token::Or, atom("b"), Token::And, atom("c")]);
    assert_eq!(
        compile(tokens),
        Some(vec![atom("a"), atom("b"), atom("c"), Token::And, Token::Or])
    );
}

#[test]
fn compile_has_no_precedence() {
    assert_eq!(
        parse("a AND b OR c".to_string()),
        Some(vec![atom("a"), atom("b"), atom("c"), Token::Or, Token::And])
    );
    assert!(!run("a AND b OR c", &["c"]));
    assert!(run("a OR b AND c", &["a"]));
}

#[test]
fn compile_puts_not_after_the_token_that_follows_it() {
    assert_eq!(
        parse("a AND NOT b".to_string()),
        Some(vec![atom("a"), atom("b"), Token::Not, Token::And])
    );
    assert_eq!(parse("!a".to_string()), Some(vec![atom("a"), Token::Not]));
}

#[test]
fn compile_keeps_the_atoms_in_the_order_written() {
    let program = parse("c AND NOT (a OR b) XOR !c".to_string()).unwrap();
    let atoms: Vec<&Token> = program.iter().filter(|token| matches!(token, Token::Atom(_))).collect();
    assert_eq!(atoms, vec![&atom("c"), &atom("a"), &atom("b"), &atom("c")]);
}

#[test]
fn compile_of_nothing_is_the_empty_program() {
    assert_eq!(compile(VecDeque::new()), Some(vec![]));
    assert_eq!(parse("".to_string()), Some(vec![]));
    assert_eq!(parse("   ".to_string()), Some(vec![]));
}

#[test]
fn trailing_not_fails_compilation() {
    assert_eq!(parse("tree AND NOT".to_string()), None);
    assert_eq!(parse("NOT".to_string()), None);
    assert_eq!(compile(VecDeque::from(vec![atom("tree"), Token::And, Token::Not])), None);
}

#[test]
fn an_even_run_of_trailing_nots_compiles() {
    assert_eq!(
        parse("a NOT NOT".to_string()),
        Some(vec![atom("a"), Token::Not, Token::Not])
    );
    assert_eq!(parse("a NOT NOT NOT".to_string()), None);
}

#[test]
fn closing_without_an_open_group_emits_the_whole_stack() {
    assert_eq!(
        parse("a AND b ) OR c".to_string()),
        Some(vec![atom("a"), atom("b"), Token::And, atom("c"), Token::Or])
    );
}

#[test]
fn an_unclosed_group_stays_in_the_program() {
    assert_eq!(parse("( a".to_string()), Some(vec![atom("a"), Token::GroupOpen]));
    assert!(run("( a", &["a"]));
}

#[test]
fn not_takes_a_parenthesis_for_its_operand() {
    let program = parse("NOT (a OR b)".to_string()).unwrap();
    assert_eq!(
        program,
        vec![Token::GroupOpen, Token::Not, atom("a"), atom("b"), Token::Or]
    );
    assert!(!is_well_formed(&program));
    assert_eq!(try_evaluate(&program, Some(&tags(&["a"]))), None);
}

#[test]
fn quoted_phrase_is_one_atom_with_its_quotes() {
    assert_eq!(
        parse("\"tree house\" AND b".to_string()),
        Some(vec![atom("\"tree house\""), atom("b"), Token::And])
    );
}

#[test]
fn try_parse_compiles_with_the_shipped_grammar() {
    assert_eq!(
        try_parse("a or b".to_string()),
        Some(Some(vec![atom("a"), atom("b"), Token::Or]))
    );
    assert_eq!(try_parse("a or not".to_string()), Some(None));
}

#[test]
fn grouped_expression_against_tag_sets() {
    assert!(!run("a AND (b OR c)", &["a"]));
    assert!(!run("a AND (b OR c)", &["b"]));
    assert!(!run("a AND (b OR c)", &[]));
    assert!(run("a AND (b OR c)", &["a", "b"]));
    assert!(run("a AND (b OR c)", &["c", "a"]));
}

#[test]
fn operators_follow_their_truth_tables() {
    let cases = [
        ("a OR b", [false, true, true, true]),
        ("a XOR b", [false, true, true, false]),
        ("a AND b", [false, false, false, true]),
        ("a NAND b", [true, true, true, false]),
        ("a XNOR b", [true, false, false, true]),
    ];
    let sets: [&[&str]; 4] = [&["z"], &["b"], &["a"], &["a", "b"]];
    for (expression, expected) in cases {
        for (set, wanted) in sets.iter().zip(expected) {
            assert_eq!(run(expression, set), wanted, "{} on {:?}", expression, set);
        }
    }
    assert!(run("NOT a", &["b"]));
    assert!(!run("NOT a", &["a"]));
}

#[test]
fn operands_are_taken_in_the_order_written() {
    let left_only = vec![atom("a"), atom("b"), Token::Not, Token::And];
    assert!(evaluate(&left_only, Some(&tags(&["a"]))));
    assert!(!evaluate(&left_only, Some(&tags(&["b"]))));
}

#[test]
fn a_file_without_tag_support_matches_no_atom() {
    let program = parse("a".to_string()).unwrap();
    assert!(!evaluate(&program, None));
    assert!(!evaluate(&program, Some(&vec![])));
    let negated = parse("NOT a".to_string()).unwrap();
    assert!(evaluate(&negated, None));
}

#[test]
fn atoms_match_by_the_tag_rules() {
    assert!(run("tree", &["nature:tree/person:john"]));
    assert!(!run("john", &["nature:tree/person:john"]));
    assert!(run("tr* AND NOT oak", &["elm", "tree/john"]));
}

#[test]
fn well_formed_means_one_value_is_left() {
    assert!(is_well_formed(&vec![atom("a")]));
    assert!(is_well_formed(&vec![atom("a"), atom("b"), Token::And]));
    assert!(is_well_formed(&vec![atom("a"), Token::GroupOpen, Token::GroupClose]));
    assert!(!is_well_formed(&vec![]));
    assert!(!is_well_formed(&vec![atom("a"), atom("b")]));
    assert!(!is_well_formed(&vec![Token::And]));
    assert!(!is_well_formed(&vec![atom("a"), Token::And]));
    assert!(!is_well_formed(&vec![Token::Not, atom("a"), atom("b")]));
}

#[test]
fn try_evaluate_refuses_what_cannot_be_run() {
    let tagged = tags(&["a"]);
    assert_eq!(try_evaluate(&vec![atom("a")], Some(&tagged)), Some(true));
    assert_eq!(try_evaluate(&vec![atom("a"), atom("b")], Some(&tagged)), None);
    let huge = "a".repeat(1_000_000);
    assert_eq!(try_evaluate(&vec![atom(&huge)], Some(&tagged)), None);
    assert_eq!(try_evaluate(&vec![atom(&huge)], Some(&vec![])), Some(false));
    assert_eq!(try_evaluate(&vec![atom(&huge)], None), Some(false));
    assert_eq!(try_evaluate(&vec![atom("(")], Some(&tagged)), Some(false));
}

#[test]
fn atoms_are_usable_unless_one_is_too_large_for_the_engine() {
    assert!(atoms_are_usable(&vec![atom("a"), Token::And, atom("b*")]));
    assert!(atoms_are_usable(&vec![atom("a"), atom("[")]));
    assert!(atoms_are_usable(&vec![Token::And]));
    assert!(!atoms_are_usable(&vec![atom("a"), atom(&"a".repeat(1_000_000))]));
}
