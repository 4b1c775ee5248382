//! Tests for the outcome types, the shared parser handle, and duplication.

use kalosm_sample::{
    common_prefix, ArcParser, Grammar, LiteralParser, OwnedParseResult, ParseResult, ParseValue,
};

#[test]
fn parse_result_accessors() {
    let finished: ParseResult<u8, i32> = ParseResult::Finished {
        result: 7,
        remaining: b"xy".to_vec(),
    };
    assert_eq!(finished.clone().unwrap_finished(), 7);
    assert_eq!(
        finished.clone().without_remaining(),
        ParseResult::Finished {
            result: 7,
            remaining: vec![],
        }
    );
    assert_eq!(
        finished.clone().map(|n| n + 1),
        ParseResult::Finished {
            result: 8,
            remaining: b"xy".to_vec(),
        }
    );
    let incomplete: ParseResult<u8, i32> = ParseResult::Incomplete {
        new_state: 3,
        required_next: b"ab".to_vec(),
    };
    assert_eq!(
        incomplete.clone().unwrap_incomplete(),
        (3, b"ab".to_vec())
    );
    assert_eq!(
        incomplete.clone().map_state(|s| s as u16 * 2),
        ParseResult::Incomplete {
            new_state: 6u16,
            required_next: b"ab".to_vec(),
        }
    );
    assert_eq!(
        incomplete.clone().without_remaining(),
        incomplete.clone()
    );
    let owned: OwnedParseResult<u8, i32> = incomplete.into();
    assert_eq!(
        owned,
        OwnedParseResult::Incomplete {
            new_state: 3,
            required_next: b"ab".to_vec(),
        }
    );
}

#[test]
fn common_prefix_values() {
    assert_eq!(
        common_prefix(&b"ab".to_vec(), &b"ac".to_vec()),
        b"a".to_vec()
    );
    assert_eq!(
        common_prefix(&b"xy".to_vec(), &b"zw".to_vec()),
        b"".to_vec()
    );
    assert_eq!(
        common_prefix(&b"abc".to_vec(), &b"abc".to_vec()),
        b"abc".to_vec()
    );
    assert_eq!(
        common_prefix(&b"ab".to_vec(), &b"abcd".to_vec()),
        b"ab".to_vec()
    );
}

#[test]
fn value_duplicate_is_deep() {
    let value = ParseValue::Pair(
        Box::new(ParseValue::List(vec![
            ParseValue::Integer(3),
            ParseValue::Text("x".to_string()),
        ])),
        Box::new(ParseValue::Indexed(1, Box::new(ParseValue::Unit))),
    );
    assert_eq!(value.duplicate(), value);
}

#[test]
fn arc_parser_shares_a_grammar() {
    let parser = ArcParser::new(Grammar::Literal(LiteralParser::from_text("ok")));
    let second = parser.clone();
    let state = parser.create_parser_state();
    match parser.parse(&state, b"okrest").unwrap() {
        ParseResult::Finished { result, remaining } => {
            assert_eq!(result, ParseValue::Unit);
            assert_eq!(remaining, b"rest".to_vec());
        }
        _ => panic!("literal did not finish"),
    }
    // A clone of the handle drives the same grammar from its own state.
    let state = second.create_parser_state();
    assert!(second.parse(&state, b"no").is_err());
}

#[test]
fn state_duplicate_branches_independently() {
    // Candidate continuations are explored on independent copies of one
    // partial state, as the generation loop does for top-k sampling.
    let grammar = Grammar::Literal(LiteralParser::from_text("abc"));
    let start = grammar.create_parser_state();
    let (mid, _) = grammar.parse(&start, b"a").unwrap().unwrap_incomplete();
    let branch = mid.duplicate();
    assert_eq!(branch, mid);
    assert!(grammar.parse(&branch, b"x").is_err());
    // The state the branch was copied from is untouched by the failure.
    assert!(matches!(
        grammar.parse(&mid, b"bc").unwrap(),
        ParseResult::Finished { .. }
    ));
}

#[test]
fn grammar_duplicate_is_deep() {
    let grammar = Grammar::Sequence(kalosm_sample::SequenceParser::new(
        Grammar::Literal(LiteralParser::from_text("a")),
        Grammar::Literal(LiteralParser::from_text("b")),
    ));
    let copy = grammar.duplicate();
    assert_eq!(copy, grammar);
    let state = copy.create_parser_state();
    assert!(matches!(
        copy.parse(&state, b"ab").unwrap(),
        ParseResult::Finished { .. }
    ));
}
