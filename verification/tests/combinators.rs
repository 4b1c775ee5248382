//! Tests for the repetition combinator and the quoted-string parser.

use kalosm_sample::{
    Grammar, IntegerParser, LiteralParser, ParseResult, ParseValue, RepeatParser,
    RepeatParserState, StringParser, StringParserProgress, StringParserState,
};

#[test]
fn repeat_parser() {
    let parser = RepeatParser::new(Grammar::Literal(LiteralParser::from_text("a")), 1..=3);
    let state = parser.create_parser_state();
    let result = parser.parse(&state, b"aaa");
    assert_eq!(
        result,
        Ok(ParseResult::Finished {
            result: vec![ParseValue::Unit, ParseValue::Unit, ParseValue::Unit],
            remaining: b"".to_vec(),
        })
    );

    let parser = RepeatParser::new(Grammar::Integer(IntegerParser::new(1..=3)), 1..=3);
    let state = parser.create_parser_state();
    let result = parser.parse(&state, b"123");
    assert_eq!(
        result,
        Ok(ParseResult::Finished {
            result: vec![
                ParseValue::Integer(1),
                ParseValue::Integer(2),
                ParseValue::Integer(3),
            ],
            remaining: b"".to_vec(),
        })
    );

    let parser = RepeatParser::new(Grammar::Integer(IntegerParser::new(1..=3)), 1..=3);
    let state = parser.create_parser_state();
    let result = parser.parse(&state, b"12");
    assert_eq!(
        result,
        Ok(ParseResult::Incomplete {
            new_state: RepeatParserState::new(
                kalosm_sample::GrammarState::Integer(
                    IntegerParser::new(1..=3).create_parser_state()
                ),
                vec![ParseValue::Integer(1), ParseValue::Integer(2)],
            ),
            required_next: Default::default(),
        })
    );
}

#[test]
fn literal_parser() {
    let parser = StringParser::new(1..=20);
    let state = StringParserState::default();
    assert_eq!(
        parser.parse(&state, b"\"Hello, \\\"world!\""),
        Ok(ParseResult::Finished {
            result: "Hello, \"world!".to_string(),
            remaining: vec![],
        })
    );

    assert_eq!(
        parser.parse(&state, b"\"Hello, "),
        Ok(ParseResult::Incomplete {
            new_state: StringParserState {
                progress: StringParserProgress::InString,
                bytes: b"Hello, ".to_vec(),
                next_char_escaped: false,
            },
            required_next: vec![],
        })
    );

    assert_eq!(
        parser.parse(
            &parser
                .parse(&state, b"\"Hello, ")
                .unwrap()
                .unwrap_incomplete()
                .0,
            b"world!\""
        ),
        Ok(ParseResult::Finished {
            result: "Hello, world!".to_string(),
            remaining: vec![],
        })
    );
}
