//! Scenario tests for the incremental contracts of the primitives and
//! combinators: split-invariance, bounds, hint narrowing, determinism, and
//! failure handling.

use kalosm_sample::{
    ChoiceParser, Either, Grammar, IntegerParser, LiteralParser, OneLine, ParseError, ParseResult,
    ParseValue, RepeatParser, SequenceParser, StringParser,
};

fn literal(text: &str) -> Grammar {
    Grammar::Literal(LiteralParser::from_text(text))
}

#[test]
fn literal_split_round_trip() {
    // Feeding the literal in two chunks gives the same finished result as one
    // call, wherever the split falls.
    let parser = LiteralParser::from_text("Thought: ");
    let whole = parser
        .parse(&parser.create_parser_state(), b"Thought: xyz")
        .unwrap();
    for split in 0..9 {
        let input: &[u8] = b"Thought: xyz";
        let (first, second) = input.split_at(split);
        let (mid, hint) = parser
            .parse(&parser.create_parser_state(), first)
            .unwrap()
            .unwrap_incomplete();
        assert_eq!(hint, b"Thought: "[split..].to_vec());
        let done = parser.parse(&mid, second).unwrap();
        assert_eq!(done, whole);
    }
    match whole {
        ParseResult::Finished { result: (), remaining } => {
            assert_eq!(remaining, b"xyz".to_vec());
        }
        _ => panic!("literal did not finish"),
    }
}

#[test]
fn literal_corrupted_byte_fails() {
    let parser = LiteralParser::from_text("Thought: ");
    // Corrupting any single byte of the literal rejects the branch.
    for corrupt in 0..9 {
        let mut input = b"Thought: ".to_vec();
        input[corrupt] ^= 1;
        assert_eq!(
            parser.parse(&parser.create_parser_state(), &input),
            Err(ParseError::GrammarViolation)
        );
    }
}

#[test]
fn integer_bounds_progressive() {
    // With range [1,3], each digit of "123" is its own integer: the value
    // can never be extended by another digit and still stay in range.
    let parser = IntegerParser::new(1..=3);
    let state = parser.create_parser_state();
    match parser.parse(&state, b"123").unwrap() {
        ParseResult::Finished { result, remaining } => {
            assert_eq!(result, 1);
            assert_eq!(remaining, b"23".to_vec());
        }
        _ => panic!("integer did not finish"),
    }
}

#[test]
fn integer_terminator_and_rejection() {
    let parser = IntegerParser::new(1..=100);
    let state = parser.create_parser_state();
    // A terminating non-numeral finishes the number; the terminator stays in
    // the remaining input.
    match parser.parse(&state, b"42 rest").unwrap() {
        ParseResult::Finished { result, remaining } => {
            assert_eq!(result, 42);
            assert_eq!(remaining, b" rest".to_vec());
        }
        _ => panic!("integer did not finish"),
    }
    // A numeral that cannot possibly fall in range is rejected at once.
    assert_eq!(
        parser.parse(&state, b"101"),
        Err(ParseError::GrammarViolation)
    );
    // A terminator before any digit is rejected.
    assert_eq!(parser.parse(&state, b" "), Err(ParseError::GrammarViolation));
    // Input that ends mid-number stays incomplete.
    assert!(matches!(
        parser.parse(&state, b"4").unwrap(),
        ParseResult::Incomplete { .. }
    ));
}

#[test]
fn integer_split_round_trip() {
    // Feeding the number in two chunks agrees with feeding it in one call.
    let parser = IntegerParser::new(1..=100);
    let state = parser.create_parser_state();
    let whole = parser.parse(&state, b"42 ").unwrap();
    let (mid, hint) = parser.parse(&state, b"4").unwrap().unwrap_incomplete();
    assert_eq!(hint, b"".to_vec());
    assert_eq!(parser.parse(&mid, b"2 ").unwrap(), whole);
}

#[test]
fn integer_negative() {
    let parser = IntegerParser::new(-10..=10);
    let state = parser.create_parser_state();
    match parser.parse(&state, b"-5").unwrap() {
        ParseResult::Finished { result, remaining } => {
            assert_eq!(result, -5);
            assert_eq!(remaining, b"".to_vec());
        }
        _ => panic!("integer did not finish"),
    }
    // No negative number can fall in a positive-only range: the sign alone
    // is rejected.
    let positive = IntegerParser::new(1..=3);
    assert_eq!(
        positive.parse(&positive.create_parser_state(), b"-"),
        Err(ParseError::GrammarViolation)
    );
}

#[test]
fn repeat_upper_bound() {
    // RepeatParser(LiteralParser("a"), 1..=3) on "aaa" hits the hard count
    // ceiling exactly and finishes without waiting for a fourth attempt.
    let parser = RepeatParser::new(literal("a"), 1..=3);
    let state = parser.create_parser_state();
    match parser.parse(&state, b"aaa").unwrap() {
        ParseResult::Finished { result, remaining } => {
            assert_eq!(result.len(), 3);
            assert_eq!(remaining, b"".to_vec());
        }
        _ => panic!("repeat did not finish"),
    }
    // A fourth repetition is left unconsumed.
    match parser.parse(&state, b"aaaa").unwrap() {
        ParseResult::Finished { result, remaining } => {
            assert_eq!(result.len(), 3);
            assert_eq!(remaining, b"a".to_vec());
        }
        _ => panic!("repeat did not finish"),
    }
}

#[test]
fn repeat_ceiling_never_overshoots() {
    // The count ceiling is hard: with a ceiling of zero no repetition can
    // ever finish with results.  A completed cycle with leftover input
    // cannot stop within the bounds, so the repetition fails.
    let parser = RepeatParser::new(literal("a"), 0..=0);
    let state = parser.create_parser_state();
    assert_eq!(
        parser.parse(&state, b"ab"),
        Err(ParseError::GrammarViolation)
    );
    // With the input exhausted the parse stays incomplete rather than
    // finishing over the ceiling.
    assert!(matches!(
        parser.parse(&state, b"a").unwrap(),
        ParseResult::Incomplete { .. }
    ));
    // A cycle that consumes nothing while the count sits at the ceiling is
    // rejected rather than overshooting.
    let parser = RepeatParser::new(Grammar::Literal(LiteralParser::new(Vec::new())), 0..=0);
    let state = parser.create_parser_state();
    assert_eq!(
        parser.parse(&state, b"x"),
        Err(ParseError::GrammarViolation)
    );
    // Below the ceiling, zero-consumption cycles are collected until the
    // ceiling is hit exactly.
    let parser = RepeatParser::new(Grammar::Literal(LiteralParser::new(Vec::new())), 0..=3);
    let state = parser.create_parser_state();
    match parser.parse(&state, b"x").unwrap() {
        ParseResult::Finished { result, remaining } => {
            assert_eq!(result.len(), 3);
            assert_eq!(remaining, b"x".to_vec());
        }
        _ => panic!("repeat did not finish"),
    }
}

#[test]
fn repeat_graceful_finish_and_undercount() {
    // A failed attempt at a stopping point with the count in range finishes
    // the repetition; the bytes of the failed attempt stay in the input.
    let parser = RepeatParser::new(literal("ab"), 1..=3);
    let state = parser.create_parser_state();
    match parser.parse(&state, b"abax").unwrap() {
        ParseResult::Finished { result, remaining } => {
            assert_eq!(result, vec![ParseValue::Unit]);
            assert_eq!(remaining, b"ax".to_vec());
        }
        _ => panic!("repeat did not finish"),
    }
    // Under the minimum count the same failure rejects the whole repetition.
    assert_eq!(
        parser.parse(&state, b"x"),
        Err(ParseError::GrammarViolation)
    );
    // A failure inside an in-progress cycle rejects the whole repetition,
    // even though the count so far is in range.
    let (mid, _) = parser.parse(&state, b"aba").unwrap().unwrap_incomplete();
    assert_eq!(
        parser.parse(&mid, b"x"),
        Err(ParseError::GrammarViolation)
    );
}

#[test]
fn string_escaping_split_round_trip() {
    // StringParser(1..=20) unescapes the quoted text; splitting the input at
    // every point gives the identical final string.
    let parser = StringParser::new(1..=20);
    let state = parser.create_parser_state();
    let input: &[u8] = b"\"Hello, \\\"world!\"";
    let whole = parser.parse(&state, input).unwrap();
    match &whole {
        ParseResult::Finished { result, remaining } => {
            assert_eq!(result, "Hello, \"world!");
            assert_eq!(remaining, &b"".to_vec());
        }
        _ => panic!("string did not finish"),
    }
    for split in 0..input.len() {
        let (first, second) = input.split_at(split);
        let (mid, _) = parser.parse(&state, first).unwrap().unwrap_incomplete();
        assert_eq!(parser.parse(&mid, second).unwrap(), whole);
    }
}

#[test]
fn string_length_and_filter_policy() {
    // Once the content reaches the length ceiling only a closing quote is
    // accepted.
    let parser = StringParser::new(1..=3);
    let state = parser.create_parser_state();
    assert!(matches!(
        parser.parse(&state, b"\"abc\"").unwrap(),
        ParseResult::Finished { .. }
    ));
    assert_eq!(
        parser.parse(&state, b"\"abcd"),
        Err(kalosm_sample::StringParseError)
    );
    // Closing with the content under the minimum length fails at the quote.
    let parser = StringParser::new(2..=3);
    assert_eq!(
        parser.parse(&parser.create_parser_state(), b"\"a\""),
        Err(kalosm_sample::StringParseError)
    );
    // A byte outside the allowed ranges is a hard failure.
    let digits_only = StringParser::new(1..=10).with_allowed_characters(vec![(48, 57)]);
    let state = digits_only.create_parser_state();
    assert!(matches!(
        digits_only.parse(&state, b"\"123\"").unwrap(),
        ParseResult::Finished { .. }
    ));
    assert_eq!(
        digits_only.parse(&state, b"\"12a"),
        Err(kalosm_sample::StringParseError)
    );
}

#[test]
fn choice_determinism_left_bias() {
    // When both alternatives could finish on the same input, the first
    // declared alternative wins.
    let parser = ChoiceParser::new(literal("a"), literal("a"));
    let state = parser.create_parser_state();
    match parser.parse(&state, b"a").unwrap() {
        ParseResult::Finished { result, remaining } => {
            assert_eq!(result, Either::Left(ParseValue::Unit));
            assert_eq!(remaining, b"".to_vec());
        }
        _ => panic!("choice did not finish"),
    }
}

#[test]
fn choice_hint_narrowing() {
    // Two incomplete alternatives with hints "ab" and "ac" narrow the
    // combined hint to their longest common prefix "a".
    let parser = ChoiceParser::new(literal("ab"), literal("ac"));
    let state = parser.create_parser_state();
    let (_, hint) = parser.parse(&state, b"").unwrap().unwrap_incomplete();
    assert_eq!(hint, b"a".to_vec());
    // Fully disjoint hints narrow to the empty hint.
    let parser = ChoiceParser::new(literal("xy"), literal("zw"));
    let state = parser.create_parser_state();
    let (_, hint) = parser.parse(&state, b"").unwrap().unwrap_incomplete();
    assert_eq!(hint, b"".to_vec());
}

#[test]
fn choice_survivor_continues() {
    // A side that fails is excluded for good while the other continues; its
    // hint alone is reported from then on.
    let parser = ChoiceParser::new(literal("x"), literal("yz"));
    let state = parser.create_parser_state();
    let (mid, hint) = parser.parse(&state, b"y").unwrap().unwrap_incomplete();
    assert!(mid.state1.is_err());
    assert!(mid.state2.is_ok());
    assert_eq!(hint, b"z".to_vec());
    // The failed side is never resurrected: the winner can only be the
    // surviving side.
    match parser.parse(&mid, b"z").unwrap() {
        ParseResult::Finished { result, .. } => {
            assert_eq!(result, Either::Right(ParseValue::Unit));
        }
        _ => panic!("choice did not finish"),
    }
}

#[test]
fn choice_exhaustion() {
    // When every alternative has failed, the choice fails with the
    // exhaustion error.
    let parser = ChoiceParser::new(literal("x"), literal("y"));
    let state = parser.create_parser_state();
    assert_eq!(
        parser.parse(&state, b"z"),
        Err(ParseError::CompositionExhaustion)
    );
    // Once one side has failed, a failure of the survivor exhausts the
    // choice too.
    let parser = ChoiceParser::new(literal("x"), literal("yz"));
    let (mid, _) = parser
        .parse(&parser.create_parser_state(), b"y")
        .unwrap()
        .unwrap_incomplete();
    assert_eq!(
        parser.parse(&mid, b"q"),
        Err(ParseError::CompositionExhaustion)
    );
}

#[test]
fn one_line_rejection_and_acceptance() {
    let line = OneLine;
    let state = line.create_parser_state();
    // An all-whitespace line up to the newline fails.
    assert_eq!(
        line.parse(&state, b"   \n"),
        Err(kalosm_sample::OneLineError)
    );
    // A line with non-whitespace content finishes with that content.
    match line.parse(&state, b"look it up\nrest").unwrap() {
        ParseResult::Finished { result, remaining } => {
            assert_eq!(result, "look it up");
            assert_eq!(remaining, b"rest".to_vec());
        }
        _ => panic!("line did not finish"),
    }
    // A disallowed byte is a hard failure.
    assert_eq!(
        line.parse(&state, b"a,b\n"),
        Err(kalosm_sample::OneLineError)
    );
}

#[test]
fn sequence_hands_over_in_one_call() {
    // When the first grammar finishes mid-call, the second starts on the
    // leftover bytes in the same call.
    let parser = SequenceParser::new(literal("ab"), literal("cd"));
    let state = parser.create_parser_state();
    match parser.parse(&state, b"abcdrest").unwrap() {
        ParseResult::Finished { result, remaining } => {
            assert_eq!(result, (ParseValue::Unit, ParseValue::Unit));
            assert_eq!(remaining, b"rest".to_vec());
        }
        _ => panic!("sequence did not finish"),
    }
    // While the first grammar runs, its hint passes through; after the
    // hand-off the second grammar's hint does.
    let (_, hint) = parser.parse(&state, b"a").unwrap().unwrap_incomplete();
    assert_eq!(hint, b"b".to_vec());
    let (_, hint) = parser.parse(&state, b"abc").unwrap().unwrap_incomplete();
    assert_eq!(hint, b"d".to_vec());
}

#[test]
fn literal_zero_length_is_trivially_finished() {
    let parser = LiteralParser::new(Vec::new());
    let state = parser.create_parser_state();
    match parser.parse(&state, b"rest").unwrap() {
        ParseResult::Finished { result: (), remaining } => {
            assert_eq!(remaining, b"rest".to_vec());
        }
        _ => panic!("empty literal did not finish"),
    }
}

#[test]
fn index_parser_first_success_wins() {
    let parser = kalosm_sample::IndexParser::new(vec![
        literal("alpha"),
        literal("beta"),
        literal("begin"),
    ]);
    let state = parser.create_parser_state();
    // The first alternative to finish wins and tags the output.
    match parser.parse(&state, b"beta").unwrap() {
        ParseResult::Finished { result, remaining } => {
            assert_eq!(result, (1, ParseValue::Unit));
            assert_eq!(remaining, b"".to_vec());
        }
        _ => panic!("index parser did not finish"),
    }
    // With two viable alternatives left, the hint is their common prefix.
    let (mid, hint) = parser.parse(&state, b"be").unwrap().unwrap_incomplete();
    assert!(mid.states[0].is_err());
    assert!(mid.states[1].is_ok());
    assert!(mid.states[2].is_ok());
    assert_eq!(hint, b"".to_vec());
    let (_, hint) = parser.parse(&state, b"b").unwrap().unwrap_incomplete();
    assert_eq!(hint, b"e".to_vec());
    // The parse fails only when every alternative has failed.
    assert_eq!(
        parser.parse(&mid, b"x"),
        Err(ParseError::CompositionExhaustion)
    );
    match parser.parse(&mid, b"gin").unwrap() {
        ParseResult::Finished { result, .. } => assert_eq!(result, (2, ParseValue::Unit)),
        _ => panic!("index parser did not finish"),
    }
}

#[test]
fn repeat_integer_hint_probe() {
    // After a repetition finishes a cycle with the input exhausted, the next
    // cycle is probed for a hint; an integer offers none.
    let parser = RepeatParser::new(
        Grammar::Integer(IntegerParser::new(1..=3)),
        1..=5,
    );
    let state = parser.create_parser_state();
    let (mid, hint) = parser.parse(&state, b"12").unwrap().unwrap_incomplete();
    assert_eq!(hint, b"".to_vec());
    assert_eq!(
        mid.outputs,
        vec![ParseValue::Integer(1), ParseValue::Integer(2)]
    );
    assert!(!mid.new_state_in_progress);
}
