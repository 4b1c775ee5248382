//! A runtime-constructed grammar description, for callers that assemble
//! grammars dynamically rather than through the static combinators.

use vstd::prelude::*;
use vstd::string::StrSliceExecFns;
use vstd::utf8::encode_utf8;

use crate::decimal::DecimalParser;
use crate::grammar::{
    spec_initial_state, state_matches, ChoiceParser, Grammar, GrammarState, GrammarV,
    SequenceParser, StateV, ValueV,
};
use crate::integer::{IntegerConfig, IntegerParser};
use crate::literal::LiteralParser;
use crate::result::{ParseError, ParseResult, SpecParseOutcome};

verus! {

/// A dynamic grammar description: a literal, a bounded number, either of two
/// descriptions, or one description then another.  Every node validates text
/// without producing a value; the matching state lives in
/// [`StructureParserState`].
#[derive(Debug, PartialEq, Eq)]
pub enum StructureParser {
    /// A literal string.
    Literal(String),
    /// A number in an inclusive range with whole-number bounds.
    Num {
        /// The minimum value of the number.
        min: i128,
        /// The maximum value of the number.
        max: i128,
        /// If the number must be an integer.
        integer: bool,
    },
    /// Either the first or the second description.
    Either {
        /// The first description; it wins ties.
        first: Box<StructureParser>,
        /// The second description.
        second: Box<StructureParser>,
    },
    /// The first description, then the second.
    Then {
        /// The first description.
        first: Box<StructureParser>,
        /// The second description.
        second: Box<StructureParser>,
    },
}

/// The state of a structure parser, one variant per description kind.
#[derive(Debug, PartialEq, Eq)]
pub enum StructureParserState {
    /// The state of a literal match.
    Literal(crate::literal::LiteralParserOffset),
    /// The state of an integer match.
    NumInt(crate::integer::IntegerParserState),
    /// The state of a fractional-number match.
    Num(crate::decimal::DecimalParserState),
    /// The state of a choice between two descriptions.
    Either(crate::grammar::ChoiceParserState),
    /// The state of one description followed by another.
    Then(crate::grammar::SequenceParserState),
}

/// The grammar a structure-parser description denotes.
pub open spec fn structure_grammar(p: StructureParser) -> GrammarV
    decreases p,
{
    match p {
        StructureParser::Literal(text) => GrammarV::Literal(encode_utf8(text@)),
        StructureParser::Num { min, max, integer } => {
            let cfg = IntegerConfig { min: min as int, max: max as int };
            if integer {
                GrammarV::Integer(cfg)
            } else {
                GrammarV::Decimal(cfg)
            }
        },
        StructureParser::Either { first, second } => GrammarV::Choice(
            Box::new(structure_grammar(*first)),
            Box::new(structure_grammar(*second)),
        ),
        StructureParser::Then { first, second } => GrammarV::Sequence(
            Box::new(structure_grammar(*first)),
            Box::new(structure_grammar(*second)),
        ),
    }
}

impl View for StructureParserState {
    type V = StateV;

    open spec fn view(&self) -> StateV {
        match self {
            StructureParserState::Literal(s) => StateV::Literal(s.offset as int),
            StructureParserState::NumInt(s) => StateV::Integer(s@),
            StructureParserState::Num(s) => StateV::Decimal(s@),
            StructureParserState::Either(s) => s@,
            StructureParserState::Then(s) => s@,
        }
    }
}

/// True if an executable facade outcome realises the modelled outcome, up to
/// the output value: a structure parser validates text and produces no value.
pub open spec fn facade_outcome_matches(
    r: Result<ParseResult<StructureParserState, ()>, ParseError>,
    o: SpecParseOutcome<StateV, ValueV>,
) -> bool {
    match r {
        Err(e) => o matches SpecParseOutcome::Rejected { error } && error == e,
        Ok(ParseResult::Incomplete { new_state, required_next }) => o
            matches SpecParseOutcome::Incomplete { state, required_next: h } && state == new_state@
            && h == required_next@,
        Ok(ParseResult::Finished { result: _, remaining }) => o
            matches SpecParseOutcome::Finished { remaining: rem, .. } && rem == remaining@,
    }
}

impl StructureParser {
    /// The static grammar this description denotes, rebuilt from the stored
    /// sub-descriptions.
    pub fn to_grammar(&self) -> (r: Grammar)
        ensures
            r@ == structure_grammar(*self),
        decreases *self,
    {
        match self {
            StructureParser::Literal(text) => Grammar::Literal(
                LiteralParser::from_text(text.as_str()),
            ),
            StructureParser::Num { min, max, integer } => {
                if *integer {
                    Grammar::Integer(IntegerParser::new(*min..=*max))
                } else {
                    Grammar::Decimal(DecimalParser::new(*min, *max))
                }
            },
            StructureParser::Either { first, second } => {
                proof {
                    assert(decreases_to!(*self => self->Either_first));
                    assert(decreases_to!(*self => self->Either_second));
                }
                Grammar::Choice(
                    ChoiceParser {
                        parser1: Box::new(first.to_grammar()),
                        parser2: Box::new(second.to_grammar()),
                    },
                )
            },
            StructureParser::Then { first, second } => {
                proof {
                    assert(decreases_to!(*self => self->Then_first));
                    assert(decreases_to!(*self => self->Then_second));
                }
                Grammar::Sequence(
                    SequenceParser {
                        parser1: Box::new(first.to_grammar()),
                        parser2: Box::new(second.to_grammar()),
                    },
                )
            },
        }
    }

    /// The initial state matching this description, built per node kind.
    pub fn create_parser_state(&self) -> (r: StructureParserState)
        ensures
            r@ == spec_initial_state(structure_grammar(*self)),
        decreases *self,
    {
        match self {
            StructureParser::Literal(_) => StructureParserState::Literal(
                crate::literal::LiteralParserOffset { offset: 0 },
            ),
            StructureParser::Num { integer, min, max } => {
                if *integer {
                    StructureParserState::NumInt(
                        IntegerParser::new(*min..=*max).create_parser_state(),
                    )
                } else {
                    StructureParserState::Num(
                        DecimalParser::new(*min, *max).create_parser_state(),
                    )
                }
            },
            StructureParser::Either { first, second } => {
                proof {
                    assert(decreases_to!(*self => self->Either_first));
                    assert(decreases_to!(*self => self->Either_second));
                }
                StructureParserState::Either(
                    crate::grammar::ChoiceParserState {
                        state1: Ok(Box::new(first.to_engine_state())),
                        state2: Ok(Box::new(second.to_engine_state())),
                    },
                )
            },
            StructureParser::Then { first, second } => {
                proof {
                    assert(decreases_to!(*self => self->Then_first));
                }
                StructureParserState::Then(
                    crate::grammar::SequenceParserState::FirstParser(
                        Box::new(first.to_engine_state()),
                    ),
                )
            },
        }
    }

    /// The engine's initial state for this description.
    fn to_engine_state(&self) -> (r: GrammarState)
        ensures
            r@ == spec_initial_state(structure_grammar(*self)),
        decreases *self, 1int,
    {
        let g = self.to_grammar();
        g.create_parser_state()
    }

    /// Parse the newly available input bytes from the given state, validating
    /// the input against this description.  Dispatches on the pair of
    /// description and state; a mismatched pairing is a construction-time
    /// logic error that [`StructureParser::create_parser_state`] never
    /// produces.
    pub fn parse(&self, state: &StructureParserState, input: &[u8]) -> (r: Result<
        ParseResult<StructureParserState, ()>,
        ParseError,
    >)
        requires
            state_matches(structure_grammar(*self), state@),
        ensures
            facade_outcome_matches(r, crate::engine::spec_parse(
                structure_grammar(*self),
                state@,
                input@,
            )),
    {
        match self {
            StructureParser::Literal(text) => match state {
                StructureParserState::Literal(s) => {
                    match LiteralParser::from_text(text.as_str()).parse(s, input) {
                        Err(e) => Err(e),
                        Ok(ParseResult::Incomplete { new_state, required_next }) => Ok(
                            ParseResult::Incomplete {
                                new_state: StructureParserState::Literal(new_state),
                                required_next,
                            },
                        ),
                        Ok(ParseResult::Finished { result: _, remaining }) => Ok(
                            ParseResult::Finished { result: (), remaining },
                        ),
                    }
                },
                _ => unreached(),
            },
            StructureParser::Num { min, max, integer } => {
                if *integer {
                    match state {
                        StructureParserState::NumInt(s) => {
                            match IntegerParser::new(*min..=*max).parse(s, input) {
                                Err(e) => Err(e),
                                Ok(ParseResult::Incomplete { new_state, required_next }) => Ok(
                                    ParseResult::Incomplete {
                                        new_state: StructureParserState::NumInt(new_state),
                                        required_next,
                                    },
                                ),
                                Ok(ParseResult::Finished { result: _, remaining }) => Ok(
                                    ParseResult::Finished { result: (), remaining },
                                ),
                            }
                        },
                        _ => unreached(),
                    }
                } else {
                    match state {
                        StructureParserState::Num(s) => {
                            match DecimalParser::new(*min, *max).parse(s, input) {
                                Err(e) => Err(e),
                                Ok(ParseResult::Incomplete { new_state, required_next }) => Ok(
                                    ParseResult::Incomplete {
                                        new_state: StructureParserState::Num(new_state),
                                        required_next,
                                    },
                                ),
                                Ok(ParseResult::Finished { result: _, remaining }) => Ok(
                                    ParseResult::Finished { result: (), remaining },
                                ),
                            }
                        },
                        _ => unreached(),
                    }
                }
            },
            StructureParser::Either { first, second } => match state {
                StructureParserState::Either(cs) => {
                    let parser = ChoiceParser {
                        parser1: Box::new(first.to_grammar()),
                        parser2: Box::new(second.to_grammar()),
                    };
                    match parser.parse(cs, input) {
                        Err(e) => Err(e),
                        Ok(ParseResult::Incomplete { new_state, required_next }) => Ok(
                            ParseResult::Incomplete {
                                new_state: StructureParserState::Either(new_state),
                                required_next,
                            },
                        ),
                        Ok(ParseResult::Finished { result: _, remaining }) => Ok(
                            ParseResult::Finished { result: (), remaining },
                        ),
                    }
                },
                _ => unreached(),
            },
            StructureParser::Then { first, second } => match state {
                StructureParserState::Then(ss) => {
                    let parser = SequenceParser {
                        parser1: Box::new(first.to_grammar()),
                        parser2: Box::new(second.to_grammar()),
                    };
                    match parser.parse(ss, input) {
                        Err(e) => Err(e),
                        Ok(ParseResult::Incomplete { new_state, required_next }) => Ok(
                            ParseResult::Incomplete {
                                new_state: StructureParserState::Then(new_state),
                                required_next,
                            },
                        ),
                        Ok(ParseResult::Finished { result: _, remaining }) => Ok(
                            ParseResult::Finished { result: (), remaining },
                        ),
                    }
                },
                _ => unreached(),
            },
        }
    }
}

} // verus!
