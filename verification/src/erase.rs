//! A uniformly-typed, shareable handle over any grammar, for storing
//! heterogeneous grammars in one collection and driving them through one
//! interface.

use vstd::prelude::*;

use crate::engine::{grammar_outcome, spec_parse};
use crate::grammar::{spec_initial_state, state_matches, Grammar, GrammarState, GrammarV, ParseValue};
use crate::result::{ParseError, ParseResult};

verus! {

/// A shared parser handle.  Every grammar already produces the one closed
/// output type, so sharing the grammar behind a reference-counted pointer is
/// all the type erasure the engine needs: clones of the handle drive the same
/// immutable grammar from independent states.
#[derive(Debug, Clone)]
pub struct ArcParser(std::sync::Arc<Grammar>);

impl View for ArcParser {
    type V = GrammarV;

    closed spec fn view(&self) -> GrammarV {
        self.0@
    }
}

impl ArcParser {
    /// Share the given grammar behind a uniform handle.
    pub fn new(grammar: Grammar) -> (r: ArcParser)
        ensures
            r@ == grammar@,
    {
        ArcParser(std::sync::Arc::new(grammar))
    }

    /// The initial state of the shared grammar.
    pub fn create_parser_state(&self) -> (r: GrammarState)
        ensures
            r@ == spec_initial_state(self@),
            state_matches(self@, r@),
    {
        (*self.0).create_parser_state()
    }

    /// Parse the newly available input bytes from the given partial state.
    pub fn parse(&self, state: &GrammarState, input: &[u8]) -> (r: Result<
        ParseResult<GrammarState, ParseValue>,
        ParseError,
    >)
        requires
            state_matches(self@, state@),
        ensures
            grammar_outcome(r) == spec_parse(self@, state@, input@),
    {
        (*self.0).parse(state, input)
    }
}

} // verus!
