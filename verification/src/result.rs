//! The three-way outcome type threaded through every combinator.

use vstd::prelude::*;

verus! {

/// Why a parse branch was rejected.  A failure is terminal for its branch:
/// the caller must discard the state and the candidate byte sequence.
#[derive(Debug, Clone, Copy, PartialEq, Eq, Structural)]
pub enum ParseError {
    /// The input bytes cannot satisfy the grammar from the current state.
    GrammarViolation,
    /// Every alternative of a choice or index combinator has failed.
    CompositionExhaustion,
}

/// The state of a parser after one incremental step.
///
/// `P` is the parser's partial-state type and `R` its output type.  Failure is
/// signalled out of band, as the `Err` side of a surrounding `Result`.
#[derive(Debug, Clone, PartialEq, Eq)]
pub enum ParseResult<P, R> {
    /// The parser consumed all input without reaching a definite answer.
    Incomplete {
        /// The new state of the parser.
        new_state: P,
        /// The minimal literal continuation the parser would accept next;
        /// empty when no single hint exists.
        required_next: Vec<u8>,
    },
    /// The parser reached a definite answer.
    Finished {
        /// The result of the parser.
        result: R,
        /// The suffix of the input buffer not consumed by this parser.
        remaining: Vec<u8>,
    },
}

impl<P, R> ParseResult<P, R> {
    /// True if this is the `Finished` variant.
    pub open spec fn is_finished(&self) -> bool {
        self matches ParseResult::Finished { .. }
    }

    /// True if this is the `Incomplete` variant.
    pub open spec fn is_incomplete(&self) -> bool {
        self matches ParseResult::Incomplete { .. }
    }

    /// Drop the remaining bytes from a finished result.
    pub fn without_remaining(self) -> (r: ParseResult<P, R>)
        ensures
            match self {
                ParseResult::Finished { result, .. } => r matches ParseResult::Finished {
                    result: res,
                    remaining,
                } && res == result && remaining@ == Seq::<u8>::empty(),
                ParseResult::Incomplete { .. } => r == self,
            },
    {
        match self {
            ParseResult::Finished { result, .. } => ParseResult::Finished {
                result,
                remaining: Vec::new(),
            },
            ParseResult::Incomplete { new_state, required_next } => ParseResult::Incomplete {
                new_state,
                required_next,
            },
        }
    }

    /// Extract the output of a finished parse.
    pub fn unwrap_finished(self) -> (r: R)
        requires
            self.is_finished(),
        ensures
            self matches ParseResult::Finished { result, .. } && r == result,
    {
        match self {
            ParseResult::Finished { result, .. } => result,
            ParseResult::Incomplete { .. } => unreached(),
        }
    }

    /// Extract the new state and hint of an incomplete parse.
    pub fn unwrap_incomplete(self) -> (r: (P, Vec<u8>))
        requires
            self.is_incomplete(),
        ensures
            self matches ParseResult::Incomplete { new_state, required_next } && r.0 == new_state
                && r.1 == required_next,
    {
        match self {
            ParseResult::Finished { .. } => unreached(),
            ParseResult::Incomplete { new_state, required_next } => (new_state, required_next),
        }
    }

    /// Map the output of a finished parse; state and hint pass through.
    pub fn map<F: FnOnce(R) -> O, O>(self, f: F) -> (r: ParseResult<P, O>)
        requires
            self matches ParseResult::Finished { result, .. } ==> f.requires((result,)),
        ensures
            match self {
                ParseResult::Finished { result, remaining } => r matches ParseResult::Finished {
                    result: out,
                    remaining: rem,
                } && f.ensures((result,), out) && rem == remaining,
                ParseResult::Incomplete { new_state, required_next } => r
                    matches ParseResult::Incomplete { new_state: s, required_next: h } && s
                    == new_state && h == required_next,
            },
    {
        match self {
            ParseResult::Finished { result, remaining } => ParseResult::Finished {
                result: f(result),
                remaining,
            },
            ParseResult::Incomplete { new_state, required_next } => ParseResult::Incomplete {
                new_state,
                required_next,
            },
        }
    }

    /// Map the partial state of an incomplete parse; output passes through.
    pub fn map_state<F: FnOnce(P) -> O, O>(self, f: F) -> (r: ParseResult<O, R>)
        requires
            self matches ParseResult::Incomplete { new_state, .. } ==> f.requires((new_state,)),
        ensures
            match self {
                ParseResult::Finished { result, remaining } => r matches ParseResult::Finished {
                    result: out,
                    remaining: rem,
                } && out == result && rem == remaining,
                ParseResult::Incomplete { new_state, required_next } => r
                    matches ParseResult::Incomplete { new_state: s, required_next: h } && f.ensures(
                    (new_state,),
                    s,
                ) && h == required_next,
            },
    {
        match self {
            ParseResult::Finished { result, remaining } => ParseResult::Finished {
                result,
                remaining,
            },
            ParseResult::Incomplete { new_state, required_next } => ParseResult::Incomplete {
                new_state: f(new_state),
                required_next,
            },
        }
    }
}

/// A parse outcome that owns its buffers outright, for callers that must store
/// the outcome beyond the life of the input buffer.
#[derive(Debug, Clone, PartialEq, Eq)]
pub enum OwnedParseResult<P, R> {
    /// The parser consumed all input without reaching a definite answer.
    Incomplete {
        /// The new state of the parser.
        new_state: P,
        /// The minimal literal continuation the parser would accept next.
        required_next: Vec<u8>,
    },
    /// The parser reached a definite answer.
    Finished {
        /// The result of the parser.
        result: R,
        /// The suffix of the input buffer not consumed by this parser.
        remaining: Vec<u8>,
    },
}

impl<P, R> From<ParseResult<P, R>> for OwnedParseResult<P, R> {
    fn from(result: ParseResult<P, R>) -> (r: OwnedParseResult<P, R>) {
        match result {
            ParseResult::Incomplete { new_state, required_next } => OwnedParseResult::Incomplete {
                new_state,
                required_next,
            },
            ParseResult::Finished { result, remaining } => OwnedParseResult::Finished {
                result,
                remaining,
            },
        }
    }
}

impl<P, R> vstd::std_specs::convert::FromSpecImpl<ParseResult<P, R>> for OwnedParseResult<P, R> {
    open spec fn obeys_from_spec() -> bool {
        true
    }

    open spec fn from_spec(result: ParseResult<P, R>) -> OwnedParseResult<P, R> {
        match result {
            ParseResult::Incomplete { new_state, required_next } => OwnedParseResult::Incomplete {
                new_state,
                required_next,
            },
            ParseResult::Finished { result, remaining } => OwnedParseResult::Finished {
                result,
                remaining,
            },
        }
    }
}

/// The mathematical model of one incremental parse step: rejection, an
/// incomplete state with a hint, or a finished value with leftover bytes.
/// `S` models the partial state and `V` the output value.
pub enum SpecParseOutcome<S, V> {
    /// The branch is rejected; terminal.
    Rejected { error: ParseError },
    /// All input was consumed without a definite answer.
    Incomplete { state: S, required_next: Seq<u8> },
    /// A definite answer was reached.
    Finished { value: V, remaining: Seq<u8> },
}

impl<S, V> SpecParseOutcome<S, V> {
    /// True if this outcome is a rejection.
    pub open spec fn is_rejected(self) -> bool {
        self matches SpecParseOutcome::Rejected { .. }
    }

    /// True if this outcome is an incomplete state.
    pub open spec fn is_incomplete(self) -> bool {
        self matches SpecParseOutcome::Incomplete { .. }
    }

    /// True if this outcome is a finished value.
    pub open spec fn is_finished(self) -> bool {
        self matches SpecParseOutcome::Finished { .. }
    }
}

/// The output of a choice between two parsers, tagged by the side that won.
#[derive(Debug, Clone, Copy, PartialEq, Eq)]
pub enum Either<L, R> {
    /// The first parser finished.
    Left(L),
    /// The second parser finished.
    Right(R),
}

} // verus!
