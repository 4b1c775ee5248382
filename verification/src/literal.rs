//! A parser that matches one fixed byte string, byte for byte.

use vstd::prelude::*;
use vstd::string::StrSliceExecFns;
use vstd::string::StringSliceAdditionalSpecFns;

use crate::result::{ParseError, ParseResult, SpecParseOutcome};

verus! {

/// Matches a fixed expected byte string against the input, case-sensitive.
///
/// The partial state is the number of literal bytes already matched by
/// previous calls.  A mismatching byte rejects the branch outright; exhausting
/// the input first yields an incomplete state whose hint is the unmatched
/// suffix of the literal.
#[derive(Debug, Clone, PartialEq, Eq)]
pub struct LiteralParser {
    literal: Vec<u8>,
}

/// The partial state of a [`LiteralParser`]: how many bytes of the literal
/// have been matched so far.
#[derive(Debug, Clone, Copy, PartialEq, Eq, Structural)]
pub struct LiteralParserOffset {
    /// The number of literal bytes already matched.
    pub offset: usize,
}

impl View for LiteralParser {
    type V = Seq<u8>;

    closed spec fn view(&self) -> Seq<u8> {
        self.literal@
    }
}

/// What one call of [`LiteralParser::parse`] yields, as a function of the
/// expected literal, the count of bytes matched so far, and the new input.
pub open spec fn spec_literal_parse(lit: Seq<u8>, matched: int, input: Seq<u8>) -> SpecParseOutcome<
    int,
    (),
>
    decreases input.len(),
{
    if matched >= lit.len() {
        SpecParseOutcome::Finished { value: (), remaining: input }
    } else if input.len() == 0 {
        SpecParseOutcome::Incomplete { state: matched, required_next: lit.skip(matched) }
    } else if input[0] == lit[matched] {
        spec_literal_parse(lit, matched + 1, input.skip(1))
    } else {
        SpecParseOutcome::Rejected { error: ParseError::GrammarViolation }
    }
}

/// The outcome modelled by an executable literal-parse result.
pub open spec fn literal_outcome(
    r: Result<ParseResult<LiteralParserOffset, ()>, ParseError>,
) -> SpecParseOutcome<int, ()> {
    match r {
        Err(error) => SpecParseOutcome::Rejected { error },
        Ok(ParseResult::Incomplete { new_state, required_next }) => SpecParseOutcome::Incomplete {
            state: new_state.offset as int,
            required_next: required_next@,
        },
        Ok(ParseResult::Finished { result, remaining }) => SpecParseOutcome::Finished {
            value: (),
            remaining: remaining@,
        },
    }
}

impl LiteralParser {
    /// Create a parser for the given literal bytes.
    pub fn new(literal: Vec<u8>) -> (r: LiteralParser)
        ensures
            r@ == literal@,
    {
        LiteralParser { literal }
    }

    /// Create a parser for the UTF-8 bytes of the given text.
    pub fn from_text(text: &str) -> (r: LiteralParser)
        ensures
            r@ == text.spec_bytes(),
    {
        LiteralParser { literal: text.as_bytes_vec() }
    }

    /// An independent copy of this parser, equal to it in the model.
    pub fn duplicate(&self) -> (r: LiteralParser)
        ensures
            r@ == self@,
    {
        LiteralParser { literal: vstd::slice::slice_to_vec(self.literal.as_slice()) }
    }

    /// The initial state: no literal bytes matched yet.
    pub fn create_parser_state(&self) -> (r: LiteralParserOffset)
        ensures
            r.offset == 0,
    {
        LiteralParserOffset { offset: 0 }
    }

    /// Match the new input bytes against the unmatched part of the literal.
    pub fn parse(&self, state: &LiteralParserOffset, input: &[u8]) -> (r: Result<
        ParseResult<LiteralParserOffset, ()>,
        ParseError,
    >)
        ensures
            literal_outcome(r) == spec_literal_parse(self@, state.offset as int, input@),
    {
        let len = self.literal.len();
        let mut matched = state.offset;
        if matched >= len {
            // A zero-length or already-matched literal is trivially finished.
            let remaining = vstd::slice::slice_to_vec(input);
            return Ok(ParseResult::Finished { result: (), remaining });
        }
        let mut i: usize = 0;
        proof {
            assert(input@.skip(0) =~= input@);
        }
        while i < input.len()
            invariant
                i <= input.len(),
                matched < len,
                len == self.literal@.len(),
                spec_literal_parse(self@, state.offset as int, input@) == spec_literal_parse(
                    self@,
                    matched as int,
                    input@.skip(i as int),
                ),
            decreases input.len() - i,
        {
            let b = *vstd::slice::slice_index_get(input, i);
            let expected = self.literal[matched];
            proof {
                assert(input@.skip(i as int)[0] == input@[i as int]);
                assert(input@.skip(i as int).skip(1) =~= input@.skip(i as int + 1));
            }
            if b != expected {
                return Err(ParseError::GrammarViolation);
            }
            matched = matched + 1;
            i = i + 1;
            if matched == len {
                let remaining = vstd::slice::slice_to_vec(
                    vstd::slice::slice_subrange(input, i, input.len()),
                );
                proof {
                    assert(input@.skip(i as int) =~= input@.subrange(
                        i as int,
                        input@.len() as int,
                    ));
                }
                return Ok(ParseResult::Finished { result: (), remaining });
            }
        }
        proof {
            assert(input@.skip(i as int) =~= Seq::<u8>::empty());
        }
        let required_next = vstd::slice::slice_to_vec(
            vstd::slice::slice_subrange(self.literal.as_slice(), matched, len),
        );
        proof {
            assert(self.literal@.subrange(matched as int, len as int) =~= self@.skip(
                matched as int,
            ));
        }
        Ok(
            ParseResult::Incomplete {
                new_state: LiteralParserOffset { offset: matched },
                required_next,
            },
        )
    }
}

/// Splitting the input anywhere does not change what a literal parse yields:
/// feeding `first` and then `second` from the state the first call returned
/// gives exactly the outcome of feeding `first + second` in one call, and a
/// parse that finishes or fails on `first` alone is already decided.
pub proof fn lemma_literal_parse_split(lit: Seq<u8>, matched: int, first: Seq<u8>, second: Seq<u8>)
    ensures
        spec_literal_parse(lit, matched, first + second) == match spec_literal_parse(
            lit,
            matched,
            first,
        ) {
            SpecParseOutcome::Incomplete { state, .. } => spec_literal_parse(lit, state, second),
            SpecParseOutcome::Finished { value, remaining } => SpecParseOutcome::Finished {
                value,
                remaining: remaining + second,
            },
            SpecParseOutcome::Rejected { error } => SpecParseOutcome::<int, ()>::Rejected { error },
        },
    decreases first.len(),
{
    if matched >= lit.len() {
    } else if first.len() == 0 {
        assert(first + second =~= second);
    } else {
        assert((first + second)[0] == first[0]);
        if first[0] == lit[matched] {
            assert((first + second).skip(1) =~= first.skip(1) + second);
            lemma_literal_parse_split(lit, matched + 1, first.skip(1), second);
        }
    }
}

/// A literal parse rejects any input whose first divergence from the expected
/// continuation of the literal happens within the literal: one corrupted byte
/// anywhere before the literal is complete fails the branch.
pub proof fn lemma_literal_parse_rejects(lit: Seq<u8>, matched: int, input: Seq<u8>, j: int)
    requires
        0 <= j < input.len(),
        0 <= matched,
        matched + j < lit.len(),
        input[j] != lit[matched + j],
        forall|k: int| 0 <= k < j ==> input[k] == lit[matched + k],
    ensures
        spec_literal_parse(lit, matched, input).is_rejected(),
    decreases j,
{
    if j > 0 {
        assert(input[0] == lit[matched]);
        assert(input.skip(1)[j - 1] == input[j]);
        assert(forall|k: int| 0 <= k < j - 1 ==> input.skip(1)[k] == input[k + 1]);
        lemma_literal_parse_rejects(lit, matched + 1, input.skip(1), j - 1);
    }
}

} // verus!
