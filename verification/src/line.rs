//! A parser for one contiguous line of free text.

use vstd::prelude::*;

use crate::result::{ParseError, ParseResult, SpecParseOutcome};
use crate::string::{bytes_to_text, chars_of_bytes};

verus! {

/// The newline byte that terminates a line.
pub const NEWLINE: u8 = 10;

/// The space byte, the only whitespace a line may contain.
pub const SPACE: u8 = 32;

/// One line of text with some non-whitespace characters.
///
/// Accepts ASCII alphanumeric bytes, spaces and dots, and consumes until a
/// newline.  Any other byte is a hard failure, and so is a line that holds
/// nothing but whitespace: the line must carry at least one non-whitespace
/// character before its newline.
#[derive(Debug, Clone, Copy, PartialEq, Eq, Structural)]
pub struct OneLine;

/// The partial state of a [`OneLine`] parser.
#[derive(Debug, Clone, PartialEq, Eq)]
pub struct OneLineState {
    /// Whether everything seen so far is whitespace.
    pub all_whitespace: bool,
    /// The line bytes accepted so far.
    pub bytes: Vec<u8>,
}

/// The error a [`OneLine`] parser reports: a disallowed byte, or a line of
/// nothing but whitespace.
#[derive(Debug, Clone, Copy, PartialEq, Eq, Structural)]
pub struct OneLineError;

/// The mathematical state of a [`OneLine`] parser.
pub struct LineState {
    /// Whether everything seen so far is whitespace.
    pub all_whitespace: bool,
    /// The line bytes accepted so far.
    pub content: Seq<u8>,
}

impl View for OneLineState {
    type V = LineState;

    open spec fn view(&self) -> LineState {
        LineState { all_whitespace: self.all_whitespace, content: self.bytes@ }
    }
}

/// True if the byte may appear inside a line: ASCII alphanumeric, space or
/// dot.  The newline itself is handled separately as the terminator.
pub open spec fn spec_line_byte_allowed(b: u8) -> bool {
    (48 <= b <= 57) || (65 <= b <= 90) || (97 <= b <= 122) || b == SPACE || b == 46
}

/// What one call of [`OneLine::parse`] yields, as a function of the current
/// state and the new input.
pub open spec fn spec_line_parse(st: LineState, input: Seq<u8>) -> SpecParseOutcome<
    LineState,
    Seq<char>,
>
    decreases input.len(),
{
    if input.len() == 0 {
        SpecParseOutcome::Incomplete { state: st, required_next: Seq::empty() }
    } else {
        let b = input[0];
        if b == NEWLINE {
            if st.all_whitespace {
                SpecParseOutcome::Rejected { error: ParseError::GrammarViolation }
            } else {
                SpecParseOutcome::Finished {
                    value: chars_of_bytes(st.content),
                    remaining: input.skip(1),
                }
            }
        } else if !spec_line_byte_allowed(b) {
            SpecParseOutcome::Rejected { error: ParseError::GrammarViolation }
        } else {
            spec_line_parse(
                LineState {
                    all_whitespace: st.all_whitespace && b == SPACE,
                    content: st.content.push(b),
                },
                input.skip(1),
            )
        }
    }
}

/// The outcome modelled by an executable line-parse result.
pub open spec fn line_outcome(
    r: Result<ParseResult<OneLineState, String>, OneLineError>,
) -> SpecParseOutcome<LineState, Seq<char>> {
    match r {
        Err(_) => SpecParseOutcome::Rejected { error: ParseError::GrammarViolation },
        Ok(ParseResult::Incomplete { new_state, required_next }) => SpecParseOutcome::Incomplete {
            state: new_state@,
            required_next: required_next@,
        },
        Ok(ParseResult::Finished { result, remaining }) => SpecParseOutcome::Finished {
            value: result@,
            remaining: remaining@,
        },
    }
}

impl OneLine {
    /// The initial state: nothing seen, so everything seen is whitespace.
    pub fn create_parser_state(&self) -> (r: OneLineState)
        ensures
            r@.all_whitespace == true,
            r@.content == Seq::<u8>::empty(),
    {
        OneLineState { all_whitespace: true, bytes: Vec::new() }
    }

    /// Consume new input bytes against the one-line grammar.
    pub fn parse(&self, state: &OneLineState, input: &[u8]) -> (r: Result<
        ParseResult<OneLineState, String>,
        OneLineError,
    >)
        ensures
            line_outcome(r) == spec_line_parse(state@, input@),
    {
        let mut all_whitespace = state.all_whitespace;
        let mut content = state.bytes.clone();
        let mut i: usize = 0;
        proof {
            assert(input@.skip(0) =~= input@);
        }
        while i < input.len()
            invariant
                i <= input@.len(),
                spec_line_parse(state@, input@) == spec_line_parse(
                    LineState { all_whitespace, content: content@ },
                    input@.skip(i as int),
                ),
            decreases input@.len() - i,
        {
            let b = *vstd::slice::slice_index_get(input, i);
            proof {
                assert(input@.skip(i as int)[0] == input@[i as int]);
                assert(input@.skip(i as int).skip(1) =~= input@.skip(i as int + 1));
            }
            if b == NEWLINE {
                if all_whitespace {
                    return Err(OneLineError);
                } else {
                    let result = bytes_to_text(&content);
                    let remaining = vstd::slice::slice_to_vec(
                        vstd::slice::slice_subrange(input, i + 1, input.len()),
                    );
                    proof {
                        assert(input@.subrange(i as int + 1, input@.len() as int) =~= input@.skip(
                            i as int + 1,
                        ));
                    }
                    return Ok(ParseResult::Finished { result, remaining });
                }
            }
            let allowed = (48 <= b && b <= 57) || (65 <= b && b <= 90) || (97 <= b && b <= 122) || b
                == SPACE || b == 46;
            if !allowed {
                return Err(OneLineError);
            }
            all_whitespace = all_whitespace && b == SPACE;
            content.push(b);
            i = i + 1;
        }
        proof {
            assert(input@.skip(i as int) =~= Seq::<u8>::empty());
        }
        Ok(
            ParseResult::Incomplete {
                new_state: OneLineState { all_whitespace, bytes: content },
                required_next: Vec::new(),
            },
        )
    }
}

/// Splitting the input anywhere does not change what a line parse yields:
/// feeding `first` and then `second` from the state the first call returned
/// gives exactly the outcome of feeding `first + second` in one call.
pub proof fn lemma_line_parse_split(st: LineState, first: Seq<u8>, second: Seq<u8>)
    ensures
        spec_line_parse(st, first + second) == match spec_line_parse(st, first) {
            SpecParseOutcome::Incomplete { state, .. } => spec_line_parse(state, second),
            SpecParseOutcome::Finished { value, remaining } => SpecParseOutcome::Finished {
                value,
                remaining: remaining + second,
            },
            SpecParseOutcome::Rejected { error } => SpecParseOutcome::<
                LineState,
                Seq<char>,
            >::Rejected { error },
        },
    decreases first.len(),
{
    if first.len() == 0 {
        assert(first + second =~= second);
    } else {
        assert((first + second)[0] == first[0]);
        assert((first + second).skip(1) =~= first.skip(1) + second);
        let b = first[0];
        if b != NEWLINE && spec_line_byte_allowed(b) {
            lemma_line_parse_split(
                LineState {
                    all_whitespace: st.all_whitespace && b == SPACE,
                    content: st.content.push(b),
                },
                first.skip(1),
                second,
            );
        }
    }
}

/// A line of nothing but whitespace up to its newline is rejected: from a
/// state that has seen only whitespace, input that is all spaces until a
/// newline fails the branch.
pub proof fn lemma_line_rejects_whitespace(st: LineState, input: Seq<u8>, j: int)
    requires
        st.all_whitespace,
        0 <= j < input.len(),
        input[j] == NEWLINE,
        forall|k: int| 0 <= k < j ==> input[k] == SPACE,
    ensures
        spec_line_parse(st, input).is_rejected(),
    decreases j,
{
    if j > 0 {
        assert(input[0] == SPACE);
        assert(input.skip(1)[j - 1] == input[j]);
        assert(forall|k: int| 0 <= k < j - 1 ==> input.skip(1)[k] == input[k + 1]);
        lemma_line_rejects_whitespace(
            LineState { all_whitespace: true, content: st.content.push(SPACE) },
            input.skip(1),
            j - 1,
        );
    }
}

/// A line with allowed content and some non-whitespace byte, followed by a
/// newline, finishes with exactly that content; the remaining input starts
/// after the newline.
pub proof fn lemma_line_finishes(st: LineState, input: Seq<u8>, j: int)
    requires
        0 <= j < input.len(),
        input[j] == NEWLINE,
        forall|k: int| 0 <= k < j ==> spec_line_byte_allowed(#[trigger] input[k]) && input[k]
            != NEWLINE,
        !st.all_whitespace || (exists|k: int| 0 <= k < j && input[k] != SPACE),
    ensures
        spec_line_parse(st, input) == (SpecParseOutcome::<LineState, Seq<char>>::Finished {
            value: chars_of_bytes(st.content + input.take(j)),
            remaining: input.skip(j + 1),
        }),
    decreases j,
{
    if j == 0 {
        assert(st.content + input.take(0) =~= st.content);
    } else {
        let b = input[0];
        assert(spec_line_byte_allowed(b) && b != NEWLINE);
        let st2 = LineState {
            all_whitespace: st.all_whitespace && b == SPACE,
            content: st.content.push(b),
        };
        assert(input.skip(1)[j - 1] == input[j]);
        assert(forall|k: int| 0 <= k < j - 1 ==> input.skip(1)[k] == input[k + 1]);
        if st2.all_whitespace {
            let k = choose|k: int| 0 <= k < j && input[k] != SPACE;
            assert(k != 0);
            assert(input.skip(1)[k - 1] != SPACE);
        }
        lemma_line_finishes(st2, input.skip(1), j - 1);
        assert(st.content.push(b) + input.skip(1).take(j - 1) =~= st.content + input.take(j));
        assert(input.skip(1).skip(j) =~= input.skip(j + 1));
    }
}

} // verus!
