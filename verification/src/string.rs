//! A parser for a quoted, character-filtered, length-bounded string.

use vstd::prelude::*;
use vstd::string::StrSliceExecFns;
use vstd::string::StringSliceAdditionalSpecFns;

use crate::result::{ParseError, ParseResult, SpecParseOutcome};
use crate::support::push_char;

verus! {

/// The quote byte that opens and closes a parsed string.
pub const QUOTE: u8 = 34;

/// The backslash byte that escapes the next character.
pub const BACKSLASH: u8 = 92;

/// A two-phase parser for a quoted string: it first expects an opening `"`,
/// then consumes content bytes until an unescaped closing `"`.
///
/// Every content byte (except an unescaped closing quote) must fall in one of
/// the allowed byte ranges; the content length must end up inside the
/// inclusive length range.  Once the content length equals the upper bound,
/// only a closing quote is accepted.
#[derive(Debug, Clone, PartialEq, Eq)]
pub struct StringParser {
    min_len: usize,
    max_len: usize,
    character_filter: Vec<(u8, u8)>,
}

/// Which phase a [`StringParser`] is in.
#[derive(Debug, Clone, Copy, PartialEq, Eq, Structural, Default)]
pub enum StringParserProgress {
    /// The opening quote has not been seen yet.
    #[default]
    BeforeQuote,
    /// The opening quote has been consumed; content bytes follow.
    InString,
}

/// The partial state of a [`StringParser`].
#[derive(Debug, Clone, PartialEq, Eq, Default)]
pub struct StringParserState {
    /// The phase the parser is in.
    pub progress: StringParserProgress,
    /// The content bytes accepted so far, unescaped, without the quotes.
    pub bytes: Vec<u8>,
    /// Whether the next content byte is escaped by a pending backslash.
    pub next_char_escaped: bool,
}

/// The error a [`StringParser`] reports: the input cannot satisfy the quoted
/// string grammar from the current state.
#[derive(Debug, Clone, Copy, PartialEq, Eq, Structural)]
pub struct StringParseError;

/// The mathematical configuration of a [`StringParser`].
pub struct StringConfig {
    /// The least allowed content length.
    pub min_len: int,
    /// The greatest allowed content length.
    pub max_len: int,
    /// The allowed byte ranges, each inclusive on both ends.
    pub allowed: Seq<(u8, u8)>,
}

/// The mathematical state of a [`StringParser`].
pub struct StringState {
    /// Whether the opening quote has been consumed.
    pub in_string: bool,
    /// The unescaped content bytes accepted so far.
    pub content: Seq<u8>,
    /// Whether a backslash is pending.
    pub escaped: bool,
}

impl View for StringParser {
    type V = StringConfig;

    closed spec fn view(&self) -> StringConfig {
        StringConfig {
            min_len: self.min_len as int,
            max_len: self.max_len as int,
            allowed: self.character_filter@,
        }
    }
}

impl View for StringParserState {
    type V = StringState;

    open spec fn view(&self) -> StringState {
        StringState {
            in_string: self.progress is InString,
            content: self.bytes@,
            escaped: self.next_char_escaped,
        }
    }
}

/// True if the byte falls in one of the allowed inclusive ranges.
pub open spec fn spec_byte_allowed(allowed: Seq<(u8, u8)>, b: u8) -> bool {
    exists|i: int| 0 <= i < allowed.len() && (#[trigger] allowed[i]).0 <= b <= allowed[i].1
}

/// The characters spelled by a sequence of single-byte characters.
pub open spec fn chars_of_bytes(s: Seq<u8>) -> Seq<char> {
    s.map_values(|b: u8| b as char)
}

/// What one call of [`StringParser::parse`] yields, as a function of the
/// parser configuration, the current state, and the new input.
pub open spec fn spec_string_parse(
    cfg: StringConfig,
    st: StringState,
    input: Seq<u8>,
) -> SpecParseOutcome<StringState, Seq<char>>
    decreases input.len(),
{
    if input.len() == 0 {
        SpecParseOutcome::Incomplete { state: st, required_next: Seq::empty() }
    } else {
        let b = input[0];
        let rest = input.skip(1);
        if !st.in_string {
            if b == QUOTE {
                spec_string_parse(
                    cfg,
                    StringState { in_string: true, content: st.content, escaped: st.escaped },
                    rest,
                )
            } else {
                SpecParseOutcome::Rejected { error: ParseError::GrammarViolation }
            }
        } else if (st.escaped || b != QUOTE) && !spec_byte_allowed(cfg.allowed, b) {
            SpecParseOutcome::Rejected { error: ParseError::GrammarViolation }
        } else if st.content.len() == cfg.max_len && b != QUOTE {
            SpecParseOutcome::Rejected { error: ParseError::GrammarViolation }
        } else if st.escaped {
            spec_string_parse(
                cfg,
                StringState { in_string: true, content: st.content.push(b), escaped: false },
                rest,
            )
        } else if b == QUOTE {
            if cfg.min_len <= st.content.len() <= cfg.max_len {
                SpecParseOutcome::Finished { value: chars_of_bytes(st.content), remaining: rest }
            } else {
                SpecParseOutcome::Rejected { error: ParseError::GrammarViolation }
            }
        } else if b == BACKSLASH {
            spec_string_parse(
                cfg,
                StringState { in_string: true, content: st.content, escaped: true },
                rest,
            )
        } else {
            spec_string_parse(
                cfg,
                StringState { in_string: true, content: st.content.push(b), escaped: false },
                rest,
            )
        }
    }
}

/// The outcome modelled by an executable string-parse result.
pub open spec fn string_outcome(
    r: Result<ParseResult<StringParserState, String>, StringParseError>,
) -> SpecParseOutcome<StringState, Seq<char>> {
    match r {
        Err(_) => SpecParseOutcome::Rejected { error: ParseError::GrammarViolation },
        Ok(ParseResult::Incomplete { new_state, required_next }) => SpecParseOutcome::Incomplete {
            state: new_state@,
            required_next: required_next@,
        },
        Ok(ParseResult::Finished { result, remaining }) => SpecParseOutcome::Finished {
            value: result@,
            remaining: remaining@,
        },
    }
}

/// True if the byte falls in one of the allowed inclusive ranges.
pub fn byte_allowed(allowed: &Vec<(u8, u8)>, b: u8) -> (r: bool)
    ensures
        r == spec_byte_allowed(allowed@, b),
{
    let mut i: usize = 0;
    while i < allowed.len()
        invariant
            i <= allowed@.len(),
            forall|j: int| 0 <= j < i ==> !((#[trigger] allowed@[j]).0 <= b <= allowed@[j].1),
        decreases allowed@.len() - i,
    {
        let (lo, hi) = allowed[i];
        if lo <= b && b <= hi {
            return true;
        }
        i = i + 1;
    }
    false
}

/// The text spelled by the accepted content bytes, each byte one character.
pub fn bytes_to_text(v: &Vec<u8>) -> (r: String)
    ensures
        r@ == chars_of_bytes(v@),
{
    let mut r = String::new();
    let mut i: usize = 0;
    while i < v.len()
        invariant
            i <= v@.len(),
            r@ == chars_of_bytes(v@.take(i as int)),
        decreases v@.len() - i,
    {
        push_char(&mut r, v[i] as char);
        proof {
            assert(v@.take(i + 1 as int) =~= v@.take(i as int).push(v@[i as int]));
            assert(chars_of_bytes(v@.take(i as int)).push(v@[i as int] as char) =~= chars_of_bytes(
                v@.take(i + 1 as int),
            ));
        }
        i = i + 1;
    }
    proof {
        assert(v@.take(v@.len() as int) =~= v@);
    }
    r
}

impl StringParserState {
    /// A state resumed from text already seen: in the string when the text
    /// opens with a quote, with an escape pending when it ends in a
    /// backslash.
    pub fn new(text: String) -> (r: StringParserState)
        ensures
            r@.content == vstd::utf8::encode_utf8(text@),
            r@.in_string == (vstd::utf8::encode_utf8(text@).len() > 0 && vstd::utf8::encode_utf8(
                text@,
            )[0] == QUOTE),
            r@.escaped == (vstd::utf8::encode_utf8(text@).len() > 0 && vstd::utf8::encode_utf8(
                text@,
            )[vstd::utf8::encode_utf8(text@).len() - 1] == BACKSLASH),
    {
        let bytes = text.as_str().as_bytes_vec();
        let n = bytes.len();
        let in_string = n > 0 && bytes[0] == QUOTE;
        let next_char_escaped = n > 0 && bytes[n - 1] == BACKSLASH;
        StringParserState {
            progress: if in_string {
                StringParserProgress::InString
            } else {
                StringParserProgress::BeforeQuote
            },
            bytes,
            next_char_escaped,
        }
    }
}

/// Splitting the input anywhere does not change what a string parse yields:
/// feeding `first` and then `second` from the state the first call returned
/// gives exactly the outcome of feeding `first + second` in one call.  In
/// particular a quoted string split at any point still parses to the same
/// unescaped text.
pub proof fn lemma_string_parse_split(
    cfg: StringConfig,
    st: StringState,
    first: Seq<u8>,
    second: Seq<u8>,
)
    ensures
        spec_string_parse(cfg, st, first + second) == match spec_string_parse(cfg, st, first) {
            SpecParseOutcome::Incomplete { state, .. } => spec_string_parse(cfg, state, second),
            SpecParseOutcome::Finished { value, remaining } => SpecParseOutcome::Finished {
                value,
                remaining: remaining + second,
            },
            SpecParseOutcome::Rejected { error } => SpecParseOutcome::<
                StringState,
                Seq<char>,
            >::Rejected { error },
        },
    decreases first.len(),
{
    if first.len() == 0 {
        assert(first + second =~= second);
    } else {
        assert((first + second)[0] == first[0]);
        assert((first + second).skip(1) =~= first.skip(1) + second);
        let b = first[0];
        if !st.in_string {
            if b == QUOTE {
                lemma_string_parse_split(
                    cfg,
                    StringState { in_string: true, content: st.content, escaped: st.escaped },
                    first.skip(1),
                    second,
                );
            }
        } else if (st.escaped || b != QUOTE) && !spec_byte_allowed(cfg.allowed, b) {
        } else if st.content.len() == cfg.max_len && b != QUOTE {
        } else if st.escaped {
            lemma_string_parse_split(
                cfg,
                StringState { in_string: true, content: st.content.push(b), escaped: false },
                first.skip(1),
                second,
            );
        } else if b == QUOTE {
        } else if b == BACKSLASH {
            lemma_string_parse_split(
                cfg,
                StringState { in_string: true, content: st.content, escaped: true },
                first.skip(1),
                second,
            );
        } else {
            lemma_string_parse_split(
                cfg,
                StringState { in_string: true, content: st.content.push(b), escaped: false },
                first.skip(1),
                second,
            );
        }
    }
}

impl StringParser {
    /// Create a string parser with the given inclusive content-length range,
    /// allowing every character.
    pub fn new(len_range: core::ops::RangeInclusive<usize>) -> (r: StringParser)
        ensures
            r@.min_len == len_range@.start as int,
            r@.max_len == len_range@.end as int,
            forall|b: u8| spec_byte_allowed(r@.allowed, b),
    {
        let mut character_filter: Vec<(u8, u8)> = Vec::new();
        character_filter.push((0, 255));
        let min_len = *len_range.start();
        let max_len = *len_range.end();
        let r = StringParser { min_len, max_len, character_filter };
        proof {
            assert forall|b: u8| spec_byte_allowed(r@.allowed, b) by {
                assert((#[trigger] r@.allowed[0]).0 <= b <= r@.allowed[0].1);
            }
        }
        r
    }

    /// Restrict the accepted content bytes to the given inclusive ranges.
    pub fn with_allowed_characters(self, character_filter: Vec<(u8, u8)>) -> (r: StringParser)
        ensures
            r@.min_len == self@.min_len,
            r@.max_len == self@.max_len,
            r@.allowed == character_filter@,
    {
        StringParser { min_len: self.min_len, max_len: self.max_len, character_filter }
    }

    /// An independent copy of this parser, equal to it in the model.
    pub fn duplicate(&self) -> (r: StringParser)
        ensures
            r@ == self@,
    {
        let r = StringParser {
            min_len: self.min_len,
            max_len: self.max_len,
            character_filter: vstd::slice::slice_to_vec(self.character_filter.as_slice()),
        };
        r
    }

    /// The initial state: before the opening quote, no content, no escape.
    pub fn create_parser_state(&self) -> (r: StringParserState)
        ensures
            r@.in_string == false,
            r@.content == Seq::<u8>::empty(),
            r@.escaped == false,
    {
        StringParserState {
            progress: StringParserProgress::BeforeQuote,
            bytes: Vec::new(),
            next_char_escaped: false,
        }
    }

    /// Consume new input bytes against the quoted-string grammar.
    pub fn parse(&self, state: &StringParserState, input: &[u8]) -> (r: Result<
        ParseResult<StringParserState, String>,
        StringParseError,
    >)
        ensures
            string_outcome(r) == spec_string_parse(self@, state@, input@),
    {
        let mut in_string = match state.progress {
            StringParserProgress::InString => true,
            StringParserProgress::BeforeQuote => false,
        };
        let mut content = state.bytes.clone();
        let mut escaped = state.next_char_escaped;
        let min_len = self.min_len;
        let max_len = self.max_len;
        let mut i: usize = 0;
        proof {
            assert(input@.skip(0) =~= input@);
        }
        while i < input.len()
            invariant
                i <= input@.len(),
                content@.len() <= state.bytes@.len() + i,
                spec_string_parse(self@, state@, input@) == spec_string_parse(
                    self@,
                    StringState { in_string, content: content@, escaped },
                    input@.skip(i as int),
                ),
                min_len == self@.min_len,
                max_len == self@.max_len,
            decreases input@.len() - i,
        {
            let b = *vstd::slice::slice_index_get(input, i);
            proof {
                assert(input@.skip(i as int)[0] == input@[i as int]);
                assert(input@.skip(i as int).skip(1) =~= input@.skip(i as int + 1));
            }
            if !in_string {
                if b == QUOTE {
                    in_string = true;
                } else {
                    return Err(StringParseError);
                }
            } else {
                if (escaped || b != QUOTE) && !byte_allowed(&self.character_filter, b) {
                    return Err(StringParseError);
                }
                if content.len() == max_len && b != QUOTE {
                    return Err(StringParseError);
                }
                if escaped {
                    content.push(b);
                    escaped = false;
                } else if b == QUOTE {
                    if min_len <= content.len() && content.len() <= max_len {
                        let result = bytes_to_text(&content);
                        let remaining = vstd::slice::slice_to_vec(
                            vstd::slice::slice_subrange(input, i + 1, input.len()),
                        );
                        proof {
                            assert(input@.subrange(i as int + 1, input@.len() as int) =~= input@.skip(
                                i as int + 1,
                            ));
                        }
                        return Ok(ParseResult::Finished { result, remaining });
                    } else {
                        return Err(StringParseError);
                    }
                } else if b == BACKSLASH {
                    escaped = true;
                } else {
                    content.push(b);
                }
            }
            i = i + 1;
        }
        proof {
            assert(input@.skip(i as int) =~= Seq::<u8>::empty());
        }
        Ok(
            ParseResult::Incomplete {
                new_state: StringParserState {
                    progress: if in_string {
                        StringParserProgress::InString
                    } else {
                        StringParserProgress::BeforeQuote
                    },
                    bytes: content,
                    next_char_escaped: escaped,
                },
                required_next: Vec::new(),
            },
        )
    }
}

} // verus!
