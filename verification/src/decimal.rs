//! A parser for a decimal number with an optional fractional part,
//! constrained to an inclusive range with whole-number bounds.

use vstd::prelude::*;

use crate::integer::{
    mag_bounds, mag_hi, mag_lo, mag_reaches, spec_prefix_reaches, IntegerConfig,
};
use crate::result::{ParseError, ParseResult, SpecParseOutcome};

verus! {

/// The dot byte that separates the integer and fractional parts.
pub const DOT: u8 = 46;

/// An incremental parser for a decimal number in an inclusive range with
/// whole-number bounds: an optional leading `-`, integer digits, and an
/// optional `.` followed by fractional digits.
///
/// The branch is rejected as soon as no continuation of the partial numeral
/// can denote a value in the range; it finishes before a terminating
/// non-numeral byte when the accumulated value is in range.  Because the
/// bounds are whole numbers, whether the value is in range depends only on
/// its sign, its integer magnitude, and whether its fraction is zero.
#[derive(Debug, Clone, Copy, PartialEq, Eq, Structural)]
pub struct DecimalParser {
    min: i128,
    max: i128,
}

/// The partial state of a [`DecimalParser`].
#[derive(Debug, Clone, Copy, PartialEq, Eq, Structural)]
pub struct DecimalParserState {
    /// Whether a leading `-` has been consumed.
    pub negative: bool,
    /// Whether at least one integer digit has been consumed.
    pub digits_seen: bool,
    /// Whether the dot has been consumed.
    pub in_fraction: bool,
    /// Whether at least one fractional digit has been consumed.
    pub fraction_seen: bool,
    /// Whether some consumed fractional digit is not zero.
    pub fraction_nonzero: bool,
    /// The integer magnitude spelled by the digits consumed so far.
    pub magnitude: u128,
}

/// The mathematical state of a [`DecimalParser`].
pub struct DecimalState {
    /// Whether a leading `-` has been consumed.
    pub negative: bool,
    /// Whether at least one integer digit has been consumed.
    pub digits_seen: bool,
    /// Whether the dot has been consumed.
    pub in_fraction: bool,
    /// Whether at least one fractional digit has been consumed.
    pub fraction_seen: bool,
    /// Whether some consumed fractional digit is not zero.
    pub fraction_nonzero: bool,
    /// The integer magnitude spelled by the digits consumed so far.
    pub magnitude: int,
}

impl View for DecimalParser {
    type V = IntegerConfig;

    closed spec fn view(&self) -> IntegerConfig {
        IntegerConfig { min: self.min as int, max: self.max as int }
    }
}

impl View for DecimalParserState {
    type V = DecimalState;

    open spec fn view(&self) -> DecimalState {
        DecimalState {
            negative: self.negative,
            digits_seen: self.digits_seen,
            in_fraction: self.in_fraction,
            fraction_seen: self.fraction_seen,
            fraction_nonzero: self.fraction_nonzero,
            magnitude: self.magnitude as int,
        }
    }
}

/// True if a value with this sign, integer magnitude, and a zero fraction
/// lies in the range.
pub open spec fn spec_whole_in_range(cfg: IntegerConfig, negative: bool, m: int) -> bool {
    mag_lo(cfg, negative) <= m <= mag_hi(cfg, negative)
}

/// True if a value with this sign, integer magnitude, and a nonzero fraction
/// can lie in the range: its magnitude falls strictly between `m` and `m + 1`.
pub open spec fn spec_fraction_in_range(cfg: IntegerConfig, negative: bool, m: int) -> bool {
    mag_lo(cfg, negative) <= m < mag_hi(cfg, negative)
}

/// What one call of [`DecimalParser::parse`] yields, as a function of the
/// allowed range, the current state, and the new input.
pub open spec fn spec_decimal_parse(
    cfg: IntegerConfig,
    st: DecimalState,
    input: Seq<u8>,
) -> SpecParseOutcome<DecimalState, ()>
    decreases input.len(),
{
    if input.len() == 0 {
        SpecParseOutcome::Incomplete { state: st, required_next: Seq::empty() }
    } else {
        let b = input[0];
        let lo = mag_lo(cfg, st.negative);
        let hi = mag_hi(cfg, st.negative);
        if 48 <= b <= 57 {
            if !st.in_fraction {
                let m2 = st.magnitude * 10 + (b - 48);
                if !spec_prefix_reaches(m2, lo, hi, 0) {
                    SpecParseOutcome::Rejected { error: ParseError::GrammarViolation }
                } else {
                    spec_decimal_parse(
                        cfg,
                        DecimalState {
                            negative: st.negative,
                            digits_seen: true,
                            in_fraction: false,
                            fraction_seen: st.fraction_seen,
                            fraction_nonzero: st.fraction_nonzero,
                            magnitude: m2,
                        },
                        input.skip(1),
                    )
                }
            } else {
                let nonzero = st.fraction_nonzero || b != 48;
                let viable = if nonzero {
                    spec_fraction_in_range(cfg, st.negative, st.magnitude)
                } else {
                    spec_whole_in_range(cfg, st.negative, st.magnitude)
                        || spec_fraction_in_range(cfg, st.negative, st.magnitude)
                };
                if viable {
                    spec_decimal_parse(
                        cfg,
                        DecimalState {
                            negative: st.negative,
                            digits_seen: st.digits_seen,
                            in_fraction: true,
                            fraction_seen: true,
                            fraction_nonzero: nonzero,
                            magnitude: st.magnitude,
                        },
                        input.skip(1),
                    )
                } else {
                    SpecParseOutcome::Rejected { error: ParseError::GrammarViolation }
                }
            }
        } else if b == DOT && st.digits_seen && !st.in_fraction {
            if spec_whole_in_range(cfg, st.negative, st.magnitude) || spec_fraction_in_range(
                cfg,
                st.negative,
                st.magnitude,
            ) {
                spec_decimal_parse(
                    cfg,
                    DecimalState {
                        negative: st.negative,
                        digits_seen: st.digits_seen,
                        in_fraction: true,
                        fraction_seen: st.fraction_seen,
                        fraction_nonzero: st.fraction_nonzero,
                        magnitude: st.magnitude,
                    },
                    input.skip(1),
                )
            } else {
                SpecParseOutcome::Rejected { error: ParseError::GrammarViolation }
            }
        } else if b == 45 && !st.digits_seen && !st.negative && !st.in_fraction {
            if spec_prefix_reaches(st.magnitude, mag_lo(cfg, true), mag_hi(cfg, true), 1) {
                spec_decimal_parse(
                    cfg,
                    DecimalState {
                        negative: true,
                        digits_seen: st.digits_seen,
                        in_fraction: st.in_fraction,
                        fraction_seen: st.fraction_seen,
                        fraction_nonzero: st.fraction_nonzero,
                        magnitude: st.magnitude,
                    },
                    input.skip(1),
                )
            } else {
                SpecParseOutcome::Rejected { error: ParseError::GrammarViolation }
            }
        } else {
            let complete = st.digits_seen && (!st.in_fraction || st.fraction_seen);
            let in_range = if st.fraction_nonzero {
                spec_fraction_in_range(cfg, st.negative, st.magnitude)
            } else {
                spec_whole_in_range(cfg, st.negative, st.magnitude)
            };
            if complete && in_range {
                SpecParseOutcome::Finished { value: (), remaining: input }
            } else {
                SpecParseOutcome::Rejected { error: ParseError::GrammarViolation }
            }
        }
    }
}

/// The outcome modelled by an executable decimal-parse result.
pub open spec fn decimal_outcome(
    r: Result<ParseResult<DecimalParserState, ()>, ParseError>,
) -> SpecParseOutcome<DecimalState, ()> {
    match r {
        Err(error) => SpecParseOutcome::Rejected { error },
        Ok(ParseResult::Incomplete { new_state, required_next }) => SpecParseOutcome::Incomplete {
            state: new_state@,
            required_next: required_next@,
        },
        Ok(ParseResult::Finished { result: _, remaining }) => SpecParseOutcome::Finished {
            value: (),
            remaining: remaining@,
        },
    }
}

impl DecimalParser {
    /// Create a parser for decimal numbers in the given inclusive range of
    /// whole-number bounds.
    pub fn new(min: i128, max: i128) -> (r: DecimalParser)
        ensures
            r@.min == min as int,
            r@.max == max as int,
    {
        DecimalParser { min, max }
    }

    /// The initial state: no sign, no digits, before any dot.
    pub fn create_parser_state(&self) -> (r: DecimalParserState)
        ensures
            r@.negative == false,
            r@.digits_seen == false,
            r@.in_fraction == false,
            r@.fraction_seen == false,
            r@.fraction_nonzero == false,
            r@.magnitude == 0,
    {
        DecimalParserState {
            negative: false,
            digits_seen: false,
            in_fraction: false,
            fraction_seen: false,
            fraction_nonzero: false,
            magnitude: 0,
        }
    }

    /// Consume new input bytes against the bounded-decimal grammar.
    pub fn parse(&self, state: &DecimalParserState, input: &[u8]) -> (r: Result<
        ParseResult<DecimalParserState, ()>,
        ParseError,
    >)
        ensures
            decimal_outcome(r) == spec_decimal_parse(self@, state@, input@),
    {
        let min = self.min;
        let max = self.max;
        let mut negative = state.negative;
        let mut digits_seen = state.digits_seen;
        let mut in_fraction = state.in_fraction;
        let mut fraction_seen = state.fraction_seen;
        let mut fraction_nonzero = state.fraction_nonzero;
        let mut magnitude = state.magnitude;
        let mut i: usize = 0;
        proof {
            assert(input@.skip(0) =~= input@);
        }
        while i < input.len()
            invariant
                i <= input@.len(),
                self@.min == min as int,
                self@.max == max as int,
                spec_decimal_parse(self@, state@, input@) == spec_decimal_parse(
                    self@,
                    DecimalState {
                        negative,
                        digits_seen,
                        in_fraction,
                        fraction_seen,
                        fraction_nonzero,
                        magnitude: magnitude as int,
                    },
                    input@.skip(i as int),
                ),
            decreases input@.len() - i,
        {
            let b = *vstd::slice::slice_index_get(input, i);
            proof {
                assert(input@.skip(i as int)[0] == input@[i as int]);
                assert(input@.skip(i as int).skip(1) =~= input@.skip(i as int + 1));
            }
            if 48 <= b && b <= 57 {
                if !in_fraction {
                    let d = (b - 48) as u128;
                    let ghost m2_spec: int = magnitude as int * 10 + d;
                    match mag_bounds(min, max, negative) {
                        None => {
                            return Err(ParseError::GrammarViolation);
                        },
                        Some((lo, hi)) => {
                            let m2 = match magnitude.checked_mul(10) {
                                Some(x) => x.checked_add(d),
                                None => None,
                            };
                            match m2 {
                                None => {
                                    proof {
                                        crate::integer::lemma_prefix_exceeds(
                                            m2_spec,
                                            lo as int,
                                            hi as int,
                                            0,
                                        );
                                    }
                                    return Err(ParseError::GrammarViolation);
                                },
                                Some(m2) => {
                                    if !mag_reaches(m2, lo, hi, false) {
                                        return Err(ParseError::GrammarViolation);
                                    } else {
                                        magnitude = m2;
                                        digits_seen = true;
                                    }
                                },
                            }
                        },
                    }
                } else {
                    let nonzero = fraction_nonzero || b != 48;
                    let viable = match mag_bounds(min, max, negative) {
                        None => false,
                        Some((lo, hi)) => {
                            if nonzero {
                                lo <= magnitude && magnitude < hi
                            } else {
                                lo <= magnitude && magnitude <= hi
                            }
                        },
                    };
                    if viable {
                        fraction_seen = true;
                        fraction_nonzero = nonzero;
                    } else {
                        return Err(ParseError::GrammarViolation);
                    }
                }
            } else if b == DOT && digits_seen && !in_fraction {
                let viable = match mag_bounds(min, max, negative) {
                    None => false,
                    Some((lo, hi)) => lo <= magnitude && magnitude <= hi,
                };
                if viable {
                    in_fraction = true;
                } else {
                    return Err(ParseError::GrammarViolation);
                }
            } else if b == 45 && !digits_seen && !negative && !in_fraction {
                match mag_bounds(min, max, true) {
                    None => {
                        return Err(ParseError::GrammarViolation);
                    },
                    Some((lo, hi)) => {
                        if mag_reaches(magnitude, lo, hi, true) {
                            negative = true;
                        } else {
                            return Err(ParseError::GrammarViolation);
                        }
                    },
                }
            } else {
                let complete = digits_seen && (!in_fraction || fraction_seen);
                let in_range = match mag_bounds(min, max, negative) {
                    None => false,
                    Some((lo, hi)) => {
                        if fraction_nonzero {
                            lo <= magnitude && magnitude < hi
                        } else {
                            lo <= magnitude && magnitude <= hi
                        }
                    },
                };
                if complete && in_range {
                    let remaining = vstd::slice::slice_to_vec(
                        vstd::slice::slice_subrange(input, i, input.len()),
                    );
                    proof {
                        assert(input@.subrange(i as int, input@.len() as int) =~= input@.skip(
                            i as int,
                        ));
                    }
                    return Ok(ParseResult::Finished { result: (), remaining });
                } else {
                    return Err(ParseError::GrammarViolation);
                }
            }
            i = i + 1;
        }
        proof {
            assert(input@.skip(i as int) =~= Seq::<u8>::empty());
        }
        Ok(
            ParseResult::Incomplete {
                new_state: DecimalParserState {
                    negative,
                    digits_seen,
                    in_fraction,
                    fraction_seen,
                    fraction_nonzero,
                    magnitude,
                },
                required_next: Vec::new(),
            },
        )
    }
}

} // verus!
