//! A parser for a decimal integer constrained to an inclusive range.

use vstd::arithmetic::mul::{
    lemma_mul_inequality, lemma_mul_is_distributive_add_other_way,
};
use vstd::prelude::*;

use crate::result::{ParseError, ParseResult, SpecParseOutcome};

verus! {

/// Ten to the power `k`.
pub open spec fn pow10(k: nat) -> int
    decreases k,
{
    if k == 0 {
        1
    } else {
        10 * pow10((k - 1) as nat)
    }
}

/// Ten to any power is at least one.
pub proof fn lemma_pow10_pos(k: nat)
    ensures
        pow10(k) >= 1,
    decreases k,
{
    if k > 0 {
        lemma_pow10_pos((k - 1) as nat);
    }
}

/// Powers of ten grow monotonically with the exponent.
pub proof fn lemma_pow10_mono(j: nat, k: nat)
    requires
        j <= k,
    ensures
        pow10(j) <= pow10(k),
    decreases k,
{
    if j < k {
        lemma_pow10_mono(j, (k - 1) as nat);
        lemma_pow10_pos((k - 1) as nat);
    }
}

/// Ten to the power `k` exceeds `k` itself.
pub proof fn lemma_pow10_lower(k: nat)
    ensures
        pow10(k) >= k + 1,
    decreases k,
{
    if k > 0 {
        lemma_pow10_lower((k - 1) as nat);
    }
}

/// True if a decimal numeral whose digits so far spell the magnitude `v` can
/// still denote a magnitude in `[lo, hi]` after `kmin` or more further digits.
/// With `k` further digits the reachable magnitudes are exactly
/// `[v * 10^k, (v + 1) * 10^k - 1]`.
pub open spec fn spec_prefix_reaches(v: int, lo: int, hi: int, kmin: nat) -> bool {
    lo <= hi && (exists|k: nat|
        k >= kmin && v * #[trigger] pow10(k) <= hi && lo <= (v + 1) * pow10(k) - 1)
}

/// Ten to the power 39 exceeds any magnitude that fits in 128 bits.
pub proof fn lemma_pow10_39()
    ensures
        pow10(39) > 340282366920938463463374607431768211455int,
{
    reveal_with_fuel(pow10, 41);
}

/// A magnitude prefix strictly above the upper bound reaches nothing.
pub proof fn lemma_prefix_exceeds(v: int, lo: int, hi: int, kmin: nat)
    requires
        v > hi,
        v >= 0,
    ensures
        !spec_prefix_reaches(v, lo, hi, kmin),
{
    assert forall|k: nat| !(v * #[trigger] pow10(k) <= hi) by {
        lemma_pow10_pos(k);
        lemma_mul_inequality(1, pow10(k), v);
        vstd::arithmetic::mul::lemma_mul_is_commutative(pow10(k), v);
    }
}

/// A magnitude prefix of zero reaches any non-empty magnitude range.
pub proof fn lemma_zero_prefix_reaches(lo: int, hi: int, kmin: nat)
    requires
        0 <= lo <= hi,
    ensures
        spec_prefix_reaches(0, lo, hi, kmin),
{
    let k = if kmin > lo as nat {
        kmin
    } else {
        lo as nat
    };
    lemma_pow10_lower(k);
    vstd::arithmetic::mul::lemma_mul_basics(pow10(k));
    assert(0 * pow10(k) == 0);
    assert((0 + 1) * pow10(k) == pow10(k));
    assert(k >= kmin && 0 * pow10(k) <= hi && lo <= (0 + 1) * pow10(k) - 1);
}

/// An incremental parser for a decimal integer in an inclusive range.
///
/// Accepts an optional leading `-` and a digit sequence.  The branch is
/// rejected as soon as the partial numeral can no longer denote any value in
/// the range, whatever digits follow; it finishes eagerly, consuming the last
/// digit, as soon as the accumulated value is in range and no further digit
/// could keep it so; and it finishes before a terminating non-numeral byte
/// when the accumulated value is in range.
#[derive(Debug, Clone, Copy, PartialEq, Eq, Structural)]
pub struct IntegerParser {
    min: i128,
    max: i128,
}

/// The partial state of an [`IntegerParser`].
#[derive(Debug, Clone, Copy, PartialEq, Eq, Structural)]
pub struct IntegerParserState {
    /// Whether a leading `-` has been consumed.
    pub negative: bool,
    /// Whether at least one digit has been consumed.
    pub digits_seen: bool,
    /// The magnitude spelled by the digits consumed so far.
    pub magnitude: u128,
}

/// The mathematical configuration of an [`IntegerParser`].
pub struct IntegerConfig {
    /// The least allowed value.
    pub min: int,
    /// The greatest allowed value.
    pub max: int,
}

/// The mathematical state of an [`IntegerParser`].
pub struct IntegerState {
    /// Whether a leading `-` has been consumed.
    pub negative: bool,
    /// Whether at least one digit has been consumed.
    pub digits_seen: bool,
    /// The magnitude spelled by the digits consumed so far.
    pub magnitude: int,
}

impl View for IntegerParser {
    type V = IntegerConfig;

    closed spec fn view(&self) -> IntegerConfig {
        IntegerConfig { min: self.min as int, max: self.max as int }
    }
}

impl View for IntegerParserState {
    type V = IntegerState;

    open spec fn view(&self) -> IntegerState {
        IntegerState {
            negative: self.negative,
            digits_seen: self.digits_seen,
            magnitude: self.magnitude as int,
        }
    }
}

/// The least magnitude a value of the given sign may have in `[min, max]`.
pub open spec fn mag_lo(cfg: IntegerConfig, negative: bool) -> int {
    if negative {
        if cfg.max >= 0 {
            0
        } else {
            -cfg.max
        }
    } else {
        if cfg.min <= 0 {
            0
        } else {
            cfg.min
        }
    }
}

/// The greatest magnitude a value of the given sign may have in `[min, max]`;
/// negative when no value of that sign lies in the range.
pub open spec fn mag_hi(cfg: IntegerConfig, negative: bool) -> int {
    if negative {
        -cfg.min
    } else {
        cfg.max
    }
}

/// The signed value denoted by an integer-parser state.
pub open spec fn spec_int_value(st: IntegerState) -> int {
    if st.negative {
        -st.magnitude
    } else {
        st.magnitude
    }
}

/// What one call of [`IntegerParser::parse`] yields, as a function of the
/// allowed range, the current state, and the new input.
pub open spec fn spec_int_parse(cfg: IntegerConfig, st: IntegerState, input: Seq<u8>) -> SpecParseOutcome<
    IntegerState,
    int,
>
    decreases input.len(),
{
    if input.len() == 0 {
        SpecParseOutcome::Incomplete { state: st, required_next: Seq::empty() }
    } else {
        let b = input[0];
        let lo = mag_lo(cfg, st.negative);
        let hi = mag_hi(cfg, st.negative);
        if 48 <= b <= 57 {
            let m2 = st.magnitude * 10 + (b - 48);
            if !spec_prefix_reaches(m2, lo, hi, 0) {
                SpecParseOutcome::Rejected { error: ParseError::GrammarViolation }
            } else if lo <= m2 <= hi && !spec_prefix_reaches(m2, lo, hi, 1) {
                SpecParseOutcome::Finished {
                    value: if st.negative {
                        -m2
                    } else {
                        m2
                    },
                    remaining: input.skip(1),
                }
            } else {
                spec_int_parse(
                    cfg,
                    IntegerState { negative: st.negative, digits_seen: true, magnitude: m2 },
                    input.skip(1),
                )
            }
        } else if b == 45 && !st.digits_seen && !st.negative {
            if spec_prefix_reaches(st.magnitude, mag_lo(cfg, true), mag_hi(cfg, true), 1) {
                spec_int_parse(
                    cfg,
                    IntegerState {
                        negative: true,
                        digits_seen: st.digits_seen,
                        magnitude: st.magnitude,
                    },
                    input.skip(1),
                )
            } else {
                SpecParseOutcome::Rejected { error: ParseError::GrammarViolation }
            }
        } else {
            if st.digits_seen && lo <= st.magnitude <= hi {
                SpecParseOutcome::Finished { value: spec_int_value(st), remaining: input }
            } else {
                SpecParseOutcome::Rejected { error: ParseError::GrammarViolation }
            }
        }
    }
}

/// The outcome modelled by an executable integer-parse result.
pub open spec fn integer_outcome(
    r: Result<ParseResult<IntegerParserState, i128>, ParseError>,
) -> SpecParseOutcome<IntegerState, int> {
    match r {
        Err(error) => SpecParseOutcome::Rejected { error },
        Ok(ParseResult::Incomplete { new_state, required_next }) => SpecParseOutcome::Incomplete {
            state: new_state@,
            required_next: required_next@,
        },
        Ok(ParseResult::Finished { result, remaining }) => SpecParseOutcome::Finished {
            value: result as int,
            remaining: remaining@,
        },
    }
}

/// The magnitude bounds for values of the given sign, or `None` when no value
/// of that sign lies in the range.
pub(crate) fn mag_bounds(min: i128, max: i128, negative: bool) -> (r: Option<(u128, u128)>)
    ensures
        match r {
            Some(b) => b.0 == mag_lo(IntegerConfig { min: min as int, max: max as int }, negative)
                && b.1 == mag_hi(IntegerConfig { min: min as int, max: max as int }, negative)
                && b.1 <= i128::MAX as int + 1,
            None => mag_hi(IntegerConfig { min: min as int, max: max as int }, negative) < mag_lo(
                IntegerConfig { min: min as int, max: max as int },
                negative,
            ),
        },
{
    if negative {
        if min > 0 {
            None
        } else {
            let hi: u128 = if min == i128::MIN {
                i128::MAX as u128 + 1
            } else {
                (-min) as u128
            };
            let lo: u128 = if max >= 0 {
                0
            } else if max == i128::MIN {
                i128::MAX as u128 + 1
            } else {
                (-max) as u128
            };
            Some((lo, hi))
        }
    } else {
        if max < 0 {
            None
        } else {
            let hi: u128 = max as u128;
            let lo: u128 = if min <= 0 {
                0
            } else {
                min as u128
            };
            Some((lo, hi))
        }
    }
}

/// True if a numeral spelling magnitude `v` so far can still denote a
/// magnitude in `[lo, hi]`, with at least one further digit when `skip_first`
/// is set.
pub(crate) fn mag_reaches(v: u128, lo: u128, hi: u128, skip_first: bool) -> (r: bool)
    requires
        hi <= i128::MAX as int + 1,
    ensures
        r == spec_prefix_reaches(
            v as int,
            lo as int,
            hi as int,
            if skip_first {
                1nat
            } else {
                0nat
            },
        ),
{
    let ghost kmin: nat = if skip_first {
        1nat
    } else {
        0nat
    };
    if lo > hi {
        return false;
    }
    if v == 0 {
        proof {
            lemma_zero_prefix_reaches(lo as int, hi as int, kmin);
        }
        return true;
    }
    let mut cur: u128 = v;
    let mut pw: u128 = 1;
    let ghost mut k: nat = 0;
    proof {
        reveal_with_fuel(pow10, 3);
        assert(pow10(0) == 1);
        assert(pow10(1) == 10);
        vstd::arithmetic::mul::lemma_mul_basics(v as int);
    }
    if skip_first {
        match cur.checked_mul(10) {
            Some(c) => {
                cur = c;
                pw = 10;
                proof {
                    k = 1;
                }
            },
            None => {
                proof {
                    assert forall|j: nat|
                        j >= kmin implies !((v as int) * #[trigger] pow10(j) <= hi as int && lo as int
                        <= (v as int + 1) * pow10(j) - 1) by {
                        lemma_pow10_mono(1, j);
                        lemma_mul_inequality(pow10(1), pow10(j), v as int);
                        vstd::arithmetic::mul::lemma_mul_is_commutative(pow10(1), v as int);
                        vstd::arithmetic::mul::lemma_mul_is_commutative(pow10(j), v as int);
                        assert((v as int) * pow10(1) == (v as int) * 10);
                        assert((v as int) * pow10(j) >= (v as int) * 10 > hi as int);
                    }
                    assert(!spec_prefix_reaches(v as int, lo as int, hi as int, kmin));
                }
                return false;
            },
        }
    }
    while cur <= hi
        invariant
            kmin == (if skip_first {
                1nat
            } else {
                0nat
            }),
            1 <= v,
            lo <= hi,
            hi <= i128::MAX as int + 1,
            pw as int == pow10(k),
            cur as int == (v as int) * pow10(k),
            k >= kmin,
            pw >= 1,
            cur >= pw,
            k <= 39,
            forall|j: nat|
                kmin <= j < k ==> !((v as int) * #[trigger] pow10(j) <= hi as int && lo as int <= (
                v as int + 1) * pow10(j) - 1),
        decreases 39 - k as int,
    {
        proof {
            lemma_pow10_39();
            if k >= 39 {
                lemma_pow10_mono(39, k);
            }
        }
        let upper: u128 = cur + (pw - 1);
        proof {
            lemma_mul_is_distributive_add_other_way(pow10(k), v as int, 1);
            assert((v as int + 1) * pow10(k) == (v as int) * pow10(k) + pow10(k));
        }
        if lo <= upper {
            proof {
                assert(k >= kmin && (v as int) * pow10(k) <= hi as int && lo as int <= (v as int
                    + 1) * pow10(k) - 1);
            }
            return true;
        }
        let next = match cur.checked_mul(10) {
            Some(c) => c,
            None => {
                proof {
                    assert forall|j: nat|
                        j >= kmin implies !((v as int) * #[trigger] pow10(j) <= hi as int
                        && lo as int <= (v as int + 1) * pow10(j) - 1) by {
                        if j < k {
                        } else if j == k {
                            assert(!(lo as int <= (v as int + 1) * pow10(k) - 1));
                        } else {
                            lemma_pow10_mono((k + 1) as nat, j);
                            lemma_mul_inequality(pow10((k + 1) as nat), pow10(j), v as int);
                            vstd::arithmetic::mul::lemma_mul_is_commutative(
                                pow10((k + 1) as nat),
                                v as int,
                            );
                            vstd::arithmetic::mul::lemma_mul_is_commutative(pow10(j), v as int);
                            assert(pow10((k + 1) as nat) == 10 * pow10(k));
                            vstd::arithmetic::mul::lemma_mul_is_associative(v as int, 10, pow10(k));
                            vstd::arithmetic::mul::lemma_mul_is_commutative(10, pow10(k));
                            vstd::arithmetic::mul::lemma_mul_is_associative(v as int, pow10(k), 10);
                            assert((v as int) * pow10((k + 1) as nat) == ((v as int) * pow10(k))
                                * 10);
                        }
                    }
                    assert(!spec_prefix_reaches(v as int, lo as int, hi as int, kmin));
                }
                return false;
            },
        };
        proof {
            assert(!(lo as int <= (v as int + 1) * pow10(k) - 1));
            assert(pow10((k + 1) as nat) == 10 * pow10(k));
            vstd::arithmetic::mul::lemma_mul_is_associative(v as int, 10, pow10(k));
            vstd::arithmetic::mul::lemma_mul_is_commutative(10, pow10(k));
            vstd::arithmetic::mul::lemma_mul_is_associative(v as int, pow10(k), 10);
            assert((v as int) * pow10((k + 1) as nat) == ((v as int) * pow10(k)) * 10);
            k = k + 1;
        }
        cur = next;
        pw = pw * 10;
    }
    proof {
        assert forall|j: nat|
            j >= kmin implies !((v as int) * #[trigger] pow10(j) <= hi as int && lo as int <= (
        v as int + 1) * pow10(j) - 1) by {
            if j >= k {
                lemma_pow10_mono(k, j);
                lemma_mul_inequality(pow10(k), pow10(j), v as int);
                vstd::arithmetic::mul::lemma_mul_is_commutative(pow10(k), v as int);
                vstd::arithmetic::mul::lemma_mul_is_commutative(pow10(j), v as int);
            }
        }
        assert(!spec_prefix_reaches(v as int, lo as int, hi as int, kmin));
    }
    false
}


/// Splitting the input anywhere does not change what an integer parse yields:
/// feeding `first` and then `second` from the state the first call returned
/// gives exactly the outcome of feeding `first + second` in one call.
pub proof fn lemma_int_parse_split(
    cfg: IntegerConfig,
    st: IntegerState,
    first: Seq<u8>,
    second: Seq<u8>,
)
    ensures
        spec_int_parse(cfg, st, first + second) == match spec_int_parse(cfg, st, first) {
            SpecParseOutcome::Incomplete { state, .. } => spec_int_parse(cfg, state, second),
            SpecParseOutcome::Finished { value, remaining } => SpecParseOutcome::Finished {
                value,
                remaining: remaining + second,
            },
            SpecParseOutcome::Rejected { error } => SpecParseOutcome::<
                IntegerState,
                int,
            >::Rejected { error },
        },
    decreases first.len(),
{
    if first.len() == 0 {
        assert(first + second =~= second);
    } else {
        assert((first + second)[0] == first[0]);
        assert((first + second).skip(1) =~= first.skip(1) + second);
        let b = first[0];
        if 48 <= b <= 57 {
            lemma_int_parse_split(
                cfg,
                IntegerState {
                    negative: st.negative,
                    digits_seen: true,
                    magnitude: st.magnitude * 10 + (b - 48),
                },
                first.skip(1),
                second,
            );
        } else if b == 45 && !st.digits_seen && !st.negative {
            lemma_int_parse_split(
                cfg,
                IntegerState {
                    negative: true,
                    digits_seen: st.digits_seen,
                    magnitude: st.magnitude,
                },
                first.skip(1),
                second,
            );
        }
    }
}

impl IntegerParser {
    /// Create a parser for integers in the given inclusive range.
    pub fn new(range: core::ops::RangeInclusive<i128>) -> (r: IntegerParser)
        ensures
            r@.min == range@.start as int,
            r@.max == range@.end as int,
    {
        IntegerParser { min: *range.start(), max: *range.end() }
    }

    /// The initial state: no sign, no digits, magnitude zero.
    pub fn create_parser_state(&self) -> (r: IntegerParserState)
        ensures
            r@.negative == false,
            r@.digits_seen == false,
            r@.magnitude == 0,
    {
        IntegerParserState { negative: false, digits_seen: false, magnitude: 0 }
    }

    /// Consume new input bytes against the bounded-integer grammar.
    pub fn parse(&self, state: &IntegerParserState, input: &[u8]) -> (r: Result<
        ParseResult<IntegerParserState, i128>,
        ParseError,
    >)
        ensures
            integer_outcome(r) == spec_int_parse(self@, state@, input@),
    {
        let min = self.min;
        let max = self.max;
        let mut negative = state.negative;
        let mut digits_seen = state.digits_seen;
        let mut magnitude = state.magnitude;
        let mut i: usize = 0;
        proof {
            assert(input@.skip(0) =~= input@);
        }
        while i < input.len()
            invariant
                i <= input@.len(),
                self@.min == min as int,
                self@.max == max as int,
                spec_int_parse(self@, state@, input@) == spec_int_parse(
                    self@,
                    IntegerState { negative, digits_seen, magnitude: magnitude as int },
                    input@.skip(i as int),
                ),
            decreases input@.len() - i,
        {
            let b = *vstd::slice::slice_index_get(input, i);
            proof {
                assert(input@.skip(i as int)[0] == input@[i as int]);
                assert(input@.skip(i as int).skip(1) =~= input@.skip(i as int + 1));
            }
            if 48 <= b && b <= 57 {
                let d = (b - 48) as u128;
                let ghost m2_spec: int = magnitude as int * 10 + d;
                let bounds = mag_bounds(min, max, negative);
                match bounds {
                    None => {
                        return Err(ParseError::GrammarViolation);
                    },
                    Some((lo, hi)) => {
                        let m2 = match magnitude.checked_mul(10) {
                            Some(x) => x.checked_add(d),
                            None => None,
                        };
                        match m2 {
                            None => {
                                proof {
                                    lemma_prefix_exceeds(m2_spec, lo as int, hi as int, 0);
                                }
                                return Err(ParseError::GrammarViolation);
                            },
                            Some(m2) => {
                                if !mag_reaches(m2, lo, hi, false) {
                                    return Err(ParseError::GrammarViolation);
                                } else if lo <= m2 && m2 <= hi && !mag_reaches(m2, lo, hi, true) {
                                    let value: i128 = if negative {
                                        if m2 > i128::MAX as u128 {
                                            i128::MIN
                                        } else {
                                            -(m2 as i128)
                                        }
                                    } else {
                                        m2 as i128
                                    };
                                    let remaining = vstd::slice::slice_to_vec(
                                        vstd::slice::slice_subrange(input, i + 1, input.len()),
                                    );
                                    proof {
                                        assert(input@.subrange(i as int + 1, input@.len() as int)
                                            =~= input@.skip(i as int + 1));
                                    }
                                    return Ok(ParseResult::Finished { result: value, remaining });
                                } else {
                                    magnitude = m2;
                                    digits_seen = true;
                                }
                            },
                        }
                    },
                }
            } else if b == 45 && !digits_seen && !negative {
                match mag_bounds(min, max, true) {
                    None => {
                        return Err(ParseError::GrammarViolation);
                    },
                    Some((lo, hi)) => {
                        if mag_reaches(magnitude, lo, hi, true) {
                            negative = true;
                        } else {
                            return Err(ParseError::GrammarViolation);
                        }
                    },
                }
            } else {
                match mag_bounds(min, max, negative) {
                    None => {
                        return Err(ParseError::GrammarViolation);
                    },
                    Some((lo, hi)) => {
                        if digits_seen && lo <= magnitude && magnitude <= hi {
                            let value: i128 = if negative {
                                if magnitude > i128::MAX as u128 {
                                    i128::MIN
                                } else {
                                    -(magnitude as i128)
                                }
                            } else {
                                magnitude as i128
                            };
                            let remaining = vstd::slice::slice_to_vec(
                                vstd::slice::slice_subrange(input, i, input.len()),
                            );
                            proof {
                                assert(input@.subrange(i as int, input@.len() as int) =~= input@.skip(
                                    i as int,
                                ));
                            }
                            return Ok(ParseResult::Finished { result: value, remaining });
                        } else {
                            return Err(ParseError::GrammarViolation);
                        }
                    },
                }
            }
            i = i + 1;
        }
        proof {
            assert(input@.skip(i as int) =~= Seq::<u8>::empty());
        }
        Ok(
            ParseResult::Incomplete {
                new_state: IntegerParserState { negative, digits_seen, magnitude },
                required_next: Vec::new(),
            },
        )
    }
}

} // verus!
