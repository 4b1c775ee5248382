//! The incremental parse semantics of a grammar, and the executable engine
//! proved against it.

use vstd::prelude::*;

use crate::grammar::{
    duplicate_values, spec_initial_state, state_matches, values_view, ChoiceParser,
    ChoiceParserState, Grammar, GrammarState, GrammarV, IndexParser, IndexParserState, ParseValue,
    RepeatParser, RepeatParserState, SequenceParser, SequenceParserState, StateV, ValueV,
};
use crate::decimal::spec_decimal_parse;
use crate::integer::spec_int_parse;
use crate::line::spec_line_parse;
use crate::literal::spec_literal_parse;
use crate::result::{ParseError, ParseResult, SpecParseOutcome};
use crate::string::spec_string_parse;

verus! {

broadcast use
    vstd::seq::axiom_seq_index_decreases,
    vstd::std_specs::vec::axiom_vec_index_decreases,
    vstd::std_specs::vec::axiom_vec_decreases_to_view,
;

/// The number of leading bytes two hints agree on.
pub open spec fn spec_common_len(a: Seq<u8>, b: Seq<u8>) -> int
    decreases a.len(),
{
    if a.len() == 0 || b.len() == 0 || a[0] != b[0] {
        0
    } else {
        1 + spec_common_len(a.skip(1), b.skip(1))
    }
}

/// The longest common prefix of two hints: the only continuation that is safe
/// to enforce when either of two incomplete alternatives may still accept.
pub open spec fn spec_common_prefix(a: Seq<u8>, b: Seq<u8>) -> Seq<u8> {
    a.take(spec_common_len(a, b))
}

/// The common-prefix length is well formed: it never exceeds either hint, the
/// two hints agree on every byte under it, and it is maximal.
pub proof fn lemma_common_len(a: Seq<u8>, b: Seq<u8>)
    ensures
        0 <= spec_common_len(a, b) <= a.len(),
        spec_common_len(a, b) <= b.len(),
        forall|j: int| 0 <= j < spec_common_len(a, b) ==> a[j] == b[j],
        spec_common_len(a, b) < a.len() && spec_common_len(a, b) < b.len() ==> a[spec_common_len(
            a,
            b,
        )] != b[spec_common_len(a, b)],
    decreases a.len(),
{
    if a.len() == 0 || b.len() == 0 || a[0] != b[0] {
    } else {
        lemma_common_len(a.skip(1), b.skip(1));
        let n = spec_common_len(a, b);
        assert forall|j: int| 0 <= j < n implies a[j] == b[j] by {
            if j > 0 {
                assert(a.skip(1)[j - 1] == a[j]);
                assert(b.skip(1)[j - 1] == b[j]);
            }
        }
        if n < a.len() && n < b.len() {
            assert(a.skip(1)[n - 1] == a[n]);
            assert(b.skip(1)[n - 1] == b[n]);
        }
    }
}

/// How many repetitions a repeat combinator may still add.
pub open spec fn rep_slack(max: int, count: int) -> int {
    if count <= max {
        max - count
    } else {
        0
    }
}

/// The outcome of a literal parse, lifted to the engine's model.
pub open spec fn lift_literal(o: SpecParseOutcome<int, ()>) -> SpecParseOutcome<StateV, ValueV> {
    match o {
        SpecParseOutcome::Rejected { error } => SpecParseOutcome::Rejected { error },
        SpecParseOutcome::Incomplete { state, required_next } => SpecParseOutcome::Incomplete {
            state: StateV::Literal(state),
            required_next,
        },
        SpecParseOutcome::Finished { value: _, remaining } => SpecParseOutcome::Finished {
            value: ValueV::Unit,
            remaining,
        },
    }
}

/// The outcome of an integer parse, lifted to the engine's model.
pub open spec fn lift_integer(
    o: SpecParseOutcome<crate::integer::IntegerState, int>,
) -> SpecParseOutcome<StateV, ValueV> {
    match o {
        SpecParseOutcome::Rejected { error } => SpecParseOutcome::Rejected { error },
        SpecParseOutcome::Incomplete { state, required_next } => SpecParseOutcome::Incomplete {
            state: StateV::Integer(state),
            required_next,
        },
        SpecParseOutcome::Finished { value, remaining } => SpecParseOutcome::Finished {
            value: ValueV::Integer(value),
            remaining,
        },
    }
}

/// The outcome of a decimal parse, lifted to the engine's model.
pub open spec fn lift_decimal(
    o: SpecParseOutcome<crate::decimal::DecimalState, ()>,
) -> SpecParseOutcome<StateV, ValueV> {
    match o {
        SpecParseOutcome::Rejected { error } => SpecParseOutcome::Rejected { error },
        SpecParseOutcome::Incomplete { state, required_next } => SpecParseOutcome::Incomplete {
            state: StateV::Decimal(state),
            required_next,
        },
        SpecParseOutcome::Finished { value: _, remaining } => SpecParseOutcome::Finished {
            value: ValueV::Unit,
            remaining,
        },
    }
}

/// The outcome of a quoted-string parse, lifted to the engine's model.
pub open spec fn lift_text(
    o: SpecParseOutcome<crate::string::StringState, Seq<char>>,
) -> SpecParseOutcome<StateV, ValueV> {
    match o {
        SpecParseOutcome::Rejected { error } => SpecParseOutcome::Rejected { error },
        SpecParseOutcome::Incomplete { state, required_next } => SpecParseOutcome::Incomplete {
            state: StateV::Text(state),
            required_next,
        },
        SpecParseOutcome::Finished { value, remaining } => SpecParseOutcome::Finished {
            value: ValueV::Text(value),
            remaining,
        },
    }
}

/// The outcome of a line parse, lifted to the engine's model.
pub open spec fn lift_line(
    o: SpecParseOutcome<crate::line::LineState, Seq<char>>,
) -> SpecParseOutcome<StateV, ValueV> {
    match o {
        SpecParseOutcome::Rejected { error } => SpecParseOutcome::Rejected { error },
        SpecParseOutcome::Incomplete { state, required_next } => SpecParseOutcome::Incomplete {
            state: StateV::Line(state),
            required_next,
        },
        SpecParseOutcome::Finished { value, remaining } => SpecParseOutcome::Finished {
            value: ValueV::Text(value),
            remaining,
        },
    }
}

/// What one call of the engine yields, as a function of the grammar, the
/// current state, and the new input.  This is the reference semantics every
/// executable parse is proved against.
pub open spec fn spec_parse(g: GrammarV, st: StateV, input: Seq<u8>) -> SpecParseOutcome<
    StateV,
    ValueV,
>
    decreases g, input.len(), 0int, 0int,
{
    match g {
        GrammarV::Literal(lit) => match st {
            StateV::Literal(m) => lift_literal(spec_literal_parse(lit, m, input)),
            _ => SpecParseOutcome::Rejected { error: ParseError::GrammarViolation },
        },
        GrammarV::Integer(cfg) => match st {
            StateV::Integer(s) => lift_integer(spec_int_parse(cfg, s, input)),
            _ => SpecParseOutcome::Rejected { error: ParseError::GrammarViolation },
        },
        GrammarV::Decimal(cfg) => match st {
            StateV::Decimal(s) => lift_decimal(spec_decimal_parse(cfg, s, input)),
            _ => SpecParseOutcome::Rejected { error: ParseError::GrammarViolation },
        },
        GrammarV::Text(cfg) => match st {
            StateV::Text(s) => lift_text(spec_string_parse(cfg, s, input)),
            _ => SpecParseOutcome::Rejected { error: ParseError::GrammarViolation },
        },
        GrammarV::Line => match st {
            StateV::Line(s) => lift_line(spec_line_parse(s, input)),
            _ => SpecParseOutcome::Rejected { error: ParseError::GrammarViolation },
        },
        GrammarV::Sequence(g1, g2) => match st {
            StateV::SequenceFirst(s1) => match spec_parse(*g1, *s1, input) {
                SpecParseOutcome::Rejected { error } => SpecParseOutcome::Rejected { error },
                SpecParseOutcome::Incomplete { state, required_next } => SpecParseOutcome::Incomplete {
                    state: StateV::SequenceFirst(Box::new(state)),
                    required_next,
                },
                SpecParseOutcome::Finished { value: v1, remaining } => match spec_parse(
                    *g2,
                    spec_initial_state(*g2),
                    remaining,
                ) {
                    SpecParseOutcome::Rejected { error } => SpecParseOutcome::Rejected { error },
                    SpecParseOutcome::Incomplete { state, required_next } => SpecParseOutcome::Incomplete {
                        state: StateV::SequenceSecond(Box::new(state), v1),
                        required_next,
                    },
                    SpecParseOutcome::Finished { value: v2, remaining } => SpecParseOutcome::Finished {
                        value: ValueV::Pair(Box::new(v1), Box::new(v2)),
                        remaining,
                    },
                },
            },
            StateV::SequenceSecond(s2, v1) => match spec_parse(*g2, *s2, input) {
                SpecParseOutcome::Rejected { error } => SpecParseOutcome::Rejected { error },
                SpecParseOutcome::Incomplete { state, required_next } => SpecParseOutcome::Incomplete {
                    state: StateV::SequenceSecond(Box::new(state), v1),
                    required_next,
                },
                SpecParseOutcome::Finished { value: v2, remaining } => SpecParseOutcome::Finished {
                    value: ValueV::Pair(Box::new(v1), Box::new(v2)),
                    remaining,
                },
            },
            _ => SpecParseOutcome::Rejected { error: ParseError::GrammarViolation },
        },
        GrammarV::Choice(g1, g2) => match st {
            StateV::Choice(sl1, sl2) => {
                let r1 = match sl1 {
                    Ok(s1) => spec_parse(*g1, *s1, input),
                    Err(e) => SpecParseOutcome::Rejected { error: e },
                };
                match r1 {
                    SpecParseOutcome::Finished { value, remaining } => SpecParseOutcome::Finished {
                        value: ValueV::Left(Box::new(value)),
                        remaining,
                    },
                    _ => {
                        let r2 = match sl2 {
                            Ok(s2) => spec_parse(*g2, *s2, input),
                            Err(e) => SpecParseOutcome::Rejected { error: e },
                        };
                        match r2 {
                            SpecParseOutcome::Finished { value, remaining } => SpecParseOutcome::Finished {
                                value: ValueV::Right(Box::new(value)),
                                remaining,
                            },
                            _ => match (r1, r2) {
                                (
                                    SpecParseOutcome::Incomplete {
                                        state: n1,
                                        required_next: h1,
                                    },
                                    SpecParseOutcome::Incomplete {
                                        state: n2,
                                        required_next: h2,
                                    },
                                ) => SpecParseOutcome::Incomplete {
                                    state: StateV::Choice(
                                        Ok(Box::new(n1)),
                                        Ok(Box::new(n2)),
                                    ),
                                    required_next: spec_common_prefix(h1, h2),
                                },
                                (
                                    SpecParseOutcome::Incomplete {
                                        state: n1,
                                        required_next: h1,
                                    },
                                    SpecParseOutcome::Rejected { error: e2 },
                                ) => SpecParseOutcome::Incomplete {
                                    state: StateV::Choice(Ok(Box::new(n1)), Err(e2)),
                                    required_next: h1,
                                },
                                (
                                    SpecParseOutcome::Rejected { error: e1 },
                                    SpecParseOutcome::Incomplete {
                                        state: n2,
                                        required_next: h2,
                                    },
                                ) => SpecParseOutcome::Incomplete {
                                    state: StateV::Choice(Err(e1), Ok(Box::new(n2))),
                                    required_next: h2,
                                },
                                _ => SpecParseOutcome::Rejected {
                                    error: ParseError::CompositionExhaustion,
                                },
                            },
                        }
                    },
                }
            },
            _ => SpecParseOutcome::Rejected { error: ParseError::GrammarViolation },
        },
        GrammarV::Repeat(sub, min, max) => match st {
            StateV::Repeat(in_progress, last, outputs) => spec_repeat(
                *sub,
                min,
                max,
                in_progress,
                *last,
                outputs,
                input,
            ),
            _ => SpecParseOutcome::Rejected { error: ParseError::GrammarViolation },
        },
        GrammarV::Index(gs) => match st {
            StateV::Index(sts) => {
                if sts.len() == gs.len() {
                    match spec_index_winner(gs, sts, input, 0) {
                        Some(win) => SpecParseOutcome::Finished {
                            value: ValueV::Indexed(win.0, Box::new(win.1)),
                            remaining: win.2,
                        },
                        None => {
                            if spec_index_live(gs, sts, input, 0) {
                                SpecParseOutcome::Incomplete {
                                    state: StateV::Index(spec_index_states(gs, sts, input)),
                                    required_next: match spec_index_hint(gs, sts, input, 0, None) {
                                        Some(h) => h,
                                        None => Seq::empty(),
                                    },
                                }
                            } else {
                                SpecParseOutcome::Rejected {
                                    error: ParseError::CompositionExhaustion,
                                }
                            }
                        },
                    }
                } else {
                    SpecParseOutcome::Rejected { error: ParseError::GrammarViolation }
                }
            },
            _ => SpecParseOutcome::Rejected { error: ParseError::GrammarViolation },
        },
    }
}

/// One step of a repetition: run the current cycle; on a finish, collect the
/// output, stop at the count ceiling, probe for a hint when the input is
/// exhausted, or start a fresh cycle on the leftover bytes; on a failure,
/// finish gracefully when no cycle is in progress and the count is in range.
pub open spec fn spec_repeat(
    sub: GrammarV,
    min: int,
    max: int,
    in_progress: bool,
    last: StateV,
    outputs: Seq<ValueV>,
    input: Seq<u8>,
) -> SpecParseOutcome<StateV, ValueV>
    decreases sub, input.len(), 1int, rep_slack(max, outputs.len() as int),
{
    match spec_parse(sub, last, input) {
        SpecParseOutcome::Rejected { error } => {
            if !in_progress && min <= outputs.len() <= max {
                SpecParseOutcome::Finished { value: ValueV::List(outputs), remaining: input }
            } else {
                SpecParseOutcome::Rejected { error }
            }
        },
        SpecParseOutcome::Incomplete { state, required_next } => SpecParseOutcome::Incomplete {
            state: StateV::Repeat(true, Box::new(state), outputs),
            required_next,
        },
        SpecParseOutcome::Finished { value, remaining } => {
            let collected = outputs.push(value);
            if collected.len() == max {
                SpecParseOutcome::Finished { value: ValueV::List(collected), remaining }
            } else if remaining.len() == 0 {
                let hint = match spec_parse(sub, spec_initial_state(sub), Seq::empty()) {
                    SpecParseOutcome::Incomplete { required_next, .. } => required_next,
                    _ => Seq::empty(),
                };
                SpecParseOutcome::Incomplete {
                    state: StateV::Repeat(false, Box::new(spec_initial_state(sub)), collected),
                    required_next: hint,
                }
            } else if remaining.len() < input.len() {
                spec_repeat(sub, min, max, false, spec_initial_state(sub), collected, remaining)
            } else if remaining.len() == input.len() && collected.len() < max {
                spec_repeat(sub, min, max, false, spec_initial_state(sub), collected, remaining)
            } else {
                // A cycle that consumed nothing while the count sits at or
                // past the ceiling can never end within the bounds.
                SpecParseOutcome::Rejected { error: ParseError::GrammarViolation }
            }
        },
    }
}

/// The first alternative at or after slot `i` to finish on this input, with
/// its index, output and leftover bytes; `None` if no alternative finishes.
pub open spec fn spec_index_winner(
    gs: Seq<GrammarV>,
    sts: Seq<Result<StateV, ParseError>>,
    input: Seq<u8>,
    i: int,
) -> Option<(int, ValueV, Seq<u8>)>
    decreases gs, input.len(), 1int, gs.len() - i,
{
    if i < 0 || i >= gs.len() || gs.len() != sts.len() {
        None
    } else {
        let head = match sts[i] {
            Ok(s) => spec_parse(gs[i], s, input),
            Err(e) => SpecParseOutcome::Rejected { error: e },
        };
        match head {
            SpecParseOutcome::Finished { value, remaining } => Some((i, value, remaining)),
            _ => spec_index_winner(gs, sts, input, i + 1),
        }
    }
}

/// True if some alternative at or after slot `i` is still incomplete on this
/// input.
pub open spec fn spec_index_live(
    gs: Seq<GrammarV>,
    sts: Seq<Result<StateV, ParseError>>,
    input: Seq<u8>,
    i: int,
) -> bool
    decreases gs, input.len(), 1int, gs.len() - i,
{
    if i < 0 || i >= gs.len() || gs.len() != sts.len() {
        false
    } else {
        let head_live = match sts[i] {
            Ok(s) => spec_parse(gs[i], s, input) is Incomplete,
            Err(_) => false,
        };
        head_live || spec_index_live(gs, sts, input, i + 1)
    }
}

/// The per-slot states after this input: a live slot moves to its new state
/// or to a terminal failure; a failed slot stays failed.
pub open spec fn spec_index_states(
    gs: Seq<GrammarV>,
    sts: Seq<Result<StateV, ParseError>>,
    input: Seq<u8>,
) -> Seq<Result<StateV, ParseError>>
    decreases gs, input.len(), 1int, 0int,
{
    Seq::new(
        gs.len(),
        |i: int|
            if 0 <= i < gs.len() && gs.len() == sts.len() {
                match sts[i] {
                    Err(e) => Err(e),
                    Ok(s) => match spec_parse(gs[i], s, input) {
                        SpecParseOutcome::Incomplete { state, .. } => Ok(state),
                        SpecParseOutcome::Rejected { error } => Err(error),
                        SpecParseOutcome::Finished { .. } => Ok(s),
                    },
                }
            } else {
                Err(ParseError::GrammarViolation)
            },
    )
}

/// The hint folded over the alternatives at or after slot `i`: the first
/// incomplete slot supplies its hint, and every further incomplete slot
/// narrows it to the common byte prefix.
pub open spec fn spec_index_hint(
    gs: Seq<GrammarV>,
    sts: Seq<Result<StateV, ParseError>>,
    input: Seq<u8>,
    i: int,
    acc: Option<Seq<u8>>,
) -> Option<Seq<u8>>
    decreases gs, input.len(), 1int, gs.len() - i,
{
    if i < 0 || i >= gs.len() || gs.len() != sts.len() {
        acc
    } else {
        let head = match sts[i] {
            Ok(s) => spec_parse(gs[i], s, input),
            Err(e) => SpecParseOutcome::Rejected { error: e },
        };
        let folded = match head {
            SpecParseOutcome::Incomplete { required_next, .. } => match acc {
                None => Some(required_next),
                Some(h) => Some(spec_common_prefix(h, required_next)),
            },
            _ => acc,
        };
        spec_index_hint(gs, sts, input, i + 1, folded)
    }
}

proof fn lemma_literal_remaining(lit: Seq<u8>, m: int, input: Seq<u8>)
    ensures
        spec_literal_parse(lit, m, input) matches SpecParseOutcome::Finished { remaining, .. }
            ==> remaining.len() <= input.len(),
    decreases input.len(),
{
    if m < lit.len() && input.len() > 0 && input[0] == lit[m] {
        lemma_literal_remaining(lit, m + 1, input.skip(1));
    }
}

proof fn lemma_int_remaining(
    cfg: crate::integer::IntegerConfig,
    st: crate::integer::IntegerState,
    input: Seq<u8>,
)
    ensures
        spec_int_parse(cfg, st, input) matches SpecParseOutcome::Finished { remaining, .. }
            ==> remaining.len() <= input.len(),
    decreases input.len(),
{
    if input.len() > 0 {
        let b = input[0];
        if 48 <= b <= 57 {
            lemma_int_remaining(
                cfg,
                crate::integer::IntegerState {
                    negative: st.negative,
                    digits_seen: true,
                    magnitude: st.magnitude * 10 + (b - 48),
                },
                input.skip(1),
            );
        } else if b == 45 && !st.digits_seen && !st.negative {
            lemma_int_remaining(
                cfg,
                crate::integer::IntegerState {
                    negative: true,
                    digits_seen: st.digits_seen,
                    magnitude: st.magnitude,
                },
                input.skip(1),
            );
        }
    }
}

proof fn lemma_decimal_remaining(
    cfg: crate::integer::IntegerConfig,
    st: crate::decimal::DecimalState,
    input: Seq<u8>,
)
    ensures
        spec_decimal_parse(cfg, st, input) matches SpecParseOutcome::Finished { remaining, .. }
            ==> remaining.len() <= input.len(),
    decreases input.len(),
{
    if input.len() > 0 {
        let b = input[0];
        let rest = input.skip(1);
        if 48 <= b <= 57 {
            if !st.in_fraction {
                lemma_decimal_remaining(
                    cfg,
                    crate::decimal::DecimalState {
                        negative: st.negative,
                        digits_seen: true,
                        in_fraction: false,
                        fraction_seen: st.fraction_seen,
                        fraction_nonzero: st.fraction_nonzero,
                        magnitude: st.magnitude * 10 + (b - 48),
                    },
                    rest,
                );
            } else {
                lemma_decimal_remaining(
                    cfg,
                    crate::decimal::DecimalState {
                        negative: st.negative,
                        digits_seen: st.digits_seen,
                        in_fraction: true,
                        fraction_seen: true,
                        fraction_nonzero: st.fraction_nonzero || b != 48,
                        magnitude: st.magnitude,
                    },
                    rest,
                );
            }
        } else if b == crate::decimal::DOT && st.digits_seen && !st.in_fraction {
            lemma_decimal_remaining(
                cfg,
                crate::decimal::DecimalState {
                    negative: st.negative,
                    digits_seen: st.digits_seen,
                    in_fraction: true,
                    fraction_seen: st.fraction_seen,
                    fraction_nonzero: st.fraction_nonzero,
                    magnitude: st.magnitude,
                },
                rest,
            );
        } else if b == 45 && !st.digits_seen && !st.negative && !st.in_fraction {
            lemma_decimal_remaining(
                cfg,
                crate::decimal::DecimalState {
                    negative: true,
                    digits_seen: st.digits_seen,
                    in_fraction: st.in_fraction,
                    fraction_seen: st.fraction_seen,
                    fraction_nonzero: st.fraction_nonzero,
                    magnitude: st.magnitude,
                },
                rest,
            );
        }
    }
}

proof fn lemma_string_remaining(
    cfg: crate::string::StringConfig,
    st: crate::string::StringState,
    input: Seq<u8>,
)
    ensures
        spec_string_parse(cfg, st, input) matches SpecParseOutcome::Finished { remaining, .. }
            ==> remaining.len() <= input.len(),
    decreases input.len(),
{
    if input.len() > 0 {
        let b = input[0];
        let rest = input.skip(1);
        lemma_string_remaining(
            cfg,
            crate::string::StringState { in_string: true, content: st.content, escaped: st.escaped },
            rest,
        );
        lemma_string_remaining(
            cfg,
            crate::string::StringState {
                in_string: true,
                content: st.content.push(b),
                escaped: false,
            },
            rest,
        );
        lemma_string_remaining(
            cfg,
            crate::string::StringState { in_string: true, content: st.content, escaped: true },
            rest,
        );
    }
}

proof fn lemma_line_remaining(st: crate::line::LineState, input: Seq<u8>)
    ensures
        spec_line_parse(st, input) matches SpecParseOutcome::Finished { remaining, .. }
            ==> remaining.len() <= input.len(),
    decreases input.len(),
{
    if input.len() > 0 {
        let b = input[0];
        lemma_line_remaining(
            crate::line::LineState {
                all_whitespace: st.all_whitespace && b == crate::line::SPACE,
                content: st.content.push(b),
            },
            input.skip(1),
        );
    }
}

/// A finished parse never hands back more bytes than it was given: the
/// leftover bytes are at most the new input.
pub proof fn lemma_parse_remaining(g: GrammarV, st: StateV, input: Seq<u8>)
    ensures
        spec_parse(g, st, input) matches SpecParseOutcome::Finished { remaining, .. }
            ==> remaining.len() <= input.len(),
    decreases g, input.len(), 0int, 0int,
{
    match g {
        GrammarV::Literal(lit) => {
            if let StateV::Literal(m) = st {
                lemma_literal_remaining(lit, m, input);
            }
        },
        GrammarV::Integer(cfg) => {
            if let StateV::Integer(s) = st {
                lemma_int_remaining(cfg, s, input);
            }
        },
        GrammarV::Decimal(cfg) => {
            if let StateV::Decimal(s) = st {
                lemma_decimal_remaining(cfg, s, input);
            }
        },
        GrammarV::Text(cfg) => {
            if let StateV::Text(s) = st {
                lemma_string_remaining(cfg, s, input);
            }
        },
        GrammarV::Line => {
            if let StateV::Line(s) = st {
                lemma_line_remaining(s, input);
            }
        },
        GrammarV::Sequence(g1, g2) => match st {
            StateV::SequenceFirst(s1) => {
                lemma_parse_remaining(*g1, *s1, input);
                if let SpecParseOutcome::Finished { remaining, .. } = spec_parse(*g1, *s1, input) {
                    lemma_parse_remaining(*g2, spec_initial_state(*g2), remaining);
                }
            },
            StateV::SequenceSecond(s2, _) => {
                lemma_parse_remaining(*g2, *s2, input);
            },
            _ => {},
        },
        GrammarV::Choice(g1, g2) => match st {
            StateV::Choice(sl1, sl2) => {
                if let Ok(s1) = sl1 {
                    lemma_parse_remaining(*g1, *s1, input);
                }
                if let Ok(s2) = sl2 {
                    lemma_parse_remaining(*g2, *s2, input);
                }
            },
            _ => {},
        },
        GrammarV::Repeat(sub, min, max) => {
            if let StateV::Repeat(in_progress, last, outputs) = st {
                lemma_repeat_remaining(*sub, min, max, in_progress, *last, outputs, input);
            }
        },
        GrammarV::Index(gs) => {
            if let StateV::Index(sts) = st {
                if sts.len() == gs.len() {
                    lemma_index_winner_remaining(gs, sts, input, 0);
                }
            }
        },
    }
}

proof fn lemma_repeat_remaining(
    sub: GrammarV,
    min: int,
    max: int,
    in_progress: bool,
    last: StateV,
    outputs: Seq<ValueV>,
    input: Seq<u8>,
)
    ensures
        spec_repeat(sub, min, max, in_progress, last, outputs, input) matches SpecParseOutcome::Finished {
            remaining,
            ..
        } ==> remaining.len() <= input.len(),
    decreases sub, input.len(), 1int, rep_slack(max, outputs.len() as int),
{
    lemma_parse_remaining(sub, last, input);
    if let SpecParseOutcome::Finished { value, remaining } = spec_parse(sub, last, input) {
        let collected = outputs.push(value);
        if collected.len() == max {
        } else if remaining.len() == 0 {
        } else if remaining.len() < input.len() || (remaining.len() == input.len()
            && collected.len() < max) {
            lemma_repeat_remaining(
                sub,
                min,
                max,
                false,
                spec_initial_state(sub),
                collected,
                remaining,
            );
        }
    }
}

proof fn lemma_index_winner_remaining(
    gs: Seq<GrammarV>,
    sts: Seq<Result<StateV, ParseError>>,
    input: Seq<u8>,
    i: int,
)
    ensures
        spec_index_winner(gs, sts, input, i) matches Some(win) ==> win.2.len() <= input.len(),
    decreases gs, input.len(), 1int, gs.len() - i,
{
    if 0 <= i < gs.len() && gs.len() == sts.len() {
        if let Ok(s) = sts[i] {
            lemma_parse_remaining(gs[i], s, input);
        }
        lemma_index_winner_remaining(gs, sts, input, i + 1);
    }
}

/// An incomplete parse hands back a state of the shape its grammar expects,
/// so the caller can feed further input to it.
pub proof fn lemma_parse_matches(g: GrammarV, st: StateV, input: Seq<u8>)
    requires
        state_matches(g, st),
    ensures
        spec_parse(g, st, input) matches SpecParseOutcome::Incomplete { state, .. }
            ==> state_matches(g, state),
    decreases g, input.len(), 0int, 0int,
{
    match g {
        GrammarV::Sequence(g1, g2) => match st {
            StateV::SequenceFirst(s1) => {
                lemma_parse_matches(*g1, *s1, input);
                if let SpecParseOutcome::Finished { remaining, .. } = spec_parse(*g1, *s1, input) {
                    crate::grammar::lemma_initial_state_matches(*g2);
                    lemma_parse_matches(*g2, spec_initial_state(*g2), remaining);
                }
            },
            StateV::SequenceSecond(s2, _) => {
                lemma_parse_matches(*g2, *s2, input);
            },
            _ => {},
        },
        GrammarV::Choice(g1, g2) => match st {
            StateV::Choice(sl1, sl2) => {
                if let Ok(s1) = sl1 {
                    lemma_parse_matches(*g1, *s1, input);
                }
                if let Ok(s2) = sl2 {
                    lemma_parse_matches(*g2, *s2, input);
                }
            },
            _ => {},
        },
        GrammarV::Repeat(sub, min, max) => {
            if let StateV::Repeat(in_progress, last, outputs) = st {
                lemma_repeat_matches(*sub, min, max, in_progress, *last, outputs, input);
            }
        },
        GrammarV::Index(gs) => {
            if let StateV::Index(sts) = st {
                if sts.len() == gs.len() {
                    let new_sts = spec_index_states(gs, sts, input);
                    assert forall|i: int| 0 <= i < gs.len() implies (#[trigger] new_sts[i] matches
                        Ok(s2) ==> state_matches(gs[i], s2)) by {
                        if let Ok(s) = sts[i] {
                            assert(state_matches(gs[i], s));
                            lemma_parse_matches(gs[i], s, input);
                        }
                    }
                }
            }
        },
        _ => {},
    }
}

proof fn lemma_repeat_matches(
    sub: GrammarV,
    min: int,
    max: int,
    in_progress: bool,
    last: StateV,
    outputs: Seq<ValueV>,
    input: Seq<u8>,
)
    requires
        state_matches(sub, last),
    ensures
        spec_repeat(sub, min, max, in_progress, last, outputs, input) matches SpecParseOutcome::Incomplete {
            state,
            ..
        } ==> state_matches(GrammarV::Repeat(Box::new(sub), min, max), state),
    decreases sub, input.len(), 1int, rep_slack(max, outputs.len() as int),
{
    lemma_parse_matches(sub, last, input);
    crate::grammar::lemma_initial_state_matches(sub);
    if let SpecParseOutcome::Finished { value, remaining } = spec_parse(sub, last, input) {
        let collected = outputs.push(value);
        if collected.len() == max {
        } else if remaining.len() == 0 {
        } else if remaining.len() < input.len() || (remaining.len() == input.len()
            && collected.len() < max) {
            lemma_repeat_matches(
                sub,
                min,
                max,
                false,
                spec_initial_state(sub),
                collected,
                remaining,
            );
        }
    }
}

/// Choice is deterministic and left-biased: whenever the first alternative of
/// a choice finishes on the input, the choice finishes with the first
/// alternative's result, tagged left, whatever the second alternative would
/// have produced on the same input.
pub proof fn lemma_choice_left_bias(
    g1: GrammarV,
    g2: GrammarV,
    s1: StateV,
    sl2: Result<Box<StateV>, ParseError>,
    input: Seq<u8>,
)
    requires
        spec_parse(g1, s1, input) is Finished,
    ensures
        spec_parse(
            GrammarV::Choice(Box::new(g1), Box::new(g2)),
            StateV::Choice(Ok(Box::new(s1)), sl2),
            input,
        ) == match spec_parse(g1, s1, input) {
            SpecParseOutcome::Finished { value, remaining } => SpecParseOutcome::<
                StateV,
                ValueV,
            >::Finished { value: ValueV::Left(Box::new(value)), remaining },
            o => o,
        },
{
}

/// When both alternatives of a choice stay incomplete, the combined hint is
/// the longest common byte prefix of the two alternatives' hints.
pub proof fn lemma_choice_hint_narrowing(
    g1: GrammarV,
    g2: GrammarV,
    s1: StateV,
    s2: StateV,
    input: Seq<u8>,
)
    requires
        spec_parse(g1, s1, input) is Incomplete,
        spec_parse(g2, s2, input) is Incomplete,
    ensures
        spec_parse(
            GrammarV::Choice(Box::new(g1), Box::new(g2)),
            StateV::Choice(Ok(Box::new(s1)), Ok(Box::new(s2))),
            input,
        ) == match (spec_parse(g1, s1, input), spec_parse(g2, s2, input)) {
            (
                SpecParseOutcome::Incomplete { state: n1, required_next: h1 },
                SpecParseOutcome::Incomplete { state: n2, required_next: h2 },
            ) => SpecParseOutcome::<StateV, ValueV>::Incomplete {
                state: StateV::Choice(Ok(Box::new(n1)), Ok(Box::new(n2))),
                required_next: spec_common_prefix(h1, h2),
            },
            (o, _) => o,
        },
{
}

/// A failed branch is never resurrected: once one alternative of a choice has
/// failed, no further input can make that side win, and every later state
/// keeps that side marked failed with the same error.
pub proof fn lemma_failed_branch_stays_failed(
    g1: GrammarV,
    g2: GrammarV,
    e1: ParseError,
    sl2: Result<Box<StateV>, ParseError>,
    input: Seq<u8>,
)
    ensures
        spec_parse(
            GrammarV::Choice(Box::new(g1), Box::new(g2)),
            StateV::Choice(Err(e1), sl2),
            input,
        ) matches SpecParseOutcome::Finished { value, .. } ==> value is Right,
        spec_parse(
            GrammarV::Choice(Box::new(g1), Box::new(g2)),
            StateV::Choice(Err(e1), sl2),
            input,
        ) matches SpecParseOutcome::Incomplete { state, .. } ==> (state matches StateV::Choice(
            sl1,
            _,
        ) && sl1 == Err::<Box<StateV>, ParseError>(e1)),
{
}

/// A failed alternative of an index combinator stays failed: parsing never
/// replaces a failed slot with a live state.
pub proof fn lemma_failed_slot_stays_failed(
    gs: Seq<GrammarV>,
    sts: Seq<Result<StateV, ParseError>>,
    input: Seq<u8>,
    i: int,
    e: ParseError,
)
    requires
        0 <= i < gs.len(),
        gs.len() == sts.len(),
        sts[i] == Err::<StateV, ParseError>(e),
    ensures
        spec_index_states(gs, sts, input)[i] == Err::<StateV, ParseError>(e),
{
}

/// The outcome modelled by an executable engine result.
pub open spec fn grammar_outcome(
    r: Result<ParseResult<GrammarState, ParseValue>, ParseError>,
) -> SpecParseOutcome<StateV, ValueV> {
    match r {
        Err(error) => SpecParseOutcome::Rejected { error },
        Ok(ParseResult::Incomplete { new_state, required_next }) => SpecParseOutcome::Incomplete {
            state: new_state@,
            required_next: required_next@,
        },
        Ok(ParseResult::Finished { result, remaining }) => SpecParseOutcome::Finished {
            value: result@,
            remaining: remaining@,
        },
    }
}

/// The model of a hint accumulator.
pub open spec fn hint_view(h: Option<Vec<u8>>) -> Option<Seq<u8>> {
    match h {
        Some(v) => Some(v@),
        None => None,
    }
}

/// The model of one alternative slot.
pub open spec fn slot_view(s: Result<GrammarState, ParseError>) -> Result<StateV, ParseError> {
    match s {
        Ok(st) => Ok(st@),
        Err(e) => Err(e),
    }
}

/// The longest common prefix of two hints.
pub fn common_prefix(a: &Vec<u8>, b: &Vec<u8>) -> (r: Vec<u8>)
    ensures
        r@ == spec_common_prefix(a@, b@),
{
    let mut i: usize = 0;
    proof {
        assert(a@.skip(0) =~= a@);
        assert(b@.skip(0) =~= b@);
    }
    while i < a.len() && i < b.len() && a[i] == b[i]
        invariant
            i <= a@.len(),
            i <= b@.len(),
            spec_common_len(a@, b@) == i + spec_common_len(a@.skip(i as int), b@.skip(i as int)),
        decreases a@.len() - i,
    {
        proof {
            assert(a@.skip(i as int)[0] == a@[i as int]);
            assert(b@.skip(i as int)[0] == b@[i as int]);
            assert(a@.skip(i as int).skip(1) =~= a@.skip(i as int + 1));
            assert(b@.skip(i as int).skip(1) =~= b@.skip(i as int + 1));
        }
        i = i + 1;
    }
    proof {
        if i < a@.len() && i < b@.len() {
            assert(a@.skip(i as int)[0] == a@[i as int]);
            assert(b@.skip(i as int)[0] == b@[i as int]);
        }
        assert(spec_common_len(a@, b@) == i as int);
    }
    let r = vstd::slice::slice_to_vec(vstd::slice::slice_subrange(a.as_slice(), 0, i));
    proof {
        assert(a@.subrange(0, i as int) =~= a@.take(i as int));
    }
    r
}

impl Grammar {
    /// The initial state of this grammar, before any input byte: pure and
    /// deterministic, depending only on the grammar itself.
    pub fn create_parser_state(&self) -> (r: GrammarState)
        ensures
            r@ == spec_initial_state(self@),
            state_matches(self@, r@),
        decreases *self,
    {
        proof {
            crate::grammar::lemma_initial_state_matches(self@);
        }
        match self {
            Grammar::Literal(p) => GrammarState::Literal(p.create_parser_state()),
            Grammar::Integer(p) => GrammarState::Integer(p.create_parser_state()),
            Grammar::Decimal(p) => GrammarState::Decimal(p.create_parser_state()),
            Grammar::Text(p) => GrammarState::Text(p.create_parser_state()),
            Grammar::Line(p) => GrammarState::Line(p.create_parser_state()),
            Grammar::Sequence(p) => GrammarState::Sequence(
                SequenceParserState::FirstParser(Box::new(p.parser1.create_parser_state())),
            ),
            Grammar::Choice(p) => GrammarState::Choice(
                ChoiceParserState {
                    state1: Ok(Box::new(p.parser1.create_parser_state())),
                    state2: Ok(Box::new(p.parser2.create_parser_state())),
                },
            ),
            Grammar::Repeat(p) => {
                proof {
                    assert(values_view(Seq::<ParseValue>::empty()) =~= Seq::<ValueV>::empty());
                }
                GrammarState::Repeat(
                    RepeatParserState {
                        new_state_in_progress: false,
                        last_state: Box::new(p.parser.create_parser_state()),
                        outputs: Vec::new(),
                    },
                )
            },
            Grammar::Index(p) => {
                let mut states: Vec<Result<GrammarState, ParseError>> = Vec::new();
                let mut i: usize = 0;
                while i < p.parsers.len()
                    invariant
                        *self == Grammar::Index(*p),
                        i <= p.parsers@.len(),
                        states@.len() == i as int,
                        forall|j: int|
                            0 <= j < i ==> #[trigger] slot_view(states@[j]) == Ok::<
                                StateV,
                                ParseError,
                            >(spec_initial_state(crate::grammar::grammar_view(p.parsers@[j]))),
                    decreases p.parsers@.len() - i,
                {
                    proof {
                        assert(*p == self->Index_0);
                        assert(decreases_to!(*self => self->Index_0));
                        assert(decreases_to!(*p => p.parsers));
                        assert(decreases_to!(p.parsers => p.parsers@));
                        assert(decreases_to!(p.parsers@ => p.parsers@[i as int]));
                    }
                    states.push(Ok(p.parsers[i].create_parser_state()));
                    i = i + 1;
                }
                let ghost states_view = states@;
                let r = GrammarState::Index(IndexParserState { states });
                proof {
                    match (crate::grammar::state_view(r), spec_initial_state(self@)) {
                        (StateV::Index(a), StateV::Index(b)) => {
                            assert forall|j: int| 0 <= j < a.len() implies a[j] == b[j] by {
                                assert(a[j] == slot_view(states_view[j]));
                                match self@ {
                                    GrammarV::Index(gs) => {
                                        assert(gs[j] == crate::grammar::grammar_view(
                                            p.parsers@[j],
                                        ));
                                        assert(b[j] == Ok::<StateV, ParseError>(
                                            spec_initial_state(gs[j]),
                                        ));
                                    },
                                    _ => {
                                        assert(false);
                                    },
                                }
                            }
                            assert(a =~= b);
                        },
                        _ => {
                            assert(false);
                        },
                    }
                }
                r
            },
        }
    }
}

fn repeat_parse(
    sub: &Grammar,
    min_count: usize,
    max_count: usize,
    in_progress: bool,
    last: &GrammarState,
    outputs: Vec<ParseValue>,
    input: &[u8],
) -> (r: Result<ParseResult<GrammarState, ParseValue>, ParseError>)
    requires
        state_matches(sub@, last@),
    ensures
        grammar_outcome(r) == spec_repeat(
            sub@,
            min_count as int,
            max_count as int,
            in_progress,
            last@,
            values_view(outputs@),
            input@,
        ),
    decreases *sub, input@.len(), 1int, rep_slack(max_count as int, outputs@.len() as int),
{
    match sub.parse(last, input) {
        Err(e) => {
            if !in_progress && min_count <= outputs.len() && outputs.len() <= max_count {
                let remaining = vstd::slice::slice_to_vec(input);
                Ok(ParseResult::Finished { result: ParseValue::List(outputs), remaining })
            } else {
                Err(e)
            }
        },
        Ok(ParseResult::Incomplete { new_state, required_next }) => Ok(
            ParseResult::Incomplete {
                new_state: GrammarState::Repeat(
                    RepeatParserState {
                        new_state_in_progress: true,
                        last_state: Box::new(new_state),
                        outputs,
                    },
                ),
                required_next,
            },
        ),
        Ok(ParseResult::Finished { result, remaining }) => {
            let mut collected = outputs;
            let ghost old_views = values_view(collected@);
            collected.push(result);
            proof {
                assert(values_view(collected@) =~= old_views.push(result@));
            }
            if collected.len() == max_count {
                Ok(ParseResult::Finished { result: ParseValue::List(collected), remaining })
            } else if remaining.len() == 0 {
                let fresh = sub.create_parser_state();
                proof {
                    assert(remaining@ =~= Seq::<u8>::empty());
                }
                let probe = sub.parse(&fresh, remaining.as_slice());
                let required_next = match probe {
                    Ok(ParseResult::Incomplete { required_next, .. }) => required_next,
                    _ => Vec::new(),
                };
                Ok(
                    ParseResult::Incomplete {
                        new_state: GrammarState::Repeat(
                            RepeatParserState {
                                new_state_in_progress: false,
                                last_state: Box::new(fresh),
                                outputs: collected,
                            },
                        ),
                        required_next,
                    },
                )
            } else {
                proof {
                    lemma_parse_remaining(sub@, last@, input@);
                }
                if remaining.len() < input.len() || collected.len() < max_count {
                    let fresh = sub.create_parser_state();
                    repeat_parse(
                        sub,
                        min_count,
                        max_count,
                        false,
                        &fresh,
                        collected,
                        remaining.as_slice(),
                    )
                } else {
                    // A cycle that consumed nothing while the count sits at
                    // or past the ceiling can never end within the bounds.
                    Err(ParseError::GrammarViolation)
                }
            }
        },
    }
}


impl Grammar {
    /// Parse the newly available input bytes from the given partial state.
    ///
    /// A pure function of the grammar, the state and the new bytes: it either
    /// finishes with an output value and the leftover bytes, returns a new
    /// partial state together with a required-next hint, or rejects the
    /// branch for good.
    pub fn parse(&self, state: &GrammarState, input: &[u8]) -> (r: Result<
        ParseResult<GrammarState, ParseValue>,
        ParseError,
    >)
        requires
            state_matches(self@, state@),
        ensures
            grammar_outcome(r) == spec_parse(self@, state@, input@),
        decreases *self, input@.len(), 0int, 0int,
    {
        match self {
            Grammar::Literal(p) => match state {
                GrammarState::Literal(s) => match p.parse(s, input) {
                    Err(e) => Err(e),
                    Ok(ParseResult::Incomplete { new_state, required_next }) => Ok(
                        ParseResult::Incomplete {
                            new_state: GrammarState::Literal(new_state),
                            required_next,
                        },
                    ),
                    Ok(ParseResult::Finished { result: _, remaining }) => Ok(
                        ParseResult::Finished { result: ParseValue::Unit, remaining },
                    ),
                },
                _ => unreached(),
            },
            Grammar::Integer(p) => match state {
                GrammarState::Integer(s) => match p.parse(s, input) {
                    Err(e) => Err(e),
                    Ok(ParseResult::Incomplete { new_state, required_next }) => Ok(
                        ParseResult::Incomplete {
                            new_state: GrammarState::Integer(new_state),
                            required_next,
                        },
                    ),
                    Ok(ParseResult::Finished { result, remaining }) => Ok(
                        ParseResult::Finished { result: ParseValue::Integer(result), remaining },
                    ),
                },
                _ => unreached(),
            },
            Grammar::Decimal(p) => match state {
                GrammarState::Decimal(s) => match p.parse(s, input) {
                    Err(e) => Err(e),
                    Ok(ParseResult::Incomplete { new_state, required_next }) => Ok(
                        ParseResult::Incomplete {
                            new_state: GrammarState::Decimal(new_state),
                            required_next,
                        },
                    ),
                    Ok(ParseResult::Finished { result: _, remaining }) => Ok(
                        ParseResult::Finished { result: ParseValue::Unit, remaining },
                    ),
                },
                _ => unreached(),
            },
            Grammar::Text(p) => match state {
                GrammarState::Text(s) => match p.parse(s, input) {
                    Err(_) => Err(ParseError::GrammarViolation),
                    Ok(ParseResult::Incomplete { new_state, required_next }) => Ok(
                        ParseResult::Incomplete {
                            new_state: GrammarState::Text(new_state),
                            required_next,
                        },
                    ),
                    Ok(ParseResult::Finished { result, remaining }) => Ok(
                        ParseResult::Finished { result: ParseValue::Text(result), remaining },
                    ),
                },
                _ => unreached(),
            },
            Grammar::Line(p) => match state {
                GrammarState::Line(s) => match p.parse(s, input) {
                    Err(_) => Err(ParseError::GrammarViolation),
                    Ok(ParseResult::Incomplete { new_state, required_next }) => Ok(
                        ParseResult::Incomplete {
                            new_state: GrammarState::Line(new_state),
                            required_next,
                        },
                    ),
                    Ok(ParseResult::Finished { result, remaining }) => Ok(
                        ParseResult::Finished { result: ParseValue::Text(result), remaining },
                    ),
                },
                _ => unreached(),
            },
            Grammar::Sequence(p) => {
                proof {
                    assert(*p == self->Sequence_0);
                    assert(decreases_to!(*self => self->Sequence_0));
                }
                match state {
                    GrammarState::Sequence(st) => seq_parse(p, st, input),
                    _ => unreached(),
                }
            },
            Grammar::Choice(p) => {
                proof {
                    assert(*p == self->Choice_0);
                    assert(decreases_to!(*self => self->Choice_0));
                }
                match state {
                    GrammarState::Choice(cs) => choice_parse(p, cs, input),
                    _ => unreached(),
                }
            },
            Grammar::Repeat(p) => {
                proof {
                    assert(*p == self->Repeat_0);
                    assert(decreases_to!(*self => self->Repeat_0));
                    assert(decreases_to!(*p => p.parser));
                }
                match state {
                    GrammarState::Repeat(rs) => {
                        let outputs = duplicate_values(&rs.outputs);
                        proof {
                            assert(values_view(outputs@) =~= values_view(rs.outputs@));
                        }
                        repeat_parse(
                            &p.parser,
                            p.min_count,
                            p.max_count,
                            rs.new_state_in_progress,
                            &rs.last_state,
                            outputs,
                            input,
                        )
                    },
                    _ => unreached(),
                }
            },
            Grammar::Index(p) => {
                proof {
                    assert(*p == self->Index_0);
                    assert(decreases_to!(*self => self->Index_0));
                }
                match state {
                    GrammarState::Index(ist) => index_parse(p, ist, input),
                    _ => unreached(),
                }
            },
        }
    }
}

/// A repetition's incomplete states are repeat states and its outputs are
/// lists, whatever the grammar and input.
pub proof fn lemma_repeat_shape(
    sub: GrammarV,
    min: int,
    max: int,
    in_progress: bool,
    last: StateV,
    outputs: Seq<ValueV>,
    input: Seq<u8>,
)
    ensures
        spec_repeat(sub, min, max, in_progress, last, outputs, input) matches SpecParseOutcome::Incomplete {
            state,
            ..
        } ==> state is Repeat,
        spec_repeat(sub, min, max, in_progress, last, outputs, input) matches SpecParseOutcome::Finished {
            value,
            ..
        } ==> value is List,
    decreases sub, input.len(), 1int, rep_slack(max, outputs.len() as int),
{
    if let SpecParseOutcome::Finished { value, remaining } = spec_parse(sub, last, input) {
        let collected = outputs.push(value);
        if collected.len() == max {
        } else if remaining.len() == 0 {
        } else if remaining.len() < input.len() || (remaining.len() == input.len()
            && collected.len() < max) {
            lemma_repeat_shape(sub, min, max, false, spec_initial_state(sub), collected, remaining);
        }
    }
}

/// The count ceiling of a repetition is hard: a finished repetition holds at
/// most `max` results, and at least `min` of them whenever the count range is
/// not empty.  A count range with `min > max` can never finish gracefully, so
/// only an exact hit of the ceiling finishes it at all.
pub proof fn lemma_repeat_count_bounds(
    sub: GrammarV,
    min: int,
    max: int,
    in_progress: bool,
    last: StateV,
    outputs: Seq<ValueV>,
    input: Seq<u8>,
)
    ensures
        spec_repeat(sub, min, max, in_progress, last, outputs, input) matches SpecParseOutcome::Finished {
            value,
            ..
        } ==> (value matches ValueV::List(items) && items.len() <= max && (min <= max ==> min
            <= items.len())),
    decreases sub, input.len(), 1int, rep_slack(max, outputs.len() as int),
{
    if let SpecParseOutcome::Finished { value, remaining } = spec_parse(sub, last, input) {
        let collected = outputs.push(value);
        if collected.len() == max {
        } else if remaining.len() == 0 {
        } else if remaining.len() < input.len() || (remaining.len() == input.len()
            && collected.len() < max) {
            lemma_repeat_count_bounds(
                sub,
                min,
                max,
                false,
                spec_initial_state(sub),
                collected,
                remaining,
            );
        }
    }
}

/// The outcome modelled by a typed repeat-parse result.
pub open spec fn repeat_outcome(
    r: Result<ParseResult<RepeatParserState, Vec<ParseValue>>, ParseError>,
) -> SpecParseOutcome<StateV, ValueV> {
    match r {
        Err(error) => SpecParseOutcome::Rejected { error },
        Ok(ParseResult::Incomplete { new_state, required_next }) => SpecParseOutcome::Incomplete {
            state: new_state@,
            required_next: required_next@,
        },
        Ok(ParseResult::Finished { result, remaining }) => SpecParseOutcome::Finished {
            value: ValueV::List(values_view(result@)),
            remaining: remaining@,
        },
    }
}

impl RepeatParser {
    /// Create a repeat combinator over the given grammar, with an inclusive
    /// range of acceptable repetition counts.
    pub fn new(parser: Grammar, length_range: core::ops::RangeInclusive<usize>) -> (r:
        RepeatParser)
        ensures
            r.parser == parser,
            r.min_count == length_range@.start,
            r.max_count == length_range@.end,
    {
        let min_count = *length_range.start();
        let max_count = *length_range.end();
        RepeatParser { parser: Box::new(parser), min_count, max_count }
    }

    /// The initial state: a fresh cycle, nothing collected.
    pub fn create_parser_state(&self) -> (r: RepeatParserState)
        ensures
            r@ == spec_initial_state(Grammar::Repeat(RepeatParser {
                parser: self.parser,
                min_count: self.min_count,
                max_count: self.max_count,
            })@),
    {
        proof {
            assert(values_view(Seq::<ParseValue>::empty()) =~= Seq::<ValueV>::empty());
        }
        RepeatParserState {
            new_state_in_progress: false,
            last_state: Box::new(self.parser.create_parser_state()),
            outputs: Vec::new(),
        }
    }

    /// Run the repetition on the newly available input bytes.
    pub fn parse(&self, state: &RepeatParserState, input: &[u8]) -> (r: Result<
        ParseResult<RepeatParserState, Vec<ParseValue>>,
        ParseError,
    >)
        requires
            state_matches(self.parser@, state.last_state@),
        ensures
            repeat_outcome(r) == spec_repeat(
                self.parser@,
                self.min_count as int,
                self.max_count as int,
                state.new_state_in_progress,
                state.last_state@,
                values_view(state.outputs@),
                input@,
            ),
            r matches Ok(ParseResult::Finished { result, .. }) ==> result@.len()
                <= self.max_count && (self.min_count <= self.max_count ==> self.min_count
                <= result@.len()),
    {
        let outputs = duplicate_values(&state.outputs);
        proof {
            assert(values_view(outputs@) =~= values_view(state.outputs@));
            lemma_repeat_count_bounds(
                self.parser@,
                self.min_count as int,
                self.max_count as int,
                state.new_state_in_progress,
                state.last_state@,
                values_view(state.outputs@),
                input@,
            );
            lemma_repeat_shape(
                self.parser@,
                self.min_count as int,
                self.max_count as int,
                state.new_state_in_progress,
                state.last_state@,
                values_view(state.outputs@),
                input@,
            );
        }
        match repeat_parse(
            &self.parser,
            self.min_count,
            self.max_count,
            state.new_state_in_progress,
            &state.last_state,
            outputs,
            input,
        ) {
            Err(e) => Err(e),
            Ok(ParseResult::Incomplete { new_state, required_next }) => match new_state {
                GrammarState::Repeat(rs) => Ok(
                    ParseResult::Incomplete { new_state: rs, required_next },
                ),
                _ => unreached(),
            },
            Ok(ParseResult::Finished { result, remaining }) => match result {
                ParseValue::List(items) => Ok(ParseResult::Finished { result: items, remaining }),
                _ => unreached(),
            },
        }
    }
}

impl RepeatParserState {
    /// A repeat state holding the given cycle state and collected outputs,
    /// with no cycle in progress.
    pub fn new(state: GrammarState, outputs: Vec<ParseValue>) -> (r: RepeatParserState)
        ensures
            r@ == StateV::Repeat(false, Box::new(state@), values_view(outputs@)),
    {
        RepeatParserState { new_state_in_progress: false, last_state: Box::new(state), outputs }
    }
}

/// The outcome modelled by a typed index-parse result.
pub open spec fn index_outcome(
    r: Result<ParseResult<IndexParserState, (usize, ParseValue)>, ParseError>,
) -> SpecParseOutcome<StateV, ValueV> {
    match r {
        Err(error) => SpecParseOutcome::Rejected { error },
        Ok(ParseResult::Incomplete { new_state, required_next }) => SpecParseOutcome::Incomplete {
            state: new_state@,
            required_next: required_next@,
        },
        Ok(ParseResult::Finished { result, remaining }) => SpecParseOutcome::Finished {
            value: ValueV::Indexed(result.0 as int, Box::new(result.1@)),
            remaining: remaining@,
        },
    }
}

impl IndexParser {
    /// Create an index combinator over the given alternatives, in priority
    /// order.
    pub fn new(parsers: Vec<Grammar>) -> (r: IndexParser)
        ensures
            r.parsers == parsers,
    {
        IndexParser { parsers }
    }

    /// The initial state: every alternative live, in its own initial state.
    pub fn create_parser_state(&self) -> (r: IndexParserState)
        ensures
            r@ == spec_initial_state(Grammar::Index(IndexParser { parsers: self.parsers })@),
            state_matches(Grammar::Index(IndexParser { parsers: self.parsers })@, r@),
    {
        let ghost this = Grammar::Index(IndexParser { parsers: self.parsers })@;
        let ghost gs = match this {
            GrammarV::Index(gs) => gs,
            _ => Seq::empty(),
        };
        let mut states: Vec<Result<GrammarState, ParseError>> = Vec::new();
        let mut i: usize = 0;
        while i < self.parsers.len()
            invariant
                this == Grammar::Index(IndexParser { parsers: self.parsers })@,
                this == GrammarV::Index(gs),
                gs.len() == self.parsers@.len(),
                i <= self.parsers@.len(),
                states@.len() == i as int,
                forall|j: int|
                    0 <= j < i ==> #[trigger] slot_view(states@[j]) == Ok::<StateV, ParseError>(
                        spec_initial_state(gs[j]),
                    ),
            decreases self.parsers@.len() - i,
        {
            proof {
                assert(gs[i as int] == crate::grammar::grammar_view(self.parsers@[i as int]));
            }
            states.push(Ok(self.parsers[i].create_parser_state()));
            i = i + 1;
        }
        let ghost states_view = states@;
        let r = IndexParserState { states };
        proof {
            crate::grammar::lemma_initial_state_matches(this);
            match (r@, spec_initial_state(this)) {
                (StateV::Index(a), StateV::Index(b)) => {
                    assert forall|j: int| 0 <= j < a.len() implies a[j] == b[j] by {
                        assert(a[j] == slot_view(states_view[j]));
                        assert(b[j] == Ok::<StateV, ParseError>(spec_initial_state(gs[j])));
                    }
                    assert(a =~= b);
                },
                _ => {
                    assert(false);
                },
            }
        }
        r
    }

    /// Try every live alternative on the input: the first to finish wins and
    /// its index tags the output; a failure only ends the parse when no
    /// alternative is live any more.
    pub fn parse(&self, state: &IndexParserState, input: &[u8]) -> (r: Result<
        ParseResult<IndexParserState, (usize, ParseValue)>,
        ParseError,
    >)
        requires
            state_matches(
                Grammar::Index(IndexParser { parsers: self.parsers })@,
                GrammarState::Index(IndexParserState { states: state.states })@,
            ),
        ensures
            index_outcome(r) == spec_parse(
                Grammar::Index(IndexParser { parsers: self.parsers })@,
                GrammarState::Index(IndexParserState { states: state.states })@,
                input@,
            ),
    {
        match index_parse(self, state, input) {
            Err(e) => Err(e),
            Ok(ParseResult::Incomplete { new_state, required_next }) => match new_state {
                GrammarState::Index(ist) => Ok(
                    ParseResult::Incomplete { new_state: ist, required_next },
                ),
                _ => unreached(),
            },
            Ok(ParseResult::Finished { result, remaining }) => match result {
                ParseValue::Indexed(i, boxed) => Ok(
                    ParseResult::Finished { result: (i, *boxed), remaining },
                ),
                _ => unreached(),
            },
        }
    }
}

/// The outcome modelled by a typed sequence-parse result.
pub open spec fn sequence_outcome(
    r: Result<ParseResult<SequenceParserState, (ParseValue, ParseValue)>, ParseError>,
) -> SpecParseOutcome<StateV, ValueV> {
    match r {
        Err(error) => SpecParseOutcome::Rejected { error },
        Ok(ParseResult::Incomplete { new_state, required_next }) => SpecParseOutcome::Incomplete {
            state: new_state@,
            required_next: required_next@,
        },
        Ok(ParseResult::Finished { result, remaining }) => SpecParseOutcome::Finished {
            value: ValueV::Pair(Box::new(result.0@), Box::new(result.1@)),
            remaining: remaining@,
        },
    }
}

impl SequenceParser {
    /// Create a sequence combinator: the first grammar, then the second on
    /// its leftover bytes.
    pub fn new(parser1: Grammar, parser2: Grammar) -> (r: SequenceParser)
        ensures
            r.parser1 == parser1,
            r.parser2 == parser2,
    {
        SequenceParser { parser1: Box::new(parser1), parser2: Box::new(parser2) }
    }

    /// The initial state: the first grammar in its own initial state.
    pub fn create_parser_state(&self) -> (r: SequenceParserState)
        ensures
            r@ == spec_initial_state(
                Grammar::Sequence(SequenceParser { parser1: self.parser1, parser2: self.parser2 })@,
            ),
    {
        SequenceParserState::FirstParser(Box::new(self.parser1.create_parser_state()))
    }

    /// Run the first grammar to completion, then the second on its leftover
    /// bytes, pairing their outputs.
    pub fn parse(&self, state: &SequenceParserState, input: &[u8]) -> (r: Result<
        ParseResult<SequenceParserState, (ParseValue, ParseValue)>,
        ParseError,
    >)
        requires
            state_matches(
                Grammar::Sequence(SequenceParser { parser1: self.parser1, parser2: self.parser2 })@,
                GrammarState::Sequence(*state)@,
            ),
        ensures
            sequence_outcome(r) == spec_parse(
                Grammar::Sequence(SequenceParser { parser1: self.parser1, parser2: self.parser2 })@,
                GrammarState::Sequence(*state)@,
                input@,
            ),
    {
        match seq_parse(self, state, input) {
            Err(e) => Err(e),
            Ok(ParseResult::Incomplete { new_state, required_next }) => match new_state {
                GrammarState::Sequence(ss) => Ok(
                    ParseResult::Incomplete { new_state: ss, required_next },
                ),
                _ => unreached(),
            },
            Ok(ParseResult::Finished { result, remaining }) => match result {
                ParseValue::Pair(a, b) => Ok(
                    ParseResult::Finished { result: (*a, *b), remaining },
                ),
                _ => unreached(),
            },
        }
    }
}

/// The outcome modelled by a typed choice-parse result.
pub open spec fn choice_outcome(
    r: Result<
        ParseResult<ChoiceParserState, crate::result::Either<ParseValue, ParseValue>>,
        ParseError,
    >,
) -> SpecParseOutcome<StateV, ValueV> {
    match r {
        Err(error) => SpecParseOutcome::Rejected { error },
        Ok(ParseResult::Incomplete { new_state, required_next }) => SpecParseOutcome::Incomplete {
            state: new_state@,
            required_next: required_next@,
        },
        Ok(ParseResult::Finished { result, remaining }) => SpecParseOutcome::Finished {
            value: match result {
                crate::result::Either::Left(v) => ValueV::Left(Box::new(v@)),
                crate::result::Either::Right(v) => ValueV::Right(Box::new(v@)),
            },
            remaining: remaining@,
        },
    }
}

impl ChoiceParser {
    /// Create a choice combinator: the first grammar or the second, the
    /// first winning ties.
    pub fn new(parser1: Grammar, parser2: Grammar) -> (r: ChoiceParser)
        ensures
            r.parser1 == parser1,
            r.parser2 == parser2,
    {
        ChoiceParser { parser1: Box::new(parser1), parser2: Box::new(parser2) }
    }

    /// The initial state: both alternatives live, in their initial states.
    pub fn create_parser_state(&self) -> (r: ChoiceParserState)
        ensures
            r@ == spec_initial_state(
                Grammar::Choice(ChoiceParser { parser1: self.parser1, parser2: self.parser2 })@,
            ),
    {
        ChoiceParserState {
            state1: Ok(Box::new(self.parser1.create_parser_state())),
            state2: Ok(Box::new(self.parser2.create_parser_state())),
        }
    }

    /// Try both alternatives on the input; the first to finish wins, and a
    /// side that fails is excluded for good while the other stays viable.
    pub fn parse(&self, state: &ChoiceParserState, input: &[u8]) -> (r: Result<
        ParseResult<ChoiceParserState, crate::result::Either<ParseValue, ParseValue>>,
        ParseError,
    >)
        requires
            state_matches(
                Grammar::Choice(ChoiceParser { parser1: self.parser1, parser2: self.parser2 })@,
                GrammarState::Choice(
                    ChoiceParserState { state1: state.state1, state2: state.state2 },
                )@,
            ),
        ensures
            choice_outcome(r) == spec_parse(
                Grammar::Choice(ChoiceParser { parser1: self.parser1, parser2: self.parser2 })@,
                GrammarState::Choice(
                    ChoiceParserState { state1: state.state1, state2: state.state2 },
                )@,
                input@,
            ),
    {
        match choice_parse(self, state, input) {
            Err(e) => Err(e),
            Ok(ParseResult::Incomplete { new_state, required_next }) => match new_state {
                GrammarState::Choice(cs) => Ok(
                    ParseResult::Incomplete { new_state: cs, required_next },
                ),
                _ => unreached(),
            },
            Ok(ParseResult::Finished { result, remaining }) => match result {
                ParseValue::Left(v) => Ok(
                    ParseResult::Finished {
                        result: crate::result::Either::Left(*v),
                        remaining,
                    },
                ),
                ParseValue::Right(v) => Ok(
                    ParseResult::Finished {
                        result: crate::result::Either::Right(*v),
                        remaining,
                    },
                ),
                _ => unreached(),
            },
        }
    }
}

/// One engine step of a sequence combinator.
fn seq_parse(p: &SequenceParser, st: &SequenceParserState, input: &[u8]) -> (r: Result<
    ParseResult<GrammarState, ParseValue>,
    ParseError,
>)
    requires
        state_matches(Grammar::Sequence(*p)@, GrammarState::Sequence(*st)@),
    ensures
        grammar_outcome(r) == spec_parse(
            Grammar::Sequence(*p)@,
            GrammarState::Sequence(*st)@,
            input@,
        ),
    decreases *p, input@.len(), 0int, 0int,
{
    proof {
        assert(decreases_to!(*p => p.parser1));
        assert(decreases_to!(*p => p.parser2));
    }
    match st {
        SequenceParserState::FirstParser(s1) => match p.parser1.parse(s1, input) {
            Err(e) => Err(e),
            Ok(ParseResult::Incomplete { new_state, required_next }) => Ok(
                ParseResult::Incomplete {
                    new_state: GrammarState::Sequence(
                        SequenceParserState::FirstParser(Box::new(new_state)),
                    ),
                    required_next,
                },
            ),
            Ok(ParseResult::Finished { result: v1, remaining }) => {
                let s2 = p.parser2.create_parser_state();
                match p.parser2.parse(&s2, remaining.as_slice()) {
                    Err(e) => Err(e),
                    Ok(ParseResult::Incomplete { new_state, required_next }) => Ok(
                        ParseResult::Incomplete {
                            new_state: GrammarState::Sequence(
                                SequenceParserState::SecondParser(Box::new(new_state), v1),
                            ),
                            required_next,
                        },
                    ),
                    Ok(ParseResult::Finished { result: v2, remaining: rem2 }) => Ok(
                        ParseResult::Finished {
                            result: ParseValue::Pair(Box::new(v1), Box::new(v2)),
                            remaining: rem2,
                        },
                    ),
                }
            },
        },
        SequenceParserState::SecondParser(s2, v1) => match p.parser2.parse(s2, input) {
            Err(e) => Err(e),
            Ok(ParseResult::Incomplete { new_state, required_next }) => Ok(
                ParseResult::Incomplete {
                    new_state: GrammarState::Sequence(
                        SequenceParserState::SecondParser(Box::new(new_state), v1.duplicate()),
                    ),
                    required_next,
                },
            ),
            Ok(ParseResult::Finished { result: v2, remaining }) => Ok(
                ParseResult::Finished {
                    result: ParseValue::Pair(Box::new(v1.duplicate()), Box::new(v2)),
                    remaining,
                },
            ),
        },
    }
}

/// One engine step of a choice combinator.
fn choice_parse(p: &ChoiceParser, cs: &ChoiceParserState, input: &[u8]) -> (r: Result<
    ParseResult<GrammarState, ParseValue>,
    ParseError,
>)
    requires
        state_matches(Grammar::Choice(*p)@, GrammarState::Choice(*cs)@),
    ensures
        grammar_outcome(r) == spec_parse(Grammar::Choice(*p)@, GrammarState::Choice(*cs)@, input@),
    decreases *p, input@.len(), 0int, 0int,
{
    proof {
        assert(decreases_to!(*p => p.parser1));
        assert(decreases_to!(*p => p.parser2));
    }
    let r1 = match &cs.state1 {
        Ok(s1) => p.parser1.parse(s1, input),
        Err(e) => Err(*e),
    };
    match r1 {
        Ok(ParseResult::Finished { result, remaining }) => Ok(
            ParseResult::Finished { result: ParseValue::Left(Box::new(result)), remaining },
        ),
        r1 => {
            let r2 = match &cs.state2 {
                Ok(s2) => p.parser2.parse(s2, input),
                Err(e) => Err(*e),
            };
            match r2 {
                Ok(ParseResult::Finished { result, remaining }) => Ok(
                    ParseResult::Finished {
                        result: ParseValue::Right(Box::new(result)),
                        remaining,
                    },
                ),
                r2 => match (r1, r2) {
                    (
                        Ok(ParseResult::Incomplete { new_state: n1, required_next: h1 }),
                        Ok(ParseResult::Incomplete { new_state: n2, required_next: h2 }),
                    ) => {
                        let hint = common_prefix(&h1, &h2);
                        Ok(
                            ParseResult::Incomplete {
                                new_state: GrammarState::Choice(
                                    ChoiceParserState {
                                        state1: Ok(Box::new(n1)),
                                        state2: Ok(Box::new(n2)),
                                    },
                                ),
                                required_next: hint,
                            },
                        )
                    },
                    (
                        Ok(ParseResult::Incomplete { new_state: n1, required_next: h1 }),
                        Err(e2),
                    ) => Ok(
                        ParseResult::Incomplete {
                            new_state: GrammarState::Choice(
                                ChoiceParserState { state1: Ok(Box::new(n1)), state2: Err(e2) },
                            ),
                            required_next: h1,
                        },
                    ),
                    (
                        Err(e1),
                        Ok(ParseResult::Incomplete { new_state: n2, required_next: h2 }),
                    ) => Ok(
                        ParseResult::Incomplete {
                            new_state: GrammarState::Choice(
                                ChoiceParserState { state1: Err(e1), state2: Ok(Box::new(n2)) },
                            ),
                            required_next: h2,
                        },
                    ),
                    (Err(_), Err(_)) => Err(ParseError::CompositionExhaustion),
                    _ => unreached(),
                },
            }
        },
    }
}

/// One engine step of an index combinator.
fn index_parse(p: &IndexParser, ist: &IndexParserState, input: &[u8]) -> (r: Result<
    ParseResult<GrammarState, ParseValue>,
    ParseError,
>)
    requires
        state_matches(Grammar::Index(*p)@, GrammarState::Index(*ist)@),
    ensures
        grammar_outcome(r) == spec_parse(Grammar::Index(*p)@, GrammarState::Index(*ist)@, input@),
    decreases p.parsers@, input@.len(), 0int, 0int,
{
    let ghost this = Grammar::Index(*p)@;
    let ghost whole = GrammarState::Index(*ist)@;
    let ghost gs = match this {
        GrammarV::Index(gs) => gs,
        _ => Seq::empty(),
    };
    let ghost sts = match whole {
        StateV::Index(sts) => sts,
        _ => Seq::empty(),
    };
    let n = p.parsers.len();
    proof {
        assert(gs.len() == n as int);
        assert(sts.len() == ist.states@.len());
        assert(sts.len() == gs.len());
    }
    let mut new_states: Vec<Result<GrammarState, ParseError>> = Vec::new();
    let mut hint: Option<Vec<u8>> = None;
    let mut live = false;
    let mut i: usize = 0;
    while i < n
        invariant
            state_matches(this, whole),
            this == Grammar::Index(*p)@,
            whole == GrammarState::Index(*ist)@,
            n == p.parsers@.len(),
            n as int == gs.len(),
            gs.len() == sts.len(),
            sts.len() == ist.states@.len(),
            this == GrammarV::Index(gs),
            whole == StateV::Index(sts),
            i <= n,
            new_states@.len() == i as int,
            forall|j: int|
                0 <= j < i ==> #[trigger] slot_view(new_states@[j]) == spec_index_states(
                    gs,
                    sts,
                    input@,
                )[j],
            spec_index_winner(gs, sts, input@, 0) == spec_index_winner(gs, sts, input@, i as int),
            spec_index_live(gs, sts, input@, 0) == (live || spec_index_live(
                gs,
                sts,
                input@,
                i as int,
            )),
            spec_index_hint(gs, sts, input@, 0, None) == spec_index_hint(
                gs,
                sts,
                input@,
                i as int,
                hint_view(hint),
            ),
        decreases n - i,
    {
        proof {
            assert(decreases_to!(p.parsers@ => p.parsers@[i as int]));
            assert(gs[i as int] == crate::grammar::grammar_view(p.parsers@[i as int]));
            assert(sts[i as int] == slot_view(ist.states@[i as int]));
        }
        match &ist.states[i] {
            Err(e) => {
                new_states.push(Err(*e));
            },
            Ok(s) => {
                proof {
                    assert(sts[i as int] == slot_view(ist.states@[i as int]));
                    assert(state_matches(gs[i as int], s@));
                }
                match p.parsers[i].parse(s, input) {
                    Ok(ParseResult::Finished { result, remaining }) => {
                        proof {
                            assert(spec_index_winner(gs, sts, input@, i as int) == Some(
                                (i as int, result@, remaining@),
                            ));
                        }
                        return Ok(
                            ParseResult::Finished {
                                result: ParseValue::Indexed(i, Box::new(result)),
                                remaining,
                            },
                        );
                    },
                    Ok(ParseResult::Incomplete { new_state, required_next }) => {
                        live = true;
                        hint = match hint {
                            None => Some(required_next),
                            Some(h) => Some(common_prefix(&h, &required_next)),
                        };
                        new_states.push(Ok(new_state));
                    },
                    Err(e) => {
                        new_states.push(Err(e));
                    },
                }
            },
        }
        i = i + 1;
    }
    if live {
        let required_next = match hint {
            Some(h) => h,
            None => Vec::new(),
        };
        let ghost new_states_view = new_states@;
        let r = GrammarState::Index(IndexParserState { states: new_states });
        proof {
            match crate::grammar::state_view(r) {
                StateV::Index(a) => {
                    let b = spec_index_states(gs, sts, input@);
                    assert forall|j: int| 0 <= j < a.len() implies a[j] == b[j] by {
                        assert(a[j] == slot_view(new_states_view[j]));
                    }
                    assert(a =~= b);
                },
                _ => {
                    assert(false);
                },
            }
        }
        Ok(ParseResult::Incomplete { new_state: r, required_next })
    } else {
        Err(ParseError::CompositionExhaustion)
    }
}

} // verus!
