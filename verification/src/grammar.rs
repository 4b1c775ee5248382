//! The combinator tree: an immutable description of acceptable byte
//! sequences, its per-branch partial state, and the output values parses
//! produce.

use vstd::prelude::*;

use crate::decimal::{DecimalParser, DecimalParserState, DecimalState};
use crate::integer::{IntegerConfig, IntegerParser, IntegerParserState, IntegerState};
use crate::line::{LineState, OneLine, OneLineState};
use crate::literal::{LiteralParser, LiteralParserOffset};
use crate::result::ParseError;
use crate::string::{StringConfig, StringParser, StringParserState, StringState};

verus! {

broadcast use
    vstd::seq::axiom_seq_index_decreases,
    vstd::std_specs::vec::axiom_vec_index_decreases,
    vstd::std_specs::vec::axiom_vec_decreases_to_view,
;

/// An immutable, shareable grammar node.  Grammars are composed from the
/// primitive parsers and the sequence, choice, repetition and index
/// combinators; one grammar is shared read-only across many concurrent parse
/// branches while each branch owns its [`GrammarState`].
#[derive(Debug, PartialEq, Eq)]
pub enum Grammar {
    /// A fixed byte string.
    Literal(LiteralParser),
    /// A decimal integer in an inclusive range.
    Integer(IntegerParser),
    /// A decimal number with an optional fraction, in an inclusive range
    /// with whole-number bounds.
    Decimal(DecimalParser),
    /// A quoted, character-filtered, length-bounded string.
    Text(StringParser),
    /// One line of free text with some non-whitespace content.
    Line(OneLine),
    /// The first grammar, then the second on its leftover bytes.
    Sequence(SequenceParser),
    /// Either the first grammar or the second, left-biased.
    Choice(ChoiceParser),
    /// The same grammar repeated, with an inclusive count range.
    Repeat(RepeatParser),
    /// The first of a fixed list of alternatives to succeed, index-tagged.
    Index(IndexParser),
}

/// A parser that runs one grammar to completion, then a second one on the
/// leftover bytes, and pairs their outputs.
#[derive(Debug, PartialEq, Eq)]
pub struct SequenceParser {
    /// The grammar run first.
    pub parser1: Box<Grammar>,
    /// The grammar run on the first one's leftover bytes.
    pub parser2: Box<Grammar>,
}

/// A parser that attempts two grammars on the same input and finishes with
/// the first of them to finish, left-biased.
#[derive(Debug, PartialEq, Eq)]
pub struct ChoiceParser {
    /// The first alternative; it wins ties.
    pub parser1: Box<Grammar>,
    /// The second alternative.
    pub parser2: Box<Grammar>,
}

/// A parser that runs one grammar over and over, collecting the outputs,
/// governed by an inclusive count range.
#[derive(Debug, PartialEq, Eq)]
pub struct RepeatParser {
    /// The repeated grammar.
    pub parser: Box<Grammar>,
    /// The least acceptable number of repetitions.
    pub min_count: usize,
    /// The greatest acceptable number of repetitions; reaching it finishes
    /// the repetition at once.
    pub max_count: usize,
}

/// A parser that tries a fixed list of alternative grammars and finishes
/// with the first to succeed, tagging the output with its index.
#[derive(Debug, PartialEq, Eq)]
pub struct IndexParser {
    /// The alternatives, in priority order.
    pub parsers: Vec<Grammar>,
}

/// The output of one parse: a closed union over every value a grammar can
/// produce, so heterogeneous grammars can be stored and driven uniformly.
#[derive(Debug, PartialEq, Eq)]
pub enum ParseValue {
    /// A literal matched; it carries no information.
    Unit,
    /// A parsed integer.
    Integer(i128),
    /// A parsed string or line.
    Text(String),
    /// The outputs of a repetition, in order.
    List(Vec<ParseValue>),
    /// The outputs of a sequence.
    Pair(Box<ParseValue>, Box<ParseValue>),
    /// The output of a choice won by the first alternative.
    Left(Box<ParseValue>),
    /// The output of a choice won by the second alternative.
    Right(Box<ParseValue>),
    /// The output of an index combinator: which alternative won, and what it
    /// produced.
    Indexed(usize, Box<ParseValue>),
}

/// The partial state of one in-flight parse of a [`Grammar`].  States are
/// cloneable so the engine can explore candidate continuations on independent
/// clones, and they are discarded when a branch finishes or fails.
#[derive(Debug, PartialEq, Eq)]
pub enum GrammarState {
    /// State of a literal parser.
    Literal(LiteralParserOffset),
    /// State of an integer parser.
    Integer(IntegerParserState),
    /// State of a decimal parser.
    Decimal(DecimalParserState),
    /// State of a string parser.
    Text(StringParserState),
    /// State of a one-line parser.
    Line(OneLineState),
    /// State of a sequence combinator.
    Sequence(SequenceParserState),
    /// State of a choice combinator.
    Choice(ChoiceParserState),
    /// State of a repeat combinator.
    Repeat(RepeatParserState),
    /// State of an index combinator.
    Index(IndexParserState),
}

/// The state of a [`SequenceParser`]: either still inside the first grammar,
/// or inside the second with the first one's output saved.
#[derive(Debug, PartialEq, Eq)]
pub enum SequenceParserState {
    /// Still running the first grammar.
    FirstParser(Box<GrammarState>),
    /// Running the second grammar, holding the first grammar's output.
    SecondParser(Box<GrammarState>, ParseValue),
}

/// The state of a [`ChoiceParser`]: each side is either still viable or has
/// failed for good and is excluded from further attempts.
#[derive(Debug, PartialEq, Eq)]
pub struct ChoiceParserState {
    /// The first alternative's state, or its terminal failure.
    pub state1: Result<Box<GrammarState>, ParseError>,
    /// The second alternative's state, or its terminal failure.
    pub state2: Result<Box<GrammarState>, ParseError>,
}

/// The state of a [`RepeatParser`].
#[derive(Debug, PartialEq, Eq)]
pub struct RepeatParserState {
    /// Whether the current repetition cycle has consumed bytes across a call
    /// boundary, as opposed to sitting at a valid stopping point.
    pub new_state_in_progress: bool,
    /// The state of the current repetition cycle.
    pub last_state: Box<GrammarState>,
    /// The outputs collected from the finished cycles.
    pub outputs: Vec<ParseValue>,
}

/// The state of an [`IndexParser`]: one slot per alternative, each either a
/// live sub-state or a terminal failure.
#[derive(Debug, PartialEq, Eq)]
pub struct IndexParserState {
    /// The per-alternative states.
    pub states: Vec<Result<GrammarState, ParseError>>,
}

/// The mathematical model of a [`Grammar`].
pub enum GrammarV {
    /// A fixed byte string.
    Literal(Seq<u8>),
    /// A decimal integer in an inclusive range.
    Integer(IntegerConfig),
    /// A decimal number with an optional fraction, in an inclusive range
    /// with whole-number bounds.
    Decimal(IntegerConfig),
    /// A quoted, filtered, length-bounded string.
    Text(StringConfig),
    /// One line of free text.
    Line,
    /// One grammar, then a second.
    Sequence(Box<GrammarV>, Box<GrammarV>),
    /// One grammar or a second, left-biased.
    Choice(Box<GrammarV>, Box<GrammarV>),
    /// A repetition with an inclusive count range.
    Repeat(Box<GrammarV>, int, int),
    /// A fixed list of alternatives.
    Index(Seq<GrammarV>),
}

/// The mathematical model of a [`ParseValue`].
pub enum ValueV {
    /// A literal matched.
    Unit,
    /// A parsed integer.
    Integer(int),
    /// A parsed string or line.
    Text(Seq<char>),
    /// The outputs of a repetition.
    List(Seq<ValueV>),
    /// The outputs of a sequence.
    Pair(Box<ValueV>, Box<ValueV>),
    /// A choice won by the first alternative.
    Left(Box<ValueV>),
    /// A choice won by the second alternative.
    Right(Box<ValueV>),
    /// An index outcome: the winning alternative and its output.
    Indexed(int, Box<ValueV>),
}

/// The mathematical model of a [`GrammarState`].
pub enum StateV {
    /// How many literal bytes are matched.
    Literal(int),
    /// The state of an integer parse.
    Integer(IntegerState),
    /// The state of a decimal parse.
    Decimal(DecimalState),
    /// The state of a string parse.
    Text(StringState),
    /// The state of a line parse.
    Line(LineState),
    /// A sequence still in its first grammar.
    SequenceFirst(Box<StateV>),
    /// A sequence in its second grammar, holding the first output.
    SequenceSecond(Box<StateV>, ValueV),
    /// A choice: each side live or failed.
    Choice(Result<Box<StateV>, ParseError>, Result<Box<StateV>, ParseError>),
    /// A repetition: the in-progress flag, the current cycle's state, and the
    /// collected outputs.
    Repeat(bool, Box<StateV>, Seq<ValueV>),
    /// An index combinator: one slot per alternative.
    Index(Seq<Result<StateV, ParseError>>),
}

/// The model of a grammar node.
pub open spec fn grammar_view(g: Grammar) -> GrammarV
    decreases g,
{
    match g {
        Grammar::Literal(p) => GrammarV::Literal(p@),
        Grammar::Integer(p) => GrammarV::Integer(p@),
        Grammar::Decimal(p) => GrammarV::Decimal(p@),
        Grammar::Text(p) => GrammarV::Text(p@),
        Grammar::Line(_) => GrammarV::Line,
        Grammar::Sequence(p) => GrammarV::Sequence(
            Box::new(grammar_view(*p.parser1)),
            Box::new(grammar_view(*p.parser2)),
        ),
        Grammar::Choice(p) => GrammarV::Choice(
            Box::new(grammar_view(*p.parser1)),
            Box::new(grammar_view(*p.parser2)),
        ),
        Grammar::Repeat(p) => GrammarV::Repeat(
            Box::new(grammar_view(*p.parser)),
            p.min_count as int,
            p.max_count as int,
        ),
        Grammar::Index(p) => GrammarV::Index(
            Seq::new(
                p.parsers@.len(),
                |i: int|
                    if 0 <= i < p.parsers@.len() {
                        grammar_view(p.parsers@[i])
                    } else {
                        GrammarV::Line
                    },
            ),
        ),
    }
}

/// The model of a parse output.
pub open spec fn value_view(v: ParseValue) -> ValueV
    decreases v,
{
    match v {
        ParseValue::Unit => ValueV::Unit,
        ParseValue::Integer(n) => ValueV::Integer(n as int),
        ParseValue::Text(s) => ValueV::Text(s@),
        ParseValue::List(items) => ValueV::List(values_view(items@)),
        ParseValue::Pair(a, b) => ValueV::Pair(Box::new(value_view(*a)), Box::new(value_view(*b))),
        ParseValue::Left(a) => ValueV::Left(Box::new(value_view(*a))),
        ParseValue::Right(a) => ValueV::Right(Box::new(value_view(*a))),
        ParseValue::Indexed(i, a) => ValueV::Indexed(i as int, Box::new(value_view(*a))),
    }
}

/// The models of a sequence of parse outputs, element by element.
pub open spec fn values_view(items: Seq<ParseValue>) -> Seq<ValueV>
    decreases items,
{
    Seq::new(
        items.len(),
        |i: int|
            if 0 <= i < items.len() {
                value_view(items[i])
            } else {
                ValueV::Unit
            },
    )
}

/// The model of a partial state.
pub open spec fn state_view(s: GrammarState) -> StateV
    decreases s,
{
    match s {
        GrammarState::Literal(st) => StateV::Literal(st.offset as int),
        GrammarState::Integer(st) => StateV::Integer(st@),
        GrammarState::Decimal(st) => StateV::Decimal(st@),
        GrammarState::Text(st) => StateV::Text(st@),
        GrammarState::Line(st) => StateV::Line(st@),
        GrammarState::Sequence(SequenceParserState::FirstParser(st)) => StateV::SequenceFirst(
            Box::new(state_view(*st)),
        ),
        GrammarState::Sequence(SequenceParserState::SecondParser(st, out)) => StateV::SequenceSecond(
            Box::new(state_view(*st)),
            value_view(out),
        ),
        GrammarState::Choice(st) => StateV::Choice(
            match st.state1 {
                Ok(s1) => Ok(Box::new(state_view(*s1))),
                Err(e) => Err(e),
            },
            match st.state2 {
                Ok(s2) => Ok(Box::new(state_view(*s2))),
                Err(e) => Err(e),
            },
        ),
        GrammarState::Repeat(st) => StateV::Repeat(
            st.new_state_in_progress,
            Box::new(state_view(*st.last_state)),
            values_view(st.outputs@),
        ),
        GrammarState::Index(st) => StateV::Index(
            Seq::new(
                st.states@.len(),
                |i: int|
                    if 0 <= i < st.states@.len() {
                        match st.states@[i] {
                            Ok(s) => Ok(state_view(s)),
                            Err(e) => Err(e),
                        }
                    } else {
                        Err(ParseError::GrammarViolation)
                    },
            ),
        ),
    }
}

impl View for SequenceParserState {
    type V = StateV;

    open spec fn view(&self) -> StateV {
        match self {
            SequenceParserState::FirstParser(st) => StateV::SequenceFirst(
                Box::new(state_view(**st)),
            ),
            SequenceParserState::SecondParser(st, out) => StateV::SequenceSecond(
                Box::new(state_view(**st)),
                value_view(*out),
            ),
        }
    }
}

impl View for ChoiceParserState {
    type V = StateV;

    open spec fn view(&self) -> StateV {
        StateV::Choice(
            match self.state1 {
                Ok(s1) => Ok(Box::new(state_view(*s1))),
                Err(e) => Err(e),
            },
            match self.state2 {
                Ok(s2) => Ok(Box::new(state_view(*s2))),
                Err(e) => Err(e),
            },
        )
    }
}

impl View for RepeatParserState {
    type V = StateV;

    open spec fn view(&self) -> StateV {
        StateV::Repeat(
            self.new_state_in_progress,
            Box::new(state_view(*self.last_state)),
            values_view(self.outputs@),
        )
    }
}

impl View for IndexParserState {
    type V = StateV;

    open spec fn view(&self) -> StateV {
        state_view(GrammarState::Index(IndexParserState { states: self.states }))
    }
}

impl View for Grammar {
    type V = GrammarV;

    open spec fn view(&self) -> GrammarV {
        grammar_view(*self)
    }
}

impl View for ParseValue {
    type V = ValueV;

    open spec fn view(&self) -> ValueV {
        value_view(*self)
    }
}

impl View for GrammarState {
    type V = StateV;

    open spec fn view(&self) -> StateV {
        state_view(*self)
    }
}

impl Grammar {
    /// An independent copy of this grammar, equal to it in the model, so one
    /// declared grammar can serve many concurrent parse branches.
    pub fn duplicate(&self) -> (r: Grammar)
        ensures
            r@ == self@,
        decreases *self,
    {
        match self {
            Grammar::Literal(p) => Grammar::Literal(p.duplicate()),
            Grammar::Integer(p) => Grammar::Integer(*p),
            Grammar::Decimal(p) => Grammar::Decimal(*p),
            Grammar::Text(p) => Grammar::Text(p.duplicate()),
            Grammar::Line(p) => Grammar::Line(*p),
            Grammar::Sequence(p) => Grammar::Sequence(
                SequenceParser {
                    parser1: Box::new(p.parser1.duplicate()),
                    parser2: Box::new(p.parser2.duplicate()),
                },
            ),
            Grammar::Choice(p) => Grammar::Choice(
                ChoiceParser {
                    parser1: Box::new(p.parser1.duplicate()),
                    parser2: Box::new(p.parser2.duplicate()),
                },
            ),
            Grammar::Repeat(p) => Grammar::Repeat(
                RepeatParser {
                    parser: Box::new(p.parser.duplicate()),
                    min_count: p.min_count,
                    max_count: p.max_count,
                },
            ),
            Grammar::Index(p) => {
                let mut copied: Vec<Grammar> = Vec::new();
                let mut i: usize = 0;
                while i < p.parsers.len()
                    invariant
                        *self == Grammar::Index(*p),
                        i <= p.parsers@.len(),
                        copied@.len() == i as int,
                        forall|j: int| 0 <= j < i ==> (#[trigger] copied@[j])@ == p.parsers@[j]@,
                    decreases p.parsers@.len() - i,
                {
                    proof {
                        assert(*p == self->Index_0);
                        assert(decreases_to!(*self => self->Index_0));
                        assert(decreases_to!(*p => p.parsers));
                        assert(decreases_to!(p.parsers => p.parsers@));
                        assert(decreases_to!(p.parsers@ => p.parsers@[i as int]));
                    }
                    copied.push(p.parsers[i].duplicate());
                    i = i + 1;
                }
                let ghost copied_view = copied@;
                let r = Grammar::Index(IndexParser { parsers: copied });
                proof {
                    match (grammar_view(r), grammar_view(*self)) {
                        (GrammarV::Index(a), GrammarV::Index(b)) => {
                            assert forall|j: int| 0 <= j < a.len() implies a[j] == b[j] by {
                                assert(a[j] == copied_view[j]@);
                                assert(b[j] == p.parsers@[j]@);
                            }
                            assert(a =~= b);
                        },
                        _ => {
                            assert(false);
                        },
                    }
                }
                r
            },
        }
    }
}

impl ParseValue {
    /// An independent copy of this output value, equal to it in the model.
    /// Partial states and outputs are duplicated rather than shared, so each
    /// candidate branch owns its data outright.
    pub fn duplicate(&self) -> (r: ParseValue)
        ensures
            r@ == self@,
        decreases *self,
    {
        match self {
            ParseValue::Unit => ParseValue::Unit,
            ParseValue::Integer(n) => ParseValue::Integer(*n),
            ParseValue::Text(s) => ParseValue::Text(s.clone()),
            ParseValue::List(items) => {
                let mut copied: Vec<ParseValue> = Vec::new();
                let mut i: usize = 0;
                while i < items.len()
                    invariant
                        *self == ParseValue::List(*items),
                        i <= items@.len(),
                        copied@.len() == i as int,
                        forall|j: int| 0 <= j < i ==> (#[trigger] copied@[j])@ == items@[j]@,
                    decreases items@.len() - i,
                {
                    proof {
                        assert(*items == self->List_0);
                        assert(decreases_to!(*self => self->List_0));
                        assert(decreases_to!(*items => items@));
                        assert(decreases_to!(items@ => items@[i as int]));
                    }
                    copied.push(items[i].duplicate());
                    i = i + 1;
                }
                let ghost copied_view = copied@;
                let r = ParseValue::List(copied);
                proof {
                    assert(value_view(r) == ValueV::List(values_view(copied_view)));
                    assert(value_view(*self) == ValueV::List(values_view(items@)));
                    assert(values_view(copied_view) =~= values_view(items@)) by {
                        assert(values_view(copied_view).len() == copied_view.len());
                        assert(values_view(items@).len() == items@.len());
                        assert forall|j: int| 0 <= j < copied_view.len() implies values_view(
                            copied_view,
                        )[j] == values_view(items@)[j] by {
                            assert(values_view(copied_view)[j] == value_view(copied_view[j]));
                            assert(values_view(items@)[j] == value_view(items@[j]));
                        }
                    }
                }
                r
            },
            ParseValue::Pair(a, b) => ParseValue::Pair(
                Box::new(a.duplicate()),
                Box::new(b.duplicate()),
            ),
            ParseValue::Left(a) => ParseValue::Left(Box::new(a.duplicate())),
            ParseValue::Right(a) => ParseValue::Right(Box::new(a.duplicate())),
            ParseValue::Indexed(i, a) => ParseValue::Indexed(*i, Box::new(a.duplicate())),
        }
    }
}

impl GrammarState {
    /// An independent copy of this partial state, equal to it in the model.
    /// The engine speculatively explores many candidate continuations from
    /// one state; each candidate branch takes its own copy, with no shared
    /// mutation.
    pub fn duplicate(&self) -> (r: GrammarState)
        ensures
            r@ == self@,
        decreases *self,
    {
        match self {
            GrammarState::Literal(s) => GrammarState::Literal(*s),
            GrammarState::Integer(s) => GrammarState::Integer(*s),
            GrammarState::Decimal(s) => GrammarState::Decimal(*s),
            GrammarState::Text(s) => GrammarState::Text(
                StringParserState {
                    progress: s.progress,
                    bytes: vstd::slice::slice_to_vec(s.bytes.as_slice()),
                    next_char_escaped: s.next_char_escaped,
                },
            ),
            GrammarState::Line(s) => GrammarState::Line(
                OneLineState {
                    all_whitespace: s.all_whitespace,
                    bytes: vstd::slice::slice_to_vec(s.bytes.as_slice()),
                },
            ),
            GrammarState::Sequence(SequenceParserState::FirstParser(s1)) => GrammarState::Sequence(
                SequenceParserState::FirstParser(Box::new(s1.duplicate())),
            ),
            GrammarState::Sequence(SequenceParserState::SecondParser(s2, out)) => GrammarState::Sequence(
                SequenceParserState::SecondParser(Box::new(s2.duplicate()), out.duplicate()),
            ),
            GrammarState::Choice(cs) => GrammarState::Choice(
                ChoiceParserState {
                    state1: match &cs.state1 {
                        Ok(s1) => Ok(Box::new(s1.duplicate())),
                        Err(e) => Err(*e),
                    },
                    state2: match &cs.state2 {
                        Ok(s2) => Ok(Box::new(s2.duplicate())),
                        Err(e) => Err(*e),
                    },
                },
            ),
            GrammarState::Repeat(rs) => {
                let copied_outputs = duplicate_values(&rs.outputs);
                proof {
                    assert(values_view(copied_outputs@) =~= values_view(rs.outputs@));
                }
                GrammarState::Repeat(
                    RepeatParserState {
                        new_state_in_progress: rs.new_state_in_progress,
                        last_state: Box::new(rs.last_state.duplicate()),
                        outputs: copied_outputs,
                    },
                )
            },
            GrammarState::Index(ist) => {
                let mut copied: Vec<Result<GrammarState, ParseError>> = Vec::new();
                let mut i: usize = 0;
                while i < ist.states.len()
                    invariant
                        *self == GrammarState::Index(IndexParserState { states: ist.states }),
                        i <= ist.states@.len(),
                        copied@.len() == i as int,
                        forall|j: int|
                            0 <= j < i ==> #[trigger] slot_state_view(copied@[j])
                                == slot_state_view(ist.states@[j]),
                    decreases ist.states@.len() - i,
                {
                    proof {
                        assert(*ist == self->Index_0);
                        assert(decreases_to!(*self => self->Index_0));
                        assert(decreases_to!(*ist => ist.states));
                        assert(decreases_to!(ist.states => ist.states@));
                        assert(decreases_to!(ist.states@ => ist.states@[i as int]));
                    }
                    let slot = match &ist.states[i] {
                        Ok(s) => {
                            proof {
                                assert(decreases_to!(
                                    ist.states@[i as int] => ist.states@[i as int]->Ok_0));
                            }
                            Ok(s.duplicate())
                        },
                        Err(e) => Err(*e),
                    };
                    copied.push(slot);
                    i = i + 1;
                }
                let ghost copied_view = copied@;
                let r = GrammarState::Index(IndexParserState { states: copied });
                proof {
                    match (state_view(r), state_view(*self)) {
                        (StateV::Index(a), StateV::Index(b)) => {
                            assert forall|j: int| 0 <= j < a.len() implies a[j] == b[j] by {
                                assert(a[j] == slot_state_view(copied_view[j]));
                                assert(b[j] == slot_state_view(ist.states@[j]));
                            }
                            assert(a =~= b);
                        },
                        _ => {
                            assert(false);
                        },
                    }
                }
                r
            },
        }
    }
}

/// The model of one alternative slot of an index state.
pub open spec fn slot_state_view(s: Result<GrammarState, ParseError>) -> Result<
    StateV,
    ParseError,
> {
    match s {
        Ok(st) => Ok(state_view(st)),
        Err(e) => Err(e),
    }
}

/// An independent copy of a vector of output values, equal element by element
/// in the model.
pub fn duplicate_values(items: &Vec<ParseValue>) -> (r: Vec<ParseValue>)
    ensures
        r@.len() == items@.len(),
        forall|j: int| 0 <= j < items@.len() ==> (#[trigger] r@[j])@ == items@[j]@,
{
    let mut copied: Vec<ParseValue> = Vec::new();
    let mut i: usize = 0;
    while i < items.len()
        invariant
            i <= items@.len(),
            copied@.len() == i as int,
            forall|j: int| 0 <= j < i ==> (#[trigger] copied@[j])@ == items@[j]@,
        decreases items@.len() - i,
    {
        copied.push(items[i].duplicate());
        i = i + 1;
    }
    copied
}

/// True if the partial state has the shape the grammar expects, recursively.
/// Parsing dispatches on the pair of grammar and state; a mismatched pairing
/// is a construction-time logic error that correct use of the constructors
/// never produces.
pub open spec fn state_matches(g: GrammarV, s: StateV) -> bool
    decreases g,
{
    match g {
        GrammarV::Literal(_) => s is Literal,
        GrammarV::Integer(_) => s is Integer,
        GrammarV::Decimal(_) => s is Decimal,
        GrammarV::Text(_) => s is Text,
        GrammarV::Line => s is Line,
        GrammarV::Sequence(g1, g2) => match s {
            StateV::SequenceFirst(s1) => state_matches(*g1, *s1),
            StateV::SequenceSecond(s2, _) => state_matches(*g2, *s2),
            _ => false,
        },
        GrammarV::Choice(g1, g2) => match s {
            StateV::Choice(s1, s2) => (match s1 {
                Ok(s1) => state_matches(*g1, *s1),
                Err(_) => true,
            }) && (match s2 {
                Ok(s2) => state_matches(*g2, *s2),
                Err(_) => true,
            }),
            _ => false,
        },
        GrammarV::Repeat(sub, _, _) => match s {
            StateV::Repeat(_, last, _) => state_matches(*sub, *last),
            _ => false,
        },
        GrammarV::Index(gs) => match s {
            StateV::Index(sts) => sts.len() == gs.len() && (forall|i: int|
                0 <= i < gs.len() ==> (#[trigger] sts[i] matches Ok(st) ==> state_matches(
                    gs[i],
                    st,
                ))),
            _ => false,
        },
    }
}

/// The initial state of a grammar: the state its `create_parser_state`
/// constructors produce, before any input byte.
pub open spec fn spec_initial_state(g: GrammarV) -> StateV
    decreases g,
{
    match g {
        GrammarV::Literal(_) => StateV::Literal(0),
        GrammarV::Integer(_) => StateV::Integer(
            IntegerState { negative: false, digits_seen: false, magnitude: 0 },
        ),
        GrammarV::Decimal(_) => StateV::Decimal(
            DecimalState {
                negative: false,
                digits_seen: false,
                in_fraction: false,
                fraction_seen: false,
                fraction_nonzero: false,
                magnitude: 0,
            },
        ),
        GrammarV::Text(_) => StateV::Text(
            StringState { in_string: false, content: Seq::empty(), escaped: false },
        ),
        GrammarV::Line => StateV::Line(LineState { all_whitespace: true, content: Seq::empty() }),
        GrammarV::Sequence(g1, _) => StateV::SequenceFirst(Box::new(spec_initial_state(*g1))),
        GrammarV::Choice(g1, g2) => StateV::Choice(
            Ok(Box::new(spec_initial_state(*g1))),
            Ok(Box::new(spec_initial_state(*g2))),
        ),
        GrammarV::Repeat(sub, _, _) => StateV::Repeat(
            false,
            Box::new(spec_initial_state(*sub)),
            Seq::empty(),
        ),
        GrammarV::Index(gs) => StateV::Index(
            Seq::new(
                gs.len(),
                |i: int|
                    if 0 <= i < gs.len() {
                        Ok(spec_initial_state(gs[i]))
                    } else {
                        Err(ParseError::GrammarViolation)
                    },
            ),
        ),
    }
}

/// A fresh initial state always has the shape its grammar expects.
pub proof fn lemma_initial_state_matches(g: GrammarV)
    ensures
        state_matches(g, spec_initial_state(g)),
    decreases g,
{
    match g {
        GrammarV::Sequence(g1, _) => lemma_initial_state_matches(*g1),
        GrammarV::Choice(g1, g2) => {
            lemma_initial_state_matches(*g1);
            lemma_initial_state_matches(*g2);
        },
        GrammarV::Repeat(sub, _, _) => lemma_initial_state_matches(*sub),
        GrammarV::Index(gs) => {
            let sts = Seq::new(
                gs.len(),
                |i: int|
                    if 0 <= i < gs.len() {
                        Ok(spec_initial_state(gs[i]))
                    } else {
                        Err(ParseError::GrammarViolation)
                    },
            );
            match spec_initial_state(g) {
                StateV::Index(sts0) => {
                    assert(sts0 =~= sts);
                },
                _ => {
                    assert(false);
                },
            }
            assert forall|i: int| 0 <= i < gs.len() implies (#[trigger] sts[i] matches Ok(st)
                ==> state_matches(gs[i], st)) by {
                lemma_initial_state_matches(gs[i]);
                assert(sts[i] == Ok::<StateV, ParseError>(spec_initial_state(gs[i])));
            }
        },
        _ => {},
    }
}

} // verus!
