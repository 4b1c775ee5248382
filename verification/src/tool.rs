//! Tools a text generator may call, and the action grammar that constrains
//! one generation step to a thought, a tool invocation, or a final answer.

use vstd::prelude::*;
use vstd::string::StrSliceExecFns;
use vstd::utf8::encode_utf8;

use crate::grammar::{
    Grammar, GrammarV, IndexParser, ParseValue, SequenceParser, ValueV,
};
use crate::line::NEWLINE;
use crate::literal::LiteralParser;

verus! {

/// A tool a text generator may call: its name, the prompt that introduces its
/// input, a description for the system prompt, and the grammar its input must
/// satisfy.  Implemented by library users; the engine only reads these
/// descriptions.
pub trait Tool {
    /// The name of the tool.
    fn name(&self) -> String;

    /// The prompt for the input to the tool.
    fn input_prompt(&self) -> String;

    /// A description of the tool.
    fn description(&self) -> String;

    /// The grammar constraining the input to the tool.
    fn constraints(&self) -> Grammar;
}

/// One registered tool: the values its [`Tool`] returned when it was added.
#[derive(Debug, PartialEq, Eq)]
pub struct ToolEntry {
    /// The name of the tool.
    pub name: String,
    /// The prompt for the input to the tool.
    pub input_prompt: String,
    /// A description of the tool.
    pub description: String,
    /// The grammar constraining the input to the tool.
    pub constraint: Grammar,
}

/// A set of tools a generator may call, and the grammars that constrain the
/// calls.
#[derive(Debug, PartialEq, Eq)]
pub struct ToolManager {
    /// The registered tools, in priority order.
    pub tools: Vec<ToolEntry>,
}

/// The action parsed from one generation step.
#[derive(Debug, PartialEq, Eq)]
pub enum Action {
    /// The generator produced a thought.
    Thought(String),
    /// The generator invoked a tool, by index, with a parsed input.
    Tool {
        /// The index of the chosen tool.
        index: usize,
        /// The parsed input to the tool.
        input: ParseValue,
    },
    /// The generator answered the question.
    Answer(String),
}

/// The mathematical model of an [`Action`].
pub enum ActionV {
    /// A thought line.
    Thought(Seq<char>),
    /// A tool invocation.
    Tool {
        /// The index of the chosen tool.
        index: int,
        /// The parsed input to the tool.
        input: ValueV,
    },
    /// A final answer line.
    Answer(Seq<char>),
}

impl View for Action {
    type V = ActionV;

    open spec fn view(&self) -> ActionV {
        match self {
            Action::Thought(s) => ActionV::Thought(s@),
            Action::Tool { index, input } => ActionV::Tool { index: *index as int, input: input@ },
            Action::Answer(s) => ActionV::Answer(s@),
        }
    }
}

/// The result of one step of the tool manager.
#[derive(Debug, PartialEq, Eq)]
pub enum ToolManagerStepResult {
    /// The task was completed with this final answer.
    Finished(String),
    /// The generator produced a new thought.
    Thought(String),
    /// A tool ran and produced this output.
    Action {
        /// The index of the tool that ran.
        index: usize,
        /// The textual output of the tool.
        output: String,
    },
}

/// The grammar constraining one tool invocation: the tool's name, a newline
/// and its input prompt as a literal, followed by the tool's own input
/// grammar.
pub open spec fn spec_tool_grammar(t: ToolEntry) -> GrammarV {
    GrammarV::Sequence(
        Box::new(
            GrammarV::Literal(encode_utf8(t.name@) + seq![NEWLINE] + encode_utf8(t.input_prompt@)),
        ),
        Box::new(t.constraint@),
    )
}

/// The per-tool invocation grammars, in priority order.
pub open spec fn spec_tool_grammars(tools: Seq<ToolEntry>) -> Seq<GrammarV> {
    Seq::new(
        tools.len(),
        |i: int|
            if 0 <= i < tools.len() {
                spec_tool_grammar(tools[i])
            } else {
                GrammarV::Line
            },
    )
}

/// The grammar constraining one whole generation step: a thought line, a tool
/// invocation, or a final answer line, joined by nested left-biased choices.
pub open spec fn spec_action_grammar(tools: Seq<ToolEntry>) -> GrammarV {
    GrammarV::Choice(
        Box::new(
            GrammarV::Choice(
                Box::new(
                    GrammarV::Sequence(
                        Box::new(GrammarV::Literal(encode_utf8("Thought: "@))),
                        Box::new(GrammarV::Line),
                    ),
                ),
                Box::new(
                    GrammarV::Sequence(
                        Box::new(GrammarV::Literal(encode_utf8("Action: "@))),
                        Box::new(GrammarV::Index(spec_tool_grammars(tools))),
                    ),
                ),
            ),
        ),
        Box::new(
            GrammarV::Sequence(
                Box::new(GrammarV::Literal(encode_utf8("Final Answer: "@))),
                Box::new(GrammarV::Line),
            ),
        ),
    )
}

/// The action described by an output value of the action grammar, if the
/// value has the shape that grammar produces.
pub open spec fn spec_action_of(v: ValueV) -> Option<ActionV> {
    match v {
        ValueV::Left(inner) => match *inner {
            ValueV::Left(pair) => match *pair {
                ValueV::Pair(_, line) => match *line {
                    ValueV::Text(t) => Some(ActionV::Thought(t)),
                    _ => None,
                },
                _ => None,
            },
            ValueV::Right(pair) => match *pair {
                ValueV::Pair(_, chosen) => match *chosen {
                    ValueV::Indexed(i, tagged) => match *tagged {
                        ValueV::Pair(_, input) => if 0 <= i <= usize::MAX {
                            Some(ActionV::Tool { index: i, input: *input })
                        } else {
                            None
                        },
                        _ => None,
                    },
                    _ => None,
                },
                _ => None,
            },
            _ => None,
        },
        ValueV::Right(pair) => match *pair {
            ValueV::Pair(_, line) => match *line {
                ValueV::Text(t) => Some(ActionV::Answer(t)),
                _ => None,
            },
            _ => None,
        },
        _ => None,
    }
}

/// The tool-name listing shown in the prompt, from slot `i` on: each name in
/// single quotes.
pub open spec fn spec_tool_names(tools: Seq<ToolEntry>, i: int) -> Seq<char>
    decreases tools.len() - i,
{
    if i < 0 || i >= tools.len() {
        Seq::empty()
    } else {
        "'"@ + tools[i].name@ + "'"@ + spec_tool_names(tools, i + 1)
    }
}

/// The tool-description block shown in the prompt, from slot `i` on: each
/// tool's name as a heading, then its description.
pub open spec fn spec_tool_block(tools: Seq<ToolEntry>, i: int) -> Seq<char>
    decreases tools.len() - i,
{
    if i < 0 || i >= tools.len() {
        Seq::empty()
    } else {
        "# "@ + tools[i].name@ + "\n"@ + tools[i].description@ + spec_tool_block(tools, i + 1)
    }
}

/// The model of an optional action.
pub open spec fn action_option_view(r: Option<Action>) -> Option<ActionV> {
    match r {
        Some(a) => Some(a@),
        None => None,
    }
}

/// Interpret an output of the action grammar as a thought, a tool invocation
/// or a final answer.  Values of any other shape, which the action grammar
/// never produces, yield nothing.
pub fn interpret_action(v: ParseValue) -> (r: Option<Action>)
    ensures
        action_option_view(r) == spec_action_of(v@),
{
    proof {
        reveal_with_fuel(crate::grammar::value_view, 8);
    }
    match v {
        ParseValue::Left(inner) => match *inner {
            ParseValue::Left(pair) => match *pair {
                ParseValue::Pair(_, line) => match *line {
                    ParseValue::Text(t) => Some(Action::Thought(t)),
                    _ => None,
                },
                _ => None,
            },
            ParseValue::Right(pair) => match *pair {
                ParseValue::Pair(_, chosen) => match *chosen {
                    ParseValue::Indexed(i, tagged) => match *tagged {
                        ParseValue::Pair(_, input) => Some(
                            Action::Tool { index: i, input: *input },
                        ),
                        _ => None,
                    },
                    _ => None,
                },
                _ => None,
            },
            _ => None,
        },
        ParseValue::Right(pair) => match *pair {
            ParseValue::Pair(_, line) => match *line {
                ParseValue::Text(t) => Some(Action::Answer(t)),
                _ => None,
            },
            _ => None,
        },
        _ => None,
    }
}

/// The step result an action decides once any required tool output is in
/// hand: a thought passes through, an answer finishes the task, and a tool
/// invocation needs the tool's textual output.  A tool invocation without an
/// output decides nothing.
pub fn step_outcome(action: Action, tool_output: Option<String>) -> (r: Option<
    ToolManagerStepResult,
>)
    ensures
        match action@ {
            ActionV::Thought(t) => r matches Some(ToolManagerStepResult::Thought(s)) && s@ == t,
            ActionV::Answer(t) => r matches Some(ToolManagerStepResult::Finished(s)) && s@ == t,
            ActionV::Tool { index, .. } => match tool_output {
                Some(out) => r matches Some(ToolManagerStepResult::Action {
                    index: i,
                    output,
                }) && i as int == index && output == out,
                None => r is None,
            },
        },
{
    match action {
        Action::Thought(t) => Some(ToolManagerStepResult::Thought(t)),
        Action::Answer(t) => Some(ToolManagerStepResult::Finished(t)),
        Action::Tool { index, input: _ } => match tool_output {
            Some(output) => Some(ToolManagerStepResult::Action { index, output }),
            None => None,
        },
    }
}

/// True if two byte slices hold the same bytes.
pub fn bytes_eq(a: &[u8], b: &[u8]) -> (r: bool)
    ensures
        r == (a@ == b@),
{
    if a.len() != b.len() {
        proof {
            assert(a@.len() != b@.len());
        }
        return false;
    }
    let mut i: usize = 0;
    while i < a.len()
        invariant
            a@.len() == b@.len(),
            i <= a@.len(),
            forall|j: int| 0 <= j < i ==> a@[j] == b@[j],
        decreases a@.len() - i,
    {
        if *vstd::slice::slice_index_get(a, i) != *vstd::slice::slice_index_get(b, i) {
            return false;
        }
        i = i + 1;
    }
    proof {
        assert(a@ =~= b@);
    }
    true
}

impl ToolManager {
    /// Create an empty tool manager.
    pub fn new() -> (r: ToolManager)
        ensures
            r.tools@.len() == 0,
    {
        ToolManager { tools: Vec::new() }
    }

    /// Add a registered tool entry to the manager.
    pub fn add_entry(&mut self, entry: ToolEntry)
        ensures
            final(self).tools@ == old(self).tools@.push(entry),
    {
        self.tools.push(entry);
    }

    /// Add a tool to the manager, recording what its description methods
    /// return: one entry is appended and every entry already present stays
    /// unchanged, in order.
    pub fn add_tool<T: Tool>(&mut self, tool: T)
        ensures
            final(self).tools@.len() == old(self).tools@.len() + 1,
            forall|i: int|
                0 <= i < old(self).tools@.len() ==> #[trigger] final(self).tools@[i] == old(
                    self,
                ).tools@[i],
    {
        let entry = ToolEntry {
            name: tool.name(),
            input_prompt: tool.input_prompt(),
            description: tool.description(),
            constraint: tool.constraints(),
        };
        self.add_entry(entry);
    }

    /// Add a tool to the manager, builder style: the same tool list with one
    /// entry appended.
    pub fn with_tool<T: Tool>(self, tool: T) -> (r: ToolManager)
        ensures
            r.tools@.len() == self.tools@.len() + 1,
            forall|i: int|
                0 <= i < self.tools@.len() ==> #[trigger] r.tools@[i] == self.tools@[i],
    {
        let mut this = self;
        this.add_tool(tool);
        this
    }

    /// The tools in the manager, in priority order.
    pub fn get_tools(&self) -> (r: &[ToolEntry])
        ensures
            r@ == self.tools@,
    {
        self.tools.as_slice()
    }

    /// The first tool, in declaration order, whose name spells the given
    /// bytes, if any.
    pub fn get_tool(&self, name: &str) -> (r: Option<&ToolEntry>)
        ensures
            match r {
                Some(t) => exists|i: int|
                    0 <= i < self.tools@.len() && *t == #[trigger] self.tools@[i] && encode_utf8(
                        self.tools@[i].name@,
                    ) == encode_utf8(name@) && (forall|j: int|
                        0 <= j < i ==> encode_utf8(#[trigger] self.tools@[j].name@) != encode_utf8(
                            name@,
                        )),
                None => forall|i: int|
                    0 <= i < self.tools@.len() ==> encode_utf8(#[trigger] self.tools@[i].name@)
                        != encode_utf8(name@),
            },
    {
        let mut i: usize = 0;
        while i < self.tools.len()
            invariant
                i <= self.tools@.len(),
                forall|j: int|
                    0 <= j < i ==> encode_utf8(#[trigger] self.tools@[j].name@) != encode_utf8(
                        name@,
                    ),
            decreases self.tools@.len() - i,
        {
            let t = &self.tools[i];
            if bytes_eq(t.name.as_str().as_bytes(), name.as_bytes()) {
                proof {
                    assert(*t == self.tools@[i as int] && encode_utf8(
                        self.tools@[i as int].name@,
                    ) == encode_utf8(name@));
                }
                return Some(t);
            }
            i = i + 1;
        }
        None
    }

    /// A mutable borrow of the first tool, in declaration order, whose name
    /// spells the given bytes, if any: the borrower may replace that entry,
    /// and nothing else changes.
    pub fn get_tool_mut(&mut self, name: &str) -> (r: Option<&mut ToolEntry>)
        ensures
            r is None ==> *final(self) == *old(self) && (forall|i: int|
                0 <= i < old(self).tools@.len() ==> encode_utf8(
                    #[trigger] old(self).tools@[i].name@,
                ) != encode_utf8(name@)),
            r matches Some(t) ==> (exists|i: int|
                0 <= i < old(self).tools@.len() && *t == #[trigger] old(self).tools@[i]
                    && encode_utf8(old(self).tools@[i].name@) == encode_utf8(name@)
                    && final(self).tools@ == old(self).tools@.update(i, *final(t)) && (forall|
                    j: int,
                |
                    0 <= j < i ==> encode_utf8(#[trigger] old(self).tools@[j].name@)
                        != encode_utf8(name@))),
    {
        let n = self.tools.len();
        let mut i: usize = 0;
        while i < n
            invariant
                n == self.tools@.len(),
                i <= n,
                *self == *old(self),
                forall|j: int|
                    0 <= j < i ==> encode_utf8(#[trigger] self.tools@[j].name@) != encode_utf8(
                        name@,
                    ),
            decreases n - i,
        {
            let hit = bytes_eq(self.tools[i].name.as_str().as_bytes(), name.as_bytes());
            if hit {
                return Some(&mut self.tools[i]);
            }
            i = i + 1;
        }
        None
    }

    /// The tool at the given index, if any.
    pub fn get_tool_by_index(&self, index: usize) -> (r: Option<&ToolEntry>)
        ensures
            match r {
                Some(t) => index < self.tools@.len() && *t == self.tools@[index as int],
                None => index >= self.tools@.len(),
            },
    {
        if index < self.tools.len() {
            Some(&self.tools[index])
        } else {
            None
        }
    }

    /// A mutable borrow of the tool at the given index, if any: the borrower
    /// may replace that entry, and nothing else changes.
    pub fn get_tool_mut_by_index(&mut self, index: usize) -> (r: Option<&mut ToolEntry>)
        ensures
            r is None ==> *final(self) == *old(self) && index >= old(self).tools@.len(),
            r matches Some(t) ==> index < old(self).tools@.len() && *t == old(
                self,
            ).tools@[index as int] && final(self).tools@ == old(self).tools@.update(
                index as int,
                *final(t),
            ),
    {
        if index < self.tools.len() {
            Some(&mut self.tools[index])
        } else {
            None
        }
    }

    /// The prompt to show the generator: the answer format, the names of the
    /// available tools, and their descriptions, ending with the question.
    pub fn prompt(&self, question: &str) -> (r: String)
        ensures
            r@ == "Use the following format:\n\nQuestion: the input question you must answer\nThought: you should always think about what to do\nAction: the action to take, should be one of ["@
                + spec_tool_names(self.tools@, 0)
                + "]\nInput: the input to the action\nObservation: the result of the action\n... (this Thought/Action/Input/Observation can repeat N times)\nThought: I now know the final answer\nFinal Answer: the final answer to the original input question\n\nYou have access to the following tools:\n\n"@
                + spec_tool_block(self.tools@, 0) + "\n\nBegin!\n\nQuestion: "@ + question@
                + "\n"@,
    {
        let mut names = String::new();
        let mut block = String::new();
        let mut i: usize = 0;
        while i < self.tools.len()
            invariant
                i <= self.tools@.len(),
                names@ + spec_tool_names(self.tools@, i as int) == spec_tool_names(self.tools@, 0),
                block@ + spec_tool_block(self.tools@, i as int) == spec_tool_block(self.tools@, 0),
            decreases self.tools@.len() - i,
        {
            let t = &self.tools[i];
            let ghost names0 = names@;
            let ghost block0 = block@;
            names.append("'");
            names.append(t.name.as_str());
            names.append("'");
            block.append("# ");
            block.append(t.name.as_str());
            block.append("\n");
            block.append(t.description.as_str());
            proof {
                assert(names@ =~= names0 + ("'"@ + self.tools@[i as int].name@ + "'"@));
                assert(block@ =~= block0 + ("# "@ + self.tools@[i as int].name@ + "\n"@
                    + self.tools@[i as int].description@));
                assert(names@ + spec_tool_names(self.tools@, i + 1) =~= names0 + spec_tool_names(
                    self.tools@,
                    i as int,
                ));
                assert(block@ + spec_tool_block(self.tools@, i + 1) =~= block0 + spec_tool_block(
                    self.tools@,
                    i as int,
                ));
            }
            i = i + 1;
        }
        let mut r = String::new();
        r.append(
            "Use the following format:\n\nQuestion: the input question you must answer\nThought: you should always think about what to do\nAction: the action to take, should be one of [",
        );
        r.append(names.as_str());
        r.append(
            "]\nInput: the input to the action\nObservation: the result of the action\n... (this Thought/Action/Input/Observation can repeat N times)\nThought: I now know the final answer\nFinal Answer: the final answer to the original input question\n\nYou have access to the following tools:\n\n",
        );
        r.append(block.as_str());
        r.append("\n\nBegin!\n\nQuestion: ");
        r.append(question);
        r.append("\n");
        proof {
            assert(spec_tool_names(self.tools@, i as int) =~= Seq::<char>::empty());
            assert(spec_tool_block(self.tools@, i as int) =~= Seq::<char>::empty());
            assert(names@ =~= spec_tool_names(self.tools@, 0));
            assert(block@ =~= spec_tool_block(self.tools@, 0));
        }
        r
    }

    /// The grammar choosing one of the registered tools and parsing its
    /// input: each alternative is the tool's name, a newline and its input
    /// prompt, followed by the tool's own input grammar; the first tool to
    /// accept wins and its index tags the output.  Empty managers have no
    /// choice grammar.
    pub fn tool_choices(&self) -> (r: Option<Grammar>)
        ensures
            match r {
                Some(g) => self.tools@.len() > 0 && g@ == GrammarV::Index(
                    spec_tool_grammars(self.tools@),
                ),
                None => self.tools@.len() == 0,
            },
    {
        if self.tools.len() == 0 {
            return None;
        }
        let mut parsers: Vec<Grammar> = Vec::new();
        let mut i: usize = 0;
        while i < self.tools.len()
            invariant
                i <= self.tools@.len(),
                parsers@.len() == i as int,
                forall|j: int|
                    0 <= j < i ==> (#[trigger] parsers@[j])@ == spec_tool_grammar(self.tools@[j]),
            decreases self.tools@.len() - i,
        {
            let t = &self.tools[i];
            let mut literal = t.name.as_str().as_bytes_vec();
            literal.push(NEWLINE);
            let mut prompt_bytes = t.input_prompt.as_str().as_bytes_vec();
            literal.append(&mut prompt_bytes);
            proof {
                assert(literal@ =~= encode_utf8(t.name@) + seq![NEWLINE] + encode_utf8(
                    t.input_prompt@,
                ));
            }
            let tool_grammar = Grammar::Sequence(
                SequenceParser {
                    parser1: Box::new(Grammar::Literal(LiteralParser::new(literal))),
                    parser2: Box::new(t.constraint.duplicate()),
                },
            );
            proof {
                reveal_with_fuel(crate::grammar::grammar_view, 3);
                assert(tool_grammar@ == spec_tool_grammar(self.tools@[i as int]));
            }
            parsers.push(tool_grammar);
            i = i + 1;
        }
        let ghost parsers_view = parsers@;
        let r = Grammar::Index(IndexParser { parsers });
        proof {
            match r@ {
                GrammarV::Index(a) => {
                    let b = spec_tool_grammars(self.tools@);
                    assert forall|j: int| 0 <= j < a.len() implies a[j] == b[j] by {
                        assert(a[j] == parsers_view[j]@);
                    }
                    assert(a =~= b);
                },
                _ => {
                    assert(false);
                },
            }
        }
        Some(r)
    }

    /// The grammar constraining one whole generation step: `Thought: ` and a
    /// line, or `Action: ` and a tool invocation, or `Final Answer: ` and a
    /// line, the earliest viable alternative winning.
    pub fn any_action_constraint(&self) -> (r: Grammar)
        requires
            self.tools@.len() > 0,
        ensures
            r@ == spec_action_grammar(self.tools@),
    {
        let thought = Grammar::Sequence(
            SequenceParser {
                parser1: Box::new(Grammar::Literal(LiteralParser::from_text("Thought: "))),
                parser2: Box::new(Grammar::Line(crate::line::OneLine)),
            },
        );
        let choices = match self.tool_choices() {
            Some(g) => g,
            None => unreached(),
        };
        let action = Grammar::Sequence(
            SequenceParser {
                parser1: Box::new(Grammar::Literal(LiteralParser::from_text("Action: "))),
                parser2: Box::new(choices),
            },
        );
        let answer = Grammar::Sequence(
            SequenceParser {
                parser1: Box::new(Grammar::Literal(LiteralParser::from_text("Final Answer: "))),
                parser2: Box::new(Grammar::Line(crate::line::OneLine)),
            },
        );
        let r = Grammar::Choice(
            crate::grammar::ChoiceParser {
                parser1: Box::new(
                    Grammar::Choice(
                        crate::grammar::ChoiceParser {
                            parser1: Box::new(thought),
                            parser2: Box::new(action),
                        },
                    ),
                ),
                parser2: Box::new(answer),
            },
        );
        proof {
            reveal_with_fuel(crate::grammar::grammar_view, 6);
        }
        r
    }
}

} // verus!
