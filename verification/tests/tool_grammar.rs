//! Tests for the dynamic grammar facade and the tool/action grammar.

use kalosm_sample::tool::{interpret_action, step_outcome, Action, Tool, ToolManagerStepResult};
use kalosm_sample::{
    Grammar, OneLine, ParseError, ParseResult, ParseValue, StructureParser, ToolEntry, ToolManager,
};

struct SearchTool;

impl Tool for SearchTool {
    fn name(&self) -> String {
        "search".to_string()
    }

    fn input_prompt(&self) -> String {
        "Query: ".to_string()
    }

    fn description(&self) -> String {
        "Find a page.".to_string()
    }

    fn constraints(&self) -> Grammar {
        Grammar::Line(OneLine)
    }
}

fn manager() -> ToolManager {
    ToolManager::new().with_tool(SearchTool)
}

#[test]
fn structure_parser_literal_and_number() {
    let grammar = StructureParser::Then {
        first: Box::new(StructureParser::Literal("x=".to_string())),
        second: Box::new(StructureParser::Num {
            min: 1,
            max: 3,
            integer: true,
        }),
    };
    let state = grammar.create_parser_state();
    match grammar.parse(&state, b"x=2 ").unwrap() {
        ParseResult::Finished { result: (), remaining } => {
            assert_eq!(remaining, b" ".to_vec());
        }
        _ => panic!("structure parser did not finish"),
    }
    assert_eq!(
        grammar.parse(&state, b"y"),
        Err(ParseError::GrammarViolation)
    );
}

#[test]
fn structure_parser_fractional_number() {
    let grammar = StructureParser::Num {
        min: 1,
        max: 3,
        integer: false,
    };
    let state = grammar.create_parser_state();
    // 2.5 lies inside [1, 3]; the terminator stays in the remaining input.
    match grammar.parse(&state, b"2.5 ").unwrap() {
        ParseResult::Finished { result: (), remaining } => {
            assert_eq!(remaining, b" ".to_vec());
        }
        _ => panic!("decimal did not finish"),
    }
    // 3.5 exceeds the upper bound as soon as a nonzero fraction digit shows.
    assert_eq!(
        grammar.parse(&state, b"3.5"),
        Err(ParseError::GrammarViolation)
    );
    // 3.0 is exactly the upper bound.
    match grammar.parse(&state, b"3.0 ").unwrap() {
        ParseResult::Finished { result: (), remaining } => {
            assert_eq!(remaining, b" ".to_vec());
        }
        _ => panic!("decimal did not finish"),
    }
}

#[test]
fn structure_parser_either_is_left_biased() {
    let grammar = StructureParser::Either {
        first: Box::new(StructureParser::Literal("ab".to_string())),
        second: Box::new(StructureParser::Literal("ac".to_string())),
    };
    let state = grammar.create_parser_state();
    // Both alternatives stay viable after the shared prefix; the combined
    // hint narrows to it.
    match grammar.parse(&state, b"a").unwrap() {
        ParseResult::Incomplete { new_state, required_next } => {
            assert_eq!(required_next, b"".to_vec());
            match grammar.parse(&new_state, b"c").unwrap() {
                ParseResult::Finished { result: (), remaining } => {
                    assert_eq!(remaining, b"".to_vec());
                }
                _ => panic!("either did not finish"),
            }
        }
        _ => panic!("either did not stay incomplete"),
    }
}

#[test]
fn action_grammar_thought() {
    let manager = manager();
    let grammar = manager.any_action_constraint();
    let state = grammar.create_parser_state();
    match grammar.parse(&state, b"Thought: check the docs\n").unwrap() {
        ParseResult::Finished { result, remaining } => {
            assert_eq!(remaining, b"".to_vec());
            match interpret_action(result) {
                Some(Action::Thought(t)) => assert_eq!(t, "check the docs"),
                other => panic!("wrong action: {:?}", other),
            }
        }
        _ => panic!("action grammar did not finish"),
    }
}

#[test]
fn action_grammar_tool_call() {
    let manager = manager();
    let grammar = manager.any_action_constraint();
    let state = grammar.create_parser_state();
    match grammar
        .parse(&state, b"Action: search\nQuery: rust parsers\n")
        .unwrap()
    {
        ParseResult::Finished { result, remaining } => {
            assert_eq!(remaining, b"".to_vec());
            match interpret_action(result) {
                Some(Action::Tool { index, input }) => {
                    assert_eq!(index, 0);
                    assert_eq!(input, ParseValue::Text("rust parsers".to_string()));
                }
                other => panic!("wrong action: {:?}", other),
            }
        }
        _ => panic!("action grammar did not finish"),
    }
}

#[test]
fn action_grammar_final_answer() {
    let manager = manager();
    let grammar = manager.any_action_constraint();
    let state = grammar.create_parser_state();
    match grammar.parse(&state, b"Final Answer: use a parser\n").unwrap() {
        ParseResult::Finished { result, .. } => match interpret_action(result) {
            Some(Action::Answer(t)) => assert_eq!(t, "use a parser"),
            other => panic!("wrong action: {:?}", other),
        },
        _ => panic!("action grammar did not finish"),
    }
}

#[test]
fn action_grammar_hint_and_rejection() {
    let manager = manager();
    let grammar = manager.any_action_constraint();
    let state = grammar.create_parser_state();
    // All three alternatives need more input on an empty buffer; their
    // literal hints share no common prefix.
    match grammar.parse(&state, b"").unwrap() {
        ParseResult::Incomplete { required_next, .. } => {
            assert_eq!(required_next, b"".to_vec());
        }
        _ => panic!("action grammar decided too early"),
    }
    // After "Thought: " only that alternative survives.
    assert_eq!(
        grammar.parse(&state, b"Question: "),
        Err(ParseError::CompositionExhaustion)
    );
}

#[test]
fn tool_manager_lookup_and_prompt() {
    let mut manager = ToolManager::new();
    manager.add_entry(ToolEntry {
        name: "search".to_string(),
        input_prompt: "Query: ".to_string(),
        description: "Find a page.".to_string(),
        constraint: Grammar::Line(OneLine),
    });
    assert_eq!(manager.get_tools().len(), 1);
    assert!(manager.get_tool("search").is_some());
    assert!(manager.get_tool("calc").is_none());
    assert!(manager.get_tool_by_index(0).is_some());
    assert!(manager.get_tool_by_index(1).is_none());
    if let Some(entry) = manager.get_tool_mut("search") {
        entry.description = "Find the best page.".to_string();
    } else {
        panic!("tool not found");
    }
    assert!(manager.get_tool_mut("calc").is_none());
    assert!(manager.get_tool_mut_by_index(0).is_some());
    assert!(manager.get_tool_mut_by_index(1).is_none());
    assert_eq!(manager.get_tools()[0].description, "Find the best page.");
    if let Some(entry) = manager.get_tool_mut_by_index(0) {
        entry.description = "Find a page.".to_string();
    }
    let prompt = manager.prompt("what is a parser");
    assert!(prompt.starts_with("Use the following format:\n"));
    assert!(prompt.contains("should be one of ['search']"));
    assert!(prompt.contains("# search\nFind a page."));
    assert!(prompt.ends_with("Question: what is a parser\n"));
}

#[test]
fn tool_registration_keeps_order() {
    let mut manager = ToolManager::new();
    manager.add_entry(ToolEntry {
        name: "search".to_string(),
        input_prompt: "Query: ".to_string(),
        description: "Find a page.".to_string(),
        constraint: Grammar::Line(OneLine),
    });
    manager.add_entry(ToolEntry {
        name: "search".to_string(),
        input_prompt: "Term: ".to_string(),
        description: "Find a page again.".to_string(),
        constraint: Grammar::Line(OneLine),
    });
    let manager = manager.with_tool(SearchTool);
    // Registration appends: earlier entries survive unchanged, in order.
    assert_eq!(manager.get_tools().len(), 3);
    assert_eq!(manager.get_tools()[0].input_prompt, "Query: ");
    assert_eq!(manager.get_tools()[1].input_prompt, "Term: ");
    // Lookup by name returns the first entry in declaration order, even with
    // duplicate names.
    let found = manager.get_tool("search").unwrap();
    assert_eq!(found.input_prompt, "Query: ");
    let mut manager = manager;
    let found = manager.get_tool_mut("search").unwrap();
    assert_eq!(found.input_prompt, "Query: ");
}

#[test]
fn step_outcomes() {
    assert_eq!(
        step_outcome(Action::Thought("hmm".to_string()), None),
        Some(ToolManagerStepResult::Thought("hmm".to_string()))
    );
    assert_eq!(
        step_outcome(Action::Answer("done".to_string()), None),
        Some(ToolManagerStepResult::Finished("done".to_string()))
    );
    assert_eq!(
        step_outcome(
            Action::Tool {
                index: 0,
                input: ParseValue::Unit
            },
            Some("found".to_string())
        ),
        Some(ToolManagerStepResult::Action {
            index: 0,
            output: "found".to_string()
        })
    );
    assert_eq!(
        step_outcome(
            Action::Tool {
                index: 0,
                input: ParseValue::Unit
            },
            None
        ),
        None
    );
}
