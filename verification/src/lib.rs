//! An incremental, resumable parser-combinator engine for constraining a
//! token-by-token text generator to a declared grammar.
//!
//! Every parser consumes only the newly available bytes of input and carries
//! all continuation data in an explicit, cloneable partial state.  Each parse
//! step ends in one of three ways: a completed result with leftover bytes, a
//! new partial state together with a "required next" hint for the sampler, or
//! a hard failure that prunes the candidate branch.

pub mod decimal;
pub mod engine;
pub mod erase;
pub mod facade;
pub mod grammar;
pub mod integer;
pub mod line;
pub mod literal;
pub mod result;
pub mod string;
pub mod support;
pub mod tool;

pub use engine::common_prefix;
pub use erase::ArcParser;
pub use facade::StructureParser;
pub use facade::StructureParserState;
pub use grammar::ChoiceParser;
pub use grammar::ChoiceParserState;
pub use grammar::Grammar;
pub use grammar::GrammarState;
pub use grammar::IndexParser;
pub use grammar::IndexParserState;
pub use grammar::ParseValue;
pub use grammar::RepeatParser;
pub use grammar::RepeatParserState;
pub use grammar::SequenceParser;
pub use grammar::SequenceParserState;
pub use decimal::DecimalParser;
pub use decimal::DecimalParserState;
pub use integer::IntegerParser;
pub use integer::IntegerParserState;
pub use line::OneLine;
pub use line::OneLineError;
pub use line::OneLineState;
pub use literal::LiteralParser;
pub use literal::LiteralParserOffset;
pub use result::Either;
pub use result::OwnedParseResult;
pub use result::ParseError;
pub use result::ParseResult;
pub use tool::Action;
pub use tool::Tool;
pub use tool::ToolEntry;
pub use tool::ToolManager;
pub use tool::ToolManagerStepResult;
pub use string::StringParseError;
pub use string::StringParser;
pub use string::StringParserProgress;
pub use string::StringParserState;
