//! Streaming chat-completion assembly and conversation history.
//!
//! Bytes read from the transport go through a [`LineSplitter`]; each logical
//! line is classified by [`parse_line`]; decoded payloads become
//! [`ServerEvent`]s that an [`Assembly`] folds into one [`Message`], which is
//! appended to a [`Messages`] log.

pub mod lines;
pub mod message;
pub mod event;
pub mod accumulate;
pub mod history;
pub mod config;
pub mod functions;
pub mod command;

pub use lines::LineSplitter;
pub use message::{ArgumentError, FunctionCall, Message, file_message_text};
pub use event::{
    Choice, Delta, LineKind, OpenAiResponse, ParsedLine, ServerEvent, StreamingFunctionCall,
    parse_line,
};
pub use accumulate::{AccumulatorState, Assembly};
pub use history::{ChatHistory, Messages};
pub use config::Settings;
pub use functions::{FunctionParameters, FunctionProperty, OpenaiFunction, powershell_functions};
pub use command::{OutputReader, ReadAction, command_output};
