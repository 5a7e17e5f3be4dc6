//! Lasada: the decision logic of an AI agent interpreter, verified.
pub mod text;
pub mod types;
pub mod context;
pub mod tools;
pub mod chat;
pub mod chat_laws;
pub mod prompt;
pub mod shell;
pub mod computer;
pub mod web;
pub mod dispatch;
pub mod llm;
pub mod ranking;
pub mod cli;
