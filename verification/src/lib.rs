//! Streaming chat-response engine for a local LLM inference server.
//!
//! The library holds the conversation model, the line reader for the
//! newline-delimited JSON stream, the response assembler, the reasoning
//! splitter, the tool registry and the session state machine. Network and
//! terminal I/O are left to the caller, which feeds the bytes it received
//! and carries out the requests it is handed.
//!
//! - [`chat`]: the session, its history and the exchange in flight.
//! - [`client`]: the requests to the server and the reading of a whole
//!   response.
//! - [`stream`]: from the bytes of a streamed response to the assistant's
//!   turn.
//! - [`reader`]: splitting bytes into lines, whatever the chunk boundaries.
//! - [`frame`]: the frames of a response and how they are read from JSON.
//! - [`wire`]: how requests are written as JSON.
//! - [`message`]: the turns of a conversation.
//! - [`thinking`]: separating a model's reasoning from its answer.
//! - [`tools`]: the tools that the model may ask for.
//! - [`mcp`]: the auxiliary tool servers and their settings.
//! - [`json`]: JSON documents.
//! - [`text`]: small operations on text.
//! - [`config`]: the settings that a run starts from.

pub mod chat;
pub mod client;
pub mod config;
pub mod frame;
pub mod json;
pub mod mcp;
pub mod message;
pub mod reader;
pub mod stream;
pub mod text;
pub mod thinking;
pub mod tools;
pub mod wire;
