//! Miller, a local coding agent: what it decides, computes and remembers.
//!
//! The agent has a model write code for a task, takes the code out of the answer, refuses
//! what is not safe, has the rest written, compiled and run in a container, and asks the
//! model for repairs until the code works or the attempts are used up. In the background
//! the project is scanned, and its functions and structs are put into a vector database,
//! from which the prompts take their context.
//!
//! The library does no input or output of its own. Where it needs something done, it says
//! what, as a value, and takes in what came of it:
//!
//! - [`agent`] leads a task from its first prompt to its end,
//! - [`sandbox`] watches over a running program,
//! - [`scanner`] takes in the files of a project, and [`indexing`] has them stored,
//! - [`network`] and [`memory`] make requests and read the replies.

pub mod agent;
pub mod ast_graph;
pub mod clock;
pub mod compiler;
pub mod http;
pub mod indexing;
pub mod json;
pub mod logger;
pub mod memory;
pub mod network;
pub mod orchestrator;
pub mod retrieval;
pub mod sandbox;
pub mod scanner;
pub mod security;
pub mod session;
pub mod text;
pub mod workspace;
