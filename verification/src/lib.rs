//! Execution core of a scripting engine for text-based games.
//!
//! A script is a flat list of instructions, and the only control-flow state
//! is the index of the current one. Each instruction calls a command by name
//! with positional and keyword arguments. The core resolves the name in a
//! registry of commands, binds the arguments to the parameters that the
//! command declares, and runs the command on the bound values.
//!
//! The core does no input or output of its own. A command that needs some
//! hands back an [`io::IoRequest`]; the host carries it out and reports an
//! [`io::IoReply`], and only then is the state brought up to date. The loop of
//! the host is therefore
//!
//! 1. [`game::AdventureScriptGame::step`] with the instruction at the pointer,
//! 2. the input or output that the request asks for,
//! 3. [`game::AdventureScriptGame::finish`] with the reply,
//!
//! until the game is no longer running.
//!
//! Every function states what it returns and changes over a mathematical
//! model of its arguments: text as a sequence of characters, lists as
//! sequences, maps as maps. The module [`laws`] holds what follows for
//! all inputs.

pub mod binder;
pub mod commands;
pub mod definitions;
pub mod error;
pub mod game;
pub mod info;
pub mod io;
pub mod laws;
pub mod registry;
pub mod strmap;
pub mod text;
pub mod variables;
