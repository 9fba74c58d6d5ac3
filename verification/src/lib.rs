//! The core of an interactive chat terminal: layout arithmetic and the
//! streaming renderer's bookkeeping, the command language of the prompt, and
//! the decisions of the read-eval loop, each stated over plain values.

pub mod text;
pub mod command;
pub mod dispatch;
pub mod layout;
pub mod term;
pub mod abort;
pub mod event;
pub mod stream;
pub mod driver;
pub mod repl;
pub mod style;
pub mod editor;
pub mod help;
