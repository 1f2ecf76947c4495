//! A zero-copy parser for a PTX-like GPU assembly dialect.
//!
//! The text of a module is a slice of characters, and every value that the
//! parser yields borrows from it. A recognizer is a function from an input
//! slice to the slice that is left and the value that was recognized, or to
//! a failure that holds its kind and the slice at which it occurred. What
//! each recognizer accepts is stated by a specification function over
//! sequences of characters, and the executable recognizer is proved to
//! compute exactly that.
//!
//! From the leaves up:
//! - [`chars`] and [`scan`]: classes of characters, runs and literals;
//! - [`lexical`]: names, parenthesized spans and blocks in braces, with
//!   [`balance`] on what the scanner of balanced braces does on nested text;
//! - [`comment`]: comments and insignificant spans, with [`padding`] on the
//!   text that is skipped between directives;
//! - [`preamble`]: the version, the target and the address size;
//! - [`body`], [`mnemonic`], [`line`] and [`call`]: the lines of a function
//!   body, the table of instructions, and call sequences;
//! - [`global`] and [`function`]: the top-level items;
//! - [`cursor`] and [`module`]: the lazy sequences of body lines and of
//!   top-level items, which stop for good at their first failure;
//! - [`token`]: a plain tokenizer.

pub mod chars;
pub mod failure;
pub mod scan;
pub mod lexical;
pub mod balance;
pub mod comment;
pub mod padding;
pub mod preamble;
pub mod body;
pub mod mnemonic;
pub mod line;
pub mod call;
pub mod cursor;
pub mod global;
pub mod function;
pub mod module;
pub mod token;
