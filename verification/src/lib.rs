//! A word-guessing game over encyclopedia articles: the article's words are
//! hidden and the player reveals them by guessing.
//!
//! The crate has three parts:
//! - [`tokenizer`]: splits plain text into alternating word / non-word tokens;
//! - [`article`] and [`parser`]: turn raw article markup into a structured
//!   document of headings, paragraphs and (possibly nested) lists;
//! - [`game`]: tracks guesses and derives, per token, whether it should be
//!   hidden, shown or highlighted, plus occurrence counts.

pub mod article;
pub mod game;
pub mod norm;
pub mod parser;
pub mod tokenizer;
