//! Presentation MathML, read into a tree of operators and written out again.
//!
//! A text of markup is prepared (`text`), read into the tree of its elements (`parsing`),
//! and that tree is understood (`interpret`): names, derivatives, sums and the like are
//! found in it. What it means is flattened into a line of tokens (`lexer`), which an
//! operator-precedence parser reads into a tree (`pratt`). The tree is written as a prefix
//! form (`display`), as content MathML (`cmml`), as LaTeX (`latex`) and as an infix form
//! (`infix`). `translate` goes from markup to tree in one step, `ode` reads differential
//! equations of the first order, and `laws` proves what holds of all of it.
pub mod ast;
pub mod cmml;
pub mod display;
pub mod infix;
pub mod interpret;
pub mod latex;
pub mod laws;
pub mod lexer;
pub mod nodes;
pub mod ode;
pub mod parsing;
pub mod pratt;
pub mod text;
pub mod translate;
pub mod tree;
