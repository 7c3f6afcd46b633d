//! Build-time generation of test cases from a corpus of files.
//!
//! A template function is annotated with a glob pattern. Every file that the
//! pattern matches becomes one named test case that calls the template with
//! the file's path, its bytes or its text, as the template's parameter names
//! ask. This crate holds the decisions of that pipeline; reading the
//! directory and writing the generated code are left to the caller:
//!
//! 1. [`declare`] puts the annotation and the signature together and
//!    classifies the parameters;
//! 2. [`glob_pattern`] gives the pattern to expand, and the caller expands
//!    it against the file system and reads the files that matched;
//! 3. [`process`] turns the expansion into the generated cases.
//!
//! The errors of the pass go to a [`Reporter`]. A fault of one parameter
//! (a name without a role, or a name declared before) or of one file stands
//! as an error inside the cases that it concerns.

pub mod classifier;
pub mod emitter;
pub mod reporter;
pub mod resolver;
pub mod sanitizer;
pub mod template;

pub use crate::classifier::{classify, Arg, Param};
pub use crate::emitter::{decode, emit_case, process, Binding, GeneratedCase, Namespace};
pub use crate::reporter::{Anchor, Diagnostic, Reporter};
pub use crate::resolver::{glob_pattern, Expansion, Match, MatchedFile};
pub use crate::sanitizer::{test_name, SUBSTITUTE};
pub use crate::template::{declare, Declaration, Signature};
