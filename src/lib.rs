//! Line-oriented text display tools: a `cat`-style printer with optional line
//! numbering and a `head`-style printer of leading lines or bytes.
//!
//! The library holds the decisions of both tools (validated configurations,
//! the numbering policy and truncation); reading and writing are left to the
//! caller.
use vstd::prelude::*;

pub mod count;
pub mod numbering;
pub mod catr;
pub mod headr;
