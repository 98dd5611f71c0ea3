//! Streaming ISCC-SUM: a similarity-preserving Data-Code and a BLAKE3
//! Instance-Code computed over a byte stream in one pass and rendered as a
//! single base32 token.
//!
//! Beside the hashing engine the crate holds the decisions of the `isum`
//! command and of a deterministic walk over a file tree. Nothing in the
//! crate reads a file: bytes, listings and texts are handed in.

pub mod codec;
pub mod cdc;
pub mod cli;
pub mod constants;
pub mod data;
pub mod hex;
pub mod instance;
pub mod minhash;
pub mod order;
pub mod sorting;
pub mod sum;
pub mod tree;
pub mod treewalk;
pub mod walk;

use vstd::prelude::*;
use vstd::string::StringExecFns;

verus! {

/// The greeting of the library.
pub fn get_hello_message() -> (message: String)
    ensures
        message@ == "hello iscc-sum"@,
{
    String::from_str("hello iscc-sum")
}

} // verus!
