//! The parts of the server's RPC handling that compute: the roots it
//! offers, and the text that a command's output becomes.
use vstd::prelude::*;
use vstd::string::{StrSliceExecFns, StringExecFns};

verus! {

/// The roots of the server's filesystem: `/`.
pub fn list_roots() -> (r: Vec<String>)
    ensures
        r@.len() == 1,
        r@[0]@ == "/"@,
{
    let mut roots = Vec::new();
    roots.push("/".to_string());
    roots
}

/// The text reported for a command: what it wrote to stdout, then what it
/// wrote to stderr; `<no output>` when both are empty.
pub fn combine_output(stdout: &str, stderr: &str) -> (r: String)
    ensures
        r@ == (if stdout@.len() + stderr@.len() == 0 {
            "<no output>"@
        } else {
            stdout@ + stderr@
        }),
{
    if stdout.unicode_len() == 0 && stderr.unicode_len() == 0 {
        return "<no output>".to_string();
    }
    let mut combined = stdout.to_string();
    combined.append(stderr);
    combined
}

} // verus!
