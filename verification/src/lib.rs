use vstd::prelude::*;

pub mod history;
pub mod messages;
pub mod pipeline;
pub mod plan;
pub mod progress;
pub mod sanitizer;

verus! {

use vstd::string::StringExecFns;

/// Joins the application root directory and a relative file path with `/`.
pub fn join_path(dir: &str, file: &str) -> (r: String)
    ensures
        r@ == dir@ + "/"@ + file@,
{
    let mut s = dir.to_owned();
    s.append("/");
    s.append(file);
    s
}

} // verus!
