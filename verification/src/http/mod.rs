//! The HTTP API's decisions: who may call what, how failures are answered, what is sent back.

pub mod error;
pub mod auth;
pub mod dto;
pub mod endpoints;

use vstd::prelude::*;

verus! {

/// Origins whose pages may call the API from a browser: the usual local static-server ports on
/// loopback, and `null`, the origin of a page opened from disk.
pub open spec fn cors_origins_spec() -> Seq<Seq<char>> {
    seq![
        "http://127.0.0.1:5500"@,
        "http://localhost:5500"@,
        "http://127.0.0.1:3000"@,
        "http://localhost:3000"@,
        "http://127.0.0.1:5173"@,
        "http://localhost:5173"@,
        "http://127.0.0.1:8080"@,
        "http://localhost:8080"@,
        "null"@,
    ]
}

/// Origins whose pages may call the API from a browser.
pub fn cors_origins() -> (r: Vec<&'static str>)
    ensures
        r@.len() == cors_origins_spec().len(),
        forall|i: int| 0 <= i < r@.len() ==> #[trigger] r@[i]@ == cors_origins_spec()[i],
{
    let mut v: Vec<&'static str> = Vec::new();
    v.push("http://127.0.0.1:5500");
    v.push("http://localhost:5500");
    v.push("http://127.0.0.1:3000");
    v.push("http://localhost:3000");
    v.push("http://127.0.0.1:5173");
    v.push("http://localhost:5173");
    v.push("http://127.0.0.1:8080");
    v.push("http://localhost:8080");
    v.push("null");
    v
}

} // verus!
