//! Protocol version detection from response headers.
use vstd::prelude::*;
use crate::devkit::protocol::DevkitError;
use crate::text::{chars_eq_ignore_ascii_case, chars_of, eq_ignore_ascii_case, str_is, string_from};

verus! {

/// The header naming the Soroban protocol version.
pub open spec fn version_header() -> Seq<char> {
    "x-soroban-version"@
}

/// The index of the first header whose name is the version header, in any
/// ASCII case.
pub open spec fn first_version_header(headers: Seq<(String, String)>) -> Option<int> {
    if exists|i: int| 0 <= i < headers.len() && eq_ignore_ascii_case(#[trigger] headers[i].0@, version_header()) {
        Some(choose|i: int| 0 <= i < headers.len() && eq_ignore_ascii_case(#[trigger] headers[i].0@, version_header())
            && forall|j: int| 0 <= j < i ==> !eq_ignore_ascii_case(#[trigger] headers[j].0@, version_header()))
    } else {
        None
    }
}

/// The protocol version a peer reports.
pub struct ProtocolVersion {
    pub version: String,
}

impl ProtocolVersion {
    /// The value of the first `x-soroban-version` header (name compared
    /// ignoring ASCII case), or `"unknown"` when there is none.
    pub fn from_headers(headers: &[(String, String)]) -> (res: Result<Self, DevkitError>)
        ensures
            res matches Ok(v) && match first_version_header(headers@) {
                Some(i) => v.version@ == headers@[i].1@,
                None => v.version@ == "unknown"@,
            },
    {
        let name = chars_of("x-soroban-version");
        for i in 0..headers.len()
            invariant
                name@ == version_header(),
                forall|j: int| 0 <= j < i ==> !eq_ignore_ascii_case(#[trigger] headers@[j].0@, version_header()),
        {
            let key = chars_of(headers[i].0.as_str());
            if chars_eq_ignore_ascii_case(&key, &name) {
                let ghost fi = first_version_header(headers@);
                proof {
                    assert(eq_ignore_ascii_case(headers@[i as int].0@, version_header()));
                    let k = fi->0;
                    if k != i {
                        assert(k < i || !(forall|j: int| 0 <= j < k ==> !eq_ignore_ascii_case(#[trigger] headers@[j].0@, version_header())));
                    }
                }
                return Ok(ProtocolVersion { version: headers[i].1.clone() });
            }
        }
        Ok(ProtocolVersion { version: string_from("unknown") })
    }

    /// Whether the version is known: nonempty and not `"unknown"`.
    pub fn is_compatible(&self) -> (res: bool)
        ensures
            res == (self.version@.len() > 0 && self.version@ != "unknown"@),
    {
        !self.version.as_str().is_empty() && !str_is(self.version.as_str(), "unknown")
    }
}

} // verus!
