//! The two driver variants and detection from the kernel's version text.
//!
//! The kernel exposes the proprietary driver's version in a text file whose
//! shape is pinned here: the first occurrence of `Kernel Module`, followed by
//! at least one whitespace character, followed by a non-empty run of digits
//! and dots, names the version. If the file exists but no such occurrence
//! does, detection fails hard rather than falling back to the open stack.

use crate::errors::Error;
use crate::text::{lit_at, match_lit, skip_ws, spec_skip_ws, substring, version_run,
    version_run_end};
use vstd::prelude::*;
use vstd::string::*;

verus! {

/// Which driver stack is active: the proprietary one, pinned to an exact
/// version string, or the open-source stack, which needs no pinning.
#[derive(Debug)]
pub enum Driver {
    Nvidia(String),
    Mesa,
}

impl Driver {
    /// The version a proprietary driver is pinned to; the open-source stack
    /// has none.
    pub open spec fn spec_version(self) -> Option<Seq<char>> {
        match self {
            Driver::Nvidia(v) => Some(v@),
            Driver::Mesa => None,
        }
    }
}

impl PartialEq for Driver {
    fn eq(&self, other: &Driver) -> (r: bool) {
        match (self, other) {
            (Driver::Mesa, Driver::Mesa) => true,
            (Driver::Nvidia(a), Driver::Nvidia(b)) => a.eq(b),
            _ => false,
        }
    }
}

impl vstd::std_specs::cmp::PartialEqSpecImpl for Driver {
    open spec fn obeys_eq_spec() -> bool {
        true
    }

    open spec fn eq_spec(&self, other: &Driver) -> bool {
        match (self, other) {
            (Driver::Mesa, Driver::Mesa) => true,
            (Driver::Nvidia(a), Driver::Nvidia(b)) => a@ == b@,
            _ => false,
        }
    }
}

/// The marker the version line carries in front of the version token.
pub open spec fn km_marker() -> Seq<char> {
    seq!['K', 'e', 'r', 'n', 'e', 'l', ' ', 'M', 'o', 'd', 'u', 'l', 'e']
}

/// The version token named by a marker standing at `i`: the marker itself,
/// then at least one whitespace character, then a non-empty run of version
/// characters, which is the token.
pub open spec fn km_match_at(s: Seq<char>, i: int) -> Option<Seq<char>> {
    if lit_at(s, i, km_marker()) {
        let j = spec_skip_ws(s, i + km_marker().len());
        let e = version_run_end(s, j);
        if j > i + km_marker().len() && e > j {
            Some(s.subrange(j, e))
        } else {
            None
        }
    } else {
        None
    }
}

/// The version named by the first matching marker at or after `i`.
pub open spec fn spec_find_version(s: Seq<char>, i: int) -> Option<Seq<char>>
    decreases s.len() - i,
{
    if !(0 <= i <= s.len()) {
        None
    } else if km_match_at(s, i) is Some {
        km_match_at(s, i)
    } else if i == s.len() {
        None
    } else {
        spec_find_version(s, i + 1)
    }
}

/// The version token named by a marker standing at `i`, if one does.
fn km_match(s: &str, i: usize) -> (r: Option<String>)
    requires
        i <= s@.len(),
    ensures
        (r is Some) == (km_match_at(s@, i as int) is Some),
        r matches Some(v) ==> km_match_at(s@, i as int) == Some(v@),
{
    let marker = "Kernel Module";
    proof {
        reveal_strlit("Kernel Module");
        assert(marker@ =~= km_marker());
    }
    if !match_lit(s, i, marker) {
        return None;
    }
    let n = s.unicode_len();
    let m = marker.unicode_len();
    assert(i + m <= n);
    let j = skip_ws(s, i + m);
    if j == i + m {
        return None;
    }
    let e = version_run(s, j);
    if e == j {
        return None;
    }
    Some(substring(s, j, e))
}

/// The version named by the first matching marker at or after `i`.
fn find_version(s: &str, i: usize) -> (r: Option<String>)
    requires
        i <= s@.len(),
    ensures
        (r is Some) == (spec_find_version(s@, i as int) is Some),
        r matches Some(v) ==> spec_find_version(s@, i as int) == Some(v@),
    decreases s@.len() - i,
{
    let n = s.unicode_len();
    let m = km_match(s, i);
    if m.is_some() {
        m
    } else if i == n {
        None
    } else {
        find_version(s, i + 1)
    }
}

/// The version token in the kernel's version text, if the text has the
/// recognized shape.
pub fn parse_kernel_module_version(txt: &str) -> (r: Option<String>)
    ensures
        (r is Some) == (spec_find_version(txt@, 0) is Some),
        r matches Some(v) ==> spec_find_version(txt@, 0) == Some(v@),
{
    find_version(txt, 0)
}

/// Detection from the kernel's version file: an absent file means the open
/// stack; a present file must name a version, or detection fails hard.
pub fn detect_driver(version_text: Option<&str>) -> (r: Result<Driver, Error>)
    ensures
        version_text is None ==> (r matches Ok(d) && d is Mesa),
        version_text matches Some(t) ==> (spec_find_version(t@, 0) matches Some(v) ==> (
            r matches Ok(d) && d matches Driver::Nvidia(ver) && ver@ == v)),
        version_text matches Some(t) ==> (spec_find_version(t@, 0) is None ==> (
            r matches Err(e) && e is Detection)),
{
    match version_text {
        None => Ok(Driver::Mesa),
        Some(t) => match parse_kernel_module_version(t) {
            Some(v) => Ok(Driver::Nvidia(v)),
            None => Err(Error::Detection),
        },
    }
}

} // verus!
