//! Content-hash resolution and the two-phase build protocol.
//!
//! A proprietary driver's package is fetched by content hash. Rather than
//! standing up a lookup service, resolution deliberately builds once with no
//! hash supplied, lets the build tool fail its own integrity check, and reads
//! the true hash out of the `got:` line of its diagnostics; the pair is then
//! cached. The binary runs the builds; the decisions — when to probe, what a
//! probe's outcome means, what a final build's outcome means — stand here.

use crate::detect::Driver;
use crate::errors::Error;
use crate::hash_store::HashStore;
use crate::render::{hb_render, hb_rendered, hb_renders};
use crate::text::{base64_run, base64_run_end, lit_at, match_lit, skip_ws, spec_skip_ws, substring};
use vstd::prelude::*;
use vstd::string::*;

verus! {

/// The hash token named by a `got:` marker standing at `i`: the marker, any
/// whitespace, then `sha256-` and a non-empty base64 payload. The token is
/// the `sha256-` prefix together with the payload.
pub open spec fn got_match_at(s: Seq<char>, i: int) -> Option<Seq<char>> {
    if lit_at(s, i, "got:"@) {
        let j = spec_skip_ws(s, i + "got:"@.len());
        if lit_at(s, j, "sha256-"@) {
            let e = base64_run_end(s, j + "sha256-"@.len());
            if e > j + "sha256-"@.len() {
                Some(s.subrange(j, e))
            } else {
                None
            }
        } else {
            None
        }
    } else {
        None
    }
}

/// The hash named by the first matching `got:` marker at or after `i`.
pub open spec fn spec_extract_hash(s: Seq<char>, i: int) -> Option<Seq<char>>
    decreases s.len() - i,
{
    if !(0 <= i <= s.len()) {
        None
    } else if got_match_at(s, i) is Some {
        got_match_at(s, i)
    } else if i == s.len() {
        None
    } else {
        spec_extract_hash(s, i + 1)
    }
}

/// The hash token named by a `got:` marker standing at `i`, if one does.
fn got_match(s: &str, i: usize) -> (r: Option<String>)
    requires
        i <= s@.len(),
    ensures
        (r is Some) == (got_match_at(s@, i as int) is Some),
        r matches Some(h) ==> got_match_at(s@, i as int) == Some(h@),
{
    if !match_lit(s, i, "got:") {
        return None;
    }
    let n = s.unicode_len();
    let m = "got:".unicode_len();
    assert(i + m <= n);
    let j = skip_ws(s, i + m);
    if !match_lit(s, j, "sha256-") {
        return None;
    }
    let p = "sha256-".unicode_len();
    assert(j + p <= n);
    let e = base64_run(s, j + p);
    if e == j + p {
        return None;
    }
    Some(substring(s, j, e))
}

/// The hash named by the first matching marker at or after `i`.
fn find_hash(s: &str, i: usize) -> (r: Option<String>)
    requires
        i <= s@.len(),
    ensures
        (r is Some) == (spec_extract_hash(s@, i as int) is Some),
        r matches Some(h) ==> spec_extract_hash(s@, i as int) == Some(h@),
    decreases s@.len() - i,
{
    let n = s.unicode_len();
    let m = got_match(s, i);
    if m.is_some() {
        m
    } else if i == n {
        None
    } else {
        find_hash(s, i + 1)
    }
}

/// The first `got: sha256-...` token in a build's diagnostic text; any
/// `specified:` line carries no such token and is ignored by construction.
pub fn extract_hash(s: &str) -> (r: Option<String>)
    ensures
        (r is Some) == (spec_extract_hash(s@, 0) is Some),
        r matches Some(h) ==> spec_extract_hash(s@, 0) == Some(h@),
{
    find_hash(s, 0)
}

/// What resolution must do next: use a hash that is already known — the empty
/// hash where no pinning is needed — or run the probe build.
#[derive(Debug)]
pub enum ResolveAction {
    /// No external invocation is needed; this is the hash.
    UseHash(String),
    /// The version is not cached: render with no hash and run the probe.
    ProbeBuild,
}

/// The first step of resolution. A cached version resolves with no external
/// build invocation, to exactly the cached string; the open-source stack
/// needs no hash at all; only an uncached proprietary version probes.
pub fn resolve_step(store: &HashStore, d: &Driver) -> (r: ResolveAction)
    requires
        store.wf(),
    ensures
        d is Mesa ==> (r matches ResolveAction::UseHash(h) && h@.len() == 0),
        d matches Driver::Nvidia(v) ==> (store@.contains_key(v@) ==> (
        r matches ResolveAction::UseHash(h) && h@ == store@[v@])),
        d matches Driver::Nvidia(v) ==> (!store@.contains_key(v@) ==> r is ProbeBuild),
{
    match d {
        Driver::Mesa => ResolveAction::UseHash(String::new()),
        Driver::Nvidia(v) => match store.get(v.as_str()) {
            Some(h) => ResolveAction::UseHash(h.clone()),
            None => ResolveAction::ProbeBuild,
        },
    }
}

/// What a finished probe build means. A probe that unexpectedly succeeds has
/// no hash to report; a failed probe must name the hash in its diagnostics,
/// and diagnostics with no such line are a fatal discovery failure.
pub fn probe_outcome(success: bool, diagnostics: &str) -> (r: Result<String, Error>)
    ensures
        success ==> (r matches Ok(h) && h@.len() == 0),
        !success ==> (spec_extract_hash(diagnostics@, 0) matches Some(hh) ==> (r matches Ok(h)
            && h@ == hh)),
        !success ==> (spec_extract_hash(diagnostics@, 0) is None ==> (r matches Err(e)
            && e is HashDiscovery)),
{
    if success {
        Ok(String::new())
    } else {
        match extract_hash(diagnostics) {
            Some(h) => Ok(h),
            None => Err(Error::HashDiscovery),
        }
    }
}

/// What the final, hash-pinned build means: it must succeed; a non-zero exit
/// is fatal and carries the full diagnostic text for inspection.
pub fn build_outcome(success: bool, diagnostics: &str) -> (r: Result<(), Error>)
    ensures
        success ==> r is Ok,
        !success ==> (r matches Err(e) && e matches Error::BuildFailure(t) && t@ == diagnostics@),
{
    if success {
        Ok(())
    } else {
        Err(Error::BuildFailure(diagnostics.to_owned()))
    }
}

/// The substituted hash text: the discovered hash, or the empty placeholder.
pub open spec fn hash_text(hash: Option<&str>) -> Seq<char> {
    match hash {
        Option::Some(h) => h@,
        Option::None => ""@,
    }
}

/// The build-descriptor text for a driver: the proprietary template takes the
/// version and the hash — an absent hash renders the empty placeholder — and
/// the open-source template takes no values.
pub fn render_nix_expr(d: &Driver, hash: Option<&str>, mesa_tpl: &str, nvidia_tpl: &str) -> (r:
    Result<String, Error>)
    ensures
        d matches Driver::Nvidia(v) ==> ((r is Ok) == hb_renders(
            nvidia_tpl@,
            v@,
            hash_text(hash),
            ""@,
        )),
        d matches Driver::Nvidia(v) ==> (r matches Ok(t) ==> t@ == hb_rendered(
            nvidia_tpl@,
            v@,
            hash_text(hash),
            ""@,
        )),
        d is Mesa ==> ((r is Ok) == hb_renders(mesa_tpl@, ""@, ""@, ""@)),
        d is Mesa ==> (r matches Ok(t) ==> t@ == hb_rendered(mesa_tpl@, ""@, ""@, ""@)),
        r matches Err(e) ==> e is Render,
{
    let sha: &str = match hash {
        Some(h) => h,
        None => "",
    };
    let rendered = match d {
        Driver::Nvidia(v) => hb_render(nvidia_tpl, v.as_str(), sha, ""),
        Driver::Mesa => hb_render(mesa_tpl, "", "", ""),
    };
    match rendered {
        Some(t) => Ok(t),
        None => Err(Error::Render),
    }
}

} // verus!
