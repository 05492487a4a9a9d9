//! The boot-time sync service and the GC-root pin of the tool binary itself.

use crate::errors::Error;
use crate::render::{hb_render, hb_rendered, hb_renders};
use crate::text::{lit_at, match_lit, substring};
use vstd::prelude::*;
use vstd::string::*;

verus! {

/// The GC-root symlink pinning the tool binary's derivation.
pub fn gcroot_tool() -> (r: String)
    ensures
        r@ == "/nix/var/nix/gcroots/nix-opengl-driver/tool"@,
{
    "/nix/var/nix/gcroots/nix-opengl-driver/tool".to_owned()
}

/// The service unit's name.
pub fn service_name() -> (r: String)
    ensures
        r@ == "nix-opengl-driver.service"@,
{
    "nix-opengl-driver.service".to_owned()
}

/// Where the service unit file is installed.
pub fn service_path() -> (r: String)
    ensures
        r@ == "/etc/systemd/system/nix-opengl-driver.service"@,
{
    "/etc/systemd/system/nix-opengl-driver.service".to_owned()
}

/// Where a walk from `i` stops: at the slash after `slashes_left` further
/// slashes have been passed, or at the end of the text.
pub open spec fn cut_at(s: Seq<char>, i: int, slashes_left: int) -> int
    decreases s.len() - i,
{
    if !(0 <= i < s.len()) {
        s.len() as int
    } else if s[i] == '/' {
        if slashes_left <= 0 {
            i
        } else {
            cut_at(s, i + 1, slashes_left - 1)
        }
    } else {
        cut_at(s, i + 1, slashes_left)
    }
}

/// The derivation root a path lives under: everything before the fourth
/// slash, or the whole path when it has fewer.
pub open spec fn derivation_prefix(s: Seq<char>) -> Seq<char> {
    s.subrange(0, cut_at(s, 0, 3))
}

proof fn lemma_cut_at_bounds(s: Seq<char>, i: int, slashes_left: int)
    requires
        0 <= i <= s.len(),
    ensures
        i <= cut_at(s, i, slashes_left) <= s.len(),
    decreases s.len() - i,
{
    if 0 <= i < s.len() {
        if s[i] == '/' {
            if slashes_left > 0 {
                lemma_cut_at_bounds(s, i + 1, slashes_left - 1);
            }
        } else {
            lemma_cut_at_bounds(s, i + 1, slashes_left);
        }
    }
}

fn cut(s: &str, i: usize, slashes_left: usize) -> (r: usize)
    requires
        i <= s@.len(),
    ensures
        r == cut_at(s@, i as int, slashes_left as int),
        i <= r <= s@.len(),
    decreases s@.len() - i,
{
    let n = s.unicode_len();
    if i >= n {
        return n;
    }
    if s.get_char(i) == '/' {
        if slashes_left == 0 {
            i
        } else {
            cut(s, i + 1, slashes_left - 1)
        }
    } else {
        cut(s, i + 1, slashes_left)
    }
}

/// The derivation root of the store path a tool binary lives under.
pub fn tool_derivation_path(path: &str) -> (r: String)
    ensures
        r@ == derivation_prefix(path@),
{
    let e = cut(path, 0, 3);
    substring(path, 0, e)
}

/// What installation does about pinning the tool binary.
#[derive(Debug)]
pub enum PinAction {
    /// The binary lives in the managed store: pin its derivation root under
    /// the tool GC-root.
    PinTool(String),
    /// The binary lives elsewhere: skip the pin, warn that the service will
    /// invoke the binary path directly.
    SkipWithWarning,
}

/// A binary inside the managed store is pinned by its derivation root; any
/// other location is skipped with a warning.
pub fn pin_plan(tool_path: &str) -> (r: PinAction)
    ensures
        lit_at(tool_path@, 0, "/nix/store/"@) ==> (r matches PinAction::PinTool(p) && p@
            == derivation_prefix(tool_path@)),
        !lit_at(tool_path@, 0, "/nix/store/"@) ==> r is SkipWithWarning,
{
    if match_lit(tool_path, 0, "/nix/store/") {
        PinAction::PinTool(tool_derivation_path(tool_path))
    } else {
        PinAction::SkipWithWarning
    }
}

/// The service unit text for a tool binary at `tool_path`, rendered from the
/// unit template.
pub fn render_service(tool_path: &str, tpl: &str) -> (r: Result<String, Error>)
    ensures
        (r is Ok) == hb_renders(tpl@, ""@, ""@, tool_path@),
        r matches Ok(t) ==> t@ == hb_rendered(tpl@, ""@, ""@, tool_path@),
        r matches Err(e) ==> e is Render,
{
    match hb_render(tpl, "", "", tool_path) {
        Some(t) => Ok(t),
        None => Err(Error::Render),
    }
}

} // verus!
