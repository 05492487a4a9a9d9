//! The one call into the template engine, shared by the descriptor and the
//! service-unit renderers.

use vstd::prelude::*;

verus! {

/// What the template engine renders from a template and the three values this
/// tool ever substitutes. Rendering is deterministic, so the output is a
/// function of the template text and the data alone.
pub uninterp spec fn hb_rendered(
    tpl: Seq<char>,
    version: Seq<char>,
    sha256: Seq<char>,
    tool_path: Seq<char>,
) -> Seq<char>;

/// Whether the engine renders `tpl` against the three values at all.
/// Rendering is deterministic, so success too is a function of the template
/// text and the data alone.
pub uninterp spec fn hb_renders(
    tpl: Seq<char>,
    version: Seq<char>,
    sha256: Seq<char>,
    tool_path: Seq<char>,
) -> bool;

/// Renders `tpl` with `version`, `sha256` and `tool_path` bound to the given
/// values; `None` exactly when the template does not compile or render.
///
/// Relies on `handlebars::Handlebars::render_template`: whether rendering a
/// template string against fixed data succeeds, and the text it returns, are
/// both determined by the template and the data alone. The registry
/// substitutes values verbatim (`no_escape`): the rendered descriptors and
/// units are plain text, not HTML.
#[verifier::external_body]
pub(crate) fn hb_render(tpl: &str, version: &str, sha256: &str, tool_path: &str) -> (r: Option<
    String,
>)
    ensures
        (r is Some) == hb_renders(tpl@, version@, sha256@, tool_path@),
        r matches Some(t) ==> t@ == hb_rendered(tpl@, version@, sha256@, tool_path@),
{
    let mut data = serde_json::Map::new();
    data.insert("version".to_string(), serde_json::Value::String(version.to_string()));
    data.insert("sha256".to_string(), serde_json::Value::String(sha256.to_string()));
    data.insert("tool_path".to_string(), serde_json::Value::String(tool_path.to_string()));
    let mut hb = handlebars::Handlebars::new();
    hb.register_escape_fn(handlebars::no_escape);
    hb.render_template(tpl, &serde_json::Value::Object(data)).ok()
}

} // verus!
