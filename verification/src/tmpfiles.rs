//! The boot-time rule that recreates the runtime driver symlink.

use vstd::prelude::*;
use vstd::string::*;

verus! {

/// The well-known runtime symlink the rule recreates.
pub fn run_symlink() -> (r: String)
    ensures
        r@ == "/run/opengl-driver"@,
{
    "/run/opengl-driver".to_owned()
}

/// Where the rule file is installed.
pub fn tmpfiles_conf() -> (r: String)
    ensures
        r@ == "/etc/tmpfiles.d/nix-opengl-driver.conf"@,
{
    "/etc/tmpfiles.d/nix-opengl-driver.conf".to_owned()
}

/// The rule file's single line: link the runtime symlink to the GC-root.
pub open spec fn rule_text() -> Seq<char> {
    "L "@ + "/run/opengl-driver"@ + " - - - - "@
        + "/nix/var/nix/gcroots/nix-opengl-driver/current"@ + "\n"@
}

/// The rule file's contents.
pub fn rule_line() -> (r: String)
    ensures
        r@ == rule_text(),
{
    let mut out = "L ".to_owned();
    out.append("/run/opengl-driver");
    out.append(" - - - - ");
    out.append("/nix/var/nix/gcroots/nix-opengl-driver/current");
    out.append("\n");
    out
}

} // verus!
