//! The persisted sync state: what was detected, what is active, when the
//! last sync ran — kept in a primary file with exactly one backup generation.
//!
//! The save protocol mirrors what the binary does on disk: write the new
//! snapshot to a temporary sibling, rename the primary onto the backup
//! (nothing to rename on the very first save), rename the temporary onto the
//! primary. `StateSlots` models the two generations as values, so the
//! protocol's invariant — after a save the primary holds the new snapshot and
//! the backup the previous one — is stated and checked here.

use crate::detect::Driver;
use crate::json::{lemma_parse_quoted, parse_lit, parse_string, quoted, render_string_into,
    spec_parse_string};
use crate::text::lit_at;
use vstd::prelude::*;
use vstd::string::*;

verus! {

/// The GC-root symlink pinning the active farm.
pub fn gcroot_symlink() -> (r: String)
    ensures
        r@ == "/nix/var/nix/gcroots/nix-opengl-driver/current"@,
{
    "/nix/var/nix/gcroots/nix-opengl-driver/current".to_owned()
}

/// The primary state file.
pub fn state_file() -> (r: String)
    ensures
        r@ == "/var/lib/nix-opengl-driver/state.json"@,
{
    "/var/lib/nix-opengl-driver/state.json".to_owned()
}

/// The backup state file, holding the previous snapshot.
pub fn state_bak() -> (r: String)
    ensures
        r@ == "/var/lib/nix-opengl-driver/state.json.bak"@,
{
    "/var/lib/nix-opengl-driver/state.json.bak".to_owned()
}

/// The temporary sibling a new snapshot is written to before the renames.
pub fn state_tmp() -> (r: String)
    ensures
        r@ == "/var/lib/nix-opengl-driver/state.json.tmp"@,
{
    "/var/lib/nix-opengl-driver/state.json.tmp".to_owned()
}

/// One snapshot of a successful sync.
pub struct State {
    /// Human-readable description of the detected driver.
    pub detected: String,
    /// Display form of the active farm's path.
    pub active: String,
    /// When the sync ran, as an RFC 3339 timestamp.
    pub last_sync: String,
}

/// The `detected` description a driver renders to.
pub open spec fn detected_text(d: Driver) -> Seq<char> {
    match d {
        Driver::Nvidia(v) => "nvidia "@ + v@,
        Driver::Mesa => "mesa"@,
    }
}

/// The state file's text for one snapshot.
pub open spec fn render_state_text(detected: Seq<char>, active: Seq<char>, last_sync: Seq<char>)
    -> Seq<char> {
    "{\n  \"detected\": "@ + quoted(detected) + ",\n  \"active\": "@ + quoted(active)
        + ",\n  \"last_sync\": "@ + quoted(last_sync) + "\n}"@
}

/// The three snapshot fields a state file's text holds, if it parses.
pub open spec fn spec_parse_state(s: Seq<char>) -> Option<(Seq<char>, Seq<char>, Seq<char>)> {
    if !lit_at(s, 0, "{\n  \"detected\": "@) {
        None
    } else {
        match spec_parse_string(s, "{\n  \"detected\": "@.len() as int) {
            Option::None => None,
            Option::Some((d, j)) => {
                if lit_at(s, j, ",\n  \"active\": "@) {
                    match spec_parse_string(s, j + ",\n  \"active\": "@.len()) {
                        Option::None => None,
                        Option::Some((a, j2)) => {
                            if lit_at(s, j2, ",\n  \"last_sync\": "@) {
                                match spec_parse_string(s, j2 + ",\n  \"last_sync\": "@.len()) {
                                    Option::None => None,
                                    Option::Some((l, j3)) => {
                                        if lit_at(s, j3, "\n}"@) && j3 + "\n}"@.len() == s.len() {
                                            Some((d, a, l))
                                        } else {
                                            None
                                        }
                                    },
                                }
                            } else {
                                None
                            }
                        },
                    }
                } else {
                    None
                }
            },
        }
    }
}

impl State {
    /// The snapshot recording that `d` is active at `active`, synced at `now`.
    pub fn new_state(d: &Driver, active: &str, now: &str) -> (r: State)
        ensures
            r.detected@ == detected_text(*d),
            r.active@ == active@,
            r.last_sync@ == now@,
    {
        let detected = match d {
            Driver::Nvidia(v) => {
                let mut t = "nvidia ".to_owned();
                t.append(v.as_str());
                t
            },
            Driver::Mesa => "mesa".to_owned(),
        };
        State { detected, active: active.to_owned(), last_sync: now.to_owned() }
    }

    /// The state file's text for this snapshot.
    pub fn render(&self) -> (r: String)
        ensures
            r@ == render_state_text(self.detected@, self.active@, self.last_sync@),
    {
        let mut out = "{\n  \"detected\": ".to_owned();
        render_string_into(self.detected.as_str(), &mut out);
        out.append(",\n  \"active\": ");
        render_string_into(self.active.as_str(), &mut out);
        out.append(",\n  \"last_sync\": ");
        render_string_into(self.last_sync.as_str(), &mut out);
        out.append("\n}");
        proof {
            assert(out@ =~= render_state_text(self.detected@, self.active@, self.last_sync@));
        }
        out
    }

    /// Parses a state file's text into a snapshot.
    pub fn parse(s: &str) -> (r: Option<State>)
        ensures
            (r is Some) == (spec_parse_state(s@) is Some),
            r matches Some(st) ==> spec_parse_state(s@) == Some(
                (st.detected@, st.active@, st.last_sync@),
            ),
    {
        let n = s.unicode_len();
        let i = match parse_lit(s, 0, "{\n  \"detected\": ") {
            None => {
                return None;
            },
            Some(i) => i,
        };
        let (detected, j) = match parse_string(s, i) {
            None => {
                return None;
            },
            Some(kj) => kj,
        };
        let j1 = match parse_lit(s, j, ",\n  \"active\": ") {
            None => {
                return None;
            },
            Some(j1) => j1,
        };
        let (active, j2) = match parse_string(s, j1) {
            None => {
                return None;
            },
            Some(kj) => kj,
        };
        let j3 = match parse_lit(s, j2, ",\n  \"last_sync\": ") {
            None => {
                return None;
            },
            Some(j3) => j3,
        };
        let (last_sync, j4) = match parse_string(s, j3) {
            None => {
                return None;
            },
            Some(kj) => kj,
        };
        match parse_lit(s, j4, "\n}") {
            Some(e) if e == n => Some(State { detected, active, last_sync }),
            _ => None,
        }
    }

    /// The parse of an optional file text.
    pub open spec fn parse_of(t: Option<&str>) -> Option<(Seq<char>, Seq<char>, Seq<char>)> {
        match t {
            Option::None => None,
            Option::Some(x) => spec_parse_state(x@),
        }
    }

    /// Loads the last snapshot: the primary if it parses, else the backup if
    /// that parses, else no state at all — a legitimate "never synced", not
    /// a fault.
    pub fn load(primary: Option<&str>, backup: Option<&str>) -> (r: Option<State>)
        ensures
            State::parse_of(primary) matches Some(v) ==> (r matches Some(st) && (
            st.detected@, st.active@, st.last_sync@) == v),
            State::parse_of(primary) is None ==> (State::parse_of(backup) matches Some(v) ==> (
            r matches Some(st) && (st.detected@, st.active@, st.last_sync@) == v)),
            State::parse_of(primary) is None && State::parse_of(backup) is None ==> r is None,
    {
        if let Some(p) = primary {
            if let Some(st) = State::parse(p) {
                return Some(st);
            }
        }
        if let Some(b) = backup {
            if let Some(st) = State::parse(b) {
                return Some(st);
            }
        }
        None
    }
}

/// A saved snapshot's text parses back to exactly the saved fields: what
/// `load` reads from the file `save` wrote is the snapshot that was saved.
pub proof fn lemma_state_round_trip(d: Seq<char>, a: Seq<char>, l: Seq<char>)
    ensures
        spec_parse_state(render_state_text(d, a, l)) == Some((d, a, l)),
{
    let s = render_state_text(d, a, l);
    let o1 = "{\n  \"detected\": "@;
    let s2 = ",\n  \"active\": "@;
    let s3 = ",\n  \"last_sync\": "@;
    let c4 = "\n}"@;
    assert(s.subrange(0, o1.len() as int) =~= o1);
    lemma_parse_quoted(o1, d, s2 + quoted(a) + s3 + quoted(l) + c4);
    assert(o1 + quoted(d) + (s2 + quoted(a) + s3 + quoted(l) + c4) =~= s);
    let j = (o1.len() + quoted(d).len()) as int;
    assert(s.subrange(j, j + s2.len()) =~= s2);
    lemma_parse_quoted(o1 + quoted(d) + s2, a, s3 + quoted(l) + c4);
    assert((o1 + quoted(d) + s2) + quoted(a) + (s3 + quoted(l) + c4) =~= s);
    let j2 = (j + s2.len() + quoted(a).len()) as int;
    assert(s.subrange(j2, j2 + s3.len()) =~= s3);
    lemma_parse_quoted(o1 + quoted(d) + s2 + quoted(a) + s3, l, c4);
    assert((o1 + quoted(d) + s2 + quoted(a) + s3) + quoted(l) + c4 =~= s);
    let j3 = (j2 + s3.len() + quoted(l).len()) as int;
    assert(s.subrange(j3, j3 + c4.len()) =~= c4);
    assert(j3 + c4.len() == s.len());
}

/// The two persisted generations: the primary and its single backup. `None`
/// stands for an absent file.
pub struct StateSlots {
    pub primary: Option<String>,
    pub backup: Option<String>,
}

/// The two generations as character sequences.
pub open spec fn slots_view(s: StateSlots) -> (Option<Seq<char>>, Option<Seq<char>>) {
    (
        match s.primary {
            Option::Some(p) => Some(p@),
            Option::None => None,
        },
        match s.backup {
            Option::Some(b) => Some(b@),
            Option::None => None,
        },
    )
}

/// What one save leaves in the two generations: the new text in the primary,
/// and the old primary — when there was one — in the backup.
pub open spec fn saved_slots(v: (Option<Seq<char>>, Option<Seq<char>>), text: Seq<char>) -> (
    Option<Seq<char>>,
    Option<Seq<char>>,
) {
    (Some(text), if v.0 is Some { v.0 } else { v.1 })
}

impl State {
    /// One save: renders the snapshot for `d`, `active` and `now`, moves the
    /// old primary to the backup slot, and puts the new text in the primary
    /// slot. Returns the new slots and the rendered text the binary writes.
    pub fn save(slots: StateSlots, d: &Driver, active: &str, now: &str) -> (r: (StateSlots, String))
        ensures
            r.1@ == render_state_text(detected_text(*d), active@, now@),
            slots_view(r.0) == saved_slots(slots_view(slots), r.1@),
    {
        let StateSlots { primary, backup } = slots;
        let st = State::new_state(d, active, now);
        let text = st.render();
        let new_backup = match primary {
            Some(p) => Some(p),
            None => backup,
        };
        (StateSlots { primary: Some(text.clone()), backup: new_backup }, text)
    }
}

/// Two consecutive saves leave the backup holding exactly the first snapshot
/// and the primary the second, whatever the slots held before.
pub proof fn lemma_two_saves(
    v: (Option<Seq<char>>, Option<Seq<char>>),
    t1: Seq<char>,
    t2: Seq<char>,
)
    ensures
        saved_slots(saved_slots(v, t1), t2) == (Some(t2), Some(t1)),
{
}

} // verus!
