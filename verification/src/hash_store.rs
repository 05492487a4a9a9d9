//! The persisted version-to-hash cache: a mapping with unique keys, its
//! privilege-dependent storage location, and the rule that a write denied for
//! lack of permission degrades to a warning instead of failing resolution.

use crate::errors::Error;
use crate::json::{lemma_parse_quoted, lemma_scan_string_bounds, parse_lit, parse_string, quoted,
    render_string_into, spec_parse_string};
use crate::text::{lit_at, match_lit, str_eq};
use vstd::prelude::*;
use vstd::seq_lib::*;
use vstd::string::*;

verus! {

/// No two entries share a key.
spec fn unique_keys(es: Seq<(String, String)>) -> bool {
    forall|i: int, j: int| 0 <= i < j < es.len() ==> es[i].0@ != es[j].0@
}

/// Some entry of `es` is exactly the pair `p`.
spec fn has_pair(es: Seq<(String, String)>, p: (String, String)) -> bool {
    exists|t: int| 0 <= t < es.len() && es[t] == p
}

/// The mapping a sequence of entries stands for; a later entry would win,
/// though well-formed stores never hold two entries with one key.
spec fn entries_map(es: Seq<(String, String)>) -> Map<Seq<char>, Seq<char>>
    decreases es.len(),
{
    if es.len() == 0 {
        Map::empty()
    } else {
        entries_map(es.drop_last()).insert(es.last().0@, es.last().1@)
    }
}

proof fn lemma_contains_iff(es: Seq<(String, String)>, k: Seq<char>)
    ensures
        entries_map(es).contains_key(k) <==> (exists|i: int|
            0 <= i < es.len() && es[i].0@ == k),
    decreases es.len(),
{
    if es.len() > 0 {
        lemma_contains_iff(es.drop_last(), k);
        if entries_map(es).contains_key(k) {
            if es.last().0@ == k {
                assert(es[es.len() - 1].0@ == k);
            } else {
                let i = choose|i: int| 0 <= i < es.drop_last().len() && es.drop_last()[i].0@ == k;
                assert(es[i].0@ == k);
            }
        }
        if exists|i: int| 0 <= i < es.len() && es[i].0@ == k {
            let i = choose|i: int| 0 <= i < es.len() && es[i].0@ == k;
            if i < es.len() - 1 {
                assert(es.drop_last()[i].0@ == k);
            }
        }
    }
}

proof fn lemma_value_at(es: Seq<(String, String)>, i: int)
    requires
        unique_keys(es),
        0 <= i < es.len(),
    ensures
        entries_map(es).contains_key(es[i].0@),
        entries_map(es)[es[i].0@] == es[i].1@,
    decreases es.len(),
{
    if i < es.len() - 1 {
        assert forall|a: int, b: int| 0 <= a < b < es.drop_last().len() implies es.drop_last()[a].0@
            != es.drop_last()[b].0@ by {
            assert(es.drop_last()[a] == es[a]);
            assert(es.drop_last()[b] == es[b]);
        }
        lemma_value_at(es.drop_last(), i);
        assert(es.drop_last()[i] == es[i]);
        assert(es.last().0@ != es[i].0@);
    }
}

/// The in-memory version-to-hash mapping.
pub struct HashStore {
    entries: Vec<(String, String)>,
}

impl View for HashStore {
    type V = Map<Seq<char>, Seq<char>>;

    closed spec fn view(&self) -> Map<Seq<char>, Seq<char>> {
        entries_map(self.entries@)
    }
}

impl HashStore {
    /// The entries, in the order the file holds them.
    pub closed spec fn entries_seq(&self) -> Seq<(String, String)> {
        self.entries@
    }

    /// Every key occurs once.
    pub closed spec fn wf(&self) -> bool {
        unique_keys(self.entries@)
    }

    /// A store with no entries.
    pub fn empty() -> (r: HashStore)
        ensures
            r.wf(),
            r@ == Map::<Seq<char>, Seq<char>>::empty(),
            r.entries_seq().len() == 0,
    {
        HashStore { entries: Vec::new() }
    }

    fn find_index(&self, version: &str) -> (r: Option<usize>)
        ensures
            r matches Some(i) ==> (i < self.entries@.len() && self.entries@[i as int].0@
                == version@),
            r is None ==> forall|t: int|
                0 <= t < self.entries@.len() ==> self.entries@[t].0@ != version@,
    {
        let mut i: usize = 0;
        while i < self.entries.len()
            invariant
                i <= self.entries@.len(),
                forall|t: int| 0 <= t < i ==> self.entries@[t].0@ != version@,
            decreases self.entries@.len() - i,
        {
            if str_eq(self.entries[i].0.as_str(), version) {
                return Some(i);
            }
            i += 1;
        }
        None
    }

    /// The hash stored for `version`, if the store holds one. A pure lookup:
    /// nothing outside the mapping is consulted.
    pub fn get(&self, version: &str) -> (r: Option<&String>)
        requires
            self.wf(),
        ensures
            self@.contains_key(version@) ==> (r matches Some(h) && h@ == self@[version@]),
            !self@.contains_key(version@) ==> r is None,
    {
        proof {
            lemma_contains_iff(self.entries@, version@);
        }
        match self.find_index(version) {
            Some(i) => {
                proof {
                    lemma_value_at(self.entries@, i as int);
                }
                Some(&self.entries[i].1)
            },
            None => None,
        }
    }

    /// Updates the in-memory mapping: afterwards `version` is bound to `hash`
    /// and every other binding is as before.
    pub fn insert(&mut self, version: String, hash: String)
        requires
            old(self).wf(),
        ensures
            final(self).wf(),
            final(self)@ == old(self)@.insert(version@, hash@),
            final(self)@.contains_key(version@),
            final(self)@[version@] == hash@,
    {
        let ghost k = version@;
        let ghost old_es = self.entries@;
        let opt = self.find_index(version.as_str());
        match opt {
            Some(i) => {
                self.entries.remove(i);
                proof {
                    old_es.remove_ensures(i as int);
                    assert forall|a: int, b: int| 0 <= a < b < self.entries@.len() implies self
                        .entries@[a].0@ != self.entries@[b].0@ by {
                        if b < i {
                        } else if a < i {
                            assert(self.entries@[b] == old_es[b + 1]);
                        } else {
                            assert(self.entries@[a] == old_es[a + 1]);
                            assert(self.entries@[b] == old_es[b + 1]);
                        }
                    }
                    assert forall|t: int| 0 <= t < self.entries@.len() implies self.entries@[t].0@
                        != k by {
                        if t < i {
                        } else {
                            assert(self.entries@[t] == old_es[t + 1]);
                        }
                    }
                }
            },
            None => {},
        }
        let ghost mid_es = self.entries@;
        proof {
            if opt is Some {
                let i = opt.unwrap() as int;
                old_es.remove_ensures(i);
                assert forall|u: int| 0 <= u < mid_es.len() implies has_pair(
                    old_es,
                    #[trigger] mid_es[u],
                ) by {
                    if u < i {
                        assert(old_es[u] == mid_es[u]);
                    } else {
                        assert(old_es[u + 1] == mid_es[u]);
                    }
                }
                assert forall|t: int|
                    0 <= t < old_es.len() && (#[trigger] old_es[t]).0@ != k implies has_pair(
                    mid_es,
                    old_es[t],
                ) by {
                    if t < i {
                        assert(mid_es[t] == old_es[t]);
                    } else if t > i {
                        assert(mid_es[t - 1] == old_es[t]);
                    }
                }
            } else {
                assert forall|u: int| 0 <= u < mid_es.len() implies has_pair(
                    old_es,
                    #[trigger] mid_es[u],
                ) by {
                    assert(old_es[u] == mid_es[u]);
                }
                assert forall|t: int|
                    0 <= t < old_es.len() && (#[trigger] old_es[t]).0@ != k implies has_pair(
                    mid_es,
                    old_es[t],
                ) by {
                    assert(mid_es[t] == old_es[t]);
                }
            }
        }
        self.entries.push((version, hash));
        proof {
            assert(self.entries@.drop_last() =~= mid_es);
            assert(self.entries@.last().0@ == k);
            assert forall|a: int, b: int| 0 <= a < b < self.entries@.len() implies self
                .entries@[a].0@ != self.entries@[b].0@ by {
                if b < self.entries@.len() - 1 {
                    assert(self.entries@[a] == mid_es[a]);
                    assert(self.entries@[b] == mid_es[b]);
                } else {
                    assert(self.entries@[a] == mid_es[a]);
                }
            }
            assert(entries_map(mid_es).insert(k, hash@) =~= entries_map(old_es).insert(k, hash@))
                by {
                lemma_maps_agree_off_key(old_es, mid_es, k);
            }
        }
    }
}

/// The view of each entry: both strings as their character sequences.
pub open spec fn pairs_view(es: Seq<(String, String)>) -> Seq<(Seq<char>, Seq<char>)> {
    es.map_values(|p: (String, String)| (p.0@, p.1@))
}

/// The mapping a sequence of key/value pairs stands for; a later pair wins.
pub open spec fn pairs_map(ps: Seq<(Seq<char>, Seq<char>)>) -> Map<Seq<char>, Seq<char>>
    decreases ps.len(),
{
    if ps.len() == 0 {
        Map::empty()
    } else {
        pairs_map(ps.drop_last()).insert(ps.last().0, ps.last().1)
    }
}

/// One rendered entry: the quoted key, a colon, the quoted value.
pub open spec fn render_entry(k: Seq<char>, v: Seq<char>) -> Seq<char> {
    quoted(k) + ": "@ + quoted(v)
}

/// The rendered entry list, each entry on its own indented line.
pub open spec fn render_entries(es: Seq<(String, String)>) -> Seq<char>
    decreases es.len(),
{
    if es.len() == 0 {
        Seq::empty()
    } else if es.len() == 1 {
        "\n    "@ + render_entry(es[0].0@, es[0].1@)
    } else {
        render_entries(es.drop_last()) + ",\n    "@ + render_entry(es.last().0@, es.last().1@)
    }
}

/// The whole cache file: one object under the single key `map`.
pub open spec fn render_store_text(es: Seq<(String, String)>) -> Seq<char> {
    if es.len() == 0 {
        "{\n  \"map\": {}\n}"@
    } else {
        "{\n  \"map\": {"@ + render_entries(es) + "\n  }\n}"@
    }
}

/// One parsed entry: the key, the value, and the position after the value.
pub open spec fn spec_parse_entry(s: Seq<char>, i: int) -> Option<((Seq<char>, Seq<char>), int)> {
    match spec_parse_string(s, i) {
        Option::None => None,
        Option::Some((k, j)) => {
            if lit_at(s, j, ": "@) {
                match spec_parse_string(s, j + ": "@.len()) {
                    Option::None => None,
                    Option::Some((v, j2)) => Some(((k, v), j2)),
                }
            } else {
                None
            }
        },
    }
}

pub proof fn lemma_parse_string_bounds(s: Seq<char>, i: int)
    requires
        0 <= i <= s.len(),
    ensures
        spec_parse_string(s, i) is Some ==> i < spec_parse_string(s, i).unwrap().1 <= s.len(),
{
    if 0 <= i < s.len() && s[i] == '"' {
        lemma_scan_string_bounds(s, i + 1);
    }
}

pub proof fn lemma_parse_entry_bounds(s: Seq<char>, i: int)
    requires
        0 <= i <= s.len(),
    ensures
        spec_parse_entry(s, i) is Some ==> i < spec_parse_entry(s, i).unwrap().1 <= s.len(),
{
    lemma_parse_string_bounds(s, i);
    if spec_parse_string(s, i) is Some {
        let (k, j) = spec_parse_string(s, i).unwrap();
        if lit_at(s, j, ": "@) {
            lemma_parse_string_bounds(s, j + ": "@.len());
        }
    }
}

/// The entries after the first: each introduced by a comma separator.
pub open spec fn spec_parse_rest_entries(s: Seq<char>, i: int) -> Option<
    (Seq<(Seq<char>, Seq<char>)>, int),
>
    decreases s.len() - i,
    when 0 <= i <= s.len()
    via spec_parse_rest_entries_dec
{
    if lit_at(s, i, ",\n    "@) {
        match spec_parse_entry(s, i + ",\n    "@.len()) {
            Option::None => None,
            Option::Some((kv, j)) => match spec_parse_rest_entries(s, j) {
                Option::None => None,
                Option::Some((rest, j2)) => Some((seq![kv] + rest, j2)),
            },
        }
    } else {
        Some((Seq::empty(), i))
    }
}

#[via_fn]
proof fn spec_parse_rest_entries_dec(s: Seq<char>, i: int) {
    if 0 <= i <= s.len() && lit_at(s, i, ",\n    "@) {
        lemma_parse_entry_bounds(s, i + ",\n    "@.len() as int);
    }
}

/// The whole cache file: the fixed frame around the entry list, ending
/// exactly at the end of the text.
pub open spec fn spec_parse_store(s: Seq<char>) -> Option<Seq<(Seq<char>, Seq<char>)>> {
    if !lit_at(s, 0, "{\n  \"map\": {"@) {
        None
    } else {
        let i = "{\n  \"map\": {"@.len() as int;
        if lit_at(s, i, "}\n}"@) && i + "}\n}"@.len() == s.len() {
            Some(Seq::empty())
        } else if lit_at(s, i, "\n    "@) {
            match spec_parse_entry(s, i + "\n    "@.len()) {
                Option::None => None,
                Option::Some((kv, j)) => match spec_parse_rest_entries(s, j) {
                    Option::None => None,
                    Option::Some((rest, j2)) => {
                        if lit_at(s, j2, "\n  }\n}"@) && j2 + "\n  }\n}"@.len() == s.len() {
                            Some(seq![kv] + rest)
                        } else {
                            None
                        }
                    },
                },
            }
        } else {
            None
        }
    }
}

/// The entries from `i` on, as the parser meets them: each preceded by the
/// comma separator.
spec fn render_rest(es: Seq<(String, String)>, i: int) -> Seq<char>
    decreases es.len() - i,
{
    if !(0 <= i < es.len()) {
        Seq::empty()
    } else {
        ",\n    "@ + render_entry(es[i].0@, es[i].1@) + render_rest(es, i + 1)
    }
}

proof fn lemma_render_rest_snoc(es: Seq<(String, String)>, i: int)
    requires
        es.len() >= 1,
        0 <= i <= es.len() - 1,
    ensures
        render_rest(es, i) == render_rest(es.drop_last(), i) + ",\n    "@ + render_entry(
            es.last().0@,
            es.last().1@,
        ),
    decreases es.len() - i,
{
    if i == es.len() - 1 {
        assert(render_rest(es.drop_last(), i) == Seq::<char>::empty());
        assert(render_rest(es, i + 1) == Seq::<char>::empty());
        assert(es.last() == es[i]);
        assert(render_rest(es, i) =~= render_rest(es.drop_last(), i) + ",\n    "@ + render_entry(
            es.last().0@,
            es.last().1@,
        ));
    } else {
        lemma_render_rest_snoc(es, i + 1);
        assert(es.drop_last()[i] == es[i]);
        assert(render_rest(es.drop_last(), i) == ",\n    "@ + render_entry(
            es.drop_last()[i].0@,
            es.drop_last()[i].1@,
        ) + render_rest(es.drop_last(), i + 1));
        assert(render_rest(es, i) =~= render_rest(es.drop_last(), i) + ",\n    "@ + render_entry(
            es.last().0@,
            es.last().1@,
        ));
    }
}

/// The rendered entry list read from the left: the first entry after its
/// line break, then the comma-separated rest.
proof fn lemma_render_entries_left(es: Seq<(String, String)>)
    requires
        es.len() >= 1,
    ensures
        render_entries(es) == "\n    "@ + render_entry(es[0].0@, es[0].1@) + render_rest(es, 1),
    decreases es.len(),
{
    if es.len() == 1 {
        assert(render_entries(es) =~= "\n    "@ + render_entry(es[0].0@, es[0].1@) + render_rest(
            es,
            1,
        ));
    } else {
        lemma_render_entries_left(es.drop_last());
        assert(es.drop_last()[0] == es[0]);
        lemma_render_rest_snoc(es, 1);
        assert(render_entries(es) =~= "\n    "@ + render_entry(es[0].0@, es[0].1@) + render_rest(
            es,
            1,
        ));
    }
}

/// Parsing at a rendered entry gives back exactly its key and value.
proof fn lemma_parse_entry_of_render(prefix: Seq<char>, k: Seq<char>, v: Seq<char>, tail: Seq<char>)
    ensures
        spec_parse_entry(prefix + render_entry(k, v) + tail, prefix.len() as int) == Some(
            ((k, v), (prefix.len() + render_entry(k, v).len()) as int),
        ),
{
    let s = prefix + render_entry(k, v) + tail;
    lemma_parse_quoted(prefix, k, ": "@ + quoted(v) + tail);
    assert(prefix + quoted(k) + (": "@ + quoted(v) + tail) =~= s);
    let j = (prefix.len() + quoted(k).len()) as int;
    assert(s.subrange(j, j + ": "@.len()) =~= ": "@);
    lemma_parse_quoted(prefix + quoted(k) + ": "@, v, tail);
    assert((prefix + quoted(k) + ": "@) + quoted(v) + tail =~= s);
}

/// Parsing the comma-separated rest of a rendered entry list, followed by the
/// closing frame, gives back exactly the remaining pairs.
proof fn lemma_parse_rest_of_render(prefix: Seq<char>, es: Seq<(String, String)>, i: int)
    requires
        0 <= i <= es.len(),
    ensures
        spec_parse_rest_entries(prefix + render_rest(es, i) + "\n  }\n}"@, prefix.len() as int)
            == Some(
            (pairs_view(es).skip(i), (prefix.len() + render_rest(es, i).len()) as int),
        ),
    decreases es.len() - i,
{
    let s = prefix + render_rest(es, i) + "\n  }\n}"@;
    reveal_strlit(",\n    ");
    reveal_strlit("\n  }\n}");
    if i == es.len() {
        assert(render_rest(es, i) == Seq::<char>::empty());
        assert(s[prefix.len() as int] == '\n');
        assert(!lit_at(s, prefix.len() as int, ",\n    "@)) by {
            if lit_at(s, prefix.len() as int, ",\n    "@) {
                assert(s.subrange(
                    prefix.len() as int,
                    (prefix.len() + ",\n    "@.len()) as int,
                )[0] == s[prefix.len() as int]);
            }
        }
        assert(pairs_view(es).skip(i) =~= Seq::<(Seq<char>, Seq<char>)>::empty());
    } else {
        let sep = ",\n    "@;
        let entry = render_entry(es[i].0@, es[i].1@);
        let rest = render_rest(es, i + 1);
        assert(s =~= (prefix + sep) + entry + (rest + "\n  }\n}"@));
        assert(s.subrange(prefix.len() as int, (prefix.len() + sep.len()) as int) =~= sep);
        lemma_parse_entry_of_render(prefix + sep, es[i].0@, es[i].1@, rest + "\n  }\n}"@);
        lemma_parse_rest_of_render(prefix + sep + entry, es, i + 1);
        assert((prefix + sep + entry) + rest + "\n  }\n}"@ =~= s);
        assert(seq![(es[i].0@, es[i].1@)] + pairs_view(es).skip(i + 1) =~= pairs_view(es).skip(i));
    }
}

/// A rendered cache file parses back to exactly the entries that were
/// rendered, in order: what the file holds after a save is what a later run
/// loads.
#[verifier::rlimit(100)]
pub proof fn lemma_store_round_trip(es: Seq<(String, String)>)
    ensures
        spec_parse_store(render_store_text(es)) == Some(pairs_view(es)),
{
    let s = render_store_text(es);
    let open = "{\n  \"map\": {"@;
    reveal_strlit("{\n  \"map\": {");
    reveal_strlit("{\n  \"map\": {}\n}");
    reveal_strlit("}\n}");
    reveal_strlit("\n    ");
    reveal_strlit("\n  }\n}");
    if es.len() == 0 {
        assert(s.subrange(0, open.len() as int) =~= open);
        assert(lit_at(s, open.len() as int, "}\n}"@)) by {
            assert(s.subrange(open.len() as int, (open.len() + "}\n}"@.len()) as int) =~= "}\n}"@);
        }
        assert(pairs_view(es) =~= Seq::<(Seq<char>, Seq<char>)>::empty());
    } else {
        lemma_render_entries_left(es);
        let first = render_entry(es[0].0@, es[0].1@);
        let rest = render_rest(es, 1);
        assert(s =~= (open + "\n    "@) + first + (rest + "\n  }\n}"@));
        assert(s.subrange(0, open.len() as int) =~= open);
        let i = open.len() as int;
        assert(s[i] == '\n');
        assert(!lit_at(s, i, "}\n}"@)) by {
            if lit_at(s, i, "}\n}"@) {
                assert(s.subrange(i, i + "}\n}"@.len())[0] == s[i]);
            }
        }
        assert(s.subrange(i, i + "\n    "@.len()) =~= "\n    "@);
        lemma_parse_entry_of_render(open + "\n    "@, es[0].0@, es[0].1@, rest + "\n  }\n}"@);
        lemma_parse_rest_of_render(open + "\n    "@ + first, es, 1);
        assert((open + "\n    "@ + first) + rest + "\n  }\n}"@ =~= s);
        let j2 = (open.len() + "\n    "@.len() + first.len() + rest.len()) as int;
        assert(s.subrange(j2, j2 + "\n  }\n}"@.len()) =~= "\n  }\n}"@);
        assert(j2 + "\n  }\n}"@.len() == s.len());
        assert(seq![(es[0].0@, es[0].1@)] + pairs_view(es).skip(1) =~= pairs_view(es));
    }
}

proof fn lemma_pairs_map_of_view(es: Seq<(String, String)>)
    ensures
        pairs_map(pairs_view(es)) == entries_map(es),
    decreases es.len(),
{
    if es.len() > 0 {
        lemma_pairs_map_of_view(es.drop_last());
        assert(pairs_view(es).drop_last() =~= pairs_view(es.drop_last()));
        assert(pairs_view(es).last() == (es.last().0@, es.last().1@));
    } else {
        assert(pairs_view(es).len() == 0);
    }
}

/// Reloading a rendered cache file gives a store with exactly the same
/// mapping: together with the contracts of `render` and `load`, what one run
/// persists is what the next run resolves from.
pub proof fn lemma_store_reload(st: HashStore)
    ensures
        spec_parse_store(render_store_text(st.entries_seq())) == Some(
            pairs_view(st.entries_seq()),
        ),
        pairs_map(pairs_view(st.entries_seq())) == st@,
{
    lemma_store_round_trip(st.entries_seq());
    lemma_pairs_map_of_view(st.entries_seq());
}

/// Parses one `"key": "value"` entry.
fn parse_entry(s: &str, i: usize) -> (r: Option<(String, String, usize)>)
    requires
        i <= s@.len(),
    ensures
        (r is Some) == (spec_parse_entry(s@, i as int) is Some),
        r matches Some((k, v, j)) ==> (spec_parse_entry(s@, i as int) == Some(
            ((k@, v@), j as int),
        ) && i < j <= s@.len()),
{
    proof {
        lemma_parse_entry_bounds(s@, i as int);
    }
    match parse_string(s, i) {
        None => None,
        Some((k, j)) => {
            match parse_lit(s, j, ": ") {
                None => None,
                Some(j1) => {
                    match parse_string(s, j1) {
                        None => None,
                        Some((v, j2)) => Some((k, v, j2)),
                    }
                },
            }
        },
    }
}

/// Parses the comma-introduced entries after the first, pushing each pair.
fn parse_rest_entries(s: &str, i: usize, acc: &mut Vec<(String, String)>) -> (r: Option<usize>)
    requires
        i <= s@.len(),
    ensures
        (r is Some) == (spec_parse_rest_entries(s@, i as int) is Some),
        r matches Some(j) ==> (spec_parse_rest_entries(s@, i as int) matches Some((ps, j2))
            && j == j2 && pairs_view(final(acc)@) == pairs_view(old(acc)@) + ps && i <= j
            <= s@.len()),
    decreases s@.len() - i,
{
    if match_lit(s, i, ",\n    ") {
        let n = s.unicode_len();
        let sep = ",\n    ".unicode_len();
        assert(i + sep <= n);
        match parse_entry(s, i + sep) {
            None => None,
            Some((k, v, j)) => {
                acc.push((k, v));
                let ghost mid = acc@;
                let r = parse_rest_entries(s, j, acc);
                proof {
                    if r is Some {
                        let (ps, j2) = spec_parse_rest_entries(s@, j as int).unwrap();
                        let (kv, _) = spec_parse_entry(s@, i + ",\n    "@.len()).unwrap();
                        assert(pairs_view(mid) =~= pairs_view(old(acc)@) + seq![kv]);
                        assert(pairs_view(acc@) =~= pairs_view(old(acc)@) + (seq![kv] + ps));
                    }
                }
                r
            },
        }
    } else {
        Some(i)
    }
}

/// Parses a whole cache file into its entry pairs, in file order.
pub fn parse_store_text(s: &str) -> (r: Option<Vec<(String, String)>>)
    ensures
        (r is Some) == (spec_parse_store(s@) is Some),
        r matches Some(ps) ==> spec_parse_store(s@) == Some(pairs_view(ps@)),
{
    let n = s.unicode_len();
    let i = match parse_lit(s, 0, "{\n  \"map\": {") {
        None => {
            return None;
        },
        Some(i) => i,
    };
    match parse_lit(s, i, "}\n}") {
        Some(e) if e == n => {
            let empty: Vec<(String, String)> = Vec::new();
            proof {
                assert(pairs_view(empty@) =~= Seq::<(Seq<char>, Seq<char>)>::empty());
            }
            return Some(empty);
        },
        _ => {},
    }
    let i2 = match parse_lit(s, i, "\n    ") {
        None => {
            return None;
        },
        Some(i2) => i2,
    };
    match parse_entry(s, i2) {
        None => None,
        Some((k, v, j)) => {
            let ghost kv = (k@, v@);
            let mut acc: Vec<(String, String)> = Vec::new();
            acc.push((k, v));
            match parse_rest_entries(s, j, &mut acc) {
                None => None,
                Some(j2) => {
                    match parse_lit(s, j2, "\n  }\n}") {
                        Some(e2) if e2 == n => {
                            proof {
                                let (rest, _) = spec_parse_rest_entries(s@, j as int).unwrap();
                                assert(pairs_view(acc@) =~= seq![kv] + rest);
                            }
                            Some(acc)
                        },
                        _ => None,
                    }
                },
            }
        },
    }
}

/// Removing the one entry holding key `k` removes exactly `k` from the map.
proof fn lemma_map_remove(es: Seq<(String, String)>, i: int)
    requires
        unique_keys(es),
        0 <= i < es.len(),
    ensures
        entries_map(es.remove(i)) =~= entries_map(es).remove(es[i].0@),
    decreases es.len(),
{
    let k = es[i].0@;
    es.remove_ensures(i);
    if i == es.len() - 1 {
        assert(es.remove(i) =~= es.drop_last());
        lemma_contains_iff(es.drop_last(), k);
        assert forall|t: int| 0 <= t < es.drop_last().len() implies es.drop_last()[t].0@ != k by {
            assert(es.drop_last()[t] == es[t]);
        }
        assert(!entries_map(es.drop_last()).contains_key(k));
        assert(entries_map(es.drop_last()).insert(k, es.last().1@).remove(k) =~= entries_map(
            es.drop_last(),
        ));
    } else {
        assert forall|a: int, b: int| 0 <= a < b < es.drop_last().len() implies es.drop_last()[a].0@
            != es.drop_last()[b].0@ by {
            assert(es.drop_last()[a] == es[a]);
            assert(es.drop_last()[b] == es[b]);
        }
        assert(es.drop_last()[i] == es[i]);
        lemma_map_remove(es.drop_last(), i);
        assert(es.remove(i).drop_last() =~= es.drop_last().remove(i));
        assert(es.remove(i).last() == es.last());
        assert(es.last().0@ != k);
        assert(entries_map(es.remove(i)) == entries_map(es.drop_last().remove(i)).insert(
            es.last().0@,
            es.last().1@,
        ));
        assert(entries_map(es.drop_last()).remove(k).insert(es.last().0@, es.last().1@)
            =~= entries_map(es.drop_last()).insert(es.last().0@, es.last().1@).remove(k));
    }
}

/// Two entry lists agreeing on every key other than `k` give one map once
/// `k` is (re)bound.
proof fn lemma_maps_agree_off_key(es1: Seq<(String, String)>, es2: Seq<(String, String)>, k: Seq<char>)
    requires
        unique_keys(es1),
        unique_keys(es2),
        forall|t: int| 0 <= t < es2.len() ==> es2[t].0@ != k,
        forall|t: int|
            0 <= t < es1.len() && (#[trigger] es1[t]).0@ != k ==> has_pair(es2, es1[t]),
        forall|u: int| 0 <= u < es2.len() ==> has_pair(es1, #[trigger] es2[u]),
    ensures
        forall|v: Seq<char>|
            entries_map(es2).insert(k, v) =~= entries_map(es1).insert(k, v),
{
    assert forall|v: Seq<char>|
        entries_map(es2).insert(k, v) =~= entries_map(es1).insert(k, v) by {
        let m1 = entries_map(es1).insert(k, v);
        let m2 = entries_map(es2).insert(k, v);
        assert forall|kk: Seq<char>| m1.contains_key(kk) == m2.contains_key(kk) by {
            lemma_contains_iff(es1, kk);
            lemma_contains_iff(es2, kk);
            if kk != k {
                if exists|t: int| 0 <= t < es1.len() && es1[t].0@ == kk {
                    let t = choose|t: int| 0 <= t < es1.len() && es1[t].0@ == kk;
                    assert(has_pair(es2, es1[t]));
                    let u = choose|u: int| 0 <= u < es2.len() && es2[u] == es1[t];
                    assert(es2[u].0@ == kk);
                }
                if exists|u: int| 0 <= u < es2.len() && es2[u].0@ == kk {
                    let u = choose|u: int| 0 <= u < es2.len() && es2[u].0@ == kk;
                    assert(has_pair(es1, es2[u]));
                    let t = choose|t: int| 0 <= t < es1.len() && es1[t] == es2[u];
                    assert(es1[t].0@ == kk);
                }
            }
        }
        assert forall|kk: Seq<char>| #[trigger] m1.contains_key(kk) implies m1[kk] == m2[kk] by {
            if kk != k {
                lemma_contains_iff(es1, kk);
                let t = choose|t: int| 0 <= t < es1.len() && es1[t].0@ == kk;
                assert(has_pair(es2, es1[t]));
                let u = choose|u: int| 0 <= u < es2.len() && es2[u] == es1[t];
                lemma_value_at(es1, t);
                lemma_value_at(es2, u);
            }
        }
    }
}

impl HashStore {
    /// The text the cache file holds for this store.
    pub fn render(&self) -> (r: String)
        ensures
            r@ == render_store_text(self.entries_seq()),
    {
        let mut out = String::new();
        if self.entries.len() == 0 {
            out.append("{\n  \"map\": {}\n}");
            return out;
        }
        out.append("{\n  \"map\": {");
        let mut i: usize = 0;
        while i < self.entries.len()
            invariant
                0 < self.entries@.len(),
                i <= self.entries@.len(),
                out@ == "{\n  \"map\": {"@ + render_entries(self.entries@.take(i as int)),
            decreases self.entries@.len() - i,
        {
            if i == 0 {
                out.append("\n    ");
            } else {
                out.append(",\n    ");
            }
            render_string_into(self.entries[i].0.as_str(), &mut out);
            out.append(": ");
            render_string_into(self.entries[i].1.as_str(), &mut out);
            proof {
                let pre = self.entries@.take(i as int);
                let cur = self.entries@.take(i + 1);
                assert(cur.drop_last() =~= pre);
                assert(cur.last() == self.entries@[i as int]);
                if i == 0 {
                    assert(pre.len() == 0);
                    assert(render_entries(pre) =~= Seq::<char>::empty());
                }
                assert(out@ =~= "{\n  \"map\": {"@ + render_entries(cur));
            }
            i += 1;
        }
        proof {
            assert(self.entries@.take(self.entries@.len() as int) =~= self.entries@);
        }
        out.append("\n  }\n}");
        out
    }

    /// A well-formed store holding the bindings of `pairs`, a later pair
    /// overriding an earlier one with the same key.
    pub fn from_pairs(pairs: Vec<(String, String)>) -> (r: HashStore)
        ensures
            r.wf(),
            r@ == pairs_map(pairs_view(pairs@)),
    {
        let mut st = HashStore::empty();
        let mut i: usize = 0;
        proof {
            assert(pairs_view(pairs@.take(0)) =~= Seq::<(Seq<char>, Seq<char>)>::empty());
        }
        while i < pairs.len()
            invariant
                i <= pairs@.len(),
                st.wf(),
                st@ == pairs_map(pairs_view(pairs@.take(i as int))),
            decreases pairs@.len() - i,
        {
            let k = pairs[i].0.clone();
            let v = pairs[i].1.clone();
            st.insert(k, v);
            proof {
                let pre = pairs_view(pairs@.take(i as int));
                let cur = pairs_view(pairs@.take(i + 1));
                assert(cur.drop_last() =~= pre);
                assert(cur.last() == (pairs@[i as int].0@, pairs@[i as int].1@));
            }
            i += 1;
        }
        proof {
            assert(pairs@.take(pairs@.len() as int) =~= pairs@);
        }
        st
    }

    /// Loads the store from the cache file's text: no file means an empty
    /// store, an unparsable file is a hard error, never silently replaced.
    pub fn load(text: Option<&str>) -> (r: Result<HashStore, Error>)
        ensures
            text is None ==> (r matches Ok(st) && st.wf() && st@ == Map::<
                Seq<char>,
                Seq<char>,
            >::empty()),
            text matches Some(t) ==> (spec_parse_store(t@) matches Some(ps) ==> (
            r matches Ok(st) && st.wf() && st@ == pairs_map(ps))),
            text matches Some(t) ==> (spec_parse_store(t@) is None ==> (r matches Err(e)
                && e is Parse)),
    {
        match text {
            None => Ok(HashStore::empty()),
            Some(t) => match parse_store_text(t) {
                Some(pairs) => Ok(HashStore::from_pairs(pairs)),
                None => Err(Error::Parse),
            },
        }
    }

    /// The authoritative cache location for this invocation: the global path
    /// under elevated privilege, else the per-principal data directory, else
    /// a fallback under the home directory; none of those, no location.
    pub fn store_path(euid: u32, data_local_dir: Option<&str>, home_dir: Option<&str>) -> (r:
        Option<String>)
        ensures
            euid == 0 ==> (r matches Some(p) && p@ == "/var/lib/nix-opengl-driver/hashmap.json"@),
            euid != 0 ==> (data_local_dir matches Some(d) ==> (r matches Some(p) && p@ == d@
                + "/nix-opengl-driver/hashmap.json"@)),
            euid != 0 && data_local_dir is None ==> (home_dir matches Some(h) ==> (
            r matches Some(p) && p@ == h@ + "/.local/state/nix-opengl-driver/hashmap.json"@)),
            euid != 0 && data_local_dir is None && home_dir is None ==> r is None,
    {
        if euid == 0 {
            Some("/var/lib/nix-opengl-driver/hashmap.json".to_owned())
        } else if let Some(d) = data_local_dir {
            let mut p = d.to_owned();
            p.append("/nix-opengl-driver/hashmap.json");
            Some(p)
        } else if let Some(h) = home_dir {
            let mut p = h.to_owned();
            p.append("/.local/state/nix-opengl-driver/hashmap.json");
            Some(p)
        } else {
            None
        }
    }
}

} // verus!
