use vstd::prelude::*;
use vstd::string::*;

use crate::text::{decimal, join, join_strings, owned, push_decimal, push_str};

verus! {

broadcast use vstd::string::group_string_axioms;

/// Where the controller profiles are kept on the console.
pub const DEFAULT_CONTROLLER_CONFIG_PATH: &'static str = "/data/openconsole/controllers.json";

/// The saved controller profiles.
#[derive(Debug, Clone)]
pub struct ControllerStore {
    pub controllers: Vec<ControllerProfile>,
}

/// One saved controller: its template, the device it was set up on and the
/// input token captured for each action label. `mappings` holds the pairs in
/// increasing order of action label, as the JSON object lists them.
#[derive(Debug, Clone)]
pub struct ControllerProfile {
    pub id: String,
    pub name: String,
    pub template: String,
    pub device_id: Option<String>,
    pub device_name: Option<String>,
    pub bluetooth_address: Option<String>,
    pub mappings: Vec<(String, String)>,
}

impl ControllerStore {
    /// A store without controllers (the state before anything was saved).
    pub fn new() -> (s: Self)
        ensures
            s.controllers@.len() == 0,
    {
        ControllerStore { controllers: Vec::new() }
    }
}

/// One line of the controller list: a marker, the 1-based position, the name
/// and the template.
pub open spec fn list_line(marker: Seq<char>, index: nat, name: Seq<char>, template: Seq<char>) -> Seq<char> {
    marker + " "@ + decimal(index + 1) + ". "@ + name + " ("@ + template + ")"@
}

/// The text of the controller list with `selected` marked by `>`.
pub open spec fn list_text_spec(profiles: Seq<ControllerProfile>, selected: Option<usize>) -> Seq<char> {
    if profiles.len() == 0 {
        "No controllers added yet."@
    } else {
        join(
            Seq::new(
                profiles.len(),
                |i: int|
                    list_line(
                        if selected == Some(i as usize) { ">"@ } else { " "@ },
                        i as nat,
                        profiles[i].name@,
                        profiles[i].template@,
                    ),
            ),
            "\n"@,
        )
    }
}

/// The controller list, one line per profile, none selected.
pub fn list_text(store: &ControllerStore) -> (r: String)
    ensures
        r@ == list_text_spec(store.controllers@, None),
{
    list_text_with_selection(store, None)
}

/// The controller list, one line per profile, with the selected one marked.
pub fn list_text_with_selection(store: &ControllerStore, selected_index: Option<usize>) -> (r: String)
    ensures
        r@ == list_text_spec(store.controllers@, selected_index),
{
    if store.controllers.len() == 0 {
        return owned("No controllers added yet.");
    }
    let ghost profiles = store.controllers@;
    let mut lines: Vec<String> = Vec::new();
    let mut i: usize = 0;
    while i < store.controllers.len()
        invariant
            i <= store.controllers.len(),
            profiles == store.controllers@,
            lines@.len() == i,
            forall|k: int| 0 <= k < i ==> #[trigger] lines@[k]@ == list_line(
                if selected_index == Some(k as usize) { ">"@ } else { " "@ },
                k as nat,
                profiles[k].name@,
                profiles[k].template@,
            ),
        decreases store.controllers.len() - i,
    {
        let selected = match selected_index {
            Some(s) => s == i,
            None => false,
        };
        let mut line = if selected { owned(">") } else { owned(" ") };
        push_str(&mut line, " ");
        push_decimal(&mut line, (i + 1) as u64);
        push_str(&mut line, ". ");
        push_str(&mut line, store.controllers[i].name.as_str());
        push_str(&mut line, " (");
        push_str(&mut line, store.controllers[i].template.as_str());
        push_str(&mut line, ")");
        lines.push(line);
        i = i + 1;
    }
    let r = join_strings(&lines, "\n");
    proof {
        assert(lines@.map_values(|p: String| p@) =~= Seq::new(
            profiles.len(),
            |k: int|
                list_line(
                    if selected_index == Some(k as usize) { ">"@ } else { " "@ },
                    k as nat,
                    profiles[k].name@,
                    profiles[k].template@,
                ),
        ));
    }
    r
}

} // verus!

verus! {

/// The views of action/token pairs.
pub open spec fn pair_views(v: Seq<(String, String)>) -> Seq<(Seq<char>, Seq<char>)> {
    v.map_values(|p: (String, String)| (p.0@, p.1@))
}

/// The first components of the pairs.
pub open spec fn pair_keys(s: Seq<(Seq<char>, Seq<char>)>) -> Seq<Seq<char>> {
    s.map_values(|p: (Seq<char>, Seq<char>)| p.0)
}

/// The map that the pairs describe, a later pair overriding an earlier one.
pub open spec fn pairs_map(s: Seq<(Seq<char>, Seq<char>)>) -> Map<Seq<char>, Seq<char>>
    decreases s.len(),
{
    if s.len() == 0 {
        Map::empty()
    } else {
        pairs_map(s.drop_last()).insert(s.last().0, s.last().1)
    }
}

/// In a list with distinct keys, the map holds exactly the listed keys, each
/// with its listed value.
pub proof fn lemma_pairs_map_distinct(s: Seq<(Seq<char>, Seq<char>)>)
    requires
        forall|i: int, j: int| 0 <= i < j < s.len() ==> s[i].0 != s[j].0,
    ensures
        forall|k: Seq<char>| #[trigger] pairs_map(s).contains_key(k) <==> exists|j: int| 0 <= j < s.len() && s[j].0 == k,
        forall|j: int| 0 <= j < s.len() ==> #[trigger] pairs_map(s)[s[j].0] == s[j].1,
    decreases s.len(),
{
    if s.len() > 0 {
        let d = s.drop_last();
        let last = s[s.len() - 1];
        assert(s.last() == last);
        assert forall|i: int, j: int| 0 <= i < j < d.len() implies d[i].0 != d[j].0 by {
            assert(d[i] == s[i] && d[j] == s[j]);
        }
        lemma_pairs_map_distinct(d);
        assert(pairs_map(s) == pairs_map(d).insert(last.0, last.1));
        assert forall|k: Seq<char>| #[trigger] pairs_map(s).contains_key(k) <==> exists|j: int| 0 <= j < s.len() && s[j].0 == k by {
            if pairs_map(s).contains_key(k) {
                if k == last.0 {
                    assert(s[s.len() - 1].0 == k);
                } else {
                    assert(pairs_map(d).contains_key(k));
                    let j = choose|j: int| 0 <= j < d.len() && d[j].0 == k;
                    assert(d[j] == s[j]);
                    assert(s[j].0 == k);
                }
            }
            if exists|j: int| 0 <= j < s.len() && s[j].0 == k {
                let j = choose|j: int| 0 <= j < s.len() && s[j].0 == k;
                if j < s.len() - 1 {
                    assert(d[j] == s[j]);
                    assert(d[j].0 == k);
                    assert(pairs_map(d).contains_key(k));
                }
            }
        }
        assert forall|j: int| 0 <= j < s.len() implies #[trigger] pairs_map(s)[s[j].0] == s[j].1 by {
            if j < s.len() - 1 {
                assert(d[j] == s[j]);
                assert(s[j].0 != last.0);
                assert(pairs_map(d)[d[j].0] == d[j].1);
            }
        }
    }
}

/// Sets the token of action `key` in the list ordered by action, keeping the
/// order: the list behaves as a map from action to token kept sorted by action.
pub fn mapping_insert(v: &mut Vec<(String, String)>, key: String, value: String)
    requires
        crate::text::strictly_sorted(pair_keys(pair_views(old(v)@))),
    ensures
        crate::text::strictly_sorted(pair_keys(pair_views(final(v)@))),
        pairs_map(pair_views(final(v)@)) == pairs_map(pair_views(old(v)@)).insert(key@, value@),
{
    let ghost ov = pair_views(v@);
    let ghost ok = pair_keys(ov);
    let mut i: usize = 0;
    while i < v.len() && crate::text::str_lt(v[i].0.as_str(), key.as_str())
        invariant
            i <= v.len(),
            pair_views(v@) == ov,
            ok == pair_keys(ov),
            forall|j: int| 0 <= j < i ==> crate::text::lex_lt(#[trigger] ok[j], key@),
        decreases v.len() - i,
    {
        i = i + 1;
    }
    proof {
        assert forall|a: int, b: int| 0 <= a < b < ov.len() implies ov[a].0 != ov[b].0 by {
            assert(ok[a] == ov[a].0 && ok[b] == ov[b].0);
            assert(crate::text::lex_lt(ok[a], ok[b]));
            crate::text::lemma_lex_irreflexive(ok[a]);
        }
        lemma_pairs_map_distinct(ov);
    }
    if i < v.len() && crate::text::str_eq(v[i].0.as_str(), key.as_str()) {
        let k2 = v[i].0.clone();
        v.set(i, (k2, value));
        proof {
            let nv = pair_views(v@);
            assert(nv == ov.update(i as int, (key@, value@)));
            assert(pair_keys(nv) =~= ok);
            assert forall|a: int, b: int| 0 <= a < b < nv.len() implies nv[a].0 != nv[b].0 by {
                assert(pair_keys(nv)[a] == nv[a].0 && pair_keys(nv)[b] == nv[b].0);
                crate::text::lemma_lex_irreflexive(ok[a]);
            }
            lemma_pairs_map_distinct(nv);
            assert(pairs_map(nv) =~= pairs_map(ov).insert(key@, value@)) by {
                assert forall|k: Seq<char>| pairs_map(nv).contains_key(k) <==> pairs_map(ov).insert(key@, value@).contains_key(k) by {
                    if exists|j: int| 0 <= j < nv.len() && nv[j].0 == k {
                        let j = choose|j: int| 0 <= j < nv.len() && nv[j].0 == k;
                        assert(ov[j].0 == k);
                    }
                    if exists|j: int| 0 <= j < ov.len() && ov[j].0 == k {
                        let j = choose|j: int| 0 <= j < ov.len() && ov[j].0 == k;
                        assert(nv[j].0 == k);
                    }
                    if k == key@ {
                        assert(nv[i as int].0 == k);
                    }
                }
                assert forall|k: Seq<char>| pairs_map(nv).contains_key(k) implies pairs_map(nv)[k] == pairs_map(ov).insert(key@, value@)[k] by {
                    let j = choose|j: int| 0 <= j < nv.len() && nv[j].0 == k;
                    assert(pairs_map(nv)[nv[j].0] == nv[j].1);
                    if j != i {
                        assert(nv[j].0 != nv[i as int].0);
                        assert(nv[j] == ov[j]);
                        assert(pairs_map(ov)[ov[j].0] == ov[j].1);
                    }
                }
            }
        }
        return;
    }
    proof {
        if i < v.len() {
            crate::text::lemma_lex_total(ok[i as int], key@);
        }
    }
    v.insert(i, (key, value));
    proof {
        let nv = pair_views(v@);
        let nk = pair_keys(nv);
        assert(nv == ov.insert(i as int, (key@, value@)));
        assert(nk == ok.insert(i as int, key@));
        assert forall|a: int, b: int| 0 <= a < b < nk.len() implies crate::text::lex_lt(#[trigger] nk[a], #[trigger] nk[b]) by {
            if b < i {
            } else if a < i && b == i {
            } else if a < i && b > i {
                assert(nk[b] == ok[b - 1]);
                crate::text::lemma_lex_transitive(nk[a], key@, ok[i as int]);
                if b - 1 > i {
                    crate::text::lemma_lex_transitive(nk[a], ok[i as int], ok[b - 1]);
                }
            } else if a == i {
                assert(nk[b] == ok[b - 1]);
                if b - 1 > i {
                    crate::text::lemma_lex_transitive(key@, ok[i as int], ok[b - 1]);
                }
            } else {
                assert(nk[a] == ok[a - 1]);
                assert(nk[b] == ok[b - 1]);
            }
        }
        assert forall|a: int, b: int| 0 <= a < b < nv.len() implies nv[a].0 != nv[b].0 by {
            assert(nk[a] == nv[a].0 && nk[b] == nv[b].0);
            crate::text::lemma_lex_irreflexive(nk[a]);
        }
        lemma_pairs_map_distinct(nv);
        assert(pairs_map(nv) =~= pairs_map(ov).insert(key@, value@)) by {
            assert forall|k: Seq<char>| pairs_map(nv).contains_key(k) <==> pairs_map(ov).insert(key@, value@).contains_key(k) by {
                if exists|j: int| 0 <= j < nv.len() && nv[j].0 == k {
                    let j = choose|j: int| 0 <= j < nv.len() && nv[j].0 == k;
                    if j < i {
                        assert(ov[j].0 == k);
                    } else if j > i {
                        assert(ov[j - 1].0 == k);
                    }
                }
                if exists|j: int| 0 <= j < ov.len() && ov[j].0 == k {
                    let j = choose|j: int| 0 <= j < ov.len() && ov[j].0 == k;
                    if j < i {
                        assert(nv[j].0 == k);
                    } else {
                        assert(nv[j + 1].0 == k);
                    }
                }
                if k == key@ {
                    assert(nv[i as int].0 == k);
                }
            }
            assert forall|k: Seq<char>| pairs_map(nv).contains_key(k) implies pairs_map(nv)[k] == pairs_map(ov).insert(key@, value@)[k] by {
                let j = choose|j: int| 0 <= j < nv.len() && nv[j].0 == k;
                assert(pairs_map(nv)[nv[j].0] == nv[j].1);
                if j < i {
                    assert(nv[j] == ov[j]);
                    assert(pairs_map(ov)[ov[j].0] == ov[j].1);
                    assert(ok[j] == ov[j].0);
                    assert(crate::text::lex_lt(ok[j], key@));
                    crate::text::lemma_lex_irreflexive(key@);
                    assert(k != key@);
                } else if j > i {
                    assert(nv[j] == ov[j - 1]);
                    assert(pairs_map(ov)[ov[j - 1].0] == ov[j - 1].1);
                    assert(nv[j].0 != nv[i as int].0);
                    assert(k != key@);
                }
            }
        }
    }
}

} // verus!
