use vstd::prelude::*;
use vstd::string::*;

use crate::text::{join, join_strings, owned, push_str, str_eq};

verus! {

broadcast use vstd::string::group_string_axioms;

/// Where the games manifest is looked for first.
pub const DEFAULT_MANIFEST_PATH: &'static str = "/data/games/project/openconsole/games.json";

/// The games the console offers and how its screens group them.
#[derive(Debug, Clone)]
pub struct GameManifest {
    pub games: Vec<GameEntry>,
    pub all_games: Vec<GameReference>,
    pub top_games: Vec<GameReference>,
    pub new_games: Vec<GameReference>,
}

/// A game named by its id.
#[derive(Debug, Clone)]
pub struct GameReference {
    pub id: String,
}

/// One game: what the screens show of it and how it is launched. `env`
/// holds the variables to set, by name in increasing order, each once.
#[derive(Debug, Clone)]
pub struct GameEntry {
    pub id: String,
    pub title: String,
    pub showtitle: bool,
    pub subtitle: String,
    pub description: String,
    pub developer: String,
    pub image: String,
    pub screenshots: Vec<String>,
    pub command: String,
    pub args: Vec<String>,
    pub cwd: Option<String>,
    pub env: Vec<(String, String)>,
    pub env_remove: Vec<String>,
}

/// A title shows unless the manifest says otherwise.
pub fn default_show_title() -> (r: bool)
    ensures
        r,
{
    true
}

/// The value of variable `key` among `env`, if it is set there (the first
/// entry for it).
pub open spec fn env_lookup(env: Seq<(String, String)>, key: Seq<char>) -> Option<Seq<char>>
    decreases env.len(),
{
    if env.len() == 0 {
        None
    } else if env[0].0@ == key {
        Some(env[0].1@)
    } else {
        env_lookup(env.drop_first(), key)
    }
}

/// No variable is set twice.
pub open spec fn env_keys_unique(env: Seq<(String, String)>) -> bool {
    forall|i: int, j: int| 0 <= i < j < env.len() ==> (#[trigger] env[i]).0@ != (#[trigger] env[j]).0@
}

/// The value of variable `key` in a game's environment.
pub fn env_get(env: &Vec<(String, String)>, key: &str) -> (r: Option<String>)
    ensures
        match r {
            Some(v) => env_lookup(env@, key@) == Some(v@),
            None => env_lookup(env@, key@) is None,
        },
{
    let mut i: usize = 0;
    assert(env@.skip(0) =~= env@);
    while i < env.len()
        invariant
            i <= env.len(),
            env_lookup(env@, key@) == env_lookup(env@.skip(i as int), key@),
        decreases env.len() - i,
    {
        proof {
            assert(env@.skip(i as int).drop_first() =~= env@.skip(i + 1));
            assert(env@.skip(i as int)[0] == env@[i as int]);
        }
        if str_eq(env[i].0.as_str(), key) {
            return Some(owned(env[i].1.as_str()));
        }
        i = i + 1;
    }
    None
}

/// The first game with id `id`.
pub open spec fn first_with_id(games: Seq<GameEntry>, id: Seq<char>) -> Option<int> {
    if exists|i: int| 0 <= i < games.len() && (#[trigger] games[i]).id@ == id {
        Some(choose|i: int| 0 <= i < games.len() && (#[trigger] games[i]).id@ == id && forall|j: int| 0 <= j < i ==> (#[trigger] games[j]).id@ != id)
    } else {
        None
    }
}

/// Where `id` is first among `games`.
pub fn position_of_id(games: &Vec<GameEntry>, id: &str) -> (r: Option<usize>)
    ensures
        match r {
            Some(i) => first_with_id(games@, id@) == Some(i as int) && i < games@.len(),
            None => first_with_id(games@, id@) is None,
        },
{
    let mut i: usize = 0;
    while i < games.len()
        invariant
            i <= games.len(),
            forall|k: int| 0 <= k < i ==> (#[trigger] games@[k]).id@ != id@,
        decreases games.len() - i,
    {
        if str_eq(games[i].id.as_str(), id) {
            proof {
                assert(games@[i as int].id@ == id@);
                let c = choose|c: int| 0 <= c < games@.len() && (#[trigger] games@[c]).id@ == id@ && forall|j: int| 0 <= j < c ==> (#[trigger] games@[j]).id@ != id@;
                if c < i {
                    assert(games@[c].id@ != id@);
                } else if c > i {
                    assert(games@[i as int].id@ != id@);
                }
            }
            return Some(i);
        }
        i = i + 1;
    }
    None
}

impl GameManifest {
    /// The game at `index` of the catalog.
    pub fn game_by_index(&self, index: usize) -> (r: Option<&GameEntry>)
        ensures
            match r {
                Some(g) => index < self.games@.len() && *g == self.games@[index as int],
                None => index >= self.games@.len(),
            },
    {
        if index < self.games.len() {
            Some(&self.games[index])
        } else {
            None
        }
    }

    /// The first game of the catalog with id `id`.
    pub fn game_by_id(&self, id: &str) -> (r: Option<&GameEntry>)
        ensures
            match r {
                Some(g) => first_with_id(self.games@, id@) matches Some(i) && *g == self.games@[i],
                None => first_with_id(self.games@, id@) is None,
            },
    {
        match position_of_id(&self.games, id) {
            Some(i) => Some(&self.games[i]),
            None => None,
        }
    }
}

/// Which candidate manifest to load: the first that is a file; otherwise
/// the error that lists every place that was checked.
pub fn choose_manifest_path(candidates: &Vec<String>, is_file: &Vec<bool>) -> (r: Result<usize, String>)
    requires
        candidates.len() == is_file.len(),
    ensures
        match r {
            Ok(i) => i < is_file@.len() && is_file@[i as int] && forall|j: int| 0 <= j < i ==> !#[trigger] is_file@[j],
            Err(e) => (forall|j: int| 0 <= j < is_file@.len() ==> !#[trigger] is_file@[j])
                && e@ == "no games manifest found; checked: "@ + join(candidates@.map_values(|c: String| c@), ", "@),
        },
{
    let mut i: usize = 0;
    while i < candidates.len()
        invariant
            i <= candidates.len(),
            candidates.len() == is_file.len(),
            forall|j: int| 0 <= j < i ==> !#[trigger] is_file@[j],
        decreases candidates.len() - i,
    {
        if is_file[i] {
            return Ok(i);
        }
        i = i + 1;
    }
    let mut e = owned("no games manifest found; checked: ");
    push_str(&mut e, join_strings(candidates, ", ").as_str());
    Err(e)
}

/// The ids of the games row "all games": the manifest's list, or every game
/// of the catalog when the list is empty.
pub open spec fn all_games_ids(m: GameManifest) -> Seq<Seq<char>> {
    if m.all_games@.len() == 0 {
        m.games@.map_values(|g: GameEntry| g.id@)
    } else {
        m.all_games@.map_values(|r: GameReference| r.id@)
    }
}

/// The references of the games row "all games".
pub fn all_game_references(m: &GameManifest) -> (r: Vec<GameReference>)
    ensures
        r@.map_values(|x: GameReference| x.id@) == all_games_ids(*m),
{
    let mut r: Vec<GameReference> = Vec::new();
    if m.all_games.len() == 0 {
        let mut i: usize = 0;
        while i < m.games.len()
            invariant
                i <= m.games@.len(),
                r@.map_values(|x: GameReference| x.id@) == m.games@.map_values(|g: GameEntry| g.id@).take(i as int),
            decreases m.games.len() - i,
        {
            let ghost before = r@.map_values(|x: GameReference| x.id@);
            let ghost want = m.games@.map_values(|g: GameEntry| g.id@);
            r.push(GameReference { id: owned(m.games[i].id.as_str()) });
            proof {
                assert(r@.map_values(|x: GameReference| x.id@) =~= before.push(want[i as int]));
                assert(want.take(i + 1) =~= want.take(i as int).push(want[i as int]));
            }
            i = i + 1;
        }
        proof {
            assert(m.games@.map_values(|g: GameEntry| g.id@).take(m.games@.len() as int) =~= m.games@.map_values(|g: GameEntry| g.id@));
        }
    } else {
        let mut i: usize = 0;
        while i < m.all_games.len()
            invariant
                i <= m.all_games@.len(),
                r@.map_values(|x: GameReference| x.id@) == m.all_games@.map_values(|g: GameReference| g.id@).take(i as int),
            decreases m.all_games.len() - i,
        {
            let ghost before = r@.map_values(|x: GameReference| x.id@);
            let ghost want = m.all_games@.map_values(|g: GameReference| g.id@);
            r.push(GameReference { id: owned(m.all_games[i].id.as_str()) });
            proof {
                assert(r@.map_values(|x: GameReference| x.id@) =~= before.push(want[i as int]));
                assert(want.take(i + 1) =~= want.take(i as int).push(want[i as int]));
            }
            i = i + 1;
        }
        proof {
            assert(m.all_games@.map_values(|g: GameReference| g.id@).take(m.all_games@.len() as int) =~= m.all_games@.map_values(|g: GameReference| g.id@));
        }
    }
    r
}

/// The catalog indices of the referenced games that the catalog has, in
/// the order referenced (a reference to an unknown id is left out).
pub open spec fn section_indices(games: Seq<GameEntry>, refs: Seq<Seq<char>>) -> Seq<int>
    decreases refs.len(),
{
    if refs.len() == 0 {
        seq![]
    } else {
        let rest = section_indices(games, refs.drop_last());
        match first_with_id(games, refs.last()) {
            Some(i) => rest.push(i),
            None => rest,
        }
    }
}

/// The catalog indices of a row of referenced games.
pub fn resolve_game_section(games: &Vec<GameEntry>, refs: &Vec<GameReference>) -> (r: Vec<usize>)
    ensures
        r@.map_values(|i: usize| i as int) == section_indices(games@, refs@.map_values(|x: GameReference| x.id@)),
{
    let ghost rv = refs@.map_values(|x: GameReference| x.id@);
    let mut r: Vec<usize> = Vec::new();
    let mut k: usize = 0;
    while k < refs.len()
        invariant
            k <= refs@.len(),
            rv == refs@.map_values(|x: GameReference| x.id@),
            r@.map_values(|i: usize| i as int) == section_indices(games@, rv.take(k as int)),
        decreases refs.len() - k,
    {
        proof {
            assert(rv.take(k + 1).drop_last() == rv.take(k as int));
            assert(rv.take(k + 1).last() == refs@[k as int].id@);
        }
        match position_of_id(games, refs[k].id.as_str()) {
            Some(i) => {
                let ghost before = r@.map_values(|i: usize| i as int);
                r.push(i);
                proof {
                    assert(r@.map_values(|i: usize| i as int) =~= before.push(i as int));
                }
            },
            None => {},
        }
        k = k + 1;
    }
    proof {
        assert(rv.take(refs@.len() as int) == rv);
    }
    r
}

fn copy_strings(v: &Vec<String>) -> (r: Vec<String>)
    ensures
        r@ == v@,
{
    let mut r: Vec<String> = Vec::new();
    let mut i: usize = 0;
    while i < v.len()
        invariant
            i <= v@.len(),
            r@ == v@.take(i as int),
        decreases v.len() - i,
    {
        r.push(v[i].clone());
        proof {
            assert(r@ =~= v@.take(i + 1));
        }
        i = i + 1;
    }
    proof {
        assert(v@.take(v@.len() as int) =~= v@);
    }
    r
}

fn copy_pairs(v: &Vec<(String, String)>) -> (r: Vec<(String, String)>)
    ensures
        r@ == v@,
{
    let mut r: Vec<(String, String)> = Vec::new();
    let mut i: usize = 0;
    while i < v.len()
        invariant
            i <= v@.len(),
            r@ == v@.take(i as int),
        decreases v.len() - i,
    {
        r.push((v[i].0.clone(), v[i].1.clone()));
        proof {
            assert(r@ =~= v@.take(i + 1));
        }
        i = i + 1;
    }
    proof {
        assert(v@.take(v@.len() as int) =~= v@);
    }
    r
}

/// Two game records hold the same values.
pub open spec fn same_game(a: GameEntry, b: GameEntry) -> bool {
    &&& a.id@ == b.id@
    &&& a.title@ == b.title@
    &&& a.showtitle == b.showtitle
    &&& a.subtitle@ == b.subtitle@
    &&& a.description@ == b.description@
    &&& a.developer@ == b.developer@
    &&& a.image@ == b.image@
    &&& a.screenshots@ == b.screenshots@
    &&& a.command@ == b.command@
    &&& a.args@ == b.args@
    &&& a.cwd == b.cwd
    &&& a.env@ == b.env@
    &&& a.env_remove@ == b.env_remove@
}

/// A field-by-field copy of a game.
pub fn copy_game_entry(g: &GameEntry) -> (r: GameEntry)
    ensures
        same_game(r, *g),
{
    GameEntry {
        id: g.id.clone(),
        title: g.title.clone(),
        showtitle: g.showtitle,
        subtitle: g.subtitle.clone(),
        description: g.description.clone(),
        developer: g.developer.clone(),
        image: g.image.clone(),
        screenshots: copy_strings(&g.screenshots),
        command: g.command.clone(),
        args: copy_strings(&g.args),
        cwd: match &g.cwd {
            Some(c) => Some(c.clone()),
            None => None,
        },
        env: copy_pairs(&g.env),
        env_remove: copy_strings(&g.env_remove),
    }
}

/// Where the games manifest is looked for, in order: the file the
/// environment names, the default place, then `games.json` beside the
/// executable and in the working directory (when those are known).
pub open spec fn candidate_paths_spec(configured: Option<Seq<char>>, exe_dir: Option<Seq<char>>, cwd: Option<Seq<char>>) -> Seq<Seq<char>> {
    (match configured { Some(p) => seq![p], None => seq![] })
        + seq![DEFAULT_MANIFEST_PATH@]
        + (match exe_dir { Some(d) => seq![crate::ipc::join_path(d, "games.json"@)], None => seq![] })
        + (match cwd { Some(d) => seq![crate::ipc::join_path(d, "games.json"@)], None => seq![] })
}

/// Where the games manifest is looked for.
pub fn candidate_manifest_paths(configured: Option<&str>, exe_dir: Option<&str>, cwd: Option<&str>) -> (r: Vec<String>)
    ensures
        r@.map_values(|p: String| p@) == candidate_paths_spec(
            match configured { Some(p) => Some(p@), None => None },
            match exe_dir { Some(d) => Some(d@), None => None },
            match cwd { Some(d) => Some(d@), None => None },
        ),
{
    let mut r: Vec<String> = Vec::new();
    if let Some(p) = configured {
        r.push(owned(p));
    }
    r.push(owned(DEFAULT_MANIFEST_PATH));
    if let Some(d) = exe_dir {
        r.push(crate::ipc::join_path_exec(d, "games.json"));
    }
    if let Some(d) = cwd {
        r.push(crate::ipc::join_path_exec(d, "games.json"));
    }
    proof {
        assert(r@.map_values(|p: String| p@) =~= candidate_paths_spec(
            match configured { Some(p) => Some(p@), None => None },
            match exe_dir { Some(d) => Some(d@), None => None },
            match cwd { Some(d) => Some(d@), None => None },
        ));
    }
    r
}

} // verus!
