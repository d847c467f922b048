use vstd::prelude::*;
use vstd::string::*;

use crate::manifest::{env_keys_unique, GameEntry, GameManifest, GameReference};
use crate::text::{owned, push_str};

verus! {

broadcast use vstd::string::group_string_axioms;

/// The script that starts a game under the Wayland compositor.
pub const GAME_LAUNCHER: &'static str = "/data/games/project/openconsole/run-game-as-weston.sh";

/// The working directory of the built-in games.
pub const GAME_WORKING_DIR: &'static str = "/data/games/project/openconsole";

/// The texts of a list of strings.
pub open spec fn texts(v: Seq<String>) -> Seq<Seq<char>> {
    v.map_values(|s: String| s@)
}

/// The ids of a list of game references.
pub open spec fn reference_ids(v: Seq<GameReference>) -> Seq<Seq<char>> {
    v.map_values(|r: GameReference| r.id@)
}

/// The arguments every built-in game starts with.
pub open spec fn launch_args() -> Seq<Seq<char>> {
    seq![
        "--display-driver"@,
        "wayland"@,
        "--rendering-driver"@,
        "opengl3"@,
        "--fullscreen"@,
        "--disable-vsync"@,
        "--max-fps"@,
        "60"@,
    ]
}

/// The environment of a built-in game, by variable name in increasing
/// order: its executable, the Wayland display and the runtime directory.
pub open spec fn game_env(bin: Seq<char>) -> Seq<(Seq<char>, Seq<char>)> {
    seq![("OPENCONSOLE_GAME_BIN"@, bin), ("WAYLAND_DISPLAY"@, "wayland-0"@), ("XDG_RUNTIME_DIR"@, "/run"@)]
}

/// The view of an environment.
pub open spec fn env_view(env: Seq<(String, String)>) -> Seq<(Seq<char>, Seq<char>)> {
    env.map_values(|p: (String, String)| (p.0@, p.1@))
}

/// The asset folder of a built-in game.
pub open spec fn asset_dir(folder: Seq<char>) -> Seq<char> {
    "assets/games/"@ + folder
}

/// The four screenshots of a built-in game.
pub open spec fn screenshot_paths(folder: Seq<char>) -> Seq<Seq<char>> {
    seq![
        asset_dir(folder) + "/screenshots/1.jpg"@,
        asset_dir(folder) + "/screenshots/2.jpg"@,
        asset_dir(folder) + "/screenshots/3.jpg"@,
        asset_dir(folder) + "/screenshots/4.jpg"@,
    ]
}

/// `g` is the built-in game with these texts, whose assets are in `folder`
/// and whose executable is `bin`: no title over its cover, made by
/// PlayRoot, started by the launcher script in the games directory without
/// the desktop's display variables.
pub open spec fn is_placeholder_game(
    g: GameEntry,
    id: Seq<char>,
    title: Seq<char>,
    subtitle: Seq<char>,
    description: Seq<char>,
    folder: Seq<char>,
    bin: Seq<char>,
) -> bool {
    &&& g.id@ == id
    &&& g.title@ == title
    &&& !g.showtitle
    &&& g.subtitle@ == subtitle
    &&& g.description@ == description
    &&& g.developer@ == "PlayRoot"@
    &&& g.image@ == asset_dir(folder) + "/game.jpg"@
    &&& texts(g.screenshots@) == screenshot_paths(folder)
    &&& g.command@ == GAME_LAUNCHER@
    &&& texts(g.args@) == launch_args()
    &&& (g.cwd matches Some(c) && c@ == GAME_WORKING_DIR@)
    &&& env_view(g.env@) == game_env(bin)
    &&& env_keys_unique(g.env@)
    &&& texts(g.env_remove@) == seq!["DISPLAY"@, "DRI_PRIME"@, "SLINT_BACKEND"@]
}

fn texts_of(parts: &[&str]) -> (r: Vec<String>)
    ensures
        texts(r@) == parts@.map_values(|s: &str| s@),
{
    let mut r: Vec<String> = Vec::new();
    let mut i: usize = 0;
    while i < parts.len()
        invariant
            i <= parts.len(),
            texts(r@) == parts@.map_values(|s: &str| s@).take(i as int),
        decreases parts.len() - i,
    {
        let ghost before = r@;
        r.push(owned(parts[i]));
        proof {
            assert(texts(r@) =~= texts(before).push(parts@[i as int]@));
            assert(parts@.map_values(|s: &str| s@).take(i + 1) =~= parts@.map_values(|s: &str| s@).take(i as int).push(
                parts@[i as int]@,
            ));
        }
        i = i + 1;
    }
    assert(parts@.map_values(|s: &str| s@).take(parts@.len() as int) =~= parts@.map_values(|s: &str| s@));
    r
}

fn asset_path(folder: &str, rest: &str) -> (r: String)
    ensures
        r@ == asset_dir(folder@) + rest@,
{
    let mut p = owned("assets/games/");
    push_str(&mut p, folder);
    push_str(&mut p, rest);
    p
}

/// A built-in game.
fn placeholder_game(id: &str, title: &str, subtitle: &str, description: &str, folder: &str, bin: &str) -> (g: GameEntry)
    ensures
        is_placeholder_game(g, id@, title@, subtitle@, description@, folder@, bin@),
{
    let screenshots = vec![
        asset_path(folder, "/screenshots/1.jpg"),
        asset_path(folder, "/screenshots/2.jpg"),
        asset_path(folder, "/screenshots/3.jpg"),
        asset_path(folder, "/screenshots/4.jpg"),
    ];
    let env = vec![
        (owned("OPENCONSOLE_GAME_BIN"), owned(bin)),
        (owned("WAYLAND_DISPLAY"), owned("wayland-0")),
        (owned("XDG_RUNTIME_DIR"), owned("/run")),
    ];
    let args = texts_of(
        &["--display-driver", "wayland", "--rendering-driver", "opengl3", "--fullscreen", "--disable-vsync", "--max-fps", "60"],
    );
    let env_remove = texts_of(&["DISPLAY", "DRI_PRIME", "SLINT_BACKEND"]);
    let g = GameEntry {
        id: owned(id),
        title: owned(title),
        showtitle: false,
        subtitle: owned(subtitle),
        description: owned(description),
        developer: owned("PlayRoot"),
        image: asset_path(folder, "/game.jpg"),
        screenshots,
        command: owned(GAME_LAUNCHER),
        args,
        cwd: Some(owned(GAME_WORKING_DIR)),
        env,
        env_remove,
    };
    proof {
        reveal_strlit("OPENCONSOLE_GAME_BIN");
        reveal_strlit("WAYLAND_DISPLAY");
        reveal_strlit("XDG_RUNTIME_DIR");
        assert(texts(g.screenshots@) =~= screenshot_paths(folder@));
        assert(env_view(g.env@) =~= game_env(bin@));
        assert("OPENCONSOLE_GAME_BIN"@[0] != "WAYLAND_DISPLAY"@[0]);
        assert("OPENCONSOLE_GAME_BIN"@[0] != "XDG_RUNTIME_DIR"@[0]);
        assert("WAYLAND_DISPLAY"@[0] != "XDG_RUNTIME_DIR"@[0]);
        assert(texts(g.args@) =~= launch_args());
        assert(texts(g.env_remove@) =~= seq!["DISPLAY"@, "DRI_PRIME"@, "SLINT_BACKEND"@]);
    }
    g
}

fn references_of(ids: &[&str]) -> (r: Vec<GameReference>)
    ensures
        reference_ids(r@) == ids@.map_values(|s: &str| s@),
{
    let mut r: Vec<GameReference> = Vec::new();
    let mut i: usize = 0;
    while i < ids.len()
        invariant
            i <= ids.len(),
            reference_ids(r@) == ids@.map_values(|s: &str| s@).take(i as int),
        decreases ids.len() - i,
    {
        let ghost before = r@;
        r.push(GameReference { id: owned(ids[i]) });
        proof {
            assert(reference_ids(r@) =~= reference_ids(before).push(ids@[i as int]@));
            assert(ids@.map_values(|s: &str| s@).take(i + 1) =~= ids@.map_values(|s: &str| s@).take(i as int).push(
                ids@[i as int]@,
            ));
        }
        i = i + 1;
    }
    assert(ids@.map_values(|s: &str| s@).take(ids@.len() as int) =~= ids@.map_values(|s: &str| s@));
    r
}

/// The four built-in games and their rows, which the UI shows in a
/// development build or when no games manifest can be read.
pub fn placeholder_manifest() -> (m: GameManifest)
    ensures
        m.games@.len() == 4,
        is_placeholder_game(
            m.games@[0],
            "pirate-puzzle"@,
            "Pirate"@,
            "Puzzle | Installed"@,
            "Embark on a thrilling pirate adventure, solving puzzles and uncovering hidden treasures."@,
            "2"@,
            "pirate.arm64"@,
        ),
        is_placeholder_game(
            m.games@[1],
            "pizza-delivery"@,
            "Pizza Delivery"@,
            "Strategy | Installed"@,
            "Deliver pizzas efficiently while managing obstacles and time constraints."@,
            "3"@,
            "pizzadelivery.arm64"@,
        ),
        is_placeholder_game(
            m.games@[2],
            "soko-bloom"@,
            "Soko Bloom"@,
            "Puzzle | Installed"@,
            "Solve challenging puzzles in a vibrant and colorful world."@,
            "4"@,
            "puzzle.arm64"@,
        ),
        is_placeholder_game(
            m.games@[3],
            "hogbound"@,
            "Hogbound"@,
            "Platformer | Installed"@,
            "Navigate through tricky platforming levels and overcome various challenges."@,
            "1"@,
            "platform.arm64"@,
        ),
        reference_ids(m.all_games@) == seq![
            "soko-bloom"@,
            "hogbound"@,
            "pirate-puzzle"@,
            "pizza-delivery"@,
            "soko-bloom"@,
            "hogbound"@,
            "pirate-puzzle"@,
        ],
        reference_ids(m.top_games@) == seq!["pirate-puzzle"@, "soko-bloom"@, "hogbound"@],
        reference_ids(m.new_games@) == seq![
            "pizza-delivery"@,
            "soko-bloom"@,
            "hogbound"@,
            "pirate-puzzle"@,
            "pizza-delivery"@,
            "soko-bloom"@,
            "hogbound"@,
            "pirate-puzzle"@,
        ],
{
    let pirate = placeholder_game(
        "pirate-puzzle",
        "Pirate",
        "Puzzle | Installed",
        "Embark on a thrilling pirate adventure, solving puzzles and uncovering hidden treasures.",
        "2",
        "pirate.arm64",
    );
    let pizza = placeholder_game(
        "pizza-delivery",
        "Pizza Delivery",
        "Strategy | Installed",
        "Deliver pizzas efficiently while managing obstacles and time constraints.",
        "3",
        "pizzadelivery.arm64",
    );
    let soko = placeholder_game(
        "soko-bloom",
        "Soko Bloom",
        "Puzzle | Installed",
        "Solve challenging puzzles in a vibrant and colorful world.",
        "4",
        "puzzle.arm64",
    );
    let hog = placeholder_game(
        "hogbound",
        "Hogbound",
        "Platformer | Installed",
        "Navigate through tricky platforming levels and overcome various challenges.",
        "1",
        "platform.arm64",
    );
    let all_games = references_of(
        &["soko-bloom", "hogbound", "pirate-puzzle", "pizza-delivery", "soko-bloom", "hogbound", "pirate-puzzle"],
    );
    let top_games = references_of(&["pirate-puzzle", "soko-bloom", "hogbound"]);
    let new_games = references_of(
        &[
            "pizza-delivery",
            "soko-bloom",
            "hogbound",
            "pirate-puzzle",
            "pizza-delivery",
            "soko-bloom",
            "hogbound",
            "pirate-puzzle",
        ],
    );
    let m = GameManifest { games: vec![pirate, pizza, soko, hog], all_games, top_games, new_games };
    proof {
        assert(reference_ids(m.all_games@) =~= seq![
            "soko-bloom"@,
            "hogbound"@,
            "pirate-puzzle"@,
            "pizza-delivery"@,
            "soko-bloom"@,
            "hogbound"@,
            "pirate-puzzle"@,
        ]);
        assert(reference_ids(m.top_games@) =~= seq!["pirate-puzzle"@, "soko-bloom"@, "hogbound"@]);
        assert(reference_ids(m.new_games@) =~= seq![
            "pizza-delivery"@,
            "soko-bloom"@,
            "hogbound"@,
            "pirate-puzzle"@,
            "pizza-delivery"@,
            "soko-bloom"@,
            "hogbound"@,
            "pirate-puzzle"@,
        ]);
    }
    m
}

} // verus!
