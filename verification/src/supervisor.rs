use vstd::prelude::*;
use vstd::string::*;

use crate::ipc::{SupervisorRequest, SupervisorResponse};
use crate::manifest::{copy_game_entry, same_game, env_get, env_lookup, GameEntry, GameManifest};
use crate::text::{digits_value, lemma_digits_value_grows, all_digits, split_on, split_on_char, string_of, ascii_lower, chars_eq, chars_of, decimal, index_of_char, lower_chars, owned, push_decimal, push_str, str_eq};

verus! {

broadcast use vstd::string::group_string_axioms;

/// Where the games live; a game's own executable is looked for there.
pub const GAME_ROOT_DIR: &'static str = "/data/games/project";

/// `a` and `b` are equal ignoring ASCII case.
pub open spec fn eq_ignore_ascii_case(a: Seq<char>, b: Seq<char>) -> bool {
    ascii_lower(a) == ascii_lower(b)
}

fn eq_ignore_ascii_case_exec(a: &str, b: &str) -> (r: bool)
    ensures
        r == eq_ignore_ascii_case(a@, b@),
{
    chars_eq(&lower_chars(&chars_of(a)), &lower_chars(&chars_of(b)))
}

/// The launch arguments without a `--audio-driver dummy` pair (in any ASCII
/// case), which would mute the game; everything else is kept in order.
pub open spec fn sanitized_args(args: Seq<Seq<char>>) -> Seq<Seq<char>>
    decreases args.len(),
{
    if args.len() == 0 {
        seq![]
    } else if args[0] == "--audio-driver"@ && args.len() >= 2 {
        if eq_ignore_ascii_case(args[1], "dummy"@) {
            sanitized_args(args.skip(2))
        } else {
            seq![args[0], args[1]] + sanitized_args(args.skip(2))
        }
    } else {
        seq![args[0]] + sanitized_args(args.skip(1))
    }
}

/// The launch arguments without a dummy audio driver.
pub fn sanitize_game_args(args: &Vec<String>) -> (r: Vec<String>)
    ensures
        r@.map_values(|a: String| a@) == sanitized_args(args@.map_values(|a: String| a@)),
{
    let ghost av = args@.map_values(|a: String| a@);
    let mut r: Vec<String> = Vec::new();
    let mut index: usize = 0;
    proof {
        assert(av.skip(0) == av);
    }
    while index < args.len()
        invariant
            index <= args.len(),
            av == args@.map_values(|a: String| a@),
            r@.map_values(|a: String| a@) + sanitized_args(av.skip(index as int)) == sanitized_args(av),
        decreases args.len() - index,
    {
        let ghost rest = av.skip(index as int);
        let ghost before = r@.map_values(|a: String| a@);
        assert(rest[0] == args@[index as int]@);
        if str_eq(args[index].as_str(), "--audio-driver") && index + 1 < args.len() {
            assert(rest[1] == args@[index + 1]@);
            assert(rest.skip(2) == av.skip(index + 2));
            if eq_ignore_ascii_case_exec(args[index + 1].as_str(), "dummy") {
                index = index + 2;
                continue;
            }
            r.push(owned(args[index].as_str()));
            r.push(owned(args[index + 1].as_str()));
            proof {
                assert(r@.map_values(|a: String| a@) =~= before + seq![rest[0], rest[1]]);
            }
            index = index + 2;
            continue;
        }
        proof {
            assert(rest.skip(1) == av.skip(index + 1));
        }
        r.push(owned(args[index].as_str()));
        proof {
            assert(r@.map_values(|a: String| a@) =~= before + seq![rest[0]]);
        }
        index = index + 1;
    }
    proof {
        assert(av.skip(index as int) =~= Seq::<Seq<char>>::empty());
        assert(r@.map_values(|a: String| a@) + Seq::<Seq<char>>::empty() == r@.map_values(|a: String| a@));
    }
    r
}

/// The executable a game really runs as, when its launcher names it with
/// `OPENCONSOLE_GAME_BIN`: a plain file name inside the games directory.
pub open spec fn expected_executable_spec(env: Seq<(String, String)>) -> Option<Seq<char>> {
    match env_lookup(env, "OPENCONSOLE_GAME_BIN"@) {
        Some(bin) => if bin.len() == 0 || index_of_char(bin, '/') < bin.len() {
            None
        } else {
            Some(GAME_ROOT_DIR@ + "/"@ + bin)
        },
        None => None,
    }
}

/// The executable a game really runs as, if its manifest names one.
pub fn expected_game_executable(game: &GameEntry) -> (r: Option<String>)
    ensures
        match r {
            Some(p) => expected_executable_spec(game.env@) == Some(p@),
            None => expected_executable_spec(game.env@) is None,
        },
{
    let bin = match env_get(&game.env, "OPENCONSOLE_GAME_BIN") {
        Some(b) => b,
        None => {
            return None;
        },
    };
    let bc = chars_of(bin.as_str());
    if bc.len() == 0 || crate::text::index_of(&bc, '/') < bc.len() {
        return None;
    }
    let mut p = owned(GAME_ROOT_DIR);
    push_str(&mut p, "/");
    push_str(&mut p, bin.as_str());
    Some(p)
}

/// What a variable is for a game, as the launch log shows it: unset when
/// the game removes it, its value when the game sets it, else the
/// supervisor's own value (or unset).
pub open spec fn env_override_spec(game: GameEntry, key: Seq<char>, inherited: Option<Seq<char>>) -> Seq<char> {
    if exists|i: int| 0 <= i < game.env_remove@.len() && (#[trigger] game.env_remove@[i])@ == key {
        "<unset>"@
    } else {
        match env_lookup(game.env@, key) {
            Some(v) => v,
            None => match inherited {
                Some(v) => v,
                None => "<unset>"@,
            },
        }
    }
}

/// What a variable is for a game, given the supervisor's own value.
pub fn display_env_override(game: &GameEntry, key: &str, inherited: Option<&str>) -> (r: String)
    ensures
        r@ == env_override_spec(*game, key@, match inherited { Some(v) => Some(v@), None => None }),
{
    let mut i: usize = 0;
    while i < game.env_remove.len()
        invariant
            i <= game.env_remove@.len(),
            forall|k: int| 0 <= k < i ==> (#[trigger] game.env_remove@[k])@ != key@,
        decreases game.env_remove.len() - i,
    {
        if str_eq(game.env_remove[i].as_str(), key) {
            assert(game.env_remove@[i as int]@ == key@);
            return owned("<unset>");
        }
        i = i + 1;
    }
    match env_get(&game.env, key) {
        Some(v) => v,
        None => match inherited {
            Some(v) => owned(v),
            None => owned("<unset>"),
        },
    }
}

/// The game a launch request names, from the manifest that was loaded.
pub fn resolve_requested_game(manifest: Result<GameManifest, String>, game_index: usize) -> (r: Result<GameEntry, String>)
    ensures
        match manifest {
            Err(e) => r == Err::<GameEntry, String>(e),
            Ok(m) => if game_index < m.games@.len() {
                r matches Ok(g) && same_game(g, m.games@[game_index as int])
            } else {
                r matches Err(e) && e@ == "game index "@ + decimal(game_index as nat) + " not found in manifest"@
            },
        },
{
    match manifest {
        Err(e) => Err(e),
        Ok(m) => match m.game_by_index(game_index) {
            Some(g) => Ok(copy_game_entry(g)),
            None => {
                let mut e = owned("game index ");
                push_decimal(&mut e, game_index as u64);
                push_str(&mut e, " not found in manifest");
                Err(e)
            },
        },
    }
}

/// What the supervisor does with a request while the UI runs.
#[derive(Debug, Clone)]
pub enum SupervisorStep {
    /// Look the game up in the manifest, then answer with `launch_outcome`.
    ResolveLaunch(usize),
    /// Start the runtime mapper (when `start`), stop it (when `stop`), and
    /// answer.
    Reply { start_mapper: bool, stop_mapper: bool, response: SupervisorResponse },
    /// Ask the system to reboot, then answer with `reboot_outcome`.
    Reboot,
}

/// What the supervisor does with a request, given whether the runtime
/// mapper of the UI runs: launches are resolved, captures are refused (the
/// UI captures for itself), the mapper is started (unless it runs) or
/// stopped as asked, and reboots are carried out.
pub fn decide_request(request: &SupervisorRequest, mapper_running: bool) -> (r: SupervisorStep)
    ensures
        match *request {
            SupervisorRequest::Launch { game_index } => r == SupervisorStep::ResolveLaunch(game_index),
            SupervisorRequest::CaptureControllerInput { .. } => r matches SupervisorStep::Reply { start_mapper, stop_mapper, response }
                && !start_mapper && !stop_mapper && !response.ok
                && response.message@ == "controller capture is handled by the UI runtime"@ && response.captured_input is None,
            SupervisorRequest::SetRuntimeMapperEnabled { enabled } => r matches SupervisorStep::Reply { start_mapper, stop_mapper, response }
                && start_mapper == (enabled && !mapper_running) && stop_mapper == !enabled && response.ok
                && response.message@ == (if enabled { "runtime mapper enabled"@ } else { "runtime mapper disabled"@ })
                && response.captured_input is None,
            SupervisorRequest::Reboot => r == SupervisorStep::Reboot,
        },
{
    match request {
        SupervisorRequest::Launch { game_index } => SupervisorStep::ResolveLaunch(*game_index),
        SupervisorRequest::CaptureControllerInput { .. } => SupervisorStep::Reply {
            start_mapper: false,
            stop_mapper: false,
            response: SupervisorResponse::err("controller capture is handled by the UI runtime"),
        },
        SupervisorRequest::SetRuntimeMapperEnabled { enabled } => SupervisorStep::Reply {
            start_mapper: *enabled && !mapper_running,
            stop_mapper: !*enabled,
            response: SupervisorResponse::ok(if *enabled { "runtime mapper enabled" } else { "runtime mapper disabled" }),
        },
        SupervisorRequest::Reboot => SupervisorStep::Reboot,
    }
}

/// The answer to a launch request once the game was looked up: the game to
/// run and an acceptance, or the lookup's error.
pub fn launch_outcome(resolved: Result<GameEntry, String>) -> (r: (Option<GameEntry>, SupervisorResponse))
    ensures
        match resolved {
            Ok(g) => r.0 == Some(g) && r.1.ok && r.1.message@ == "launch accepted"@ && r.1.captured_input is None,
            Err(e) => r.0 is None && !r.1.ok && r.1.message@ == e@ && r.1.captured_input is None,
        },
{
    match resolved {
        Ok(g) => (Some(g), SupervisorResponse::ok("launch accepted")),
        Err(e) => {
            let resp = SupervisorResponse::err(e.as_str());
            (None, resp)
        },
    }
}

/// The answer to a reboot request once the reboot was asked for, and
/// whether the supervisor then exits.
pub fn reboot_outcome(result: Result<(), String>) -> (r: (bool, SupervisorResponse))
    ensures
        match result {
            Ok(()) => r.0 && r.1.ok && r.1.message@ == "reboot accepted"@,
            Err(e) => !r.0 && !r.1.ok && r.1.message@ == "failed to request reboot: "@ + e@,
        },
        r.1.captured_input is None,
{
    match result {
        Ok(()) => (true, SupervisorResponse::ok("reboot accepted")),
        Err(e) => {
            let mut m = owned("failed to request reboot: ");
            push_str(&mut m, e.as_str());
            (false, SupervisorResponse::err(m.as_str()))
        },
    }
}

/// What the supervisor knows while a game runs.
#[derive(Debug, Clone, Copy, PartialEq, Eq)]
pub struct GameMonitorState {
    pub wrapper_exited: bool,
    pub waiting_logged: bool,
    pub hotkey_triggered: bool,
}

/// What polling the game's launcher process gave.
#[derive(Debug, Clone, Copy, PartialEq, Eq)]
pub enum WrapperPoll {
    Running,
    Exited,
    Failed,
}

/// What to do after one look at a running game.
#[derive(Debug, Clone)]
pub struct GameMonitorActions {
    /// The launcher was seen to exit just now.
    pub log_wrapper_exit: bool,
    /// Stop watching: the game is over, or the launcher could not be polled.
    pub stop: bool,
    /// The launcher is gone but the game still runs (said once).
    pub log_waiting: bool,
    /// Kill the launcher (the hotkey was pressed while it runs).
    pub kill_wrapper: bool,
    /// Ask these game processes to terminate.
    pub signal_pids: Vec<u32>,
}

/// One look at a running game: `poll` is what polling the launcher gave
/// (ignored once it has exited), `running` the processes of the game's
/// executable, `hotkey` whether the failsafe hotkey fired.
pub fn game_monitor_step(state: &mut GameMonitorState, poll: WrapperPoll, running: &Vec<u32>, hotkey: bool) -> (a: GameMonitorActions)
    ensures
        ({
            let o = *old(state);
            let exited_now = !o.wrapper_exited && poll == WrapperPoll::Exited;
            let failed = !o.wrapper_exited && poll == WrapperPoll::Failed;
            let exited = o.wrapper_exited || exited_now;
            &&& a.log_wrapper_exit == exited_now
            &&& final(state).wrapper_exited == exited
            &&& if failed {
                a.stop && !a.log_waiting && !a.kill_wrapper && a.signal_pids@.len() == 0 && final(state).waiting_logged == o.waiting_logged
                    && final(state).hotkey_triggered == o.hotkey_triggered
            } else if exited && running@.len() == 0 {
                a.stop && !a.log_waiting && !a.kill_wrapper && a.signal_pids@.len() == 0 && final(state).waiting_logged == o.waiting_logged
                    && final(state).hotkey_triggered == o.hotkey_triggered
            } else {
                &&& !a.stop
                &&& a.log_waiting == (exited && !o.waiting_logged)
                &&& final(state).waiting_logged == (o.waiting_logged || exited)
                &&& final(state).hotkey_triggered == (o.hotkey_triggered || hotkey)
                &&& a.kill_wrapper == (hotkey && !exited)
                &&& a.signal_pids@ == if hotkey { running@ } else { Seq::<u32>::empty() }
            }
        }),
{
    let mut a = GameMonitorActions { log_wrapper_exit: false, stop: false, log_waiting: false, kill_wrapper: false, signal_pids: Vec::new() };
    if !state.wrapper_exited {
        match poll {
            WrapperPoll::Exited => {
                state.wrapper_exited = true;
                a.log_wrapper_exit = true;
            },
            WrapperPoll::Failed => {
                a.stop = true;
                return a;
            },
            WrapperPoll::Running => {},
        }
    }
    if state.wrapper_exited {
        if running.len() == 0 {
            a.stop = true;
            return a;
        }
        if !state.waiting_logged {
            a.log_waiting = true;
            state.waiting_logged = true;
        }
    }
    if hotkey {
        state.hotkey_triggered = true;
        a.kill_wrapper = !state.wrapper_exited;
        let mut pids: Vec<u32> = Vec::new();
        let mut i: usize = 0;
        while i < running.len()
            invariant
                i <= running@.len(),
                pids@ == running@.take(i as int),
            decreases running.len() - i,
        {
            pids.push(running[i]);
            proof {
                assert(pids@ =~= running@.take(i + 1));
            }
            i = i + 1;
        }
        proof {
            assert(running@.take(running@.len() as int) =~= running@);
        }
        a.signal_pids = pids;
    }
    a
}

/// A `/proc` entry names a process when it is a non-empty string of digits
/// whose value fits in a `u32`; this is its id.
pub open spec fn proc_pid(name: Seq<char>) -> Option<u32> {
    if name.len() > 0 && all_digits(name) && digits_value(name) <= u32::MAX {
        Some(digits_value(name) as u32)
    } else {
        None
    }
}

/// The process id that a `/proc` entry name stands for.
pub fn parse_proc_pid(name: &str) -> (r: Option<u32>)
    ensures
        r == proc_pid(name@),
{
    let cs = chars_of(name);
    if cs.len() == 0 {
        return None;
    }
    let mut v: u64 = 0;
    let mut i: usize = 0;
    while i < cs.len()
        invariant
            i <= cs@.len(),
            cs@ == name@,
            cs@.len() > 0,
            all_digits(cs@.take(i as int)),
            v == digits_value(cs@.take(i as int)),
            v <= u32::MAX,
        decreases cs.len() - i,
    {
        let c = cs[i];
        proof {
            assert(cs@.take(i + 1).drop_last() == cs@.take(i as int));
            assert(cs@.take(i + 1).last() == c);
        }
        if !('0' <= c && c <= '9') {
            proof {
                assert(!all_digits(name@)) by {
                    assert(name@[i as int] == c);
                }
            }
            return None;
        }
        let d: u64 = if c == '0' { 0 } else if c == '1' { 1 } else if c == '2' { 2 } else if c == '3' { 3 } else if c == '4' { 4 }
            else if c == '5' { 5 } else if c == '6' { 6 } else if c == '7' { 7 } else if c == '8' { 8 } else { 9 };
        assert(d == (c as int) - ('0' as int));
        let nv = v * 10 + d;
        if nv > 0xFFFF_FFFF {
            proof {
                assert(all_digits(cs@.take(i + 1)));
                lemma_digits_value_grows(cs@, (i + 1) as int);
            }
            return None;
        }
        v = nv;
        i = i + 1;
        proof {
            assert(all_digits(cs@.take(i as int)));
        }
    }
    proof {
        assert(cs@.take(cs@.len() as int) == cs@);
    }
    Some(v as u32)
}

/// The named parts of a path, in order: the pieces between `/` that are
/// neither empty nor `.`.
pub open spec fn named_parts(pieces: Seq<Seq<char>>) -> Seq<Seq<char>>
    decreases pieces.len(),
{
    if pieces.len() == 0 {
        seq![]
    } else {
        let rest = named_parts(pieces.drop_last());
        if pieces.last().len() > 0 && pieces.last() != "."@ { rest.push(pieces.last()) } else { rest }
    }
}

/// The components of a Unix path as `Path::components` gives them: `/` for
/// a root, `.` for a relative path that begins with `.`, then the named
/// parts (`..` included).
pub open spec fn path_components(p: Seq<char>) -> Seq<Seq<char>> {
    let pieces = split_on(p, '/');
    let lead = if p.len() > 0 && p[0] == '/' {
        seq!["/"@]
    } else if pieces[0] == "."@ {
        seq!["."@]
    } else {
        seq![]
    };
    lead + named_parts(pieces)
}

/// The components of a path.
pub fn path_components_exec(p: &str) -> (r: Vec<String>)
    ensures
        r@.map_values(|c: String| c@) == path_components(p@),
{
    let cs = chars_of(p);
    let pieces = split_on_char(&cs, '/');
    let ghost pv = split_on(p@, '/');
    proof {
        crate::text::lemma_split_first(p@, '/');
        reveal_strlit(".");
        reveal_strlit("/");
    }
    let mut r: Vec<String> = Vec::new();
    if cs.len() > 0 && cs[0] == '/' {
        r.push(owned("/"));
    } else if str_eq(string_of(&pieces[0]).as_str(), ".") {
        r.push(owned("."));
    }
    let ghost lead = r@.map_values(|c: String| c@);
    proof {
        assert(lead =~= if p@.len() > 0 && p@[0] == '/' { seq!["/"@] } else if pv[0] == "."@ { seq!["."@] } else { Seq::<Seq<char>>::empty() });
    }
    let mut i: usize = 0;
    while i < pieces.len()
        invariant
            i <= pieces@.len(),
            pieces@.len() == pv.len(),
            forall|k: int| 0 <= k < pieces@.len() ==> #[trigger] pieces@[k]@ == pv[k],
            r@.map_values(|c: String| c@) == lead + named_parts(pv.take(i as int)),
        decreases pieces.len() - i,
    {
        proof {
            assert(pv.take(i + 1).drop_last() == pv.take(i as int));
            assert(pv.take(i + 1).last() == pieces@[i as int]@);
        }
        let piece = string_of(&pieces[i]);
        if pieces[i].len() > 0 && !str_eq(piece.as_str(), ".") {
            let ghost before = r@.map_values(|c: String| c@);
            r.push(piece);
            proof {
                assert(r@.map_values(|c: String| c@) =~= before.push(pv[i as int]));
            }
        }
        i = i + 1;
    }
    proof {
        assert(pv.take(pv.len() as int) == pv);
    }
    r
}

/// The extension of a path (`Path::extension`): what follows the last `.`
/// of its last component when that is a name and the dot is not its first
/// character.
pub open spec fn path_extension(p: Seq<char>) -> Option<Seq<char>> {
    let comps = path_components(p);
    if comps.len() == 0 {
        None
    } else {
        let f = comps.last();
        if f == "/"@ || f == "."@ || f == ".."@ {
            None
        } else {
            let parts = split_on(f, '.');
            if parts.len() <= 1 {
                None
            } else {
                let stem_len = f.len() - parts.last().len() - 1;
                if stem_len == 0 { None } else { Some(parts.last()) }
            }
        }
    }
}

/// `prefix` is a leading run of `comps`.
pub open spec fn starts_with_components(comps: Seq<Seq<char>>, prefix: Seq<Seq<char>>) -> bool {
    prefix.len() <= comps.len() && comps.take(prefix.len() as int) == prefix
}

/// An executable link that belongs to a game: inside the games directory
/// and with the extension `arm64` in any ASCII case.
pub open spec fn is_game_executable(link: Seq<char>) -> bool {
    &&& starts_with_components(path_components(link), path_components(GAME_ROOT_DIR@))
    &&& path_extension(link) matches Some(e) && eq_ignore_ascii_case(e, "arm64"@)
}

fn components_prefix(comps: &Vec<String>, prefix: &Vec<String>) -> (r: bool)
    ensures
        r == starts_with_components(comps@.map_values(|c: String| c@), prefix@.map_values(|c: String| c@)),
{
    let ghost cv = comps@.map_values(|c: String| c@);
    let ghost pv = prefix@.map_values(|c: String| c@);
    if prefix.len() > comps.len() {
        return false;
    }
    let mut i: usize = 0;
    while i < prefix.len()
        invariant
            i <= prefix@.len(),
            prefix@.len() <= comps@.len(),
            cv == comps@.map_values(|c: String| c@),
            pv == prefix@.map_values(|c: String| c@),
            forall|k: int| 0 <= k < i ==> cv[k] == pv[k],
        decreases prefix.len() - i,
    {
        if !str_eq(comps[i].as_str(), prefix[i].as_str()) {
            assert(cv.take(pv.len() as int)[i as int] != pv[i as int]);
            return false;
        }
        i = i + 1;
    }
    assert(cv.take(pv.len() as int) =~= pv);
    true
}

/// The extension of a path.
pub fn path_extension_exec(p: &str) -> (r: Option<String>)
    ensures
        match r {
            Some(e) => path_extension(p@) == Some(e@),
            None => path_extension(p@) is None,
        },
{
    let comps = path_components_exec(p);
    if comps.len() == 0 {
        return None;
    }
    let f = &comps[comps.len() - 1];
    assert(f@ == path_components(p@).last());
    if str_eq(f.as_str(), "/") || str_eq(f.as_str(), ".") || str_eq(f.as_str(), "..") {
        return None;
    }
    let fc = chars_of(f.as_str());
    let k = crate::text::after_last(&fc, '.');
    if k == 0 {
        proof {
            crate::text::lemma_split_last(fc@, '.', 0);
            assert(fc@.skip(0) == fc@);
            if split_on(fc@, '.').len() > 1 {
                crate::text::lemma_index_of_char_bound(fc@, '.');
                assert(fc@[index_of_char(fc@, '.') as int] == '.');
            }
        }
        return None;
    }
    proof {
        assert(fc@[k - 1] == '.');
        crate::text::lemma_index_of_char_bound(fc@, '.');
        assert(index_of_char(fc@, '.') < fc@.len()) by {
            if index_of_char(fc@, '.') >= fc@.len() {
                assert(fc@[k - 1] != '.');
            }
        }
        assert(split_on(fc@, '.') == seq![fc@.take(index_of_char(fc@, '.') as int)] + split_on(fc@.skip(index_of_char(fc@, '.') + 1int), '.'));
        assert(split_on(fc@, '.').last() == fc@.skip(k as int));
    }
    if k - 1 == 0 {
        return None;
    }
    Some(string_of(&crate::text::slice_from(&fc, k)))
}

/// Whether an executable link belongs to a game.
pub fn game_executable(link: &str) -> (r: bool)
    ensures
        r == is_game_executable(link@),
{
    let comps = path_components_exec(link);
    let root = path_components_exec(GAME_ROOT_DIR);
    if !components_prefix(&comps, &root) {
        return false;
    }
    match path_extension_exec(link) {
        Some(e) => eq_ignore_ascii_case_exec(e.as_str(), "arm64"),
        None => false,
    }
}

/// A game process left running: a `/proc` entry that names a process whose
/// executable belongs to a game.
pub fn game_process_pid(entry_name: &str, exe_link: &str) -> (r: Option<u32>)
    ensures
        r == if is_game_executable(exe_link@) { proc_pid(entry_name@) } else { None },
{
    match parse_proc_pid(entry_name) {
        None => None,
        Some(pid) => if game_executable(exe_link) { Some(pid) } else { None },
    }
}

/// A process of a given executable: a `/proc` entry that names a process
/// whose executable has the same components as `expected`.
pub fn executable_process_pid(entry_name: &str, exe_link: &str, expected: &str) -> (r: Option<u32>)
    ensures
        r == if path_components(exe_link@) == path_components(expected@) { proc_pid(entry_name@) } else { None },
{
    match parse_proc_pid(entry_name) {
        None => None,
        Some(pid) => {
            let a = path_components_exec(exe_link);
            let b = path_components_exec(expected);
            let same = a.len() == b.len() && components_prefix(&a, &b);
            proof {
                let av = a@.map_values(|c: String| c@);
                let bv = b@.map_values(|c: String| c@);
                if av.len() == bv.len() {
                    assert(av.take(bv.len() as int) =~= av);
                }
            }
            if same { Some(pid) } else { None }
        },
    }
}

/// The directory part of `path` as `std::path::Path::parent` finds it, as
/// text.
pub uninterp spec fn path_parent(path: Seq<char>) -> Option<Seq<char>>;

/// `Path::parent`: the path without its last component (`None` when it has
/// none to drop), shown as text. The result is named, not restated; it
/// depends on the text of the path alone.
#[verifier::external_body]
fn parent_path(path: &str) -> (r: Option<String>)
    ensures
        crate::controller_setup::opt_view(r) == path_parent(path@),
{
    match std::path::Path::new(path).parent() {
        Some(p) => Some(p.display().to_string()),
        None => None,
    }
}

/// One change a launch makes to the environment the game inherits.
pub enum EnvChange {
    Assign { key: String, value: String },
    Remove { key: String },
}

/// A change as the variable and the value it gets (`None`: removed).
pub open spec fn env_change_view(c: EnvChange) -> (Seq<char>, Option<Seq<char>>) {
    match c {
        EnvChange::Assign { key, value } => (key@, Some(value@)),
        EnvChange::Remove { key } => (key@, None),
    }
}

/// The changes of a launch, applied in order: the game's own variables,
/// then the ones it removes, then (when an audio device was chosen) the
/// audio routing.
pub open spec fn launch_env_spec(game: GameEntry, audio_device: Option<Seq<char>>) -> Seq<(Seq<char>, Option<Seq<char>>)> {
    game.env@.map_values(|p: (String, String)| (p.0@, Some(p.1@)))
        + game.env_remove@.map_values(|k: String| (k@, None::<Seq<char>>))
        + match audio_device {
            Some(d) => seq![
                ("OPENCONSOLE_AUDIO_DEVICE"@, Some(d)),
                ("SDL_AUDIODRIVER"@, Some("alsa"@)),
                ("AUDIODEV"@, Some("default"@)),
            ],
            None => Seq::empty(),
        }
}

/// How a game is started.
pub struct LaunchPlan {
    /// The directory to run in, if one is chosen.
    pub working_dir: Option<String>,
    /// The directory as the launch log shows it.
    pub cwd_text: String,
    /// The environment changes, in order.
    pub env: Vec<EnvChange>,
    /// The arguments.
    pub args: Vec<String>,
}

/// The directory a game runs in: its own, else the one of its command.
pub open spec fn working_dir_spec(game: GameEntry) -> Option<Seq<char>> {
    match game.cwd {
        Some(c) => Some(c@),
        None => path_parent(game.command@),
    }
}

/// The plan to start `game`, with `audio_device` when the audio routing
/// chose one: its directory (shown as "." when there is none), its
/// environment changes and its arguments without a dummy audio driver.
pub fn launch_plan(game: &GameEntry, audio_device: Option<&str>) -> (p: LaunchPlan)
    ensures
        crate::controller_setup::opt_view(p.working_dir) == working_dir_spec(*game),
        p.cwd_text@ == match working_dir_spec(*game) {
            Some(d) => d,
            None => "."@,
        },
        p.env@.map_values(|c: EnvChange| env_change_view(c)) == launch_env_spec(
            *game,
            match audio_device {
                Some(d) => Some(d@),
                None => None,
            },
        ),
        p.args@.map_values(|a: String| a@) == sanitized_args(game.args@.map_values(|a: String| a@)),
{
    let working_dir = match &game.cwd {
        Some(c) => Some(owned(c.as_str())),
        None => parent_path(game.command.as_str()),
    };
    let cwd_text = match &working_dir {
        Some(d) => owned(d.as_str()),
        None => {
            proof {
                reveal_strlit(".");
            }
            owned(".")
        },
    };
    let mut env: Vec<EnvChange> = Vec::new();
    let ghost gv = game.env@.map_values(|p: (String, String)| (p.0@, Some(p.1@)));
    let mut i: usize = 0;
    while i < game.env.len()
        invariant
            i <= game.env.len(),
            gv == game.env@.map_values(|p: (String, String)| (p.0@, Some(p.1@))),
            env@.map_values(|c: EnvChange| env_change_view(c)) == gv.take(i as int),
        decreases game.env.len() - i,
    {
        env.push(EnvChange::Assign { key: owned(game.env[i].0.as_str()), value: owned(game.env[i].1.as_str()) });
        proof {
            assert(gv.take(i + 1) =~= gv.take(i as int).push(gv[i as int]));
            assert(env@.map_values(|c: EnvChange| env_change_view(c)) =~= gv.take(i + 1));
        }
        i = i + 1;
    }
    let ghost rv = game.env_remove@.map_values(|k: String| (k@, None::<Seq<char>>));
    let mut j: usize = 0;
    proof {
        assert(gv.take(gv.len() as int) == gv);
        assert(gv + rv.take(0) =~= gv);
    }
    while j < game.env_remove.len()
        invariant
            j <= game.env_remove.len(),
            rv == game.env_remove@.map_values(|k: String| (k@, None::<Seq<char>>)),
            gv == game.env@.map_values(|p: (String, String)| (p.0@, Some(p.1@))),
            env@.map_values(|c: EnvChange| env_change_view(c)) == gv + rv.take(j as int),
        decreases game.env_remove.len() - j,
    {
        let ghost e0 = env@;
        env.push(EnvChange::Remove { key: owned(game.env_remove[j].as_str()) });
        proof {
            assert(rv.take(j + 1) =~= rv.take(j as int).push(rv[j as int]));
            assert(env@ == e0.push(env@.last()));
            assert(env_change_view(env@.last()) == rv[j as int]);
            assert(env@.map_values(|c: EnvChange| env_change_view(c)) =~= e0.map_values(|c: EnvChange| env_change_view(c)).push(rv[j as int]));
            assert(gv + rv.take(j + 1) =~= (gv + rv.take(j as int)).push(rv[j as int]));
            assert(env@.map_values(|c: EnvChange| env_change_view(c)) =~= gv + rv.take(j + 1));
        }
        j = j + 1;
    }
    proof {
        assert(rv.take(rv.len() as int) == rv);
    }
    let ghost before = env@.map_values(|c: EnvChange| env_change_view(c));
    if let Some(d) = audio_device {
        env.push(EnvChange::Assign { key: owned("OPENCONSOLE_AUDIO_DEVICE"), value: owned(d) });
        env.push(EnvChange::Assign { key: owned("SDL_AUDIODRIVER"), value: owned("alsa") });
        env.push(EnvChange::Assign { key: owned("AUDIODEV"), value: owned("default") });
        proof {
            assert(env@.map_values(|c: EnvChange| env_change_view(c)) =~= before + seq![
                ("OPENCONSOLE_AUDIO_DEVICE"@, Some(d@)),
                ("SDL_AUDIODRIVER"@, Some("alsa"@)),
                ("AUDIODEV"@, Some("default"@)),
            ]);
        }
    } else {
        assert(before + Seq::<(Seq<char>, Option<Seq<char>>)>::empty() =~= before);
    }
    let args = sanitize_game_args(&game.args);
    LaunchPlan { working_dir, cwd_text, env, args }
}

} // verus!
