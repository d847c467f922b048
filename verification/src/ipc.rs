use vstd::prelude::*;
use vstd::string::*;

use crate::text::{decimal, owned, push_decimal, push_str};

verus! {

broadcast use vstd::string::group_string_axioms;

/// The directory of the supervisor socket when the supervisor runs as root.
pub const ROOT_SOCKET_DIR: &'static str = "/run/openconsole";
/// The supervisor socket when the supervisor runs as root.
pub const ROOT_SOCKET_PATH: &'static str = "/run/openconsole/supervisor.sock";

/// A request from the UI to the supervisor.
#[derive(Debug, Clone)]
pub enum SupervisorRequest {
    Launch { game_index: usize },
    CaptureControllerInput { timeout_ms: u64, device_id: Option<String> },
    SetRuntimeMapperEnabled { enabled: bool },
    Reboot,
}

/// The supervisor's answer to a request.
#[derive(Debug, Clone)]
pub struct SupervisorResponse {
    pub ok: bool,
    pub message: String,
    pub captured_input: Option<String>,
}

impl SupervisorResponse {
    /// A success with a message.
    pub fn ok(message: &str) -> (r: Self)
        ensures
            r.ok,
            r.message@ == message@,
            r.captured_input is None,
    {
        SupervisorResponse { ok: true, message: owned(message), captured_input: None }
    }

    /// A success with a message and a captured input token.
    pub fn ok_with_input(message: &str, input: &str) -> (r: Self)
        ensures
            r.ok,
            r.message@ == message@,
            r.captured_input matches Some(i) && i@ == input@,
    {
        SupervisorResponse { ok: true, message: owned(message), captured_input: Some(owned(input)) }
    }

    /// A failure with a message.
    pub fn err(message: &str) -> (r: Self)
        ensures
            !r.ok,
            r.message@ == message@,
            r.captured_input is None,
    {
        SupervisorResponse { ok: false, message: owned(message), captured_input: None }
    }
}

/// `name` inside directory `dir` as `PathBuf::join` forms it: a separator
/// is added unless `dir` is empty or already ends with one.
pub open spec fn join_path(dir: Seq<char>, name: Seq<char>) -> Seq<char> {
    if dir.len() == 0 || dir.last() == '/' { dir + name } else { dir + "/"@ + name }
}

/// `name` inside directory `dir`.
pub fn join_path_exec(dir: &str, name: &str) -> (r: String)
    ensures
        r@ == join_path(dir@, name@),
{
    let d = crate::text::chars_of(dir);
    let mut r = owned(dir);
    if d.len() > 0 && d[d.len() - 1] != '/' {
        push_str(&mut r, "/");
    }
    push_str(&mut r, name);
    r
}

/// The supervisor socket: the one the environment names; else the root
/// socket for root, or a socket named after the user in the temporary
/// directory.
pub open spec fn socket_path_spec(configured: Option<Seq<char>>, is_root: bool, uid: u32, temp_dir: Seq<char>) -> Seq<char> {
    match configured {
        Some(p) => p,
        None => if is_root {
            ROOT_SOCKET_PATH@
        } else {
            join_path(temp_dir, "openconsole-supervisor-"@ + decimal(uid as nat) + ".sock"@)
        },
    }
}

/// The supervisor socket for this process.
pub fn supervisor_socket_path(configured: Option<&str>, is_root: bool, uid: u32, temp_dir: &str) -> (r: String)
    ensures
        r@ == socket_path_spec(
            match configured { Some(p) => Some(p@), None => None },
            is_root,
            uid,
            temp_dir@,
        ),
{
    match configured {
        Some(p) => owned(p),
        None => {
            if is_root {
                owned(ROOT_SOCKET_PATH)
            } else {
                let mut name = owned("openconsole-supervisor-");
                push_decimal(&mut name, uid as u64);
                push_str(&mut name, ".sock");
                join_path_exec(temp_dir, name.as_str())
            }
        },
    }
}

} // verus!
