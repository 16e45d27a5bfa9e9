//! What the dashboard reads of its process environment.

use vstd::prelude::*;
use vstd::utf8::*;

verus! {

/// The environment variables that matter here, as the bytes that the operating
/// system holds: `None` for one that is not set.
#[derive(Debug)]
pub struct Environment {
    pub home: Option<Vec<u8>>,
    pub xdg_config_home: Option<Vec<u8>>,
    pub xdg_data_home: Option<Vec<u8>>,
    pub xdg_state_home: Option<Vec<u8>>,
    pub xdg_cache_home: Option<Vec<u8>>,
    pub xdg_runtime_dir: Option<Vec<u8>>,
    /// The command to run in place of `dinitctl`: `DINIT_DASH_DINITCTL`.
    pub dinitctl: Option<Vec<u8>>,
}

/// The value of an [`Environment`].
pub struct EnvironmentView {
    pub home: Option<Seq<u8>>,
    pub xdg_config_home: Option<Seq<u8>>,
    pub xdg_data_home: Option<Seq<u8>>,
    pub xdg_state_home: Option<Seq<u8>>,
    pub xdg_cache_home: Option<Seq<u8>>,
    pub xdg_runtime_dir: Option<Seq<u8>>,
    pub dinitctl: Option<Seq<u8>>,
}

/// The value of optional bytes.
pub open spec fn opt_bytes(b: Option<Vec<u8>>) -> Option<Seq<u8>> {
    match b {
        Some(v) => Some(v@),
        None => None,
    }
}

impl View for Environment {
    type V = EnvironmentView;

    open spec fn view(&self) -> EnvironmentView {
        EnvironmentView {
            home: opt_bytes(self.home),
            xdg_config_home: opt_bytes(self.xdg_config_home),
            xdg_data_home: opt_bytes(self.xdg_data_home),
            xdg_state_home: opt_bytes(self.xdg_state_home),
            xdg_cache_home: opt_bytes(self.xdg_cache_home),
            xdg_runtime_dir: opt_bytes(self.xdg_runtime_dir),
            dinitctl: opt_bytes(self.dinitctl),
        }
    }
}

/// A variable as text: it has a value if it is set to valid UTF-8.
pub open spec fn as_text(var: Option<Seq<u8>>) -> Option<Seq<char>> {
    match var {
        Some(b) => if valid_utf8(b) {
            Some(decode_utf8(b))
        } else {
            None
        },
        None => None,
    }
}

/// The value of an optional string.
pub open spec fn opt_string(s: Option<String>) -> Option<Seq<char>> {
    match s {
        Some(t) => Some(t@),
        None => None,
    }
}

/// Calls `String::from_utf8`: bytes that are valid UTF-8, and no others, give the
/// text that they encode.
#[verifier::external_body]
fn string_from_utf8(bytes: &Vec<u8>) -> (text: Option<String>)
    ensures
        text is Some <==> valid_utf8(bytes@),
        text matches Some(t) ==> encode_utf8(t@) == bytes@,
{
    String::from_utf8(bytes.clone()).ok()
}

/// A variable as text: it has a value if it is set to valid UTF-8.
pub fn variable_text(var: &Option<Vec<u8>>) -> (text: Option<String>)
    ensures
        opt_string(text) == as_text(opt_bytes(*var)),
{
    broadcast use encode_utf8_decode_utf8;

    match var {
        Some(bytes) => string_from_utf8(bytes),
        None => None,
    }
}

/// The `dinitctl` command: the configured one, or else the one on the path.
pub open spec fn dinitctl_command(env: EnvironmentView) -> Seq<char> {
    match as_text(env.dinitctl) {
        Some(t) => t,
        None => "dinitctl"@,
    }
}

/// The `dinitctl` command: what `DINIT_DASH_DINITCTL` says, or else `dinitctl`.
pub fn dinitctl_bin(env: &Environment) -> (command: String)
    ensures
        command@ == dinitctl_command(env@),
{
    match variable_text(&env.dinitctl) {
        Some(t) => t,
        None => "dinitctl".to_string(),
    }
}

} // verus!
