//! The registry file's location and the messages reported when it cannot
//! be read or parsed.

use vstd::prelude::*;

verus! {

/// The registry path under the given home directory; `/root` stands in
/// when no home directory is known.
pub fn dirs_path(home: Option<&str>) -> (path: String)
    ensures
        path@ == (match home {
            Some(h) => h@,
            None => "/root"@,
        }) + "/.openclaw/agents/main/sessions/sessions.json"@,
{
    let mut path = match home {
        Some(h) => h.to_owned(),
        None => "/root".to_owned(),
    };
    path.append("/.openclaw/agents/main/sessions/sessions.json");
    path
}

/// The message reported when the registry file cannot be read; it names
/// the path that was tried.
pub fn read_error_message(path: &str) -> (msg: String)
    ensures
        msg@ == "Failed to read sessions file: "@ + path@,
{
    let mut msg = "Failed to read sessions file: ".to_owned();
    msg.append(path);
    msg
}

/// The message reported when the registry file's content does not parse.
pub fn parse_error_message() -> (msg: String)
    ensures
        msg@ == "Failed to parse sessions.json"@,
{
    "Failed to parse sessions.json".to_owned()
}

} // verus!
