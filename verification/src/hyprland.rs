use vstd::prelude::*;
use crate::text::{join_path, path_join};

verus! {

/// An I/O failure on a Hyprland socket, carried through unchanged.
#[verifier::external_type_specification]
#[verifier::external_body]
pub struct ExIoError(std::io::Error);

/// A JSON parse failure, carried through unchanged.
#[verifier::external_type_specification]
#[verifier::external_body]
pub struct ExJsonError(serde_json::Error);

/// A parsed JSON document, carried through unchanged.
#[verifier::external_type_specification]
#[verifier::external_body]
pub struct ExJsonValue(serde_json::Value);

/// Failures of the Hyprland IPC client.
#[derive(Debug)]
pub enum HyprlandIpcError {
    /// `HYPRLAND_INSTANCE_SIGNATURE` is not set.
    NoInstanceSignature,
    /// `XDG_RUNTIME_DIR` is not set.
    NoRuntimeDir,
    /// A socket operation failed.
    Io(std::io::Error),
    /// A reply was not a JSON document.
    Json(serde_json::Error),
}

/// Whether `text` is a single JSON document, as `serde_json::from_str` decides it.
pub uninterp spec fn json_document_parses(text: Seq<char>) -> bool;

/// The JSON value that `serde_json::from_str` builds from `text`.
pub uninterp spec fn json_value_of(text: Seq<char>) -> serde_json::Value;

/// Parses `text` as one JSON value.
/// Trusted: `serde_json::from_str::<serde_json::Value>`. Its outcome and the value it builds
/// depend on the text alone, which the names `json_document_parses` and `json_value_of` record.
#[verifier::external_body]
fn json_value_from_str(text: &str) -> (res: Result<serde_json::Value, serde_json::Error>)
    ensures
        res is Ok <==> json_document_parses(text@),
        res matches Ok(v) ==> v == json_value_of(text@),
{
    serde_json::from_str::<serde_json::Value>(text)
}

/// The path of a Hyprland socket: `<runtime dir>/hypr/<signature>/<file>`, joined as
/// `PathBuf::join` joins.
pub open spec fn hypr_socket_path(
    runtime_dir: Seq<char>,
    signature: Seq<char>,
    file: Seq<char>,
) -> Seq<char> {
    path_join(path_join(path_join(runtime_dir, "hypr"@), signature), file)
}

/// What a socket lookup gives for the two environment values it reads: the instance
/// signature is looked at first, then the runtime directory.
pub open spec fn socket_lookup(
    signature: Option<Seq<char>>,
    runtime_dir: Option<Seq<char>>,
    res: Result<String, HyprlandIpcError>,
    file: Seq<char>,
) -> bool {
    match signature {
        None => res matches Err(HyprlandIpcError::NoInstanceSignature),
        Some(sig) => match runtime_dir {
            None => res matches Err(HyprlandIpcError::NoRuntimeDir),
            Some(dir) => res matches Ok(path) && path@ == hypr_socket_path(dir, sig, file),
        },
    }
}

/// The view of an optional text.
pub open spec fn opt_view(s: Option<&str>) -> Option<Seq<char>> {
    match s {
        Some(t) => Some(t@),
        None => None,
    }
}

fn socket_path(
    signature: Option<&str>,
    runtime_dir: Option<&str>,
    file: &str,
) -> (res: Result<String, HyprlandIpcError>)
    ensures
        socket_lookup(opt_view(signature), opt_view(runtime_dir), res, file@),
{
    let sig = match signature {
        Some(s) => s,
        None => {
            return Err(HyprlandIpcError::NoInstanceSignature);
        },
    };
    let dir = match runtime_dir {
        Some(d) => d,
        None => {
            return Err(HyprlandIpcError::NoRuntimeDir);
        },
    };
    let hypr = join_path(dir, "hypr");
    let instance = join_path(hypr.as_str(), sig);
    Ok(join_path(instance.as_str(), file))
}

/// The active Hyprland command socket (`.socket.sock`), given the values of
/// `HYPRLAND_INSTANCE_SIGNATURE` and `XDG_RUNTIME_DIR` (`None` where unset).
pub fn get_command_socket_path(
    signature: Option<&str>,
    runtime_dir: Option<&str>,
) -> (res: Result<String, HyprlandIpcError>)
    ensures
        socket_lookup(opt_view(signature), opt_view(runtime_dir), res, ".socket.sock"@),
{
    socket_path(signature, runtime_dir, ".socket.sock")
}

/// The active Hyprland event socket (`.socket2.sock`), given the values of
/// `HYPRLAND_INSTANCE_SIGNATURE` and `XDG_RUNTIME_DIR` (`None` where unset).
pub fn get_event_socket_path(
    signature: Option<&str>,
    runtime_dir: Option<&str>,
) -> (res: Result<String, HyprlandIpcError>)
    ensures
        socket_lookup(opt_view(signature), opt_view(runtime_dir), res, ".socket2.sock"@),
{
    socket_path(signature, runtime_dir, ".socket2.sock")
}

/// The command that asks Hyprland to run a dispatcher: `dispatch <dispatcher> <args>`.
pub fn dispatch_command(dispatcher: &str, args: &str) -> (res: String)
    ensures
        res@ == "dispatch "@ + dispatcher@ + " "@ + args@,
{
    let mut cmd = "dispatch ".to_owned();
    cmd.append(dispatcher);
    cmd.append(" ");
    cmd.append(args);
    cmd
}

/// Reads a Hyprland reply as a JSON document; a reply that is not one is a `Json` error.
pub fn parse_json_reply(response: &str) -> (res: Result<serde_json::Value, HyprlandIpcError>)
    ensures
        res is Ok <==> json_document_parses(response@),
        res matches Ok(v) ==> v == json_value_of(response@),
        res is Err ==> res matches Err(HyprlandIpcError::Json(_)),
{
    match json_value_from_str(response) {
        Ok(v) => Ok(v),
        Err(e) => Err(HyprlandIpcError::Json(e)),
    }
}

} // verus!
