//! The read-only host of trusted UI extensions: its options, and the pieces
//! of its HTTP surface, broker contract, extension registry and shell page.

pub mod broker;
pub mod manifest;
pub mod path;
pub mod provider;
pub mod read;
pub mod registry;
pub mod routes;
pub mod shell;

use vstd::prelude::*;
use vstd::string::StringExecFns;

use crate::domain::string_views;
use crate::text::{chars_of, decimal_string, join2, parse_unsigned, spec_parse_unsigned, str_eq, to_owned};

verus! {

/// Port of the shell when `--port` is not given.
pub const DEFAULT_SHELL_PORT: u16 = 8766;

/// The options of the extension host.
#[derive(Debug, Clone, PartialEq, Eq)]
pub struct ExtArgs {
    pub db_path: String,
    pub trusted_extensions_dir: String,
    pub provider_socket: String,
    pub shell_port: u16,
}

/// The options read so far.
pub struct ExtOptsState {
    pub db_path: Option<Seq<char>>,
    pub extensions_dir: Option<Seq<char>>,
    pub provider_socket: Option<Seq<char>>,
    pub port: Option<u16>,
}

/// The flags of the management UI and of other writers, refused here.
pub open spec fn refused_flag(f: Seq<char>) -> bool {
    ||| f == "--host"@
    ||| f == "--bind"@
    ||| f == "--manage"@
    ||| f == "--token"@
    ||| f == "--route"@
    ||| f == "--write"@
    ||| f == "--init"@
    ||| f == "--discover"@
    ||| f == "--cancel"@
}

pub open spec fn ext_opts_from(args: Seq<Seq<char>>, i: nat, st: ExtOptsState) -> Result<
    ExtOptsState,
    Seq<char>,
>
    decreases args.len() - i,
{
    if i >= args.len() {
        Ok(st)
    } else {
        let f = args[i as int];
        if refused_flag(f) {
            Err(f + " is not supported by the read-only extension host"@)
        } else if i + 1 >= args.len() {
            Err(f + " requires a value"@)
        } else {
            let v = args[i + 1 as int];
            if f == "--db"@ {
                if st.db_path is Some {
                    Err("--db specified more than once"@)
                } else {
                    ext_opts_from(args, i + 2, ExtOptsState { db_path: Some(v), ..st })
                }
            } else if f == "--trusted-extensions-dir"@ {
                if st.extensions_dir is Some {
                    Err("--trusted-extensions-dir specified more than once"@)
                } else {
                    ext_opts_from(args, i + 2, ExtOptsState { extensions_dir: Some(v), ..st })
                }
            } else if f == "--provider-socket"@ {
                if st.provider_socket is Some {
                    Err("--provider-socket specified more than once"@)
                } else {
                    ext_opts_from(args, i + 2, ExtOptsState { provider_socket: Some(v), ..st })
                }
            } else if f == "--port"@ {
                if st.port is Some {
                    Err("--port specified more than once"@)
                } else {
                    match spec_parse_unsigned(v, 65535) {
                        None => Err("--port must be a TCP port"@),
                        Some(p) => ext_opts_from(
                            args,
                            i + 2,
                            ExtOptsState { port: Some(p as u16), ..st },
                        ),
                    }
                }
            } else {
                Err("unknown trusted extension host option: "@ + f)
            }
        }
    }
}

/// The options of the extension host as values: database, extensions
/// directory, provider socket (an absolute path), shell port.
pub open spec fn spec_ext_args(args: Seq<Seq<char>>) -> Result<
    (Seq<char>, Seq<char>, Seq<char>, u16),
    Seq<char>,
> {
    match ext_opts_from(
        args,
        0,
        ExtOptsState { db_path: None, extensions_dir: None, provider_socket: None, port: None },
    ) {
        Err(e) => Err(e),
        Ok(st) => match st.provider_socket {
            None => Err("--provider-socket is required"@),
            Some(sock) => if !(sock.len() > 0 && sock[0] == '/') {
                Err("--provider-socket must be an absolute path"@)
            } else {
                match st.db_path {
                    None => Err("--db is required"@),
                    Some(db) => match st.extensions_dir {
                        None => Err("--trusted-extensions-dir is required"@),
                        Some(dir) => Ok(
                            (
                                db,
                                dir,
                                sock,
                                match st.port {
                                    Some(p) => p,
                                    None => DEFAULT_SHELL_PORT,
                                },
                            ),
                        ),
                    },
                }
            },
        },
    }
}

pub open spec fn opt_view(o: Option<String>) -> Option<Seq<char>> {
    match o {
        Some(s) => Some(s@),
        None => None,
    }
}

fn is_refused_flag(f: &str) -> (r: bool)
    ensures
        r == refused_flag(f@),
{
    str_eq(f, "--host") || str_eq(f, "--bind") || str_eq(f, "--manage") || str_eq(f, "--token")
        || str_eq(f, "--route") || str_eq(f, "--write") || str_eq(f, "--init") || str_eq(
        f,
        "--discover",
    ) || str_eq(f, "--cancel")
}

/// Reads the options of the extension host. The management and binding flags
/// of the UI are refused; the provider socket must be an absolute path.
pub fn parse_options(args: &[String]) -> (r: Result<ExtArgs, String>)
    ensures
        match spec_ext_args(string_views(args@)) {
            Ok((db, dir, sock, port)) => r matches Ok(a) && a.db_path@ == db
                && a.trusted_extensions_dir@ == dir && a.provider_socket@ == sock && a.shell_port
                == port,
            Err(m) => r matches Err(e) && e@ == m,
        },
{
    let ghost views = string_views(args@);
    let mut db_path: Option<String> = None;
    let mut dir: Option<String> = None;
    let mut socket: Option<String> = None;
    let mut port: Option<u16> = None;
    let mut index: usize = 0;
    while index < args.len()
        invariant
            views == string_views(args@),
            index <= args@.len(),
            ext_opts_from(
                views,
                0,
                ExtOptsState {
                    db_path: None,
                    extensions_dir: None,
                    provider_socket: None,
                    port: None,
                },
            ) == ext_opts_from(
                views,
                index as nat,
                ExtOptsState {
                    db_path: opt_view(db_path),
                    extensions_dir: opt_view(dir),
                    provider_socket: opt_view(socket),
                    port,
                },
            ),
        decreases args@.len() - index,
    {
        let flag = args[index].as_str();
        assert(views[index as int] == flag@);
        if is_refused_flag(flag) {
            return Err(join2(flag, " is not supported by the read-only extension host"));
        }
        if index + 1 >= args.len() {
            return Err(join2(flag, " requires a value"));
        }
        let value = args[index + 1].as_str();
        assert(views[index + 1 as int] == value@);
        if str_eq(flag, "--db") {
            if db_path.is_some() {
                return Err(String::from_str("--db specified more than once"));
            }
            db_path = Some(to_owned(value));
        } else if str_eq(flag, "--trusted-extensions-dir") {
            if dir.is_some() {
                return Err(String::from_str("--trusted-extensions-dir specified more than once"));
            }
            dir = Some(to_owned(value));
        } else if str_eq(flag, "--provider-socket") {
            if socket.is_some() {
                return Err(String::from_str("--provider-socket specified more than once"));
            }
            socket = Some(to_owned(value));
        } else if str_eq(flag, "--port") {
            if port.is_some() {
                return Err(String::from_str("--port specified more than once"));
            }
            let c = chars_of(value);
            match parse_unsigned(c.as_slice(), 65535) {
                None => {
                    return Err(String::from_str("--port must be a TCP port"));
                },
                Some(p) => {
                    port = Some(p as u16);
                },
            }
        } else {
            return Err(join2("unknown trusted extension host option: ", flag));
        }
        index += 2;
    }
    let socket = match socket {
        Some(s) => s,
        None => {
            return Err(String::from_str("--provider-socket is required"));
        },
    };
    let sc = chars_of(socket.as_str());
    if !(sc.len() > 0 && sc[0] == '/') {
        return Err(String::from_str("--provider-socket must be an absolute path"));
    }
    let db_path = match db_path {
        Some(d) => d,
        None => {
            return Err(String::from_str("--db is required"));
        },
    };
    let dir = match dir {
        Some(d) => d,
        None => {
            return Err(String::from_str("--trusted-extensions-dir is required"));
        },
    };
    let shell_port = match port {
        Some(p) => p,
        None => DEFAULT_SHELL_PORT,
    };
    Ok(ExtArgs { db_path, trusted_extensions_dir: dir, provider_socket: socket, shell_port })
}

/// The origin of a loopback server of the extension host.
pub fn loopback_origin(port: u16) -> (s: String)
    ensures
        s@ == "http://127.0.0.1:"@ + crate::text::decimal_chars(port as nat),
{
    join2("http://127.0.0.1:", decimal_string(port as u64).as_str())
}

/// The usage text of the extension host.
pub fn usage() -> (u: &'static str)
    ensures
        u@ == "Usage:\n  mh-ui-ext --db <core.db> --trusted-extensions-dir <extensions.d> --provider-socket <absolute-path> [--port N]\n\nThe host is read-only and loopback-only. Trusted extension JavaScript is local executable code and may transmit any data delivered to it; sandboxing, CSP, and Permissions-Policy are defense in depth, not a network sandbox. The provider is never started by this binary."@,
{
    "Usage:\n  mh-ui-ext --db <core.db> --trusted-extensions-dir <extensions.d> --provider-socket <absolute-path> [--port N]\n\nThe host is read-only and loopback-only. Trusted extension JavaScript is local executable code and may transmit any data delivered to it; sandboxing, CSP, and Permissions-Policy are defense in depth, not a network sandbox. The provider is never started by this binary."
}

} // verus!
