//! Merging command-line and file-supplied settings into one validated
//! configuration record.
//!
//! For every field the command-line value wins when it counts as supplied
//! (non-empty for strings, non-zero for the port, present for optionals);
//! otherwise the file value is taken; otherwise a required field is missing
//! and resolution fails naming that field. An `ip` value that is not a valid
//! IPv4 literal never fails resolution: the record simply carries no static
//! address and the caller acquires one dynamically.

use crate::ip::{ipv4_of, Ipv4};
use vstd::prelude::*;

verus! {

/// Command-line-supplied fields. An empty `server`/`token` and a zero `port`
/// mean "not supplied".
pub struct CliArgs {
    pub server: String,
    pub token: String,
    pub ip: Option<String>,
    pub port: u16,
    pub nic: Option<String>,
}

/// Fields read from the optional config file; every key is optional there.
pub struct FileConfig {
    pub server: Option<String>,
    pub token: Option<String>,
    pub ip: Option<String>,
    pub port: Option<u16>,
    pub nic: Option<String>,
}

#[derive(Clone, Copy, Debug, PartialEq, Eq, Structural)]
pub enum ConfigError {
    MissingServer,
    MissingToken,
    MissingPort,
    MissingDeviceId,
}

/// The validated configuration record handed to everything downstream.
#[derive(Debug)]
pub struct ResolvedConfig {
    pub server: String,
    pub token: String,
    pub static_address: Option<Ipv4>,
    pub port: u16,
    pub device_id: String,
    pub nic: Option<String>,
}

impl ResolvedConfig {
    /// Every required field is non-empty and the port is positive.
    pub open spec fn wf(self) -> bool {
        &&& self.server@.len() > 0
        &&& self.token@.len() > 0
        &&& self.port > 0
        &&& self.device_id@.len() > 0
    }

    /// Dynamic address acquisition runs exactly when no static address
    /// survived resolution.
    pub fn needs_acquisition(&self) -> (r: bool)
        ensures
            r == (self.static_address is None),
    {
        self.static_address.is_none()
    }
}

pub open spec fn chosen_server(cli: CliArgs, file: Option<FileConfig>) -> Option<Seq<char>> {
    if cli.server@.len() > 0 {
        Some(cli.server@)
    } else {
        match file {
            Some(f) => match f.server {
                Some(s) => if s@.len() > 0 {
                    Some(s@)
                } else {
                    None
                },
                None => None,
            },
            None => None,
        }
    }
}

pub open spec fn chosen_token(cli: CliArgs, file: Option<FileConfig>) -> Option<Seq<char>> {
    if cli.token@.len() > 0 {
        Some(cli.token@)
    } else {
        match file {
            Some(f) => match f.token {
                Some(t) => if t@.len() > 0 {
                    Some(t@)
                } else {
                    None
                },
                None => None,
            },
            None => None,
        }
    }
}

pub open spec fn chosen_port(cli: CliArgs, file: Option<FileConfig>) -> Option<u16> {
    if cli.port != 0 {
        Some(cli.port)
    } else {
        match file {
            Some(f) => match f.port {
                Some(p) => if p != 0 {
                    Some(p)
                } else {
                    None
                },
                None => None,
            },
            None => None,
        }
    }
}

/// The text the static address is parsed from; empty when neither source
/// supplies one.
pub open spec fn chosen_ip_text(cli: CliArgs, file: Option<FileConfig>) -> Seq<char> {
    match cli.ip {
        Some(t) => t@,
        None => match file {
            Some(f) => match f.ip {
                Some(t) => t@,
                None => Seq::<char>::empty(),
            },
            None => Seq::<char>::empty(),
        },
    }
}

pub open spec fn chosen_nic(cli: CliArgs, file: Option<FileConfig>) -> Option<Seq<char>> {
    match cli.nic {
        Some(t) => Some(t@),
        None => match file {
            Some(f) => match f.nic {
                Some(t) => Some(t@),
                None => None,
            },
            None => None,
        },
    }
}

/// The fatal outcome of resolution, if any: the first required field that
/// neither source supplies, in the order the fields are checked.
pub open spec fn resolution_error(
    cli: CliArgs,
    file: Option<FileConfig>,
    device_id: Seq<char>,
) -> Option<ConfigError> {
    if chosen_server(cli, file) is None {
        Some(ConfigError::MissingServer)
    } else if chosen_token(cli, file) is None {
        Some(ConfigError::MissingToken)
    } else if chosen_port(cli, file) is None {
        Some(ConfigError::MissingPort)
    } else if device_id.len() == 0 {
        Some(ConfigError::MissingDeviceId)
    } else {
        None
    }
}

impl ConfigError {
    pub open spec fn spec_diagnostic(self) -> Seq<char> {
        match self {
            ConfigError::MissingServer => "server must be given on the command line or in the config file"@,
            ConfigError::MissingToken => "token must be given on the command line or in the config file"@,
            ConfigError::MissingPort => "port must be given on the command line or in the config file"@,
            ConfigError::MissingDeviceId => "a non-empty device id could not be derived for this host"@,
        }
    }

    /// A user-facing line naming the missing field.
    pub fn diagnostic(&self) -> (r: String)
        ensures
            r@ == self.spec_diagnostic(),
    {
        match self {
            ConfigError::MissingServer => "server must be given on the command line or in the config file".to_owned(),
            ConfigError::MissingToken => "token must be given on the command line or in the config file".to_owned(),
            ConfigError::MissingPort => "port must be given on the command line or in the config file".to_owned(),
            ConfigError::MissingDeviceId => "a non-empty device id could not be derived for this host".to_owned(),
        }
    }
}

/// Merge the two configuration sources and validate the result.
///
/// Succeeds exactly when `server`, `token` and `port` are supplied by some
/// source and the derived device id is non-empty; on failure the error names
/// the first field missing. No partial configuration is ever returned.
pub fn resolve_config(cli: CliArgs, file: Option<FileConfig>, device_id: String) -> (r: Result<
    ResolvedConfig,
    ConfigError,
>)
    ensures
        r is Ok <==> resolution_error(cli, file, device_id@) is None,
        r matches Err(e) ==> Some(e) == resolution_error(cli, file, device_id@),
        r matches Ok(c) ==> ({
            &&& Some(c.server@) == chosen_server(cli, file)
            &&& Some(c.token@) == chosen_token(cli, file)
            &&& Some(c.port) == chosen_port(cli, file)
            &&& c.static_address == ipv4_of(chosen_ip_text(cli, file))
            &&& (match c.nic {
                Some(t) => Some(t@),
                None => None,
            }) == chosen_nic(cli, file)
            &&& c.device_id@ == device_id@
            &&& c.wf()
        }),
{
    let (f_server, f_token, f_ip, f_port, f_nic): (
        Option<String>,
        Option<String>,
        Option<String>,
        Option<u16>,
        Option<String>,
    ) = match file {
        Some(f) => (f.server, f.token, f.ip, f.port, f.nic),
        None => (None, None, None, None, None),
    };

    let server: String = if !cli.server.as_str().is_empty() {
        cli.server
    } else {
        match f_server {
            Some(s) => {
                if !s.as_str().is_empty() {
                    s
                } else {
                    return Err(ConfigError::MissingServer);
                }
            },
            None => {
                return Err(ConfigError::MissingServer);
            },
        }
    };

    let token: String = if !cli.token.as_str().is_empty() {
        cli.token
    } else {
        match f_token {
            Some(t) => {
                if !t.as_str().is_empty() {
                    t
                } else {
                    return Err(ConfigError::MissingToken);
                }
            },
            None => {
                return Err(ConfigError::MissingToken);
            },
        }
    };

    let port: u16 = if cli.port != 0 {
        cli.port
    } else {
        match f_port {
            Some(p) => {
                if p != 0 {
                    p
                } else {
                    return Err(ConfigError::MissingPort);
                }
            },
            None => {
                return Err(ConfigError::MissingPort);
            },
        }
    };

    if device_id.as_str().is_empty() {
        return Err(ConfigError::MissingDeviceId);
    }

    let ip_text: String = match cli.ip {
        Some(t) => t,
        None => match f_ip {
            Some(t) => t,
            None => String::new(),
        },
    };
    let static_address: Option<Ipv4> = crate::ip::parse_ipv4(ip_text.as_str());

    let nic: Option<String> = match cli.nic {
        Some(t) => Some(t),
        None => f_nic,
    };

    Ok(ResolvedConfig { server, token, static_address, port, device_id, nic })
}

/// Law: for every field, a command-line value that counts as supplied wins
/// over whatever the config file holds.
pub proof fn lemma_cli_value_wins(cli: CliArgs, file: Option<FileConfig>)
    ensures
        cli.server@.len() > 0 ==> chosen_server(cli, file) == Some(cli.server@),
        cli.token@.len() > 0 ==> chosen_token(cli, file) == Some(cli.token@),
        cli.port != 0 ==> chosen_port(cli, file) == Some(cli.port),
        cli.ip matches Some(t) ==> chosen_ip_text(cli, file) == t@,
        cli.nic matches Some(t) ==> chosen_nic(cli, file) == Some(t@),
{
}

pub open spec fn empty_file_config() -> FileConfig {
    FileConfig { server: None, token: None, ip: None, port: None, nic: None }
}

/// Law: a missing (or unparseable, hence discarded) config file resolves
/// exactly like a file that supplies no field.
pub proof fn lemma_no_file_like_empty_file(cli: CliArgs, device_id: Seq<char>)
    ensures
        chosen_server(cli, None) == chosen_server(cli, Some(empty_file_config())),
        chosen_token(cli, None) == chosen_token(cli, Some(empty_file_config())),
        chosen_port(cli, None) == chosen_port(cli, Some(empty_file_config())),
        chosen_ip_text(cli, None) == chosen_ip_text(cli, Some(empty_file_config())),
        chosen_nic(cli, None) == chosen_nic(cli, Some(empty_file_config())),
        resolution_error(cli, None, device_id) == resolution_error(
            cli,
            Some(empty_file_config()),
            device_id,
        ),
{
}

/// Law: the `ip` setting never decides between success and failure of
/// resolution; startup proceeds into dynamic acquisition no matter what the
/// sources say there.
pub proof fn lemma_ip_never_blocks_startup(
    cli: CliArgs,
    file: Option<FileConfig>,
    device_id: Seq<char>,
    other_cli_ip: Option<String>,
    other_file_ip: Option<String>,
)
    ensures
        ({
            let cli2 = CliArgs {
                server: cli.server,
                token: cli.token,
                ip: other_cli_ip,
                port: cli.port,
                nic: cli.nic,
            };
            let file2 = match file {
                Some(f) => Some(
                    FileConfig {
                        server: f.server,
                        token: f.token,
                        ip: other_file_ip,
                        port: f.port,
                        nic: f.nic,
                    },
                ),
                None => None,
            };
            resolution_error(cli2, file2, device_id) == resolution_error(cli, file, device_id)
        }),
{
}

} // verus!
