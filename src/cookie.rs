//! Location of the companion full node's RPC authentication cookie.

use vstd::prelude::*;

verus! {

/// Operating system whose default data directory is used.
#[derive(Clone, Copy, Debug, PartialEq, Eq, Structural)]
pub enum Platform {
    Linux,
    MacOs,
    Windows,
}

/// Chain the full node runs on; each but the main chain has a subdirectory.
#[derive(Clone, Copy, Debug, PartialEq, Eq, Structural)]
pub enum NetworkVariant {
    Bitcoin,
    Testnet,
    Signet,
    Regtest,
}

#[derive(Clone, Copy, Debug, PartialEq, Eq, Structural)]
pub enum CookiePathError {
    /// A home-relative directory was needed but no home directory is known.
    HomeDirectoryUnavailable,
}

/// Data directory of the full node, relative to the home directory.
pub open spec fn default_datadir(p: Platform) -> Seq<char> {
    match p {
        Platform::Linux => ".bitcoin"@,
        Platform::MacOs => "Library/Application Support/Bitcoin"@,
        Platform::Windows => "AppData/Roaming/Bitcoin"@,
    }
}

/// Subdirectory of the data directory that holds a chain's files.
pub open spec fn network_subdir(n: Option<NetworkVariant>) -> Option<Seq<char>> {
    match n {
        Some(NetworkVariant::Testnet) => Some("testnet3"@),
        Some(NetworkVariant::Regtest) => Some("regtest"@),
        Some(NetworkVariant::Signet) => Some("signet"@),
        _ => None,
    }
}

/// Appending a component to a '/'-separated path: an absolute component
/// replaces the path, otherwise a separator is put in between where needed.
pub open spec fn join_spec(base: Seq<char>, part: Seq<char>) -> Seq<char> {
    if part.len() > 0 && part[0] == '/' {
        part
    } else if base.len() == 0 || base.last() == '/' {
        base + part
    } else {
        base + seq!['/'] + part
    }
}

/// The data directory before the network subdirectory, or `None` when it
/// needs a home directory that is not known.
pub open spec fn base_dir_spec(
    data_dir: Option<(&str, bool)>,
    platform: Platform,
    home: Option<&str>,
) -> Option<Seq<char>> {
    match data_dir {
        Some((dir, false)) => Some(dir@),
        Some((dir, true)) => match home {
            Some(h) => Some(join_spec(h@, dir@)),
            None => None,
        },
        None => match home {
            Some(h) => Some(join_spec(h@, default_datadir(platform))),
            None => None,
        },
    }
}

/// Where the cookie file is: data directory, network subdirectory, file name.
pub open spec fn cookie_path_spec(
    data_dir: Option<(&str, bool)>,
    network: Option<NetworkVariant>,
    cookie_file_name: Option<&str>,
    platform: Platform,
    home: Option<&str>,
) -> Result<Seq<char>, CookiePathError> {
    match base_dir_spec(data_dir, platform, home) {
        None => Err(CookiePathError::HomeDirectoryUnavailable),
        Some(base) => {
            let with_net = match network_subdir(network) {
                Some(sub) => join_spec(base, sub),
                None => base,
            };
            let name = match cookie_file_name {
                Some(n) => n@,
                None => ".cookie"@,
            };
            Ok(join_spec(with_net, name))
        },
    }
}

fn join_path(base: String, part: &str) -> (r: String)
    ensures
        r@ == join_spec(base@, part@),
{
    if part.unicode_len() > 0 && part.get_char(0) == '/' {
        return String::from_str(part);
    }
    let n = base.as_str().unicode_len();
    if n == 0 || base.as_str().get_char(n - 1) == '/' {
        base.concat(part)
    } else {
        proof {
            reveal_strlit("/");
        }
        base.concat("/").concat(part)
    }
}

fn default_datadir_str(p: Platform) -> (r: &'static str)
    ensures
        r@ == default_datadir(p),
{
    match p {
        Platform::Linux => ".bitcoin",
        Platform::MacOs => "Library/Application Support/Bitcoin",
        Platform::Windows => "AppData/Roaming/Bitcoin",
    }
}

/// Resolves the path of the full node's RPC cookie. The home directory and
/// the platform are inputs, so every platform can be resolved anywhere.
pub fn get_cookie_path(
    data_dir: Option<(&str, bool)>,
    network: Option<NetworkVariant>,
    cookie_file_name: Option<&str>,
    platform: Platform,
    home_dir: Option<&str>,
) -> (r: Result<String, CookiePathError>)
    ensures
        match r {
            Ok(p) => cookie_path_spec(data_dir, network, cookie_file_name, platform, home_dir)
                == Ok::<Seq<char>, CookiePathError>(p@),
            Err(e) => cookie_path_spec(data_dir, network, cookie_file_name, platform, home_dir)
                == Err::<Seq<char>, CookiePathError>(e),
        },
{
    let base = match data_dir {
        Some((dir, false)) => String::from_str(dir),
        Some((dir, true)) => match home_dir {
            Some(h) => join_path(String::from_str(h), dir),
            None => return Err(CookiePathError::HomeDirectoryUnavailable),
        },
        None => match home_dir {
            Some(h) => join_path(String::from_str(h), default_datadir_str(platform)),
            None => return Err(CookiePathError::HomeDirectoryUnavailable),
        },
    };
    let with_net = match network {
        Some(NetworkVariant::Testnet) => join_path(base, "testnet3"),
        Some(NetworkVariant::Regtest) => join_path(base, "regtest"),
        Some(NetworkVariant::Signet) => join_path(base, "signet"),
        _ => base,
    };
    let name = match cookie_file_name {
        Some(n) => n,
        None => ".cookie",
    };
    Ok(join_path(with_net, name))
}

/// With no overrides and the regression-test network, the cookie is
/// `.cookie` in the `regtest` subdirectory of the platform's default data
/// directory under the home directory.
pub proof fn lemma_default_regtest_cookie(platform: Platform, home: &str)
    ensures
        cookie_path_spec(None, Some(NetworkVariant::Regtest), None, platform, Some(home)) == Ok::<
            Seq<char>,
            CookiePathError,
        >(join_spec(join_spec(join_spec(home@, default_datadir(platform)), "regtest"@), ".cookie"@)),
{
}

/// An explicit data directory with no network gives `.cookie` directly in
/// that directory, whatever the platform and home directory.
pub proof fn lemma_explicit_dir_cookie(dir: &str, platform: Platform, home: Option<&str>)
    ensures
        cookie_path_spec(Some((dir, false)), None, None, platform, home) == Ok::<
            Seq<char>,
            CookiePathError,
        >(join_spec(dir@, ".cookie"@)),
{
}

} // verus!
