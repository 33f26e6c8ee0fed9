use lightning_wallet::{
    get_balance, get_cookie_path, BalanceError, ChannelSnapshot, CookiePathError, NetworkVariant,
    Platform,
};

fn channel(balance_msat: u64, is_ready: bool) -> ChannelSnapshot {
    ChannelSnapshot {
        channel_id: [7u8; 32],
        counterparty_node_id: [2u8; 33],
        balance_msat,
        is_ready,
    }
}

#[test]
fn regtest_cookie_under_default_linux_datadir() {
    let p = get_cookie_path(None, Some(NetworkVariant::Regtest), None, Platform::Linux, Some("/home/alice"));
    assert_eq!(p, Ok("/home/alice/.bitcoin/regtest/.cookie".to_string()));
}

#[test]
fn regtest_cookie_under_default_macos_and_windows_datadirs() {
    let mac = get_cookie_path(None, Some(NetworkVariant::Regtest), None, Platform::MacOs, Some("/Users/bob"));
    assert_eq!(mac, Ok("/Users/bob/Library/Application Support/Bitcoin/regtest/.cookie".to_string()));
    let win = get_cookie_path(None, Some(NetworkVariant::Regtest), None, Platform::Windows, Some("C:/Users/carol"));
    assert_eq!(win, Ok("C:/Users/carol/AppData/Roaming/Bitcoin/regtest/.cookie".to_string()));
}

#[test]
fn custom_absolute_datadir_without_network() {
    let p = get_cookie_path(Some(("/custom", false)), None, None, Platform::Linux, None);
    assert_eq!(p, Ok("/custom/.cookie".to_string()));
}

#[test]
fn home_relative_datadir_and_network_subdirectories() {
    let t = get_cookie_path(Some(("node", true)), Some(NetworkVariant::Testnet), None, Platform::Linux, Some("/home/d/"));
    assert_eq!(t, Ok("/home/d/node/testnet3/.cookie".to_string()));
    let s = get_cookie_path(Some(("/data", false)), Some(NetworkVariant::Signet), Some("auth"), Platform::Linux, None);
    assert_eq!(s, Ok("/data/signet/auth".to_string()));
    let m = get_cookie_path(Some(("/data", false)), Some(NetworkVariant::Bitcoin), None, Platform::Linux, None);
    assert_eq!(m, Ok("/data/.cookie".to_string()));
}

#[test]
fn absolute_cookie_name_replaces_directory() {
    let p = get_cookie_path(Some(("/data", false)), None, Some("/etc/cookie"), Platform::Linux, None);
    assert_eq!(p, Ok("/etc/cookie".to_string()));
}

#[test]
fn missing_home_directory_is_reported() {
    assert_eq!(
        get_cookie_path(None, Some(NetworkVariant::Regtest), None, Platform::Linux, None),
        Err(CookiePathError::HomeDirectoryUnavailable)
    );
    assert_eq!(
        get_cookie_path(Some(("x", true)), None, None, Platform::Linux, None),
        Err(CookiePathError::HomeDirectoryUnavailable)
    );
}

#[test]
fn funded_wallet_before_any_channel() {
    let chs: Vec<ChannelSnapshot> = Vec::new();
    assert_eq!(get_balance(Some(100_000), Some(&chs)), Ok(100_000));
}

#[test]
fn channel_counts_once_ready() {
    let pending = vec![channel(25_000_000, false)];
    assert_eq!(get_balance(Some(74_000), Some(&pending)), Ok(74_000));
    let ready = vec![channel(25_000_000, true)];
    assert_eq!(get_balance(Some(74_000), Some(&ready)), Ok(99_000));
}

#[test]
fn balance_sums_ready_channels_and_truncates() {
    let chs = vec![channel(1_500, true), channel(999, true), channel(5_000_000, false), channel(1, true)];
    assert_eq!(get_balance(Some(10), Some(&chs)), Ok(12));
}

#[test]
fn balance_read_failure_is_an_error() {
    let chs = vec![channel(1_000, true)];
    assert_eq!(get_balance(None, Some(&chs)), Err(BalanceError::QueryFailed));
    assert_eq!(get_balance(Some(5), None), Err(BalanceError::QueryFailed));
}

#[test]
fn balance_overflow_is_an_error() {
    let chs = vec![channel(u64::MAX, true), channel(u64::MAX, true)];
    assert_eq!(get_balance(Some(u64::MAX - 10), Some(&chs)), Err(BalanceError::Overflow));
    let empty: Vec<ChannelSnapshot> = Vec::new();
    assert_eq!(get_balance(Some(u64::MAX), Some(&empty)), Ok(u64::MAX));
    let big = vec![channel(u64::MAX, true), channel(u64::MAX, true)];
    assert_eq!(get_balance(Some(0), Some(&big)), Ok((2 * (u64::MAX as u128) / 1000) as u64));
}
