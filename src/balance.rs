//! Total spendable value: on-chain balance plus what the ready channels hold.

use vstd::prelude::*;

verus! {

/// A point-in-time view of one payment channel, as the node engine reports it.
#[derive(Clone, Copy, Debug)]
pub struct ChannelSnapshot {
    pub channel_id: [u8; 32],
    pub counterparty_node_id: [u8; 33],
    /// Balance on this side, in millisatoshi.
    pub balance_msat: u64,
    /// The channel reached confirmation depth and finished its handshake.
    pub is_ready: bool,
}

#[derive(Clone, Copy, Debug, PartialEq, Eq, Structural)]
pub enum BalanceError {
    /// The on-chain balance or the channel list could not be read.
    QueryFailed,
    /// The total does not fit in 64 bits.
    Overflow,
}

/// Millisatoshi held in the ready channels of `chs`.
pub open spec fn ready_balance_msat(chs: Seq<ChannelSnapshot>) -> int
    decreases chs.len(),
{
    if chs.len() == 0 {
        0
    } else {
        ready_balance_msat(chs.drop_last()) + if chs.last().is_ready {
            chs.last().balance_msat as int
        } else {
            0
        }
    }
}

/// On-chain satoshi plus the ready channels' millisatoshi, rounded down to
/// whole satoshi.
pub open spec fn total_balance_sats(onchain_sats: u64, chs: Seq<ChannelSnapshot>) -> int {
    onchain_sats + ready_balance_msat(chs) / 1000
}

/// Sum of the ready channels' balances, in millisatoshi.
fn ready_channels_msat(channels: &Vec<ChannelSnapshot>) -> (r: u128)
    ensures
        r as int == ready_balance_msat(channels@),
{
    let mut acc: u128 = 0;
    let mut i: usize = 0;
    while i < channels.len()
        invariant
            i <= channels@.len(),
            acc as int == ready_balance_msat(channels@.take(i as int)),
            acc as int <= i * (u64::MAX as int),
        decreases channels@.len() - i,
    {
        let ch = channels[i];
        assert(channels@.take(i as int + 1).drop_last() == channels@.take(i as int));
        assert(i * (u64::MAX as int) + (u64::MAX as int) == (i + 1) * (u64::MAX as int))
            by (nonlinear_arith);
        assert((i + 1) * (u64::MAX as int) <= (usize::MAX as int) * (u64::MAX as int))
            by (nonlinear_arith)
            requires
                i + 1 <= usize::MAX,
        ;
        assert((usize::MAX as int) * (u64::MAX as int) < u128::MAX) by (nonlinear_arith)
            requires
                usize::MAX <= u64::MAX,
        ;
        if ch.is_ready {
            acc = acc + ch.balance_msat as u128;
        }
        i = i + 1;
    }
    assert(channels@.take(channels@.len() as int) == channels@);
    acc
}

/// Total balance in satoshi. Fails when either read failed (`None`), rather
/// than report a balance that lacks one half, and when the total overflows.
pub fn get_balance(onchain_sats: Option<u64>, channels: Option<&Vec<ChannelSnapshot>>) -> (r:
    Result<u64, BalanceError>)
    ensures
        (onchain_sats is None || channels is None) ==> r == Err::<u64, BalanceError>(
            BalanceError::QueryFailed),
        onchain_sats is Some && channels is Some ==> {
            let total = total_balance_sats(onchain_sats->0, channels->0@);
            &&& total <= u64::MAX ==> r == Ok::<u64, BalanceError>(total as u64)
            &&& total > u64::MAX ==> r == Err::<u64, BalanceError>(BalanceError::Overflow)
        },
{
    let (onchain, chs) = match (onchain_sats, channels) {
        (Some(o), Some(c)) => (o, c),
        _ => return Err(BalanceError::QueryFailed),
    };
    let offchain_sats = ready_channels_msat(chs) / 1000;
    if offchain_sats > (u64::MAX - onchain) as u128 {
        Err(BalanceError::Overflow)
    } else {
        Ok(onchain + offchain_sats as u64)
    }
}

} // verus!
