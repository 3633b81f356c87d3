use vstd::prelude::*;

use crate::addr::derive_record_address;
use crate::addr::pda_of;
use crate::addr::Address;
use crate::errors::EscrowError;
use crate::state::distinct_trades;
use crate::state::lemma_distinct_push;
use crate::state::lookup;
use crate::state::AcctV;
use crate::state::EscrowRecord;
use crate::state::EscrowStore;
use crate::state::OpenTrade;
use crate::state::RecordV;
use crate::state::StoreV;
use crate::state::TokenAccount;
use crate::state::TradeV;

verus! {

/// What Make does: validate, then open the trade and move the deposit into
/// the vault, or leave every account exactly as supplied and report why.
pub open spec fn spec_make(
    s: StoreV,
    maker: Seq<u8>,
    maker_signed: bool,
    seed: u64,
    receive_amount: u64,
    deposit_amount: u64,
    asset_a: Seq<u8>,
    asset_b: Seq<u8>,
    src: AcctV,
) -> (StoreV, AcctV, Result<(), EscrowError>) {
    if deposit_amount == 0 || receive_amount == 0 {
        (s, src, Err(EscrowError::InvalidAmount))
    } else if !maker_signed {
        (s, src, Err(EscrowError::Unauthorized))
    } else if asset_a == asset_b {
        (s, src, Err(EscrowError::AssetMismatch))
    } else if src.holder != maker {
        (s, src, Err(EscrowError::Unauthorized))
    } else if src.asset != asset_a {
        (s, src, Err(EscrowError::AssetMismatch))
    } else {
        let (addr, bump) = pda_of(s.program, maker, seed);
        if lookup(s.trades, addr) is Some {
            (s, src, Err(EscrowError::DuplicateTrade))
        } else if src.amount < deposit_amount {
            (s, src, Err(EscrowError::InsufficientFunds))
        } else {
            let record = RecordV { seed, maker, asset_a, asset_b, receive_amount, bump };
            let trade = TradeV { address: addr, record, vault: deposit_amount };
            (
                StoreV { program: s.program, trades: s.trades.push(trade) },
                AcctV { holder: src.holder, asset: src.asset, amount: (src.amount - deposit_amount) as u64 },
                Ok(()),
            )
        }
    }
}

/// Make: open a trade. Derives and reserves the record address for
/// (maker, seed), initializes the record with the declared terms and the
/// derivation proof, and moves `deposit_amount` of asset A from the maker's
/// source account into the new vault. On any error nothing changes.
pub fn make(
    store: &mut EscrowStore,
    maker: &Address,
    maker_signed: bool,
    seed: u64,
    receive_amount: u64,
    deposit_amount: u64,
    asset_a: &Address,
    asset_b: &Address,
    maker_source: &mut TokenAccount,
) -> (r: Result<(), EscrowError>)
    ensures
        ({
            let (s, src, res) = spec_make(
                old(store)@,
                maker@,
                maker_signed,
                seed,
                receive_amount,
                deposit_amount,
                asset_a@,
                asset_b@,
                old(maker_source)@,
            );
            &&& final(store)@ == s
            &&& final(maker_source)@ == src
            &&& r == res
        }),
        r is Err ==> final(store)@ == old(store)@ && final(maker_source)@ == old(maker_source)@,
        distinct_trades(old(store)@.trades) ==> distinct_trades(final(store)@.trades),
{
    if deposit_amount == 0 || receive_amount == 0 {
        return Err(EscrowError::InvalidAmount);
    }
    if !maker_signed {
        return Err(EscrowError::Unauthorized);
    }
    if asset_a.equals(asset_b) {
        return Err(EscrowError::AssetMismatch);
    }
    if !maker_source.holder.equals(maker) {
        return Err(EscrowError::Unauthorized);
    }
    if !maker_source.asset.equals(asset_a) {
        return Err(EscrowError::AssetMismatch);
    }
    let (record_address, bump) = derive_record_address(&store.program, maker, seed);
    if store.has_open_trade(&record_address) {
        return Err(EscrowError::DuplicateTrade);
    }
    if maker_source.amount < deposit_amount {
        return Err(EscrowError::InsufficientFunds);
    }
    maker_source.amount = maker_source.amount - deposit_amount;
    let record = EscrowRecord {
        seed,
        maker: *maker,
        asset_a: *asset_a,
        asset_b: *asset_b,
        receive_amount,
        bump,
    };
    let trade = OpenTrade { address: record_address, record, vault: deposit_amount };
    let ghost trade_v = trade@;
    let ghost before = store@;
    store.trades.push(trade);
    proof {
        assert(store@.trades =~= before.trades.push(trade_v));
        if distinct_trades(before.trades) {
            lemma_distinct_push(before.trades, trade_v);
        }
    }
    Ok(())
}

} // verus!
