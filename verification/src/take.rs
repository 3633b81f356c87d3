use vstd::prelude::*;

use crate::addr::derive_record_address;
use crate::addr::pda_of;
use crate::addr::Address;
use crate::errors::EscrowError;
use crate::state::distinct_trades;
use crate::state::find_trade;
use crate::state::lemma_remove_trade_at;
use crate::state::lemma_remove_trade_distinct;
use crate::state::lookup;
use crate::state::remove_trade;
use crate::state::AcctV;
use crate::state::EscrowStore;
use crate::state::StoreV;
use crate::state::TokenAccount;

verus! {

/// What Take does: validate every supplied account against the stored
/// record, then settle both legs of the swap and delete record and vault as
/// one indivisible unit, or leave every account exactly as supplied and
/// report why.
pub open spec fn spec_take(
    s: StoreV,
    taker: Seq<u8>,
    taker_signed: bool,
    maker: Seq<u8>,
    record_addr: Seq<u8>,
    asset_a: Seq<u8>,
    asset_b: Seq<u8>,
    src_b: AcctV,
    dest_a: AcctV,
    dest_b: AcctV,
) -> (StoreV, AcctV, AcctV, AcctV, Result<(), EscrowError>) {
    if !taker_signed {
        (s, src_b, dest_a, dest_b, Err(EscrowError::Unauthorized))
    } else {
        match lookup(s.trades, record_addr) {
            None => (s, src_b, dest_a, dest_b, Err(EscrowError::RecordNotFound)),
            Some(t) => {
                if t.record.maker != maker {
                    (s, src_b, dest_a, dest_b, Err(EscrowError::AddressMismatch))
                } else if t.record.asset_a != asset_a || t.record.asset_b != asset_b {
                    (s, src_b, dest_a, dest_b, Err(EscrowError::AssetMismatch))
                } else if pda_of(s.program, t.record.maker, t.record.seed) != (
                    record_addr,
                    t.record.bump,
                ) {
                    (s, src_b, dest_a, dest_b, Err(EscrowError::AddressMismatch))
                } else if src_b.holder != taker {
                    (s, src_b, dest_a, dest_b, Err(EscrowError::Unauthorized))
                } else if src_b.asset != t.record.asset_b {
                    (s, src_b, dest_a, dest_b, Err(EscrowError::AssetMismatch))
                } else if dest_a.holder != taker || dest_a.asset != t.record.asset_a {
                    (s, src_b, dest_a, dest_b, Err(EscrowError::AddressMismatch))
                } else if dest_b.holder != t.record.maker || dest_b.asset != t.record.asset_b {
                    (s, src_b, dest_a, dest_b, Err(EscrowError::AddressMismatch))
                } else if src_b.amount < t.record.receive_amount {
                    (s, src_b, dest_a, dest_b, Err(EscrowError::InsufficientFunds))
                } else if dest_b.amount + t.record.receive_amount > u64::MAX || dest_a.amount
                    + t.vault > u64::MAX {
                    (s, src_b, dest_a, dest_b, Err(EscrowError::InvalidAmount))
                } else {
                    (
                        StoreV { program: s.program, trades: remove_trade(s.trades, record_addr) },
                        AcctV {
                            holder: src_b.holder,
                            asset: src_b.asset,
                            amount: (src_b.amount - t.record.receive_amount) as u64,
                        },
                        AcctV {
                            holder: dest_a.holder,
                            asset: dest_a.asset,
                            amount: (dest_a.amount + t.vault) as u64,
                        },
                        AcctV {
                            holder: dest_b.holder,
                            asset: dest_b.asset,
                            amount: (dest_b.amount + t.record.receive_amount) as u64,
                        },
                        Ok(()),
                    )
                }
            },
        }
    }
}

/// Take: close a trade cooperatively. After every supplied account passes
/// the record's validation, moves `receive_amount` of asset B from the
/// taker's source to the maker's destination, releases the vault's full
/// asset-A balance to the taker, and deletes record and vault, all as one
/// unit. On any error nothing changes.
pub fn take(
    store: &mut EscrowStore,
    taker: &Address,
    taker_signed: bool,
    maker: &Address,
    record_address: &Address,
    asset_a: &Address,
    asset_b: &Address,
    taker_source_b: &mut TokenAccount,
    taker_dest_a: &mut TokenAccount,
    maker_dest_b: &mut TokenAccount,
) -> (r: Result<(), EscrowError>)
    ensures
        ({
            let (s, sb, da, db, res) = spec_take(
                old(store)@,
                taker@,
                taker_signed,
                maker@,
                record_address@,
                asset_a@,
                asset_b@,
                old(taker_source_b)@,
                old(taker_dest_a)@,
                old(maker_dest_b)@,
            );
            &&& final(store)@ == s
            &&& final(taker_source_b)@ == sb
            &&& final(taker_dest_a)@ == da
            &&& final(maker_dest_b)@ == db
            &&& r == res
        }),
        r is Err ==> final(store)@ == old(store)@ && final(taker_source_b)@ == old(taker_source_b)@
            && final(taker_dest_a)@ == old(taker_dest_a)@ && final(maker_dest_b)@ == old(
            maker_dest_b,
        )@,
        distinct_trades(old(store)@.trades) ==> distinct_trades(final(store)@.trades),
{
    if !taker_signed {
        return Err(EscrowError::Unauthorized);
    }
    let idx = match find_trade(store, record_address) {
        None => {
            return Err(EscrowError::RecordNotFound);
        },
        Some(i) => i,
    };
    proof {
        assert(store@.trades[idx as int] == store.trades@[idx as int]@);
    }
    let record_maker = store.trades[idx].record.maker;
    let record_asset_a = store.trades[idx].record.asset_a;
    let record_asset_b = store.trades[idx].record.asset_b;
    let record_seed = store.trades[idx].record.seed;
    let record_bump = store.trades[idx].record.bump;
    let receive_amount = store.trades[idx].record.receive_amount;
    let vault_amount = store.trades[idx].vault;
    if !record_maker.equals(maker) {
        return Err(EscrowError::AddressMismatch);
    }
    if !record_asset_a.equals(asset_a) || !record_asset_b.equals(asset_b) {
        return Err(EscrowError::AssetMismatch);
    }
    let (derived, derived_bump) = derive_record_address(&store.program, &record_maker, record_seed);
    if !derived.equals(record_address) || derived_bump != record_bump {
        return Err(EscrowError::AddressMismatch);
    }
    if !taker_source_b.holder.equals(taker) {
        return Err(EscrowError::Unauthorized);
    }
    if !taker_source_b.asset.equals(&record_asset_b) {
        return Err(EscrowError::AssetMismatch);
    }
    if !taker_dest_a.holder.equals(taker) || !taker_dest_a.asset.equals(&record_asset_a) {
        return Err(EscrowError::AddressMismatch);
    }
    if !maker_dest_b.holder.equals(&record_maker) || !maker_dest_b.asset.equals(&record_asset_b) {
        return Err(EscrowError::AddressMismatch);
    }
    if taker_source_b.amount < receive_amount {
        return Err(EscrowError::InsufficientFunds);
    }
    if receive_amount > u64::MAX - maker_dest_b.amount || vault_amount > u64::MAX
        - taker_dest_a.amount {
        return Err(EscrowError::InvalidAmount);
    }
    taker_source_b.amount = taker_source_b.amount - receive_amount;
    maker_dest_b.amount = maker_dest_b.amount + receive_amount;
    taker_dest_a.amount = taker_dest_a.amount + vault_amount;
    let ghost before = old(store)@;
    store.trades.remove(idx);
    proof {
        lemma_remove_trade_at(before.trades, record_address@, idx as int);
        assert(store@.trades =~= before.trades.remove(idx as int));
        if distinct_trades(before.trades) {
            lemma_remove_trade_distinct(before.trades, record_address@);
        }
    }
    Ok(())
}

} // verus!
