use vstd::prelude::*;

use crate::addr::derive_record_address;
use crate::addr::pda_of;
use crate::addr::Address;
use crate::errors::EscrowError;
use crate::state::distinct_trades;
use crate::state::find_trade;
use crate::state::lemma_remove_trade_at;
use crate::state::lemma_remove_trade_distinct;
use crate::state::lookup;
use crate::state::remove_trade;
use crate::state::AcctV;
use crate::state::EscrowStore;
use crate::state::StoreV;
use crate::state::TokenAccount;

verus! {

/// What Refund does: let the original maker, and nobody else, reclaim the
/// full deposit and close the trade, or leave every account exactly as
/// supplied and report why.
pub open spec fn spec_refund(
    s: StoreV,
    signer: Seq<u8>,
    signer_signed: bool,
    record_addr: Seq<u8>,
    dest_a: AcctV,
) -> (StoreV, AcctV, Result<(), EscrowError>) {
    if !signer_signed {
        (s, dest_a, Err(EscrowError::Unauthorized))
    } else {
        match lookup(s.trades, record_addr) {
            None => (s, dest_a, Err(EscrowError::RecordNotFound)),
            Some(t) => {
                if t.record.maker != signer {
                    (s, dest_a, Err(EscrowError::Unauthorized))
                } else if pda_of(s.program, t.record.maker, t.record.seed) != (
                    record_addr,
                    t.record.bump,
                ) {
                    (s, dest_a, Err(EscrowError::AddressMismatch))
                } else if dest_a.holder != t.record.maker || dest_a.asset != t.record.asset_a {
                    (s, dest_a, Err(EscrowError::AddressMismatch))
                } else if dest_a.amount + t.vault > u64::MAX {
                    (s, dest_a, Err(EscrowError::InvalidAmount))
                } else {
                    (
                        StoreV { program: s.program, trades: remove_trade(s.trades, record_addr) },
                        AcctV {
                            holder: dest_a.holder,
                            asset: dest_a.asset,
                            amount: (dest_a.amount + t.vault) as u64,
                        },
                        Ok(()),
                    )
                }
            },
        }
    }
}

/// Refund: close a trade unilaterally. Only the original maker may invoke
/// it; the check against the stored record comes before every other account
/// check, so any other signer fails with Unauthorized whatever else is
/// supplied. On success the vault's full asset-A balance returns to the
/// maker's destination and record and vault are deleted. On any error
/// nothing changes.
pub fn refund(
    store: &mut EscrowStore,
    signer: &Address,
    signer_signed: bool,
    record_address: &Address,
    maker_dest_a: &mut TokenAccount,
) -> (r: Result<(), EscrowError>)
    ensures
        ({
            let (s, da, res) = spec_refund(
                old(store)@,
                signer@,
                signer_signed,
                record_address@,
                old(maker_dest_a)@,
            );
            &&& final(store)@ == s
            &&& final(maker_dest_a)@ == da
            &&& r == res
        }),
        r is Err ==> final(store)@ == old(store)@ && final(maker_dest_a)@ == old(maker_dest_a)@,
        distinct_trades(old(store)@.trades) ==> distinct_trades(final(store)@.trades),
{
    if !signer_signed {
        return Err(EscrowError::Unauthorized);
    }
    let idx = match find_trade(store, record_address) {
        None => {
            return Err(EscrowError::RecordNotFound);
        },
        Some(i) => i,
    };
    proof {
        assert(store@.trades[idx as int] == store.trades@[idx as int]@);
    }
    let record_maker = store.trades[idx].record.maker;
    let record_asset_a = store.trades[idx].record.asset_a;
    let record_seed = store.trades[idx].record.seed;
    let record_bump = store.trades[idx].record.bump;
    let vault_amount = store.trades[idx].vault;
    if !record_maker.equals(signer) {
        return Err(EscrowError::Unauthorized);
    }
    let (derived, derived_bump) = derive_record_address(&store.program, &record_maker, record_seed);
    if !derived.equals(record_address) || derived_bump != record_bump {
        return Err(EscrowError::AddressMismatch);
    }
    if !maker_dest_a.holder.equals(&record_maker) || !maker_dest_a.asset.equals(&record_asset_a) {
        return Err(EscrowError::AddressMismatch);
    }
    if vault_amount > u64::MAX - maker_dest_a.amount {
        return Err(EscrowError::InvalidAmount);
    }
    maker_dest_a.amount = maker_dest_a.amount + vault_amount;
    let ghost before = old(store)@;
    store.trades.remove(idx);
    proof {
        lemma_remove_trade_at(before.trades, record_address@, idx as int);
        assert(store@.trades =~= before.trades.remove(idx as int));
        if distinct_trades(before.trades) {
            lemma_remove_trade_distinct(before.trades, record_address@);
        }
    }
    Ok(())
}

} // verus!
