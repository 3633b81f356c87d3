use vstd::prelude::*;

use crate::addr::pda_of;
use crate::errors::EscrowError;
use crate::make::spec_make;
use crate::refund::spec_refund;
use crate::state::distinct_trades;
use crate::state::lemma_distinct_push;
use crate::state::lemma_lookup_push;
use crate::state::lemma_remove_trade_distinct;
use crate::state::lemma_remove_trade_other;
use crate::state::lookup;
use crate::state::AcctV;
use crate::state::RecordV;
use crate::state::StoreV;
use crate::state::TradeV;
use crate::take::spec_take;

verus! {

/// Law: a successful Make leaves the trade open on the declared terms. The
/// record at the derived address stores the maker, both assets, the
/// demanded `receive_amount` and the derivation proof, the vault holds
/// exactly `deposit_amount`, and the maker's source account was debited by
/// exactly `deposit_amount`.
pub proof fn lemma_make_opens(
    s0: StoreV,
    maker: Seq<u8>,
    seed: u64,
    receive_amount: u64,
    deposit_amount: u64,
    asset_a: Seq<u8>,
    asset_b: Seq<u8>,
    maker_src: AcctV,
)
    ensures
        ({
            let (s1, src1, r1) = spec_make(
                s0,
                maker,
                true,
                seed,
                receive_amount,
                deposit_amount,
                asset_a,
                asset_b,
                maker_src,
            );
            r1 is Ok ==> {
                let (addr, bump) = pda_of(s0.program, maker, seed);
                let record = RecordV { seed, maker, asset_a, asset_b, receive_amount, bump };
                let trade = TradeV { address: addr, record, vault: deposit_amount };
                &&& lookup(s1.trades, addr) == Some(trade)
                &&& src1.amount == maker_src.amount - deposit_amount
                &&& s1.program == s0.program
            }
        }),
{
    let (s1, src1, r1) = spec_make(
        s0,
        maker,
        true,
        seed,
        receive_amount,
        deposit_amount,
        asset_a,
        asset_b,
        maker_src,
    );
    if r1 is Ok {
        let (addr, bump) = pda_of(s0.program, maker, seed);
        let record = RecordV { seed, maker, asset_a, asset_b, receive_amount, bump };
        let trade = TradeV { address: addr, record, vault: deposit_amount };
        lemma_lookup_push(s0.trades, trade, addr);
    }
}

/// Law: Make followed immediately by Take, with correctly matched accounts,
/// settles both legs atomically. The taker's asset-A account gains exactly
/// `deposit_amount`, the taker's asset-B account loses exactly
/// `receive_amount`, the maker's asset-B account gains exactly
/// `receive_amount`, and the record and vault no longer exist.
pub proof fn lemma_make_then_take(
    s0: StoreV,
    maker: Seq<u8>,
    seed: u64,
    receive_amount: u64,
    deposit_amount: u64,
    asset_a: Seq<u8>,
    asset_b: Seq<u8>,
    maker_src: AcctV,
    taker: Seq<u8>,
    taker_src_b: AcctV,
    taker_dest_a: AcctV,
    maker_dest_b: AcctV,
)
    requires
        distinct_trades(s0.trades),
        taker_src_b.holder == taker,
        taker_src_b.asset == asset_b,
        taker_dest_a.holder == taker,
        taker_dest_a.asset == asset_a,
        maker_dest_b.holder == maker,
        maker_dest_b.asset == asset_b,
        taker_src_b.amount >= receive_amount,
        maker_dest_b.amount + receive_amount <= u64::MAX,
        taker_dest_a.amount + deposit_amount <= u64::MAX,
    ensures
        ({
            let (s1, src1, r1) = spec_make(
                s0,
                maker,
                true,
                seed,
                receive_amount,
                deposit_amount,
                asset_a,
                asset_b,
                maker_src,
            );
            r1 is Ok ==> {
                let addr = pda_of(s0.program, maker, seed).0;
                let (s2, sb2, da2, db2, r2) = spec_take(
                    s1,
                    taker,
                    true,
                    maker,
                    addr,
                    asset_a,
                    asset_b,
                    taker_src_b,
                    taker_dest_a,
                    maker_dest_b,
                );
                &&& r2 is Ok
                &&& da2.amount == taker_dest_a.amount + deposit_amount
                &&& sb2.amount == taker_src_b.amount - receive_amount
                &&& db2.amount == maker_dest_b.amount + receive_amount
                &&& lookup(s2.trades, addr) is None
                &&& distinct_trades(s2.trades)
            }
        }),
{
    let (s1, src1, r1) = spec_make(
        s0,
        maker,
        true,
        seed,
        receive_amount,
        deposit_amount,
        asset_a,
        asset_b,
        maker_src,
    );
    if r1 is Ok {
        let (addr, bump) = pda_of(s0.program, maker, seed);
        let record = RecordV { seed, maker, asset_a, asset_b, receive_amount, bump };
        let trade = TradeV { address: addr, record, vault: deposit_amount };
        lemma_lookup_push(s0.trades, trade, addr);
        assert(lookup(s1.trades, addr) == Some(trade));
        lemma_distinct_push(s0.trades, trade);
        lemma_remove_trade_distinct(s1.trades, addr);
    }
}

/// Law: Make followed by Refund, with no Take between, returns the full
/// `deposit_amount` of asset A to the maker's destination account and
/// leaves the record and vault gone. No taker account takes part in a
/// refund, so taker balances are untouched.
pub proof fn lemma_make_then_refund(
    s0: StoreV,
    maker: Seq<u8>,
    seed: u64,
    receive_amount: u64,
    deposit_amount: u64,
    asset_a: Seq<u8>,
    asset_b: Seq<u8>,
    maker_src: AcctV,
    maker_dest_a: AcctV,
)
    requires
        distinct_trades(s0.trades),
        maker_dest_a.holder == maker,
        maker_dest_a.asset == asset_a,
        maker_dest_a.amount + deposit_amount <= u64::MAX,
    ensures
        ({
            let (s1, src1, r1) = spec_make(
                s0,
                maker,
                true,
                seed,
                receive_amount,
                deposit_amount,
                asset_a,
                asset_b,
                maker_src,
            );
            r1 is Ok ==> {
                let addr = pda_of(s0.program, maker, seed).0;
                let (s2, da2, r2) = spec_refund(s1, maker, true, addr, maker_dest_a);
                &&& r2 is Ok
                &&& da2.amount == maker_dest_a.amount + deposit_amount
                &&& lookup(s2.trades, addr) is None
                &&& distinct_trades(s2.trades)
            }
        }),
{
    let (s1, src1, r1) = spec_make(
        s0,
        maker,
        true,
        seed,
        receive_amount,
        deposit_amount,
        asset_a,
        asset_b,
        maker_src,
    );
    if r1 is Ok {
        let (addr, bump) = pda_of(s0.program, maker, seed);
        let record = RecordV { seed, maker, asset_a, asset_b, receive_amount, bump };
        let trade = TradeV { address: addr, record, vault: deposit_amount };
        lemma_lookup_push(s0.trades, trade, addr);
        assert(lookup(s1.trades, addr) == Some(trade));
        lemma_distinct_push(s0.trades, trade);
        lemma_remove_trade_distinct(s1.trades, addr);
    }
}

/// Law: a successful Take closes the trade for good: no entry remains at
/// the record address, and the remaining addresses stay distinct.
pub proof fn lemma_take_closes(
    s0: StoreV,
    taker: Seq<u8>,
    taker_signed: bool,
    maker: Seq<u8>,
    record_addr: Seq<u8>,
    asset_a: Seq<u8>,
    asset_b: Seq<u8>,
    src_b: AcctV,
    dest_a: AcctV,
    dest_b: AcctV,
)
    requires
        distinct_trades(s0.trades),
    ensures
        ({
            let (s1, sb1, da1, db1, r1) = spec_take(
                s0,
                taker,
                taker_signed,
                maker,
                record_addr,
                asset_a,
                asset_b,
                src_b,
                dest_a,
                dest_b,
            );
            r1 is Ok ==> lookup(s1.trades, record_addr) is None && distinct_trades(s1.trades)
        }),
{
    let (s1, sb1, da1, db1, r1) = spec_take(
        s0,
        taker,
        taker_signed,
        maker,
        record_addr,
        asset_a,
        asset_b,
        src_b,
        dest_a,
        dest_b,
    );
    if r1 is Ok {
        lemma_remove_trade_distinct(s0.trades, record_addr);
    }
}

/// Law: a successful Refund closes the trade for good, as Take does.
pub proof fn lemma_refund_closes(
    s0: StoreV,
    signer: Seq<u8>,
    signer_signed: bool,
    record_addr: Seq<u8>,
    dest_a: AcctV,
)
    requires
        distinct_trades(s0.trades),
    ensures
        ({
            let (s1, da1, r1) = spec_refund(s0, signer, signer_signed, record_addr, dest_a);
            r1 is Ok ==> lookup(s1.trades, record_addr) is None && distinct_trades(s1.trades)
        }),
{
    let (s1, da1, r1) = spec_refund(s0, signer, signer_signed, record_addr, dest_a);
    if r1 is Ok {
        lemma_remove_trade_distinct(s0.trades, record_addr);
    }
}

/// Law: once no open trade stands at an address, any Take and any Refund
/// against that address fail with RecordNotFound and change nothing, for
/// every choice of the other accounts. Together with the closing laws this
/// gives exclusivity: after a successful Take or Refund, a second Take or
/// Refund on the same (maker, seed) fails with RecordNotFound.
pub proof fn lemma_closed_rejects(
    s: StoreV,
    record_addr: Seq<u8>,
    taker: Seq<u8>,
    maker: Seq<u8>,
    asset_a: Seq<u8>,
    asset_b: Seq<u8>,
    src_b: AcctV,
    dest_a: AcctV,
    dest_b: AcctV,
    signer: Seq<u8>,
    refund_dest: AcctV,
)
    requires
        lookup(s.trades, record_addr) is None,
    ensures
        spec_take(s, taker, true, maker, record_addr, asset_a, asset_b, src_b, dest_a, dest_b)
            == (s, src_b, dest_a, dest_b, Err::<(), EscrowError>(EscrowError::RecordNotFound)),
        spec_refund(s, signer, true, record_addr, refund_dest) == (
            s,
            refund_dest,
            Err::<(), EscrowError>(EscrowError::RecordNotFound),
        ),
{
}

/// Law: each trade's record and vault are mutated only by an operation
/// against that trade. A Make opens one trade and leaves the lookup of
/// every other address unchanged.
pub proof fn lemma_make_isolated(
    s0: StoreV,
    maker: Seq<u8>,
    maker_signed: bool,
    seed: u64,
    receive_amount: u64,
    deposit_amount: u64,
    asset_a: Seq<u8>,
    asset_b: Seq<u8>,
    maker_src: AcctV,
    other: Seq<u8>,
)
    ensures
        ({
            let (s1, src1, r1) = spec_make(
                s0,
                maker,
                maker_signed,
                seed,
                receive_amount,
                deposit_amount,
                asset_a,
                asset_b,
                maker_src,
            );
            other != pda_of(s0.program, maker, seed).0 ==> lookup(s1.trades, other) == lookup(
                s0.trades,
                other,
            )
        }),
{
    let (s1, src1, r1) = spec_make(
        s0,
        maker,
        maker_signed,
        seed,
        receive_amount,
        deposit_amount,
        asset_a,
        asset_b,
        maker_src,
    );
    let (addr, bump) = pda_of(s0.program, maker, seed);
    if r1 is Ok && other != addr {
        let record = RecordV { seed, maker, asset_a, asset_b, receive_amount, bump };
        let trade = TradeV { address: addr, record, vault: deposit_amount };
        lemma_lookup_push(s0.trades, trade, other);
    }
}

/// Law: a Take settles exactly one trade and leaves the lookup of every
/// other address unchanged.
pub proof fn lemma_take_isolated(
    s0: StoreV,
    taker: Seq<u8>,
    taker_signed: bool,
    maker: Seq<u8>,
    record_addr: Seq<u8>,
    asset_a: Seq<u8>,
    asset_b: Seq<u8>,
    src_b: AcctV,
    dest_a: AcctV,
    dest_b: AcctV,
    other: Seq<u8>,
)
    requires
        other != record_addr,
    ensures
        ({
            let (s1, sb1, da1, db1, r1) = spec_take(
                s0,
                taker,
                taker_signed,
                maker,
                record_addr,
                asset_a,
                asset_b,
                src_b,
                dest_a,
                dest_b,
            );
            lookup(s1.trades, other) == lookup(s0.trades, other)
        }),
{
    let (s1, sb1, da1, db1, r1) = spec_take(
        s0,
        taker,
        taker_signed,
        maker,
        record_addr,
        asset_a,
        asset_b,
        src_b,
        dest_a,
        dest_b,
    );
    if r1 is Ok {
        lemma_remove_trade_other(s0.trades, record_addr, other);
    }
}

/// Law: a Refund settles exactly one trade and leaves the lookup of every
/// other address unchanged.
pub proof fn lemma_refund_isolated(
    s0: StoreV,
    signer: Seq<u8>,
    signer_signed: bool,
    record_addr: Seq<u8>,
    dest_a: AcctV,
    other: Seq<u8>,
)
    requires
        other != record_addr,
    ensures
        ({
            let (s1, da1, r1) = spec_refund(s0, signer, signer_signed, record_addr, dest_a);
            lookup(s1.trades, other) == lookup(s0.trades, other)
        }),
{
    let (s1, da1, r1) = spec_refund(s0, signer, signer_signed, record_addr, dest_a);
    if r1 is Ok {
        lemma_remove_trade_other(s0.trades, record_addr, other);
    }
}

/// Law: Refund signed by any identity other than the trade's original
/// maker fails with Unauthorized and leaves the store and every account
/// untouched, independent of which accounts are otherwise supplied.
pub proof fn lemma_refund_unauthorized(
    s: StoreV,
    signer: Seq<u8>,
    record_addr: Seq<u8>,
    dest_a: AcctV,
    t: TradeV,
)
    requires
        lookup(s.trades, record_addr) == Some(t),
        t.record.maker != signer,
    ensures
        spec_refund(s, signer, true, record_addr, dest_a) == (
            s,
            dest_a,
            Err::<(), EscrowError>(EscrowError::Unauthorized),
        ),
{
}

/// Law: Take supplied with an asset-B identifier that disagrees with the
/// record's stored `asset_b` fails with AssetMismatch and leaves the store
/// and every balance untouched.
pub proof fn lemma_take_asset_mismatch(
    s: StoreV,
    taker: Seq<u8>,
    maker: Seq<u8>,
    record_addr: Seq<u8>,
    asset_a: Seq<u8>,
    asset_b: Seq<u8>,
    src_b: AcctV,
    dest_a: AcctV,
    dest_b: AcctV,
    t: TradeV,
)
    requires
        lookup(s.trades, record_addr) == Some(t),
        t.record.maker == maker,
        t.record.asset_b != asset_b,
    ensures
        spec_take(s, taker, true, maker, record_addr, asset_a, asset_b, src_b, dest_a, dest_b)
            == (s, src_b, dest_a, dest_b, Err::<(), EscrowError>(EscrowError::AssetMismatch)),
{
}

/// Law: Make with a zero `deposit_amount` or a zero `receive_amount` fails
/// with InvalidAmount before any account is touched, whoever signs.
pub proof fn lemma_make_zero_amount(
    s: StoreV,
    maker: Seq<u8>,
    maker_signed: bool,
    seed: u64,
    receive_amount: u64,
    deposit_amount: u64,
    asset_a: Seq<u8>,
    asset_b: Seq<u8>,
    maker_src: AcctV,
)
    requires
        deposit_amount == 0 || receive_amount == 0,
    ensures
        spec_make(
            s,
            maker,
            maker_signed,
            seed,
            receive_amount,
            deposit_amount,
            asset_a,
            asset_b,
            maker_src,
        ) == (s, maker_src, Err::<(), EscrowError>(EscrowError::InvalidAmount)),
{
}

} // verus!
