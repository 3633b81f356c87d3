use vstd::prelude::*;

use crate::addr::derive_record_address;
use crate::addr::pda_of;
use crate::addr::Address;

verus! {

/// One open trade's terms: the unit of truth, kept from Make until Take or
/// Refund deletes it.
pub struct EscrowRecord {
    /// Caller-chosen disambiguator: one maker can keep several trades open.
    pub seed: u64,
    /// The depositor; sole authority for refund.
    pub maker: Address,
    /// The deposited asset.
    pub asset_a: Address,
    /// The demanded asset; differs from `asset_a`.
    pub asset_b: Address,
    /// Quantity of asset B the maker demands; fixed at creation.
    pub receive_amount: u64,
    /// The proof value that re-derives this record's own address from
    /// (program, maker, seed), stored so later operations can re-prove
    /// custody authority without re-searching.
    pub bump: u8,
}

/// An open trade: the record together with its custody vault, which holds
/// the deposited quantity of asset A and is owned by the record's derived
/// address itself, never by a human key.
pub struct OpenTrade {
    /// The record's derived address.
    pub address: Address,
    /// The stored terms.
    pub record: EscrowRecord,
    /// The vault's asset-A balance.
    pub vault: u64,
}

/// A party's balance account for one asset.
pub struct TokenAccount {
    /// The holder whose signature moves the balance out.
    pub holder: Address,
    /// The asset the balance is denominated in.
    pub asset: Address,
    /// The balance.
    pub amount: u64,
}

/// The durable record store: one entry per open trade, addressed by the
/// deterministic derivation from (program namespace, maker, seed).
pub struct EscrowStore {
    /// The program namespace all record addresses are derived under.
    pub program: Address,
    /// The open trades.
    pub trades: Vec<OpenTrade>,
}

#[verifier::ext_equal]
pub ghost struct RecordV {
    pub seed: u64,
    pub maker: Seq<u8>,
    pub asset_a: Seq<u8>,
    pub asset_b: Seq<u8>,
    pub receive_amount: u64,
    pub bump: u8,
}

#[verifier::ext_equal]
pub ghost struct TradeV {
    pub address: Seq<u8>,
    pub record: RecordV,
    pub vault: u64,
}

#[verifier::ext_equal]
pub ghost struct AcctV {
    pub holder: Seq<u8>,
    pub asset: Seq<u8>,
    pub amount: u64,
}

#[verifier::ext_equal]
pub ghost struct StoreV {
    pub program: Seq<u8>,
    pub trades: Seq<TradeV>,
}

impl View for EscrowRecord {
    type V = RecordV;

    open spec fn view(&self) -> RecordV {
        RecordV {
            seed: self.seed,
            maker: self.maker@,
            asset_a: self.asset_a@,
            asset_b: self.asset_b@,
            receive_amount: self.receive_amount,
            bump: self.bump,
        }
    }
}

impl View for OpenTrade {
    type V = TradeV;

    open spec fn view(&self) -> TradeV {
        TradeV { address: self.address@, record: self.record@, vault: self.vault }
    }
}

impl View for TokenAccount {
    type V = AcctV;

    open spec fn view(&self) -> AcctV {
        AcctV { holder: self.holder@, asset: self.asset@, amount: self.amount }
    }
}

impl View for EscrowStore {
    type V = StoreV;

    open spec fn view(&self) -> StoreV {
        StoreV {
            program: self.program@,
            trades: self.trades@.map_values(|t: OpenTrade| t@),
        }
    }
}

/// The first open trade whose record address is `addr`, if any.
pub open spec fn lookup(trades: Seq<TradeV>, addr: Seq<u8>) -> Option<TradeV>
    decreases trades.len(),
{
    if trades.len() == 0 {
        None
    } else if trades[0].address == addr {
        Some(trades[0])
    } else {
        lookup(trades.skip(1), addr)
    }
}

/// The trades with the first entry at address `addr` deleted.
pub open spec fn remove_trade(trades: Seq<TradeV>, addr: Seq<u8>) -> Seq<TradeV>
    decreases trades.len(),
{
    if trades.len() == 0 {
        trades
    } else if trades[0].address == addr {
        trades.skip(1)
    } else {
        seq![trades[0]] + remove_trade(trades.skip(1), addr)
    }
}

/// No two open trades share a record address: the store invariant that the
/// derivation check of Make maintains.
pub open spec fn distinct_trades(trades: Seq<TradeV>) -> bool {
    forall|i: int, j: int| 0 <= i < j < trades.len() ==> trades[i].address != trades[j].address
}

impl EscrowStore {
    /// An empty record store under the given program namespace.
    pub fn new(program: Address) -> (s: EscrowStore)
        ensures
            s@.program == program@,
            s@.trades =~= Seq::<TradeV>::empty(),
            distinct_trades(s@.trades),
    {
        EscrowStore { program, trades: Vec::new() }
    }

    /// The derived record address and proof value for (maker, seed) under
    /// this store's program namespace: what Make reserves and what Take and
    /// Refund expect as the supplied record account.
    pub fn trade_address(&self, maker: &Address, seed: u64) -> (r: (Address, u8))
        ensures
            (r.0@, r.1) == pda_of(self@.program, maker@, seed),
    {
        derive_record_address(&self.program, maker, seed)
    }

    /// Whether an open trade stands at the address.
    pub fn has_open_trade(&self, addr: &Address) -> (r: bool)
        ensures
            r == (lookup(self@.trades, addr@) is Some),
    {
        find_trade(self, addr).is_some()
    }

    /// The vault balance of the open trade at the address, if one stands
    /// there.
    pub fn vault_balance(&self, addr: &Address) -> (r: Option<u64>)
        ensures
            match r {
                Some(v) => lookup(self@.trades, addr@) matches Some(t) && t.vault == v,
                None => lookup(self@.trades, addr@) is None,
            },
    {
        match find_trade(self, addr) {
            Some(i) => {
                proof {
                    assert(self@.trades[i as int] == self.trades@[i as int]@);
                }
                Some(self.trades[i].vault)
            },
            None => None,
        }
    }

    /// How many trades are open.
    pub fn open_trades(&self) -> (n: usize)
        ensures
            n == self@.trades.len(),
    {
        self.trades.len()
    }
}

/// The index of the first open trade stored at `addr`, if any is.
pub(crate) fn find_trade(store: &EscrowStore, addr: &Address) -> (r: Option<usize>)
    ensures
        match r {
            Some(i) => {
                &&& i < store.trades.len()
                &&& store@.trades[i as int].address == addr@
                &&& lookup(store@.trades, addr@) == Some(store@.trades[i as int])
                &&& forall|j: int| 0 <= j < i ==> store@.trades[j].address != addr@
            },
            None => lookup(store@.trades, addr@) is None,
        },
{
    let ghost trades = store@.trades;
    let n = store.trades.len();
    let mut i: usize = 0;
    while i < n
        invariant
            i <= n,
            n == store.trades.len(),
            trades == store@.trades,
            forall|j: int| 0 <= j < i ==> trades[j].address != addr@,
        decreases n - i,
    {
        proof {
            assert(trades[i as int] == store.trades@[i as int]@);
        }
        if store.trades[i].address.equals(addr) {
            proof {
                lemma_lookup_at(trades, addr@, i as int);
            }
            return Some(i);
        }
        i = i + 1;
    }
    proof {
        lemma_lookup_none(trades, addr@);
    }
    None
}

/// `lookup` finds nothing exactly when no entry carries the address.
pub proof fn lemma_lookup_none(trades: Seq<TradeV>, addr: Seq<u8>)
    ensures
        lookup(trades, addr) is None <==> (forall|i: int|
            0 <= i < trades.len() ==> trades[i].address != addr),
    decreases trades.len(),
{
    if trades.len() == 0 {
    } else if trades[0].address == addr {
        assert(!(forall|i: int| 0 <= i < trades.len() ==> trades[i].address != addr));
    } else {
        lemma_lookup_none(trades.skip(1), addr);
        if lookup(trades, addr) is None {
            assert forall|i: int| 0 <= i < trades.len() implies trades[i].address != addr by {
                if i >= 1 {
                    assert(trades.skip(1)[i - 1] == trades[i]);
                }
            }
        } else {
            let j = choose|j: int|
                0 <= j < trades.skip(1).len() && trades.skip(1)[j].address == addr;
            assert(trades[j + 1].address == addr);
        }
    }
}

/// The first entry carrying an address is what `lookup` finds.
pub proof fn lemma_lookup_at(trades: Seq<TradeV>, addr: Seq<u8>, i: int)
    requires
        0 <= i < trades.len(),
        trades[i].address == addr,
        forall|j: int| 0 <= j < i ==> trades[j].address != addr,
    ensures
        lookup(trades, addr) == Some(trades[i]),
    decreases i,
{
    if i > 0 {
        assert(forall|j: int|
            0 <= j < i - 1 ==> #[trigger] trades.skip(1)[j] == trades[j + 1]);
        assert(trades.skip(1)[i - 1] == trades[i]);
        lemma_lookup_at(trades.skip(1), addr, i - 1);
    }
}

/// Looking up an address just pushed, absent before, finds the new entry;
/// other addresses see the old answer.
pub proof fn lemma_lookup_push(trades: Seq<TradeV>, t: TradeV, addr: Seq<u8>)
    ensures
        lookup(trades, addr) is Some ==> lookup(trades.push(t), addr) == lookup(trades, addr),
        lookup(trades, addr) is None && t.address == addr ==> lookup(trades.push(t), addr)
            == Some(t),
        lookup(trades, addr) is None && t.address != addr ==> lookup(trades.push(t), addr)
            is None,
    decreases trades.len(),
{
    if trades.len() == 0 {
        assert(trades.push(t)[0] == t);
        if t.address != addr {
            assert(trades.push(t).skip(1).len() == 0);
            assert(lookup(trades.push(t).skip(1), addr) is None);
        }
    } else {
        lemma_lookup_push(trades.skip(1), t, addr);
        assert(trades.push(t)[0] == trades[0]);
        assert(trades.push(t).skip(1) =~= trades.skip(1).push(t));
        if trades[0].address != addr {
            assert(lookup(trades, addr) == lookup(trades.skip(1), addr));
            assert(lookup(trades.push(t), addr) == lookup(trades.skip(1).push(t), addr));
        }
    }
}

/// Pushing an entry at a fresh address keeps the addresses distinct.
pub proof fn lemma_distinct_push(trades: Seq<TradeV>, t: TradeV)
    requires
        distinct_trades(trades),
        lookup(trades, t.address) is None,
    ensures
        distinct_trades(trades.push(t)),
{
    lemma_lookup_none(trades, t.address);
}

/// Deleting the entry found at index `i`, first of its address, is what
/// `remove_trade` means.
pub proof fn lemma_remove_trade_at(trades: Seq<TradeV>, addr: Seq<u8>, i: int)
    requires
        0 <= i < trades.len(),
        trades[i].address == addr,
        forall|j: int| 0 <= j < i ==> trades[j].address != addr,
    ensures
        remove_trade(trades, addr) =~= trades.remove(i),
    decreases i,
{
    if i == 0 {
        assert(remove_trade(trades, addr) =~= trades.remove(0));
    } else {
        assert(forall|j: int|
            0 <= j < i - 1 ==> #[trigger] trades.skip(1)[j].address != addr);
        assert(trades.skip(1)[i - 1].address == addr);
        lemma_remove_trade_at(trades.skip(1), addr, i - 1);
        assert(remove_trade(trades, addr) =~= trades.remove(i));
    }
}

/// Deleting an address keeps the rest distinct and leaves nothing behind at
/// that address.
pub proof fn lemma_remove_trade_distinct(trades: Seq<TradeV>, addr: Seq<u8>)
    requires
        distinct_trades(trades),
    ensures
        distinct_trades(remove_trade(trades, addr)),
        lookup(remove_trade(trades, addr), addr) is None,
    decreases trades.len(),
{
    if trades.len() == 0 {
        lemma_lookup_none(remove_trade(trades, addr), addr);
    } else if trades[0].address == addr {
        assert(forall|i: int|
            1 <= i < trades.len() ==> trades[i] == #[trigger] trades.skip(1)[i - 1]);
        lemma_lookup_none(trades.skip(1), addr);
    } else {
        assert(forall|i: int|
            1 <= i < trades.len() ==> trades[i] == #[trigger] trades.skip(1)[i - 1]);
        lemma_remove_trade_distinct(trades.skip(1), addr);
        let rest = remove_trade(trades.skip(1), addr);
        let whole = seq![trades[0]] + rest;
        assert(whole[0] == trades[0]);
        assert(forall|i: int| 1 <= i < whole.len() ==> whole[i] == #[trigger] rest[i - 1]);
        assert forall|i: int, j: int| 0 <= i < j < whole.len() implies whole[i].address
            != whole[j].address by {
            if i == 0 {
                lemma_remove_trade_member(trades.skip(1), addr, j - 1);
                let k = choose|k: int|
                    0 <= k < trades.skip(1).len() && trades.skip(1)[k] == rest[j - 1];
                assert(trades[k + 1] == rest[j - 1]);
            }
        }
        lemma_lookup_none(rest, addr);
        lemma_lookup_none(whole, addr);
    }
}

/// Deleting one address leaves every other address's lookup unchanged.
pub proof fn lemma_remove_trade_other(trades: Seq<TradeV>, addr: Seq<u8>, other: Seq<u8>)
    requires
        addr != other,
    ensures
        lookup(remove_trade(trades, addr), other) == lookup(trades, other),
    decreases trades.len(),
{
    if trades.len() == 0 {
    } else if trades[0].address == addr {
        assert(lookup(trades, other) == lookup(trades.skip(1), other));
    } else {
        lemma_remove_trade_other(trades.skip(1), addr, other);
        let rest = remove_trade(trades.skip(1), addr);
        let whole = seq![trades[0]] + rest;
        assert(whole[0] == trades[0]);
        if trades[0].address == other {
            assert(lookup(whole, other) == Some(trades[0]));
        } else {
            assert(whole.skip(1) =~= rest);
            assert(lookup(whole, other) == lookup(rest, other));
            assert(lookup(trades, other) == lookup(trades.skip(1), other));
        }
    }
}

/// Every entry of `remove_trade`'s result already stood in the trades.
pub proof fn lemma_remove_trade_member(trades: Seq<TradeV>, addr: Seq<u8>, i: int)
    requires
        0 <= i < remove_trade(trades, addr).len(),
    ensures
        exists|j: int| 0 <= j < trades.len() && trades[j] == remove_trade(trades, addr)[i],
    decreases trades.len(),
{
    if trades.len() == 0 {
    } else if trades[0].address == addr {
        assert(trades[i + 1] == trades.skip(1)[i]);
    } else {
        let rest = remove_trade(trades.skip(1), addr);
        let whole = seq![trades[0]] + rest;
        if i == 0 {
            assert(trades[0] == whole[0]);
        } else {
            lemma_remove_trade_member(trades.skip(1), addr, i - 1);
            let j = choose|j: int| 0 <= j < trades.skip(1).len() && trades.skip(1)[j] == rest[i
                - 1];
            assert(trades[j + 1] == whole[i]);
        }
    }
}

} // verus!
