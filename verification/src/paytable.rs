//! The pricing table: ordered `(symbol, match count, multiplier)` rules.

use vstd::prelude::*;

verus! {

/// One pricing rule: a symbol index, a required match count, and the
/// multiplier in hundredths (a multiplier of 500 pays five times the bet).
#[derive(Clone, Copy, Debug, PartialEq, Eq, Structural)]
pub struct PaytableEntry {
    pub symbol: u8,
    pub count: u8,
    pub payout_multiplier: u64,
}

/// An ordered list of pricing rules. Duplicates are allowed; the first
/// match in table order wins. Absence of a match is a normal outcome
/// (price zero), not a failure.
#[derive(Clone, Debug)]
pub struct Paytable(pub Vec<PaytableEntry>);

/// The multiplier of the first entry matching a symbol index and count,
/// in table order.
pub open spec fn spec_find(entries: Seq<PaytableEntry>, symbol: u8, count: u8) -> Option<u64>
    decreases entries.len(),
{
    if entries.len() == 0 {
        None
    } else if entries.first().symbol == symbol && entries.first().count == count {
        Some(entries.first().payout_multiplier)
    } else {
        spec_find(entries.drop_first(), symbol, count)
    }
}

/// The largest multiplier in the table, zero for an empty table.
pub open spec fn spec_table_max(entries: Seq<PaytableEntry>) -> int
    decreases entries.len(),
{
    if entries.len() == 0 {
        0
    } else if entries.first().payout_multiplier as int >= spec_table_max(entries.drop_first()) {
        entries.first().payout_multiplier as int
    } else {
        spec_table_max(entries.drop_first())
    }
}

/// The table maximum is non-negative and bounds any multiplier the lookup
/// can return.
pub proof fn lemma_find_le_max(entries: Seq<PaytableEntry>, symbol: u8, count: u8)
    ensures
        spec_table_max(entries) >= 0,
        spec_find(entries, symbol, count) is Some ==> spec_find(entries, symbol, count)->Some_0
            <= spec_table_max(entries),
    decreases entries.len(),
{
    if entries.len() > 0 {
        lemma_find_le_max(entries.drop_first(), symbol, count);
    }
}

impl Paytable {
    /// The multiplier of the first entry in table order with this symbol
    /// index and match count, if any.
    pub fn find_multiplier(&self, symbol: u8, count: u8) -> (r: Option<u64>)
        ensures
            r == spec_find(self.0@, symbol, count),
    {
        let n = self.0.len();
        let mut i: usize = 0;
        proof {
            assert(self.0@.skip(0) =~= self.0@);
        }
        while i < n
            invariant
                n == self.0@.len(),
                i <= n,
                spec_find(self.0@, symbol, count) == spec_find(
                    self.0@.skip(i as int),
                    symbol,
                    count,
                ),
            decreases n - i,
        {
            let e = self.0[i];
            proof {
                assert(self.0@.skip(i as int).first() == e);
                assert(self.0@.skip(i as int).drop_first() =~= self.0@.skip(i as int + 1));
            }
            if e.symbol == symbol && e.count == count {
                return Some(e.payout_multiplier);
            }
            i = i + 1;
        }
        proof {
            assert(self.0@.skip(n as int) =~= Seq::<PaytableEntry>::empty());
        }
        None
    }

    /// The built-in table: a three-of-a-kind rule for every symbol of the
    /// alphabet, multipliers in hundredths.
    pub fn simple_default() -> (r: Paytable)
        ensures
            r.0@ == default_entries(),
    {
        let mut v: Vec<PaytableEntry> = Vec::new();
        v.push(PaytableEntry { symbol: crate::symbols::Symbol::A.to_index(), count: 3, payout_multiplier: 500 });
        v.push(PaytableEntry { symbol: crate::symbols::Symbol::B.to_index(), count: 3, payout_multiplier: 400 });
        v.push(PaytableEntry { symbol: crate::symbols::Symbol::C.to_index(), count: 3, payout_multiplier: 300 });
        v.push(PaytableEntry { symbol: crate::symbols::Symbol::D.to_index(), count: 3, payout_multiplier: 200 });
        v.push(PaytableEntry { symbol: crate::symbols::Symbol::Wild.to_index(), count: 3, payout_multiplier: 1000 });
        proof {
            assert(v@ =~= default_entries());
        }
        Paytable(v)
    }
}

/// The entries of the built-in table.
pub open spec fn default_entries() -> Seq<PaytableEntry> {
    seq![
        (PaytableEntry { symbol: 0, count: 3, payout_multiplier: 500 }),
        (PaytableEntry { symbol: 1, count: 3, payout_multiplier: 400 }),
        (PaytableEntry { symbol: 2, count: 3, payout_multiplier: 300 }),
        (PaytableEntry { symbol: 3, count: 3, payout_multiplier: 200 }),
        (PaytableEntry { symbol: 4, count: 3, payout_multiplier: 1000 }),
    ]
}

} // verus!
