//! The symbol alphabet and the physical reel layout.

use vstd::prelude::*;

verus! {

/// A reel symbol, one of a fixed five-letter alphabet. `Wild` acts as a
/// joker during payout evaluation; see the engine module.
#[derive(Clone, Copy, Debug, PartialEq, Eq, Structural, Hash)]
pub enum Symbol {
    A,
    B,
    C,
    D,
    Wild,
}

/// Numeric index of a symbol: the stable serialization form and the
/// paytable lookup key.
pub open spec fn spec_symbol_index(s: Symbol) -> u8 {
    match s {
        Symbol::A => 0,
        Symbol::B => 1,
        Symbol::C => 2,
        Symbol::D => 3,
        Symbol::Wild => 4,
    }
}

/// The symbol denoted by an index, reduced modulo the alphabet size, so
/// that every integer maps to a valid symbol.
pub open spec fn spec_symbol_from_index(i: u8) -> Symbol {
    if i % 5 == 0 {
        Symbol::A
    } else if i % 5 == 1 {
        Symbol::B
    } else if i % 5 == 2 {
        Symbol::C
    } else if i % 5 == 3 {
        Symbol::D
    } else {
        Symbol::Wild
    }
}

impl Symbol {
    /// Total conversion from an index: any byte value maps to a valid
    /// symbol by reduction modulo the alphabet size.
    pub fn from_index(i: u8) -> (s: Symbol)
        ensures
            s == spec_symbol_from_index(i),
    {
        match i % 5 {
            0 => Symbol::A,
            1 => Symbol::B,
            2 => Symbol::C,
            3 => Symbol::D,
            _ => Symbol::Wild,
        }
    }

    /// The stable index of this symbol, always below the alphabet size.
    pub fn to_index(self) -> (i: u8)
        ensures
            i == spec_symbol_index(self),
            i < 5,
    {
        match self {
            Symbol::A => 0,
            Symbol::B => 1,
            Symbol::C => 2,
            Symbol::D => 3,
            Symbol::Wild => 4,
        }
    }
}

/// Taking a symbol's index and converting it back yields the same symbol:
/// the index form is a faithful serialization of the alphabet.
pub proof fn lemma_symbol_index_roundtrip(s: Symbol)
    ensures
        spec_symbol_from_index(spec_symbol_index(s)) == s,
{
}

/// Converting an index to a symbol and reading the index back reduces
/// the starting index modulo the alphabet size.
pub proof fn lemma_index_symbol_roundtrip(i: u8)
    ensures
        spec_symbol_index(spec_symbol_from_index(i)) == i % 5,
{
}

/// The reel layout: one ordered strip of symbols per column, plus how many
/// consecutive strip positions are visible at once.
#[derive(Clone, Debug)]
pub struct ReelsConfig {
    pub reels: Vec<Vec<Symbol>>,
    pub rows: usize,
}

impl ReelsConfig {
    /// The strips as a sequence of symbol sequences.
    pub open spec fn strips(&self) -> Seq<Seq<Symbol>> {
        Seq::new(self.reels@.len(), |c: int| self.reels@[c]@)
    }

    /// Every strip is non-empty, and a start offset plus a row index stays
    /// within `usize` (a machine limit on the circular indexing).
    pub open spec fn wf(&self) -> bool {
        forall|c: int|
            0 <= c < self.strips().len() ==> 1 <= (#[trigger] self.strips()[c]).len()
                && self.strips()[c].len() + self.rows <= usize::MAX
    }

    /// The built-in three-column, three-row configuration: each column
    /// carries the same nine-symbol strip.
    pub fn default_3x3() -> (r: ReelsConfig)
        ensures
            r.rows == 3,
            r.strips().len() == 3,
            forall|c: int| 0 <= c < 3 ==> #[trigger] r.strips()[c] == default_strip(),
            r.wf(),
    {
        let mut reels: Vec<Vec<Symbol>> = Vec::new();
        reels.push(default_strip_vec());
        reels.push(default_strip_vec());
        reels.push(default_strip_vec());
        let r = ReelsConfig { reels, rows: 3 };
        proof {
            assert forall|c: int| 0 <= c < 3 implies #[trigger] r.strips()[c]
                == default_strip() by {
                assert(r.strips()[c] == r.reels@[c]@);
            }
        }
        r
    }
}

/// The nine-symbol strip used by every column of the built-in layout.
pub open spec fn default_strip() -> Seq<Symbol> {
    seq![
        Symbol::A,
        Symbol::B,
        Symbol::C,
        Symbol::D,
        Symbol::Wild,
        Symbol::A,
        Symbol::B,
        Symbol::C,
        Symbol::D,
    ]
}

/// Builds one copy of the built-in strip.
fn default_strip_vec() -> (v: Vec<Symbol>)
    ensures
        v@ == default_strip(),
{
    let mut v: Vec<Symbol> = Vec::new();
    v.push(Symbol::A);
    v.push(Symbol::B);
    v.push(Symbol::C);
    v.push(Symbol::D);
    v.push(Symbol::Wild);
    v.push(Symbol::A);
    v.push(Symbol::B);
    v.push(Symbol::C);
    v.push(Symbol::D);
    proof {
        assert(v@ =~= default_strip());
    }
    v
}

} // verus!
