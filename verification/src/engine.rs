//! The spin engine: window construction from the deterministic stream,
//! payout evaluation, and outcome verification.

use crate::paytable::{lemma_find_le_max, spec_find, spec_table_max, Paytable, PaytableEntry};
use crate::rng::{spec_spin_buffer, spec_words, ProvablyFairRng};
use crate::symbols::{spec_symbol_index, ReelsConfig, Symbol};
use vstd::prelude::*;

verus! {

/// The immutable rule set of one spin: the reel layout, the pricing
/// table, and the configured return-to-player target in hundredths.
/// The target is passthrough metadata only; it never influences the
/// outcome.
#[derive(Clone, Debug)]
pub struct EngineParams {
    pub reels: ReelsConfig,
    pub paytable: Paytable,
    pub rtp_target: u32,
}

/// The result of one spin: the visible window (rows by columns,
/// row-major) and the payout in hundredths of the bet unit.
#[derive(Clone, Debug)]
pub struct SpinOutcome {
    pub reel_window: Vec<Vec<Symbol>>,
    pub payout: u64,
}

/// The start offset a 32-bit stream value selects on a strip of length
/// `len`: the value scaled into `[0, len)` and reduced modulo `len`.
pub open spec fn spec_start_index(v: u32, len: int) -> int {
    ((v as int) * len / 0x100000000) % len
}

/// The stream values one window consumes: one per column.
pub open spec fn spec_window_words(
    server: Seq<char>,
    client: Seq<char>,
    nonce: u64,
    cols: nat,
) -> Seq<u32> {
    spec_words(spec_spin_buffer(server, client, nonce)@, cols)
}

/// The symbol visible at row `r` of column `c`: the strip entry `r`
/// places after the start offset, wrapping circularly.
pub open spec fn spec_window_cell(
    strips: Seq<Seq<Symbol>>,
    words: Seq<u32>,
    r: int,
    c: int,
) -> Symbol {
    let strip = strips[c];
    let len = strip.len() as int;
    strip[(spec_start_index(words[c], len) + r) % len]
}

/// One visible row: a symbol per column.
pub open spec fn spec_window_row(strips: Seq<Seq<Symbol>>, words: Seq<u32>, r: int) -> Seq<
    Symbol,
> {
    Seq::new(strips.len(), |c: int| spec_window_cell(strips, words, r, c))
}

/// The full visible window for seed material and a reel layout.
pub open spec fn spec_window_of(
    server: Seq<char>,
    client: Seq<char>,
    nonce: u64,
    strips: Seq<Seq<Symbol>>,
    rows: nat,
) -> Seq<Seq<Symbol>> {
    Seq::new(
        rows,
        |r: int| spec_window_row(strips, spec_window_words(server, client, nonce, strips.len()), r),
    )
}

/// A window of owned rows, as a sequence of symbol sequences.
pub open spec fn window_view(w: Seq<Vec<Symbol>>) -> Seq<Seq<Symbol>> {
    Seq::new(w.len(), |i: int| w[i]@)
}

/// Window shape: a layout with `C` columns and `R` rows always yields
/// exactly `R` rows of exactly `C` symbols, whatever the seeds.
pub proof fn lemma_window_shape(
    server: Seq<char>,
    client: Seq<char>,
    nonce: u64,
    strips: Seq<Seq<Symbol>>,
    rows: nat,
)
    ensures
        spec_window_of(server, client, nonce, strips, rows).len() == rows,
        forall|r: int|
            0 <= r < rows ==> (#[trigger] spec_window_of(server, client, nonce, strips, rows)[r]).len()
                == strips.len(),
{
}

/// Builds the visible window: one stream value per column selects that
/// column's start offset, and `rows` consecutive strip positions are
/// revealed, wrapping circularly.
#[verifier::loop_isolation(false)]
pub fn compute_reel_window(rng: &ProvablyFairRng, reels: &ReelsConfig) -> (w: Vec<Vec<Symbol>>)
    requires
        reels.wf(),
    ensures
        window_view(w@) == spec_window_of(
            rng.server_seed@,
            rng.client_seed@,
            rng.nonce,
            reels.strips(),
            reels.rows as nat,
        ),
        w@.len() == reels.rows,
        forall|r: int| 0 <= r < w@.len() ==> (#[trigger] w@[r])@.len() == reels.reels@.len(),
{
    let cols = reels.reels.len();
    let words = rng.next_words(cols);
    let ghost strips = reels.strips();

    let mut starts: Vec<usize> = Vec::new();
    let mut c: usize = 0;
    while c < cols
        invariant
            starts@.len() == c,
            c <= cols,
            forall|x: int|
                0 <= x < c ==> #[trigger] starts@[x] as int == spec_start_index(
                    words@[x],
                    strips[x].len() as int,
                ) && starts@[x] < strips[x].len(),
        decreases cols - c,
    {
        let len = reels.reels[c].len();
        proof {
            assert(reels.strips()[c as int].len() >= 1);
        }
        let v = words[c];
        proof {
            assert((v as int) * (len as int) <= (u32::MAX as int) * (u64::MAX as int))
                by (nonlinear_arith)
                requires
                    0 <= v as int <= u32::MAX as int,
                    0 <= len as int <= u64::MAX as int,
            ;
        }
        let prod: u128 = (v as u128) * (len as u128);
        let start128 = (prod / 0x100000000u128) % (len as u128);
        let start = start128 as usize;
        starts.push(start);
        c = c + 1;
    }

    let mut window: Vec<Vec<Symbol>> = Vec::new();
    let mut r: usize = 0;
    while r < reels.rows
        invariant
            window@.len() == r,
            r <= reels.rows,
            forall|x: int|
                0 <= x < r ==> (#[trigger] window@[x])@ == spec_window_row(
                    strips,
                    words@,
                    x,
                ),
            forall|x: int|
                0 <= x < c ==> #[trigger] starts@[x] as int == spec_start_index(
                    words@[x],
                    strips[x].len() as int,
                ) && starts@[x] < strips[x].len(),
            starts@.len() == cols,
        decreases reels.rows - r,
    {
        let mut row: Vec<Symbol> = Vec::new();
        let mut k: usize = 0;
        while k < cols
            invariant
                row@.len() == k,
                k <= cols,
                forall|x: int|
                    0 <= x < k ==> #[trigger] row@[x] == spec_window_cell(strips, words@, r as int, x),
                forall|x: int|
                    0 <= x < cols ==> #[trigger] starts@[x] as int == spec_start_index(
                        words@[x],
                        strips[x].len() as int,
                    ) && starts@[x] < strips[x].len(),
                starts@.len() == cols,
                r < reels.rows,
            decreases cols - k,
        {
            let len = reels.reels[k].len();
            let idx = (starts[k] + r) % len;
            row.push(reels.reels[k][idx]);
            k = k + 1;
        }
        proof {
            assert(row@ =~= spec_window_row(strips, words@, r as int));
        }
        window.push(row);
        r = r + 1;
    }
    proof {
        assert(window_view(window@) =~= spec_window_of(
            rng.server_seed@,
            rng.client_seed@,
            rng.nonce,
            strips,
            reels.rows as nat,
        ));
    }
    window
}

/// Row match rule: the three leading symbols are all equal, or any one of
/// them is wild (a wild is a joker matching the whole row).
pub open spec fn spec_row_match(a: Symbol, b: Symbol, c: Symbol) -> bool {
    a is Wild || b is Wild || c is Wild || (a == b && b == c)
}

/// The symbol a matched row is priced under: the first column's symbol
/// unless it is wild, in which case the second column's.
pub open spec fn spec_effective_symbol(a: Symbol, b: Symbol) -> Symbol {
    if a is Wild {
        b
    } else {
        a
    }
}

/// The price of one row in hundredths of the bet unit: `bet` times the
/// multiplier of the matched three-of-a-kind entry, zero without a match
/// or an entry.
pub open spec fn spec_row_payout(
    row: Seq<Symbol>,
    entries: Seq<PaytableEntry>,
    bet: u64,
) -> int {
    if spec_row_match(row[0], row[1], row[2]) {
        match spec_find(entries, spec_symbol_index(spec_effective_symbol(row[0], row[1])), 3) {
            Some(m) => (bet as int) * (m as int),
            None => 0,
        }
    } else {
        0
    }
}

/// The total price of the first `n` rows of a window.
pub open spec fn spec_payout_upto(
    window: Seq<Seq<Symbol>>,
    entries: Seq<PaytableEntry>,
    bet: u64,
    n: int,
) -> int
    decreases n,
{
    if n <= 0 {
        0
    } else {
        spec_payout_upto(window, entries, bet, n - 1) + spec_row_payout(window[n - 1], entries, bet)
    }
}

/// The payout of a whole window: the sum of its row prices.
pub open spec fn spec_payout(
    window: Seq<Seq<Symbol>>,
    entries: Seq<PaytableEntry>,
    bet: u64,
) -> int {
    spec_payout_upto(window, entries, bet, window.len() as int)
}

/// Each row price lies between zero and `bet` times the table maximum.
pub proof fn lemma_row_payout_bounds(
    row: Seq<Symbol>,
    entries: Seq<PaytableEntry>,
    bet: u64,
)
    ensures
        0 <= spec_row_payout(row, entries, bet),
        spec_row_payout(row, entries, bet) <= (bet as int) * spec_table_max(entries),
{
    let sym = spec_symbol_index(spec_effective_symbol(row[0], row[1]));
    lemma_find_le_max(entries, sym, 3);
    let mx = spec_table_max(entries);
    assert(0 <= (bet as int) * mx) by (nonlinear_arith)
        requires
            bet >= 0,
            mx >= 0,
    ;
    if spec_row_match(row[0], row[1], row[2]) {
        match spec_find(entries, sym, 3) {
            Some(m) => {
                assert((bet as int) * (m as int) <= (bet as int) * mx) by (nonlinear_arith)
                    requires
                        0 <= m as int <= mx,
                        bet >= 0,
                ;
            },
            None => {},
        }
    }
}

/// The running total over `n` rows is between zero and `n` times the
/// per-row cap.
pub proof fn lemma_payout_upto_bounds(
    window: Seq<Seq<Symbol>>,
    entries: Seq<PaytableEntry>,
    bet: u64,
    n: int,
)
    requires
        0 <= n,
    ensures
        0 <= spec_payout_upto(window, entries, bet, n),
        spec_payout_upto(window, entries, bet, n) <= n * ((bet as int) * spec_table_max(entries)),
    decreases n,
{
    let cap = (bet as int) * spec_table_max(entries);
    if n == 0 {
        assert(0 * cap == 0) by (nonlinear_arith);
    } else {
        lemma_payout_upto_bounds(window, entries, bet, n - 1);
        lemma_row_payout_bounds(window[n - 1], entries, bet);
        assert((n - 1) * cap + cap == n * cap) by (nonlinear_arith);
    }
}

/// Payout non-negativity: with non-negative multipliers (which the table
/// type guarantees) no window can price below zero, for any bet.
pub proof fn lemma_payout_nonnegative(
    window: Seq<Seq<Symbol>>,
    entries: Seq<PaytableEntry>,
    bet: u64,
)
    ensures
        spec_payout(window, entries, bet) >= 0,
{
    lemma_payout_upto_bounds(window, entries, bet, window.len() as int);
}

/// Prices a window row by row: a row pays `bet` times the multiplier of
/// the matched entry, and the rows' prices add up. Only the first three
/// columns of each row take part in the match rule.
#[verifier::loop_isolation(false)]
pub fn evaluate_payout(window: &Vec<Vec<Symbol>>, paytable: &Paytable, bet: u64) -> (r: u64)
    requires
        forall|i: int| 0 <= i < window@.len() ==> (#[trigger] window@[i])@.len() >= 3,
        window@.len() * ((bet as int) * spec_table_max(paytable.0@)) <= u64::MAX,
    ensures
        r == spec_payout(window_view(window@), paytable.0@, bet),
{
    let rows = window.len();
    let ghost wv = window_view(window@);
    let ghost entries = paytable.0@;
    let ghost cap = (bet as int) * spec_table_max(entries);
    proof {
        lemma_find_le_max(entries, 0, 0);
        assert(0 <= cap) by (nonlinear_arith)
            requires
                bet >= 0,
                spec_table_max(entries) >= 0,
                cap == (bet as int) * spec_table_max(entries),
        ;
    }
    let mut total: u64 = 0;
    let mut r: usize = 0;
    while r < rows
        invariant
            r <= rows,
            total == spec_payout_upto(wv, entries, bet, r as int),
            total <= r as int * cap,
        decreases rows - r,
    {
        proof {
            assert(r as int * cap + cap == (r as int + 1) * cap) by (nonlinear_arith);
            assert((r as int + 1) * cap <= rows as int * cap) by (nonlinear_arith)
                requires
                    r as int + 1 <= rows as int,
                    cap >= 0,
            ;
        }
        let row = &window[r];
        let a = row[0];
        let b = row[1];
        let c = row[2];
        let all_same = match (a, b, c) {
            (Symbol::Wild, _, _) | (_, Symbol::Wild, _) | (_, _, Symbol::Wild) => true,
            _ => a == b && b == c,
        };
        proof {
            assert(all_same == spec_row_match(wv[r as int][0], wv[r as int][1], wv[r as int][2]));
        }
        if all_same {
            let sym = if a == Symbol::Wild {
                b
            } else {
                a
            };
            match paytable.find_multiplier(sym.to_index(), 3) {
                Some(mult) => {
                    proof {
                        lemma_find_le_max(
                            entries,
                            spec_symbol_index(spec_effective_symbol(wv[r as int][0], wv[r as int][1])),
                            3,
                        );
                        assert((bet as int) * (mult as int) <= cap) by (nonlinear_arith)
                            requires
                                0 <= mult as int <= spec_table_max(entries),
                                bet >= 0,
                                cap == (bet as int) * spec_table_max(entries),
                        ;
                    }
                    total = total + bet * mult;
                },
                None => {},
            }
        }
        proof {
            assert(spec_payout_upto(wv, entries, bet, r as int + 1) == spec_payout_upto(
                wv,
                entries,
                bet,
                r as int,
            ) + spec_row_payout(wv[r as int], entries, bet));
        }
        r = r + 1;
    }
    total
}

/// One spin: builds the window for the randomness state and prices it.
/// The line count is accepted for interface compatibility and does not
/// currently alter the payout.
pub fn spin_once(rng: &ProvablyFairRng, params: &EngineParams, bet: u64, _lines: u32) -> (out:
    SpinOutcome)
    requires
        params.reels.wf(),
        params.reels.reels@.len() >= 3,
        params.reels.rows * ((bet as int) * spec_table_max(params.paytable.0@)) <= u64::MAX,
    ensures
        window_view(out.reel_window@) == spec_window_of(
            rng.server_seed@,
            rng.client_seed@,
            rng.nonce,
            params.reels.strips(),
            params.reels.rows as nat,
        ),
        out.payout == spec_payout(
            spec_window_of(
                rng.server_seed@,
                rng.client_seed@,
                rng.nonce,
                params.reels.strips(),
                params.reels.rows as nat,
            ),
            params.paytable.0@,
            bet,
        ),
{
    let window = compute_reel_window(rng, &params.reels);
    let payout = evaluate_payout(&window, &params.paytable, bet);
    SpinOutcome { reel_window: window, payout }
}

/// One spin straight from raw seed material: behaviourally identical to
/// constructing the randomness state first and spinning with it.
pub fn spin_with_seeds(
    server_seed: &str,
    client_seed: &str,
    nonce: u64,
    params: &EngineParams,
    bet: u64,
    lines: u32,
) -> (out: SpinOutcome)
    requires
        params.reels.wf(),
        params.reels.reels@.len() >= 3,
        params.reels.rows * ((bet as int) * spec_table_max(params.paytable.0@)) <= u64::MAX,
    ensures
        window_view(out.reel_window@) == spec_window_of(
            server_seed@,
            client_seed@,
            nonce,
            params.reels.strips(),
            params.reels.rows as nat,
        ),
        out.payout == spec_payout(
            spec_window_of(
                server_seed@,
                client_seed@,
                nonce,
                params.reels.strips(),
                params.reels.rows as nat,
            ),
            params.paytable.0@,
            bet,
        ),
{
    let rng = ProvablyFairRng::new(server_seed, client_seed, nonce);
    spin_once(&rng, params, bet, lines)
}

/// The indices of one window row.
pub open spec fn row_indices(row: Seq<Symbol>) -> Seq<u8> {
    Seq::new(row.len(), |j: int| spec_symbol_index(row[j]))
}

/// A whole window as symbol indices, row-major.
pub open spec fn indices_of_window(w: Seq<Seq<Symbol>>) -> Seq<Seq<u8>> {
    Seq::new(w.len(), |r: int| row_indices(w[r]))
}

/// The recomputed window of a seed/layout tuple, as symbol indices: what
/// a fairness audit compares a published outcome against.
pub open spec fn spec_window_indices(
    server: Seq<char>,
    client: Seq<char>,
    nonce: u64,
    strips: Seq<Seq<Symbol>>,
    rows: nat,
) -> Seq<Seq<u8>> {
    indices_of_window(spec_window_of(server, client, nonce, strips, rows))
}

/// A grid of owned index rows, as a sequence of byte sequences.
pub open spec fn indices_view(v: Seq<Vec<u8>>) -> Seq<Seq<u8>> {
    Seq::new(v.len(), |i: int| v[i]@)
}

/// Converts a window to its symbol indices, row-major.
#[verifier::loop_isolation(false)]
pub fn window_to_indices(window: &Vec<Vec<Symbol>>) -> (v: Vec<Vec<u8>>)
    ensures
        indices_view(v@) == indices_of_window(window_view(window@)),
{
    let mut v: Vec<Vec<u8>> = Vec::new();
    let mut r: usize = 0;
    while r < window.len()
        invariant
            v@.len() == r,
            r <= window@.len(),
            forall|x: int| 0 <= x < r ==> (#[trigger] v@[x])@ == row_indices(window@[x]@),
        decreases window@.len() - r,
    {
        let row = &window[r];
        let mut out_row: Vec<u8> = Vec::new();
        let mut j: usize = 0;
        while j < row.len()
            invariant
                out_row@.len() == j,
                j <= row@.len(),
                forall|y: int| 0 <= y < j ==> #[trigger] out_row@[y] == spec_symbol_index(row@[y]),
                r < window@.len(),
                row == &window[r as int],
            decreases row@.len() - j,
        {
            out_row.push(row[j].to_index());
            j = j + 1;
        }
        proof {
            assert(out_row@ =~= row_indices(window@[r as int]@));
        }
        v.push(out_row);
        r = r + 1;
    }
    proof {
        assert(indices_view(v@) =~= indices_of_window(window_view(window@)));
    }
    v
}

/// Compares two index grids for exact, index-for-index equality.
#[verifier::loop_isolation(false)]
fn indices_equal(a: &Vec<Vec<u8>>, b: &[Vec<u8>]) -> (eq: bool)
    ensures
        eq == (indices_view(a@) == indices_view(b@)),
{
    if a.len() != b.len() {
        proof {
            assert(indices_view(a@).len() != indices_view(b@).len());
        }
        return false;
    }
    let mut i: usize = 0;
    while i < a.len()
        invariant
            i <= a@.len(),
            a@.len() == b@.len(),
            forall|x: int| 0 <= x < i ==> (#[trigger] a@[x])@ == b@[x]@,
        decreases a@.len() - i,
    {
        let ra = &a[i];
        let rb = &b[i];
        if ra.len() != rb.len() {
            proof {
                assert(indices_view(a@)[i as int] == a@[i as int]@);
                assert(indices_view(b@)[i as int] == b@[i as int]@);
            }
            return false;
        }
        let mut j: usize = 0;
        while j < ra.len()
            invariant
                j <= ra@.len(),
                ra@.len() == rb@.len(),
                forall|y: int| 0 <= y < j ==> #[trigger] ra@[y] == rb@[y],
                i < a@.len(),
                a@.len() == b@.len(),
                ra == &a[i as int],
                rb == &b[i as int],
            decreases ra@.len() - j,
        {
            if ra[j] != rb[j] {
                proof {
                    assert(indices_view(a@)[i as int][j as int] != indices_view(
                        b@,
                    )[i as int][j as int]);
                }
                return false;
            }
            j = j + 1;
        }
        proof {
            assert(a@[i as int]@ =~= b@[i as int]@);
        }
        i = i + 1;
    }
    proof {
        assert(indices_view(a@) =~= indices_view(b@));
    }
    true
}

/// Pointwise verification: two index grids are equal exactly when their
/// shapes agree and every single index agrees, so a published window
/// verifies against the recomputed one if and only if no symbol of it
/// was altered.
pub proof fn lemma_verify_pointwise(expected: Seq<Seq<u8>>, actual: Seq<Seq<u8>>)
    ensures
        (expected == actual) <==> (expected.len() == actual.len() && (forall|i: int|
            0 <= i < actual.len() ==> (#[trigger] expected[i]).len() == actual[i].len()) && (forall|
            i: int,
            j: int,
        |
            0 <= i < actual.len() && 0 <= j < actual[i].len() ==> #[trigger] expected[i][j]
                == actual[i][j])),
{
    if expected.len() == actual.len() && (forall|i: int|
        0 <= i < actual.len() ==> (#[trigger] expected[i]).len() == actual[i].len()) && (forall|
        i: int,
        j: int,
    |
        0 <= i < actual.len() && 0 <= j < actual[i].len() ==> #[trigger] expected[i][j]
            == actual[i][j]) {
        assert forall|i: int| 0 <= i < actual.len() implies #[trigger] expected[i] == actual[i] by {
            assert(expected[i] =~= actual[i]);
        }
        assert(expected =~= actual);
    }
}

/// The fairness audit: recomputes the window for revealed seed material
/// and reports whether it equals, index for index, the published one.
/// Any mismatch, including a wrong shape, yields `false`.
pub fn verify_reels(
    server_seed: &str,
    client_seed: &str,
    nonce: u64,
    reels: &ReelsConfig,
    expected_indices: &[Vec<u8>],
) -> (ok: bool)
    requires
        reels.wf(),
    ensures
        ok == (indices_view(expected_indices@) == spec_window_indices(
            server_seed@,
            client_seed@,
            nonce,
            reels.strips(),
            reels.rows as nat,
        )),
{
    let rng = ProvablyFairRng::new(server_seed, client_seed, nonce);
    let window = compute_reel_window(&rng, reels);
    let actual_indices = window_to_indices(&window);
    indices_equal(&actual_indices, expected_indices)
}

} // verus!
