use vstd::prelude::*;
use crate::tables::{FROUND_CONSTANTS, SHIFT_ROWS_LANES};
use crate::trits::{sadd, smul, strit_digit, strit_wf, Strit};

verus! {

/// Every cell of the sequence is a well-formed bit-sliced trit.
pub open spec fn cells_wf(s: Seq<Strit>) -> bool {
    forall|i: int| 0 <= i < s.len() ==> strit_wf(#[trigger] s[i])
}

/// Lane `l` of a sequence of cells, as the sequence of its digits.
pub open spec fn lane_of(s: Seq<Strit>, l: int) -> Seq<nat> {
    Seq::new(s.len(), |i: int| strit_digit(s[i], l))
}

/// The new values of one tryte `(a, b, c)` under the substitution
/// layer, in the order they are written back: `(g, f, e)`.
pub open spec fn tryte_sub(a: nat, b: nat, c: nat) -> (nat, nat, nat) {
    let d = sadd(2, a);
    let e = sadd(smul(d, b), c);
    let f = sadd(smul(e, b), d);
    let g = sadd(smul(e, f), b);
    (g, f, e)
}

/// The substitution layer over one lane of the state: each disjoint
/// group of three consecutive cells is replaced as `tryte_sub` says.
pub open spec fn spec_sub_trytes(d: Seq<nat>) -> Seq<nat> {
    Seq::new(d.len(), |i: int| {
        let t = 3 * (i / 3);
        let s = tryte_sub(d[t], d[t + 1], d[t + 2]);
        if i % 3 == 0 {
            s.0
        } else if i % 3 == 1 {
            s.1
        } else {
            s.2
        }
    })
}

/// Source cell of position `i` under the shuffle, kept inside the
/// state by construction.
pub open spec fn shuffle_src(i: int) -> int {
    if SHIFT_ROWS_LANES[i] < 729 {
        SHIFT_ROWS_LANES[i] as int
    } else {
        0
    }
}

/// One lane of the state after the fused row- and lane-shuffle.
pub open spec fn spec_shifted(d: Seq<nat>) -> Seq<nat> {
    Seq::new(d.len(), |i: int| d[shuffle_src(i)])
}

/// Parity (ternary sum) of the three rows of column `co` in slice `sl`.
pub open spec fn spec_colsum(d: Seq<nat>, sl: int, co: int) -> nat {
    sadd(sadd(d[27 * sl + co], d[27 * sl + 9 + co]), d[27 * sl + 18 + co])
}

/// The parity addition: every cell accumulates the parity of the column
/// to its left in the same slice and of the next column in the next
/// slice, both wrapping.
pub open spec fn spec_parity_add(d: Seq<nat>) -> Seq<nat> {
    Seq::new(d.len(), |i: int| {
        let sl = i / 27;
        let co = i % 9;
        sadd(sadd(d[i], spec_colsum(d, sl, (co + 8) % 9)), spec_colsum(d, (sl + 1) % 27, (co + 1) % 9))
    })
}

/// The diffusion layer: the shuffle, then the parity addition.
pub open spec fn spec_acp(d: Seq<nat>) -> Seq<nat> {
    spec_parity_add(spec_shifted(d))
}

/// Whether round `r` asks the first-row cell of column `co` in slice
/// `sl` for an increment.
pub open spec fn rc_inc(r: int, sl: int, co: int) -> bool {
    FROUND_CONSTANTS[r][co][0] & (1u32 << (sl as u32)) != 0
}

/// Whether round `r` asks the first-row cell of column `co` in slice
/// `sl` for a decrement.
pub open spec fn rc_dec(r: int, sl: int, co: int) -> bool {
    FROUND_CONSTANTS[r][co][1] & (1u32 << (sl as u32)) != 0
}

/// Round-constant injection for round `r`: first-row cells are
/// incremented, decremented or left as the two masks say; other rows
/// are untouched.
pub open spec fn spec_arc(d: Seq<nat>, r: int) -> Seq<nat> {
    Seq::new(d.len(), |i: int| {
        let sl = i / 27;
        let co = i % 27;
        if co < 9 {
            if rc_inc(r, sl, co) {
                sadd(1, d[i])
            } else if rc_dec(r, sl, co) {
                sadd(2, d[i])
            } else {
                d[i]
            }
        } else {
            d[i]
        }
    })
}

/// One full round: substitution, diffusion, round-constant injection.
pub open spec fn spec_round(d: Seq<nat>, r: int) -> Seq<nat> {
    spec_arc(spec_acp(spec_sub_trytes(d)), r)
}

/// The permutation after its first `k` rounds.
pub open spec fn spec_perm(d: Seq<nat>, k: nat) -> Seq<nat>
    decreases k,
{
    if k == 0 {
        d
    } else {
        spec_round(spec_perm(d, (k - 1) as nat), k - 1)
    }
}

/// One lane of the state with its rate portion cleared.
pub open spec fn spec_nullify(d: Seq<nat>) -> Seq<nat> {
    Seq::new(d.len(), |i: int| if i < 243 { 0 } else { d[i] })
}

/// The absorb phase over one lane, one input trit at a time: a full
/// rate triggers the permutation and clears the rate; otherwise the
/// next trit lands at the cursor. Returns the state and cursor left
/// behind.
pub open spec fn spec_absorb(d: Seq<nat>, idx: nat, input: Seq<nat>, rounds: nat) -> (Seq<nat>, nat)
    decreases input.len(), (if idx == 243 { 1int } else { 0int }),
{
    if input.len() == 0 {
        (d, idx)
    } else if idx == 243 {
        spec_absorb(spec_nullify(spec_perm(d, rounds)), 0, input, rounds)
    } else {
        spec_absorb(d.update(idx as int, input[0]), idx + 1, input.drop_first(), rounds)
    }
}

/// The squeeze phase over one lane, one output trit at a time: a spent
/// rate triggers the permutation (without clearing anything); otherwise
/// the cell at the cursor is emitted. Returns the output drawn and the
/// state and cursor left behind.
pub open spec fn spec_squeeze(d: Seq<nat>, idx: nat, n: nat, rounds: nat) -> (Seq<nat>, Seq<nat>, nat)
    decreases n, (if idx == 243 { 1int } else { 0int }),
{
    if n == 0 {
        (Seq::empty(), d, idx)
    } else if idx == 243 {
        spec_squeeze(spec_perm(d, rounds), 0, n, rounds)
    } else {
        let rest = spec_squeeze(d, idx + 1, (n - 1) as nat, rounds);
        (seq![d[idx as int]] + rest.0, rest.1, rest.2)
    }
}

/// Finalization over one lane: the padding digit 1 goes through the
/// absorb path, then the cursor is forced to the rate boundary so the
/// next squeeze permutes first.
pub open spec fn spec_finalize(d: Seq<nat>, idx: nat, rounds: nat) -> (Seq<nat>, nat) {
    (spec_absorb(d, idx, seq![1nat], rounds).0, 243nat)
}

/// Absorbing a concatenation is absorbing its parts in turn: feeding a
/// message in any split of chunks leaves the same state and cursor as
/// feeding it whole.
pub proof fn lemma_absorb_concat(d: Seq<nat>, idx: nat, a: Seq<nat>, b: Seq<nat>, rounds: nat)
    ensures
        spec_absorb(d, idx, a + b, rounds) == spec_absorb(
            spec_absorb(d, idx, a, rounds).0,
            spec_absorb(d, idx, a, rounds).1,
            b,
            rounds,
        ),
    decreases a.len() + b.len(), (if idx == 243 { 1int } else { 0int }),
{
    if a.len() == 0 {
        assert(a + b =~= b);
        assert(spec_absorb(d, idx, a, rounds) == (d, idx));
    } else if idx == 243 {
        lemma_absorb_concat(spec_nullify(spec_perm(d, rounds)), 0, a, b, rounds);
        assert((a + b).len() > 0);
    } else {
        assert((a + b)[0] == a[0]);
        assert((a + b).drop_first() =~= a.drop_first() + b);
        lemma_absorb_concat(d.update(idx as int, a[0]), idx + 1, a.drop_first(), b, rounds);
    }
}

/// Squeezing `n1 + n2` trits draws the same output, and leaves the same
/// state and cursor, as squeezing `n1` and then `n2`.
pub proof fn lemma_squeeze_concat(d: Seq<nat>, idx: nat, n1: nat, n2: nat, rounds: nat)
    ensures
        ({
            let a = spec_squeeze(d, idx, n1, rounds);
            let b = spec_squeeze(a.1, a.2, n2, rounds);
            let c = spec_squeeze(d, idx, n1 + n2, rounds);
            c.0 == a.0 + b.0 && c.1 == b.1 && c.2 == b.2
        }),
    decreases n1, (if idx == 243 { 1int } else { 0int }),
{
    if n1 == 0 {
        let b = spec_squeeze(d, idx, n2, rounds);
        assert(Seq::<nat>::empty() + b.0 =~= b.0);
    } else if idx == 243 {
        lemma_squeeze_concat(spec_perm(d, rounds), 0, n1, n2, rounds);
        assert(n1 + n2 > 0);
    } else {
        let a1 = spec_squeeze(d, idx + 1, (n1 - 1) as nat, rounds);
        let b = spec_squeeze(a1.1, a1.2, n2, rounds);
        lemma_squeeze_concat(d, idx + 1, (n1 - 1) as nat, n2, rounds);
        assert((n1 + n2 - 1) as nat == (n1 - 1) as nat + n2);
        assert(seq![d[idx as int]] + (a1.0 + b.0) =~= (seq![d[idx as int]] + a1.0) + b.0);
    }
}

/// One lane of a fresh state: 729 zero digits.
pub open spec fn zero_lane() -> Seq<nat> {
    Seq::new(729, |i: int| 0nat)
}

} // verus!
