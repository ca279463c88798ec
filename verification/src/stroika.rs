use vstd::prelude::*;
use crate::model::{
    cells_wf, lane_of, lemma_absorb_concat, lemma_squeeze_concat, shuffle_src, spec_absorb,
    spec_acp, spec_arc, spec_colsum, spec_finalize, spec_nullify, spec_perm, spec_round,
    spec_shifted, spec_squeeze, spec_sub_trytes, tryte_sub, zero_lane,
};
use crate::tables::{FROUND_CONSTANTS, NUM_ROUNDS, SHIFT_ROWS_LANES, STATE_SIZE, TROIKA_RATE};
use crate::trits::{strit_digit, strit_wf, Strit};

verus! {

/// The failure a constructor reports when asked for more rounds than
/// the algorithm defines constants for.
#[derive(Clone, Copy, Debug, PartialEq, Eq, Structural)]
pub struct RoundCountError;

/// A fresh all-zero state vector of 729 cells.
fn zero_state() -> (v: Vec<Strit>)
    ensures
        v@.len() == 729,
        cells_wf(v@),
        forall|l: int| 0 <= l < 64 ==> lane_of(v@, l) == zero_lane(),
{
    let mut v: Vec<Strit> = Vec::new();
    for k in 0..STATE_SIZE
        invariant
            v@.len() == k,
            forall|i: int| 0 <= i < k ==> strit_wf(#[trigger] v@[i]),
            forall|i: int, l: int| 0 <= i < k && 0 <= l < 64 ==> #[trigger] strit_digit(v@[i], l) == 0,
    {
        v.push(Strit::ZERO());
    }
    proof {
        assert forall|l: int| 0 <= l < 64 implies lane_of(v@, l) == zero_lane() by {
            assert(lane_of(v@, l) =~= zero_lane());
        }
    }
    v
}

/// The cell that position `i` draws from under the fused row- and
/// lane-shuffle of the diffusion layer.
fn shuffle_read(state: &Vec<Strit>, i: usize) -> (r: Strit)
    requires
        state@.len() == 729,
        i < 729,
    ensures
        r == state@[shuffle_src(i as int)],
{
    let j = SHIFT_ROWS_LANES[i];
    if j < 729 {
        state[j]
    } else {
        state[0]
    }
}

/// Parity of column `co` of slice `sl` of the shuffled state.
fn col_parity(state: &Vec<Strit>, sl: usize, co: usize) -> (r: Strit)
    requires
        state@.len() == 729,
        cells_wf(state@),
        sl < 27,
        co < 9,
    ensures
        strit_wf(r),
        forall|l: int|
            0 <= l < 64 ==> #[trigger] strit_digit(r, l) == spec_colsum(
                spec_shifted(lane_of(state@, l)),
                sl as int,
                co as int,
            ),
{
    let x = shuffle_read(state, 27 * sl + co);
    let y = shuffle_read(state, 27 * sl + 9 + co);
    let z = shuffle_read(state, 27 * sl + 18 + co);
    proof {
        assert(strit_wf(state@[shuffle_src(27 * sl + co)]));
        assert(strit_wf(state@[shuffle_src(27 * sl + 9 + co)]));
        assert(strit_wf(state@[shuffle_src(27 * sl + 18 + co)]));
    }
    x.add(&y).add(&z)
}

/// The bit-sliced sponge: a 729-cell state, a cursor into the rate
/// portion, and the configured round count.
#[derive(Debug)]
pub struct Stroika {
    num_rounds: usize,
    idx: usize,
    state: Vec<Strit>,
}

impl Default for Stroika {
    /// A sponge with the maximum round count, a zeroed state and the
    /// cursor at 0: the same condition `reset` restores.
    fn default() -> (r: Stroika)
        ensures
            r.inv(),
            r.cursor() == 0,
            r.rounds() == 24,
            forall|l: int| 0 <= l < 64 ==> r.lane(l) == zero_lane(),
    {
        Stroika { num_rounds: NUM_ROUNDS, idx: 0, state: zero_state() }
    }
}

impl Stroika {
    /// The state holds 729 well-formed cells, the cursor stays within
    /// the rate, and the round count within the defined maximum.
    pub closed spec fn inv(self) -> bool {
        &&& self.state@.len() == 729
        &&& cells_wf(self.state@)
        &&& self.idx <= 243
        &&& self.num_rounds <= 24
    }

    /// Lane `l` of the state, as its sequence of 729 digits.
    pub closed spec fn lane(self, l: int) -> Seq<nat> {
        lane_of(self.state@, l)
    }

    /// The cursor into the rate portion.
    pub closed spec fn cursor(self) -> nat {
        self.idx as nat
    }

    /// The configured number of permutation rounds.
    pub closed spec fn rounds(self) -> nat {
        self.num_rounds as nat
    }

    /// The raw state cells.
    pub closed spec fn cells(self) -> Seq<Strit> {
        self.state@
    }

    /// A sponge with the given round count and a zeroed state, or the
    /// error if and only if the count exceeds the defined maximum.
    pub fn new(num_rounds: usize) -> (r: Result<Stroika, RoundCountError>)
        ensures
            r is Ok <==> num_rounds <= 24,
            r matches Ok(s) ==> {
                &&& s.inv()
                &&& s.cursor() == 0
                &&& s.rounds() == num_rounds
                &&& forall|l: int| 0 <= l < 64 ==> s.lane(l) == zero_lane()
            },
    {
        if num_rounds > NUM_ROUNDS {
            Err(RoundCountError)
        } else {
            Ok(Stroika { num_rounds, idx: 0, state: zero_state() })
        }
    }

    /// Read-only snapshot of the raw state cells.
    pub fn state(&self) -> (r: &[Strit])
        ensures
            r@ == self.cells(),
            self.inv() ==> r@.len() == 729,
            forall|l: int| #[trigger] lane_of(r@, l) == self.lane(l),
    {
        self.state.as_slice()
    }

    /// Cursor to 0 and state to all-zero: the just-constructed
    /// condition, with the round count kept.
    pub fn reset(&mut self)
        requires
            old(self).inv(),
        ensures
            final(self).inv(),
            final(self).cursor() == 0,
            final(self).rounds() == old(self).rounds(),
            forall|l: int| 0 <= l < 64 ==> final(self).lane(l) == zero_lane(),
    {
        self.idx = 0;
        self.state = zero_state();
    }

    /// Clears the rate portion; the capacity portion is left untouched.
    fn nullify_rate(&mut self)
        requires
            old(self).inv(),
        ensures
            final(self).inv(),
            final(self).cursor() == old(self).cursor(),
            final(self).rounds() == old(self).rounds(),
            forall|l: int| 0 <= l < 64 ==> final(self).lane(l) == spec_nullify(old(self).lane(l)),
    {
        let ghost orig = self.state@;
        for k in 0..TROIKA_RATE
            invariant
                self.state@.len() == 729,
                self.idx == old(self).idx,
                self.num_rounds == old(self).num_rounds,
                self.idx <= 243,
                self.num_rounds <= 24,
                forall|i: int| k <= i < 729 ==> self.state@[i] == orig[i],
                forall|i: int| 0 <= i < k ==> strit_wf(#[trigger] self.state@[i]),
                forall|i: int, l: int|
                    0 <= i < k && 0 <= l < 64 ==> #[trigger] strit_digit(self.state@[i], l) == 0,
                cells_wf(orig),
                orig.len() == 729,
        {
            self.state[k] = Strit::ZERO();
        }
        proof {
            assert forall|i: int| 0 <= i < self.state@.len() implies strit_wf(
                #[trigger] self.state@[i],
            ) by {
                if i >= 243 {
                    assert(self.state@[i] == orig[i]);
                }
            }
            assert forall|l: int| 0 <= l < 64 implies self.lane(l) == spec_nullify(
                lane_of(orig, l),
            ) by {
                assert(self.lane(l) =~= spec_nullify(lane_of(orig, l)));
            }
        }
    }

    /// The S-box: one tryte `(a, b, c)` becomes `(g, f, e)`, combined
    /// from ring operations alone.
    fn sub_tryte(a: Strit, b: Strit, c: Strit) -> (r: (Strit, Strit, Strit))
        requires
            strit_wf(a),
            strit_wf(b),
            strit_wf(c),
        ensures
            strit_wf(r.0),
            strit_wf(r.1),
            strit_wf(r.2),
            forall|l: int|
                0 <= l < 64 ==> #[trigger] strit_digit(r.0, l) == tryte_sub(
                    strit_digit(a, l),
                    strit_digit(b, l),
                    strit_digit(c, l),
                ).0,
            forall|l: int|
                0 <= l < 64 ==> #[trigger] strit_digit(r.1, l) == tryte_sub(
                    strit_digit(a, l),
                    strit_digit(b, l),
                    strit_digit(c, l),
                ).1,
            forall|l: int|
                0 <= l < 64 ==> #[trigger] strit_digit(r.2, l) == tryte_sub(
                    strit_digit(a, l),
                    strit_digit(b, l),
                    strit_digit(c, l),
                ).2,
    {
        let d = a.dec();
        let e = d.mul(&b).add(&c);
        let f = e.mul(&b).add(&d);
        let g = e.mul(&f).add(&b);
        (g, f, e)
    }

    /// The substitution layer over the whole state, tryte by tryte.
    #[verifier::rlimit(100)]
    fn sub_trytes(&mut self)
        requires
            old(self).inv(),
        ensures
            final(self).inv(),
            final(self).cursor() == old(self).cursor(),
            final(self).rounds() == old(self).rounds(),
            forall|l: int|
                0 <= l < 64 ==> final(self).lane(l) == spec_sub_trytes(old(self).lane(l)),
    {
        let ghost orig = self.state@;
        for t in 0..243usize
            invariant
                self.state@.len() == 729,
                self.idx == old(self).idx,
                self.num_rounds == old(self).num_rounds,
                self.idx <= 243,
                self.num_rounds <= 24,
                cells_wf(orig),
                orig.len() == 729,
                forall|i: int| 3 * t <= i < 729 ==> self.state@[i] == orig[i],
                forall|i: int| 0 <= i < 3 * t ==> strit_wf(#[trigger] self.state@[i]),
                forall|i: int, l: int|
                    0 <= i < 3 * t && 0 <= l < 64 ==> #[trigger] strit_digit(self.state@[i], l)
                        == spec_sub_trytes(lane_of(orig, l))[i],
        {
            let a = self.state[3 * t];
            let b = self.state[3 * t + 1];
            let c = self.state[3 * t + 2];
            proof {
                assert(self.state@[3 * t as int] == orig[3 * t as int]);
                assert(self.state@[3 * t + 1 as int] == orig[3 * t + 1 as int]);
                assert(self.state@[3 * t + 2 as int] == orig[3 * t + 2 as int]);
                assert(strit_wf(orig[3 * t as int]));
                assert(strit_wf(orig[3 * t + 1 as int]));
                assert(strit_wf(orig[3 * t + 2 as int]));
            }
            let (g, f, e) = Self::sub_tryte(a, b, c);
            self.state[3 * t] = g;
            self.state[3 * t + 1] = f;
            self.state[3 * t + 2] = e;
            proof {
                assert forall|i: int, l: int|
                    0 <= i < 3 * (t + 1) && 0 <= l < 64 implies #[trigger] strit_digit(
                    self.state@[i],
                    l,
                ) == spec_sub_trytes(lane_of(orig, l))[i] by {
                    if i >= 3 * t {
                        let d0 = lane_of(orig, l);
                        assert(3 * (i / 3) == 3 * t) by {
                            assert(3 * t <= i < 3 * t + 3);
                        }
                        assert(d0[3 * t] == strit_digit(orig[3 * t], l));
                        assert(d0[3 * t + 1] == strit_digit(orig[3 * t + 1], l));
                        assert(d0[3 * t + 2] == strit_digit(orig[3 * t + 2], l));
                    }
                }
            }
        }
        proof {
            assert forall|l: int| 0 <= l < 64 implies self.lane(l) == spec_sub_trytes(
                lane_of(orig, l),
            ) by {
                assert(self.lane(l) =~= spec_sub_trytes(lane_of(orig, l)));
            }
        }
    }

    /// Round-constant injection: the two masks of round `round` ask the
    /// first-row cell of each slice and column for an increment, a
    /// decrement, or nothing.
    #[verifier::rlimit(100)]
    fn add_round_constant(&mut self, round: usize)
        requires
            old(self).inv(),
            round < 24,
        ensures
            final(self).inv(),
            final(self).cursor() == old(self).cursor(),
            final(self).rounds() == old(self).rounds(),
            forall|l: int|
                0 <= l < 64 ==> final(self).lane(l) == spec_arc(old(self).lane(l), round as int),
    {
        let ghost orig = self.state@;
        for j in 0..243usize
            invariant
                self.state@.len() == 729,
                self.idx == old(self).idx,
                self.num_rounds == old(self).num_rounds,
                self.idx <= 243,
                self.num_rounds <= 24,
                round < 24,
                cells_wf(orig),
                cells_wf(self.state@),
                orig.len() == 729,
                forall|i: int|
                    0 <= i < 729 && !(i % 27 < 9 && 9 * (i / 27) + i % 27 < j)
                        ==> self.state@[i] == orig[i],
                forall|i: int, l: int|
                    0 <= i < 729 && i % 27 < 9 && 9 * (i / 27) + i % 27 < j && 0 <= l < 64
                        ==> #[trigger] strit_digit(self.state@[i], l) == spec_arc(
                        lane_of(orig, l),
                        round as int,
                    )[i],
        {
            let slice = j / 9;
            let col = j % 9;
            let idx = 27 * slice + col;
            let ghost pre = self.state@;
            if FROUND_CONSTANTS[round][col][0] & (1u32 << (slice as u32)) != 0 {
                let x = self.state[idx].inc();
                self.state[idx] = x;
            } else if FROUND_CONSTANTS[round][col][1] & (1u32 << (slice as u32)) != 0 {
                let x = self.state[idx].dec();
                self.state[idx] = x;
            }
            proof {
                assert(idx as int % 27 == col as int && idx as int / 27 == slice as int);
                assert(self.state@[idx as int] == pre[idx as int] || strit_wf(
                    self.state@[idx as int],
                ));
                assert forall|i: int, l: int|
                    0 <= i < 729 && i % 27 < 9 && 9 * (i / 27) + i % 27 < j + 1 && 0 <= l
                        < 64 implies #[trigger] strit_digit(self.state@[i], l) == spec_arc(
                    lane_of(orig, l),
                    round as int,
                )[i] by {
                    if 9 * (i / 27) + i % 27 == j {
                        assert(i == idx as int);
                        assert(lane_of(orig, l)[i] == strit_digit(orig[i], l));
                        assert(pre[i] == orig[i]);
                    } else {
                        assert(self.state@[i] == pre[i]);
                    }
                }
            }
        }
        proof {
            assert forall|l: int| 0 <= l < 64 implies self.lane(l) == spec_arc(
                lane_of(orig, l),
                round as int,
            ) by {
                assert forall|i: int| 0 <= i < 729 implies self.lane(l)[i] == spec_arc(
                    lane_of(orig, l),
                    round as int,
                )[i] by {
                    if i % 27 < 9 {
                        assert(9 * (i / 27) + i % 27 < 243);
                    } else {
                        assert(self.state@[i] == orig[i]);
                    }
                }
                assert(self.lane(l) =~= spec_arc(lane_of(orig, l), round as int));
            }
        }
    }

    /// The diffusion layer: every cell of the shuffled state accumulates
    /// the parity of the column to its left in the same slice and of the
    /// next column in the next slice, both wrapping. The new state
    /// replaces the old only once all cells are computed.
    #[verifier::rlimit(100)]
    fn add_column_parity(&mut self)
        requires
            old(self).inv(),
        ensures
            final(self).inv(),
            final(self).cursor() == old(self).cursor(),
            final(self).rounds() == old(self).rounds(),
            forall|l: int| 0 <= l < 64 ==> final(self).lane(l) == spec_acp(old(self).lane(l)),
    {
        let ghost orig = self.state@;
        let mut parity: Vec<Strit> = Vec::new();
        for m in 0..243usize
            invariant
                self.state@ == orig,
                self.inv(),
                parity@.len() == m,
                forall|k: int| 0 <= k < m ==> strit_wf(#[trigger] parity@[k]),
                forall|k: int, l: int|
                    0 <= k < m && 0 <= l < 64 ==> #[trigger] strit_digit(parity@[k], l)
                        == spec_colsum(spec_shifted(lane_of(orig, l)), k / 9, k % 9),
        {
            parity.push(col_parity(&self.state, m / 9, m % 9));
        }
        let mut new_state: Vec<Strit> = Vec::new();
        for i in 0..729usize
            invariant
                self.state@ == orig,
                self.inv(),
                parity@.len() == 243,
                forall|k: int| 0 <= k < 243 ==> strit_wf(#[trigger] parity@[k]),
                forall|k: int, l: int|
                    0 <= k < 243 && 0 <= l < 64 ==> #[trigger] strit_digit(parity@[k], l)
                        == spec_colsum(spec_shifted(lane_of(orig, l)), k / 9, k % 9),
                new_state@.len() == i,
                forall|k: int| 0 <= k < i ==> strit_wf(#[trigger] new_state@[k]),
                forall|k: int, l: int|
                    0 <= k < i && 0 <= l < 64 ==> #[trigger] strit_digit(new_state@[k], l)
                        == spec_acp(lane_of(orig, l))[k],
        {
            let sl = i / 27;
            let co = i % 9;
            let x = shuffle_read(&self.state, i);
            let left = parity[9 * sl + (co + 8) % 9];
            let next = parity[9 * ((sl + 1) % 27) + (co + 1) % 9];
            proof {
                assert(strit_wf(orig[shuffle_src(i as int)]));
                assert((9 * (sl as int) + (co as int + 8) % 9) / 9 == sl as int
                    && (9 * (sl as int) + (co as int + 8) % 9) % 9 == (co as int + 8) % 9);
                assert((9 * (((sl as int) + 1) % 27) + (co as int + 1) % 9) / 9 == ((sl as int) + 1)
                    % 27 && (9 * (((sl as int) + 1) % 27) + (co as int + 1) % 9) % 9 == (co as int
                    + 1) % 9);
                assert(i as int / 27 == sl as int && i as int % 9 == co as int);
            }
            let cell = x.add(&left).add(&next);
            new_state.push(cell);
        }
        self.state = new_state;
        proof {
            assert forall|l: int| 0 <= l < 64 implies self.lane(l) == spec_acp(
                lane_of(orig, l),
            ) by {
                assert(self.lane(l) =~= spec_acp(lane_of(orig, l)));
            }
        }
    }

    /// Absorbs a sequence of cells of any length: whenever the rate is
    /// full, the state is permuted and the rate cleared; otherwise the
    /// next cell lands at the cursor. May be called repeatedly; chunks
    /// accumulate as if concatenated.
    pub fn absorb(&mut self, trits: &[Strit])
        requires
            old(self).inv(),
            cells_wf(trits@),
        ensures
            final(self).inv(),
            final(self).rounds() == old(self).rounds(),
            forall|l: int|
                0 <= l < 64 ==> #[trigger] final(self).lane(l) == spec_absorb(
                    old(self).lane(l),
                    old(self).cursor(),
                    lane_of(trits@, l),
                    old(self).rounds(),
                ).0,
            forall|l: int|
                0 <= l < 64 ==> final(self).cursor() == #[trigger] spec_absorb(
                    old(self).lane(l),
                    old(self).cursor(),
                    lane_of(trits@, l),
                    old(self).rounds(),
                ).1,
    {
        let ghost entry = *self;
        let n = trits.len();
        let mut ti: usize = 0;
        while ti < n
            invariant
                self.inv(),
                entry.inv(),
                n == trits@.len(),
                ti <= n,
                cells_wf(trits@),
                self.num_rounds == entry.num_rounds,
                forall|l: int|
                    0 <= l < 64 ==> #[trigger] self.lane(l) == spec_absorb(
                        entry.lane(l),
                        entry.cursor(),
                        lane_of(trits@, l).take(ti as int),
                        entry.rounds(),
                    ).0,
                forall|l: int|
                    0 <= l < 64 ==> self.cursor() == #[trigger] spec_absorb(
                        entry.lane(l),
                        entry.cursor(),
                        lane_of(trits@, l).take(ti as int),
                        entry.rounds(),
                    ).1,
            decreases n - ti,
        {
            let ghost pre = *self;
            if self.idx == TROIKA_RATE {
                self.permutation();
                let ghost s1 = *self;
                self.idx = 0;
                let ghost s2 = *self;
                self.nullify_rate();
                proof {
                    assert forall|l: int| 0 <= l < 64 implies #[trigger] self.lane(l)
                        == spec_nullify(spec_perm(pre.lane(l), entry.rounds())) by {
                        assert(s1.lane(l) == spec_perm(pre.lane(l), pre.rounds()));
                        assert(s2.lane(l) == s1.lane(l));
                        assert(self.lane(l) == spec_nullify(s2.lane(l)));
                    }
                }
            }
            let ghost mid = *self;
            let i = self.idx;
            let x = trits[ti];
            self.state[i] = x;
            self.idx = i + 1;
            proof {
                let r = entry.rounds();
                assert forall|l: int|
                    0 <= l < 64 implies #[trigger] self.lane(l) == spec_absorb(
                    entry.lane(l),
                    entry.cursor(),
                    lane_of(trits@, l).take(ti + 1),
                    r,
                ).0 && self.cursor() == spec_absorb(
                    entry.lane(l),
                    entry.cursor(),
                    lane_of(trits@, l).take(ti + 1),
                    r,
                ).1 by {
                    let d0 = entry.lane(l);
                    let i0 = entry.cursor();
                    let tl = lane_of(trits@, l);
                    let dx = tl[ti as int];
                    assert(dx == strit_digit(trits@[ti as int], l));
                    assert(tl.take(ti + 1) =~= tl.take(ti as int) + seq![dx]);
                    lemma_absorb_concat(d0, i0, tl.take(ti as int), seq![dx], r);
                    assert(spec_absorb(d0, i0, tl.take(ti as int), r) == (
                        pre.lane(l),
                        pre.cursor(),
                    ));
                    if pre.idx == 243 {
                        assert(spec_absorb(pre.lane(l), pre.cursor(), seq![dx], r) == spec_absorb(
                            spec_nullify(spec_perm(pre.lane(l), r)),
                            0,
                            seq![dx],
                            r,
                        ));
                        assert(mid.lane(l) == spec_nullify(spec_perm(pre.lane(l), r)));
                    } else {
                        assert(mid == pre);
                    }
                    assert(seq![dx].drop_first() =~= Seq::<nat>::empty());
                    let upd = mid.lane(l).update(mid.cursor() as int, dx);
                    assert(spec_absorb(mid.lane(l), mid.cursor(), seq![dx], r) == spec_absorb(
                        upd,
                        mid.cursor() + 1,
                        Seq::<nat>::empty(),
                        r,
                    ));
                    assert(spec_absorb(upd, mid.cursor() + 1, Seq::<nat>::empty(), r) == (
                        upd,
                        mid.cursor() + 1,
                    ));
                    assert(self.lane(l) =~= upd);
                    assert(self.cursor() == mid.cursor() + 1);
                }
                assert forall|l: int| 0 <= l < 64 implies self.cursor() == #[trigger] spec_absorb(
                    entry.lane(l),
                    entry.cursor(),
                    lane_of(trits@, l).take(ti + 1),
                    r,
                ).1 by {
                    assert(self.lane(l) == spec_absorb(
                        entry.lane(l),
                        entry.cursor(),
                        lane_of(trits@, l).take(ti + 1),
                        r,
                    ).0);
                }
            }
            ti += 1;
        }
        proof {
            assert forall|l: int| 0 <= l < 64 implies lane_of(trits@, l).take(n as int) == lane_of(
                trits@,
                l,
            ) by {
                assert(lane_of(trits@, l).take(n as int) =~= lane_of(trits@, l));
            }
        }
    }

    /// Appends the padding cell through the absorb path, then forces the
    /// cursor to the rate boundary so the next squeeze permutes first.
    /// Must be called once, after the last absorb and before the first
    /// squeeze.
    pub fn finalize(&mut self)
        requires
            old(self).inv(),
        ensures
            final(self).inv(),
            final(self).rounds() == old(self).rounds(),
            final(self).cursor() == 243,
            forall|l: int|
                0 <= l < 64 ==> #[trigger] final(self).lane(l) == spec_finalize(
                    old(self).lane(l),
                    old(self).cursor(),
                    old(self).rounds(),
                ).0,
    {
        let mut pad: Vec<Strit> = Vec::new();
        pad.push(Strit::ONE());
        self.absorb(pad.as_slice());
        let ghost sa = *self;
        self.idx = TROIKA_RATE;
        proof {
            assert forall|l: int| 0 <= l < 64 implies #[trigger] self.lane(l) == spec_finalize(
                old(self).lane(l),
                old(self).cursor(),
                old(self).rounds(),
            ).0 by {
                assert(self.lane(l) == sa.lane(l));
                assert(sa.lane(l) == spec_absorb(
                    old(self).lane(l),
                    old(self).cursor(),
                    lane_of(pad@, l),
                    old(self).rounds(),
                ).0);
                assert(lane_of(pad@, l) =~= seq![1nat]);
            }
        }
    }

    /// Fills the given buffer with output cells: whenever the rate is
    /// spent, the state is permuted (nothing is cleared); otherwise the
    /// cell at the cursor is emitted. May be called repeatedly; chunks
    /// continue one output stream.
    pub fn squeeze(&mut self, trits: &mut Vec<Strit>)
        requires
            old(self).inv(),
        ensures
            final(self).inv(),
            final(self).rounds() == old(self).rounds(),
            final(trits)@.len() == old(trits)@.len(),
            cells_wf(final(trits)@),
            forall|l: int|
                0 <= l < 64 ==> #[trigger] lane_of(final(trits)@, l) == spec_squeeze(
                    old(self).lane(l),
                    old(self).cursor(),
                    old(trits)@.len() as nat,
                    old(self).rounds(),
                ).0,
            forall|l: int|
                0 <= l < 64 ==> #[trigger] final(self).lane(l) == spec_squeeze(
                    old(self).lane(l),
                    old(self).cursor(),
                    old(trits)@.len() as nat,
                    old(self).rounds(),
                ).1,
            forall|l: int|
                0 <= l < 64 ==> final(self).cursor() == #[trigger] spec_squeeze(
                    old(self).lane(l),
                    old(self).cursor(),
                    old(trits)@.len() as nat,
                    old(self).rounds(),
                ).2,
    {
        let ghost entry = *self;
        let ghost torig = trits@;
        let n = trits.len();
        let mut j: usize = 0;
        while j < n
            invariant
                self.inv(),
                entry.inv(),
                n == trits@.len(),
                j <= n,
                self.num_rounds == entry.num_rounds,
                forall|i: int| 0 <= i < j ==> strit_wf(#[trigger] trits@[i]),
                forall|l: int|
                    0 <= l < 64 ==> #[trigger] lane_of(trits@, l).take(j as int) == spec_squeeze(
                        entry.lane(l),
                        entry.cursor(),
                        j as nat,
                        entry.rounds(),
                    ).0,
                forall|l: int|
                    0 <= l < 64 ==> #[trigger] self.lane(l) == spec_squeeze(
                        entry.lane(l),
                        entry.cursor(),
                        j as nat,
                        entry.rounds(),
                    ).1,
                forall|l: int|
                    0 <= l < 64 ==> self.cursor() == #[trigger] spec_squeeze(
                        entry.lane(l),
                        entry.cursor(),
                        j as nat,
                        entry.rounds(),
                    ).2,
            decreases n - j,
        {
            let ghost pre = *self;
            if self.idx == TROIKA_RATE {
                self.permutation();
                let ghost s1 = *self;
                self.idx = 0;
                proof {
                    assert forall|l: int| 0 <= l < 64 implies #[trigger] self.lane(l) == spec_perm(
                        pre.lane(l),
                        entry.rounds(),
                    ) by {
                        assert(s1.lane(l) == spec_perm(pre.lane(l), pre.rounds()));
                        assert(self.lane(l) == s1.lane(l));
                    }
                }
            }
            let ghost mid = *self;
            let ghost tpre = trits@;
            let i = self.idx;
            let x = self.state[i];
            trits[j] = x;
            self.idx = i + 1;
            proof {
                let r = entry.rounds();
                assert forall|l: int|
                    0 <= l < 64 implies #[trigger] lane_of(trits@, l).take(j + 1) == spec_squeeze(
                    entry.lane(l),
                    entry.cursor(),
                    (j + 1) as nat,
                    r,
                ).0 && self.lane(l) == spec_squeeze(
                    entry.lane(l),
                    entry.cursor(),
                    (j + 1) as nat,
                    r,
                ).1 && self.cursor() == spec_squeeze(
                    entry.lane(l),
                    entry.cursor(),
                    (j + 1) as nat,
                    r,
                ).2 by {
                    let d0 = entry.lane(l);
                    let i0 = entry.cursor();
                    let dx = strit_digit(mid.state@[mid.cursor() as int], l);
                    lemma_squeeze_concat(d0, i0, j as nat, 1, r);
                    assert(spec_squeeze(d0, i0, j as nat, r) == (
                        lane_of(tpre, l).take(j as int),
                        pre.lane(l),
                        pre.cursor(),
                    ));
                    if pre.idx == 243 {
                        assert(spec_squeeze(pre.lane(l), pre.cursor(), 1, r) == spec_squeeze(
                            spec_perm(pre.lane(l), r),
                            0,
                            1,
                            r,
                        ));
                        assert(mid.lane(l) == spec_perm(pre.lane(l), r));
                    } else {
                        assert(mid == pre);
                    }
                    assert(mid.lane(l)[mid.cursor() as int] == dx);
                    assert(spec_squeeze(mid.lane(l), mid.cursor() + 1, 0, r) == (
                        Seq::<nat>::empty(),
                        mid.lane(l),
                        mid.cursor() + 1,
                    ));
                    assert(spec_squeeze(mid.lane(l), mid.cursor(), 1, r).0 =~= seq![dx]);
                    assert(spec_squeeze(mid.lane(l), mid.cursor(), 1, r).1 == mid.lane(l));
                    assert(spec_squeeze(mid.lane(l), mid.cursor(), 1, r).2 == mid.cursor() + 1);
                    assert(lane_of(tpre, l).take(j as int) + seq![dx] =~= lane_of(
                        trits@,
                        l,
                    ).take(j + 1));
                    assert(self.lane(l) == mid.lane(l));
                    assert(self.cursor() == mid.cursor() + 1);
                }
                assert forall|l: int| 0 <= l < 64 implies #[trigger] self.lane(l) == spec_squeeze(
                    entry.lane(l),
                    entry.cursor(),
                    (j + 1) as nat,
                    r,
                ).1 && self.cursor() == spec_squeeze(
                    entry.lane(l),
                    entry.cursor(),
                    (j + 1) as nat,
                    r,
                ).2 by {
                    assert(lane_of(trits@, l).take(j + 1) == spec_squeeze(
                        entry.lane(l),
                        entry.cursor(),
                        (j + 1) as nat,
                        r,
                    ).0);
                }
                assert forall|l: int| 0 <= l < 64 implies self.cursor() == #[trigger] spec_squeeze(
                    entry.lane(l),
                    entry.cursor(),
                    (j + 1) as nat,
                    r,
                ).2 by {
                    assert(self.lane(l) == spec_squeeze(
                        entry.lane(l),
                        entry.cursor(),
                        (j + 1) as nat,
                        r,
                    ).1);
                }
            }
            j += 1;
        }
        proof {
            assert forall|l: int| 0 <= l < 64 implies lane_of(trits@, l).take(n as int) == lane_of(
                trits@,
                l,
            ) by {
                assert(lane_of(trits@, l).take(n as int) =~= lane_of(trits@, l));
            }
        }
    }

    /// The full permutation: `rounds()` rounds of substitution,
    /// diffusion and round-constant injection, in that order.
    pub fn permutation(&mut self)
        requires
            old(self).inv(),
        ensures
            final(self).inv(),
            final(self).cursor() == old(self).cursor(),
            final(self).rounds() == old(self).rounds(),
            forall|l: int|
                0 <= l < 64 ==> final(self).lane(l) == spec_perm(
                    old(self).lane(l),
                    old(self).rounds(),
                ),
    {
        let num = self.num_rounds;
        let ghost entry = *self;
        for round in 0..num
            invariant
                self.inv(),
                num == self.num_rounds,
                self.idx == entry.idx,
                self.num_rounds == entry.num_rounds,
                entry.inv(),
                forall|l: int|
                    0 <= l < 64 ==> #[trigger] self.lane(l) == spec_perm(
                        entry.lane(l),
                        round as nat,
                    ),
        {
            self.sub_trytes();
            self.add_column_parity();
            self.add_round_constant(round);
            proof {
                assert forall|l: int| 0 <= l < 64 implies #[trigger] self.lane(l) == spec_perm(
                    entry.lane(l),
                    (round + 1) as nat,
                ) by {
                    assert(spec_perm(entry.lane(l), (round + 1) as nat) == spec_round(
                        spec_perm(entry.lane(l), round as nat),
                        round as int,
                    ));
                }
            }
        }
    }
}

} // verus!
