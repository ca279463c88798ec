use vstd::prelude::*;

verus! {

/// Ternary addition modulo 3, the digit-level meaning of `Strit::add`.
pub open spec fn sadd(a: nat, b: nat) -> nat {
    (a + b) % 3
}

/// Ternary multiplication modulo 3, the digit-level meaning of `Strit::mul`.
pub open spec fn smul(a: nat, b: nat) -> nat {
    (a * b) % 3
}

/// Increment of a ternary digit, wrapping 2 back to 0.
pub open spec fn sinc(a: nat) -> nat {
    if a == 2 {
        0
    } else {
        a + 1
    }
}

/// Decrement of a ternary digit, wrapping 0 back to 2.
pub open spec fn sdec(a: nat) -> nat {
    if a == 0 {
        2
    } else {
        (a - 1) as nat
    }
}

/// In the ternary ring, adding the digit 1 increments and adding the
/// digit 2 (which acts as -1 modulo 3) decrements, for every digit.
pub proof fn lemma_inc_dec_are_add(a: nat)
    requires
        a < 3,
    ensures
        sadd(1, a) == sinc(a),
        sadd(2, a) == sdec(a),
{
}

/// One cell of the bit-sliced state: 64 independent ternary digits,
/// one per bit position. Bit `l` of `p` set means lane `l` holds 1,
/// bit `l` of `n` set means it holds 2, neither means it holds 0.
#[derive(Clone, Copy, Debug)]
pub struct Strit {
    p: u64,
    n: u64,
}

/// A well-formed cell never claims both 1 and 2 in the same lane.
pub closed spec fn strit_wf(s: Strit) -> bool {
    s.p & s.n == 0
}

/// The ternary digit that cell `s` holds in lane `l`.
pub closed spec fn strit_digit(s: Strit, l: int) -> nat {
    (((s.p >> (l as u64)) & 1) + 2 * ((s.n >> (l as u64)) & 1)) as nat
}

proof fn lemma_digit_bound(s: Strit, l: int)
    requires
        strit_wf(s),
        0 <= l < 64,
    ensures
        strit_digit(s, l) < 3,
{
    let p = s.p;
    let n = s.n;
    let lu = l as u64;
    assert(p & n == 0 && lu < 64 ==> ((p >> lu) & 1) + 2 * ((n >> lu) & 1) < 3)
        by (bit_vector);
}

/// Every lane of a well-formed cell holds a digit below 3.
pub proof fn lemma_digits_bound(s: Strit)
    requires
        strit_wf(s),
    ensures
        forall|l: int| 0 <= l < 64 ==> strit_digit(s, l) < 3,
{
    assert forall|l: int| 0 <= l < 64 implies strit_digit(s, l) < 3 by {
        lemma_digit_bound(s, l);
    }
}

impl Default for Strit {
    /// A fresh cell holds the digit 0 in every lane.
    fn default() -> (r: Strit)
        ensures
            strit_wf(r),
            forall|l: int| 0 <= l < 64 ==> strit_digit(r, l) == 0,
    {
        Strit::ZERO()
    }
}

#[allow(non_snake_case)]
impl Strit {
    /// The cell holding the digit 1 in every lane.
    pub fn ONE() -> (r: Strit)
        ensures
            strit_wf(r),
            forall|l: int| 0 <= l < 64 ==> strit_digit(r, l) == 1,
    {
        let r = Strit { p: !0u64, n: 0u64 };
        proof {
            assert forall|l: int| 0 <= l < 64 implies strit_digit(r, l) == 1 by {
                let lu = l as u64;
                assert(lu < 64 ==> (((!0u64) >> lu) & 1) + 2 * ((0u64 >> lu) & 1) == 1)
                    by (bit_vector);
            }
            assert((!0u64) & 0u64 == 0) by (bit_vector);
        }
        r
    }

    /// The cell holding the digit 2 in every lane.
    pub fn TWO() -> (r: Strit)
        ensures
            strit_wf(r),
            forall|l: int| 0 <= l < 64 ==> strit_digit(r, l) == 2,
    {
        let r = Strit { p: 0u64, n: !0u64 };
        proof {
            assert forall|l: int| 0 <= l < 64 implies strit_digit(r, l) == 2 by {
                let lu = l as u64;
                assert(lu < 64 ==> ((0u64 >> lu) & 1) + 2 * (((!0u64) >> lu) & 1) == 2)
                    by (bit_vector);
            }
            assert(0u64 & !0u64 == 0) by (bit_vector);
        }
        r
    }

    /// The cell holding the digit 0 in every lane.
    pub fn ZERO() -> (r: Strit)
        ensures
            strit_wf(r),
            forall|l: int| 0 <= l < 64 ==> strit_digit(r, l) == 0,
    {
        let r = Strit { p: 0u64, n: 0u64 };
        proof {
            assert forall|l: int| 0 <= l < 64 implies strit_digit(r, l) == 0 by {
                let lu = l as u64;
                assert(lu < 64 ==> ((0u64 >> lu) & 1) + 2 * ((0u64 >> lu) & 1) == 0)
                    by (bit_vector);
            }
            assert(0u64 & 0u64 == 0) by (bit_vector);
        }
        r
    }

    /// The padding cell appended by `finalize`: the digit 1 in every lane.
    pub fn PADDING() -> (r: Strit)
        ensures
            strit_wf(r),
            forall|l: int| 0 <= l < 64 ==> strit_digit(r, l) == 1,
    {
        Strit::ONE()
    }

    /// Lane-wise ternary addition modulo 3, as one boolean circuit over
    /// the bit-pair encoding.
    pub fn add(&self, other: &Strit) -> (r: Strit)
        requires
            strit_wf(*self),
            strit_wf(*other),
        ensures
            strit_wf(r),
            forall|l: int|
                0 <= l < 64 ==> strit_digit(r, l) == sadd(
                    strit_digit(*self, l),
                    strit_digit(*other, l),
                ),
    {
        let self_zero = !self.p & !self.n;
        let p = !(self.n ^ other.n) & !(self_zero ^ other.p);
        let n = !(self.p ^ other.p) & !(self_zero ^ other.n);
        let r = Strit { p, n };
        proof {
            let ap = self.p;
            let an = self.n;
            let bp = other.p;
            let bn = other.n;
            assert(ap & an == 0 && bp & bn == 0 ==> (!(an ^ bn) & !((!ap & !an) ^ bp)) & (!(ap
                ^ bp) & !((!ap & !an) ^ bn)) == 0) by (bit_vector);
            assert forall|l: int|
                0 <= l < 64 implies strit_digit(r, l) == sadd(
                strit_digit(*self, l),
                strit_digit(*other, l),
            ) by {
                let lu = l as u64;
                assert(ap & an == 0 && bp & bn == 0 && lu < 64 ==> (((!(an ^ bn) & !((!ap & !an)
                    ^ bp)) >> lu) & 1) + 2 * (((!(ap ^ bp) & !((!ap & !an) ^ bn)) >> lu) & 1) == ((((
                ap >> lu) & 1) + 2 * ((an >> lu) & 1)) + (((bp >> lu) & 1) + 2 * ((bn >> lu) & 1)))
                    % 3) by (bit_vector);
            }
        }
        r
    }

    /// Lane-wise ternary multiplication modulo 3, as one boolean circuit
    /// over the bit-pair encoding.
    pub fn mul(&self, other: &Strit) -> (r: Strit)
        requires
            strit_wf(*self),
            strit_wf(*other),
        ensures
            strit_wf(r),
            forall|l: int|
                0 <= l < 64 ==> strit_digit(r, l) == smul(
                    strit_digit(*self, l),
                    strit_digit(*other, l),
                ),
    {
        let p = (self.p & other.p) | (self.n & other.n);
        let n = (self.p & other.n) | (self.n & other.p);
        let r = Strit { p, n };
        proof {
            let ap = self.p;
            let an = self.n;
            let bp = other.p;
            let bn = other.n;
            assert(ap & an == 0 && bp & bn == 0 ==> ((ap & bp) | (an & bn)) & ((ap & bn) | (an
                & bp)) == 0) by (bit_vector);
            assert forall|l: int|
                0 <= l < 64 implies strit_digit(r, l) == smul(
                strit_digit(*self, l),
                strit_digit(*other, l),
            ) by {
                let lu = l as u64;
                assert(ap & an == 0 && bp & bn == 0 && lu < 64 ==> ((((ap & bp) | (an & bn)) >> lu)
                    & 1) + 2 * ((((ap & bn) | (an & bp)) >> lu) & 1) == ((((ap >> lu) & 1) + 2 * ((
                an >> lu) & 1)) * (((bp >> lu) & 1) + 2 * ((bn >> lu) & 1))) % 3) by (bit_vector);
            }
        }
        r
    }

    /// Lane-wise decrement: adding 2 subtracts 1 modulo 3.
    pub fn dec(&self) -> (r: Strit)
        requires
            strit_wf(*self),
        ensures
            strit_wf(r),
            forall|l: int| 0 <= l < 64 ==> strit_digit(r, l) == sadd(2, strit_digit(*self, l)),
    {
        Strit::TWO().add(self)
    }

    /// Lane-wise increment modulo 3.
    pub fn inc(&self) -> (r: Strit)
        requires
            strit_wf(*self),
        ensures
            strit_wf(r),
            forall|l: int| 0 <= l < 64 ==> strit_digit(r, l) == sadd(1, strit_digit(*self, l)),
    {
        Strit::ONE().add(self)
    }

    /// Canonical digit of lane 0, for external comparison and output.
    pub fn to_u8(&self) -> (r: u8)
        requires
            strit_wf(*self),
        ensures
            r as nat == strit_digit(*self, 0),
    {
        let r: u8 = if (self.p & 1) != 0 {
            1
        } else if (self.n & 1) != 0 {
            2
        } else {
            0
        };
        proof {
            let p = self.p;
            let n = self.n;
            assert(p & n == 0 ==> ((p >> 0u64) & 1) + 2 * ((n >> 0u64) & 1) == (if p & 1 != 0 {
                1u64
            } else if n & 1 != 0 {
                2u64
            } else {
                0u64
            })) by (bit_vector);
        }
        r
    }
}

} // verus!
