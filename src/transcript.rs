//! The Fiat-Shamir transcript: a hash-chain digest over every absorbed value
//! and the count of absorptions made so far.
use vstd::prelude::*;
use crate::field::PrimeField;

verus! {

/// Modulus of the digest domain (the Mersenne prime 2^31 - 1).
pub const DIGEST_MODULUS: u64 = 2147483647;

/// Multiplier of the chaining step.
pub const CHAIN_MULTIPLIER: u64 = 16777619;

/// One chaining step: the digest that follows `d` once `e` is absorbed.
pub open spec fn chain(d: int, e: int) -> int {
    (d * CHAIN_MULTIPLIER + e % (DIGEST_MODULUS as int) + 1) % (DIGEST_MODULUS as int)
}

/// The batch of values absorbed by one transcript round has 3 elements (two
/// point coordinates) or 4 (two coordinates and an auxiliary variable).
pub open spec fn valid_arity(len: int) -> bool {
    len == 3 || len == 4
}

/// A transcript round was asked to absorb a batch of the wrong length.
#[derive(Debug, Clone, Copy, PartialEq, Eq)]
pub struct ArityError {
    pub len: usize,
}

/// Transcript state: the digest of the chain so far and the number of values
/// absorbed into it.
#[derive(Debug, Clone, Copy, PartialEq, Eq)]
pub struct Transcript {
    pub digest: u64,
    pub count: u64,
}

/// The state after absorbing `e` into `t`.
pub open spec fn absorbed(t: Transcript, e: u64) -> Transcript {
    Transcript { digest: chain(t.digest as int, e as int) as u64, count: (t.count + 1) as u64 }
}

/// The state after absorbing every element of `ps`, in order.
pub open spec fn absorbed_all(t: Transcript, ps: Seq<u64>) -> Transcript
    decreases ps.len(),
{
    if ps.len() == 0 {
        t
    } else {
        absorbed(absorbed_all(t, ps.drop_last()), ps.last())
    }
}

/// Deriving a challenge absorbs the absorption count into the chain.
pub open spec fn challenged(t: Transcript) -> Transcript {
    absorbed(t, t.count)
}

/// The challenge drawn from `t` in the field modulo `m`: the next digest,
/// reduced into the field.
pub open spec fn challenge_of(t: Transcript, m: int) -> u64 {
    (challenged(t).digest as int % m) as u64
}

/// The state at the end of a round that absorbs `ps` and draws a challenge.
pub open spec fn after_round(t: Transcript, ps: Seq<u64>) -> Transcript {
    challenged(absorbed_all(t, ps))
}

/// The challenge that a round absorbing `ps` into `t` returns.
pub open spec fn round_challenge(t: Transcript, ps: Seq<u64>, m: int) -> u64 {
    challenge_of(absorbed_all(t, ps), m)
}

impl Transcript {
    /// The digest lies in the digest domain.
    pub open spec fn wf(&self) -> bool {
        self.digest < DIGEST_MODULUS
    }

    /// `n` more absorptions keep the count within `u64`.
    pub open spec fn has_room(&self, n: int) -> bool {
        self.count + n <= u64::MAX
    }

    /// The empty transcript.
    pub fn new() -> (r: Transcript)
        ensures
            r.wf(),
            r.digest == 0,
            r.count == 0,
    {
        Transcript { digest: 0, count: 0 }
    }

    /// Absorbs one value into the chain.
    pub fn append_u64(&mut self, e: u64)
        requires
            old(self).wf(),
            old(self).has_room(1),
        ensures
            final(self).wf(),
            *final(self) == absorbed(*old(self), e),
    {
        proof {
            assert(self.digest * CHAIN_MULTIPLIER <= DIGEST_MODULUS * CHAIN_MULTIPLIER)
                by (nonlinear_arith)
                requires
                    self.digest < DIGEST_MODULUS,
            ;
        }
        let d = (self.digest * CHAIN_MULTIPLIER + e % DIGEST_MODULUS + 1) % DIGEST_MODULUS;
        self.digest = d;
        self.count = self.count + 1;
    }

    /// Absorbs a field element.
    pub fn append_field_element(&mut self, f: &PrimeField, e: u64)
        requires
            old(self).wf(),
            old(self).has_room(1),
            f.wf(),
            f.is_elem(e),
        ensures
            final(self).wf(),
            *final(self) == absorbed(*old(self), e),
    {
        self.append_u64(e);
    }

    /// Draws a challenge in the field `f` and advances the chain past it.
    pub fn generate_challenge(&mut self, f: &PrimeField) -> (r: u64)
        requires
            old(self).wf(),
            old(self).has_room(1),
            f.wf(),
        ensures
            final(self).wf(),
            *final(self) == challenged(*old(self)),
            r == challenge_of(*old(self), f.modulus_spec()),
            f.is_elem(r),
    {
        let c = self.count;
        self.append_u64(c);
        f.reduce(self.digest)
    }

    /// Absorbs every element of `ps` in order, then draws a challenge.
    pub fn absorb_and_challenge(&mut self, f: &PrimeField, ps: &[u64]) -> (r: u64)
        requires
            old(self).wf(),
            old(self).has_room(ps@.len() as int + 1),
            f.wf(),
        ensures
            final(self).wf(),
            *final(self) == after_round(*old(self), ps@),
            r == round_challenge(*old(self), ps@, f.modulus_spec()),
            f.is_elem(r),
    {
        let ghost start = *self;
        let mut i: usize = 0;
        while i < ps.len()
            invariant
                0 <= i <= ps@.len(),
                self.wf(),
                start.has_room(ps@.len() as int + 1),
                *self == absorbed_all(start, ps@.subrange(0, i as int)),
                self.count == start.count + i,
            decreases ps@.len() - i,
        {
            proof {
                assert(ps@.subrange(0, i + 1).drop_last() =~= ps@.subrange(0, i as int));
            }
            self.append_u64(ps[i]);
            i = i + 1;
        }
        proof {
            assert(ps@.subrange(0, ps@.len() as int) =~= ps@);
        }
        self.generate_challenge(f)
    }

    /// One transcript round on this worker: absorbs `ps` in order and draws a
    /// challenge. A batch whose length is neither 3 nor 4 is refused before
    /// anything is absorbed.
    pub fn round(&mut self, f: &PrimeField, ps: &[u64]) -> (r: Result<u64, ArityError>)
        requires
            old(self).wf(),
            old(self).has_room(ps@.len() as int + 1),
            f.wf(),
        ensures
            final(self).wf(),
            r.is_ok() <==> valid_arity(ps@.len() as int),
            r.is_err() ==> *final(self) == *old(self) && r == Err::<u64, ArityError>(
                ArityError { len: ps@.len() as usize },
            ),
            r.is_ok() ==> *final(self) == after_round(*old(self), ps@) && r.unwrap()
                == round_challenge(*old(self), ps@, f.modulus_spec()),
    {
        if ps.len() != 3 && ps.len() != 4 {
            return Err(ArityError { len: ps.len() });
        }
        Ok(self.absorb_and_challenge(f, ps))
    }
}

} // verus!
