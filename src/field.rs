//! A prime-order field of small characteristic, with elements held as `u64`
//! residues.
use vstd::prelude::*;

verus! {

/// Largest modulus accepted, so that a product of two residues fits in `u64`.
pub const MAX_MODULUS: u64 = 4294967295;

/// Field addition on residues modulo `m`.
pub open spec fn fadd(m: int, a: int, b: int) -> int {
    (a + b) % m
}

/// Field multiplication on residues modulo `m`.
pub open spec fn fmul(m: int, a: int, b: int) -> int {
    (a * b) % m
}

/// Every element of `v` is a residue modulo `m`.
pub open spec fn all_below(v: Seq<u64>, m: int) -> bool {
    forall|i: int| 0 <= i < v.len() ==> (#[trigger] v[i]) < m
}

/// The field of residues modulo `modulus`.
#[derive(Debug, Clone, Copy, PartialEq, Eq)]
pub struct PrimeField {
    pub modulus: u64,
}

impl PrimeField {
    pub open spec fn modulus_spec(&self) -> int {
        self.modulus as int
    }

    /// The modulus lies in the range the arithmetic supports.
    pub open spec fn wf(&self) -> bool {
        2 <= self.modulus <= MAX_MODULUS
    }

    /// `v` is a residue of this field.
    pub open spec fn is_elem(&self, v: u64) -> bool {
        v < self.modulus
    }

    /// The field modulo `modulus`, or `None` where the modulus is below 2 or
    /// above `MAX_MODULUS`.
    pub fn new(modulus: u64) -> (r: Option<PrimeField>)
        ensures
            r.is_some() <==> 2 <= modulus <= MAX_MODULUS,
            r.is_some() ==> r.unwrap().modulus_spec() == modulus && r.unwrap().wf(),
    {
        if 2 <= modulus && modulus <= MAX_MODULUS {
            Some(PrimeField { modulus })
        } else {
            None
        }
    }

    pub fn modulus(&self) -> (r: u64)
        ensures
            r == self.modulus_spec(),
    {
        self.modulus
    }

    /// The residue of an arbitrary integer.
    pub fn reduce(&self, v: u64) -> (r: u64)
        requires
            self.wf(),
        ensures
            r as int == v as int % self.modulus_spec(),
            self.is_elem(r),
    {
        v % self.modulus
    }

    /// The multiplicative identity.
    pub fn one(&self) -> (r: u64)
        requires
            self.wf(),
        ensures
            r == 1,
            self.is_elem(r),
    {
        1
    }

    pub fn add(&self, a: u64, b: u64) -> (r: u64)
        requires
            self.wf(),
            self.is_elem(a),
            self.is_elem(b),
        ensures
            r as int == fadd(self.modulus_spec(), a as int, b as int),
            self.is_elem(r),
    {
        (a + b) % self.modulus
    }

    pub fn mul(&self, a: u64, b: u64) -> (r: u64)
        requires
            self.wf(),
            self.is_elem(a),
            self.is_elem(b),
        ensures
            r as int == fmul(self.modulus_spec(), a as int, b as int),
            self.is_elem(r),
    {
        proof {
            assert(a * b <= MAX_MODULUS * MAX_MODULUS) by (nonlinear_arith)
                requires
                    a < MAX_MODULUS,
                    b < MAX_MODULUS,
            ;
        }
        (a * b) % self.modulus
    }
}

} // verus!
