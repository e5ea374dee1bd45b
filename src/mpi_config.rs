//! The single-process configuration: a group of exactly one worker, rank 0,
//! which is the root. Each collective is the one-worker case of the group
//! collectives of `crate::world`.
use vstd::prelude::*;
use crate::field::{PrimeField, all_below};
use crate::transcript::{Transcript, ArityError, valid_arity, after_round, round_challenge};
use crate::world::{
    copy_vec, gathered, sum_spec, combine_spec, lemma_sum_single_worker,
    lemma_identity_combine_is_sum,
};

verus! {

/// Configuration of the single-process group.
#[derive(Debug, Default, Clone, Copy, PartialEq, Eq)]
pub struct MPIConfig {}

impl MPIConfig {
    /// Rank of the root worker.
    pub open spec fn root_rank() -> nat {
        0
    }

    /// Number of workers in this configuration.
    pub open spec fn size() -> nat {
        1
    }

    /// Sets up the process group; there is nothing to set up for one worker,
    /// so it may be called any number of times.
    pub fn init() {
    }

    /// Releases the process group; safe whether or not `init` was called.
    pub fn finalize() {
    }

    pub fn new() -> (r: MPIConfig)
        ensures
            r == (MPIConfig {}),
    {
        Self::init();
        MPIConfig {}
    }

    /// Gathers the local vectors to the root, which is the only worker: the
    /// result is the local vector.
    pub fn gather_vec(&self, local_vec: &Vec<u64>, global_vec: &mut Vec<u64>)
        ensures
            final(global_vec)@ == gathered(seq![*local_vec], 1),
            final(global_vec)@ == local_vec@,
    {
        *global_vec = copy_vec(local_vec);
        proof {
            assert(gathered(seq![*local_vec], 0) =~= Seq::<u64>::empty());
            assert(gathered(seq![*local_vec], 1) =~= local_vec@);
        }
    }

    /// Broadcasts the root's value; the only worker is the root, so the value
    /// stays as it is.
    pub fn root_broadcast(&self, f: &mut u64)
        ensures
            *final(f) == *old(f),
    {
    }

    /// Sums the local vectors of all workers: with one worker, the local
    /// vector itself.
    pub fn sum_vec(&self, field: &PrimeField, local_vec: &Vec<u64>) -> (r: Vec<u64>)
        requires
            field.wf(),
            all_below(local_vec@, field.modulus_spec()),
        ensures
            r@ == sum_spec(field.modulus_spec(), seq![*local_vec]),
            r@ == local_vec@,
    {
        proof {
            let locals = seq![*local_vec];
            assert(locals[0] == *local_vec);
            lemma_sum_single_worker(field.modulus_spec(), locals);
        }
        copy_vec(local_vec)
    }

    /// Weighted combination for one worker. The coefficient vector has one
    /// entry, which the proving protocol fixes to the multiplicative identity
    /// in this configuration; the multiplication is therefore left out and the
    /// local vector returned. Where the coefficient is 1, this is exactly the
    /// weighted combination.
    pub fn coef_combine_vec(&self, field: &PrimeField, local_vec: &Vec<u64>, coef: &[u64]) -> (r:
        Vec<u64>)
        requires
            field.wf(),
            coef@.len() == 1,
            all_below(local_vec@, field.modulus_spec()),
        ensures
            r@ == local_vec@,
            coef@[0] == 1 ==> r@ == combine_spec(field.modulus_spec(), seq![*local_vec], coef@),
    {
        proof {
            let locals = seq![*local_vec];
            assert(locals[0] == *local_vec);
            lemma_sum_single_worker(field.modulus_spec(), locals);
            if coef@[0] == 1 {
                lemma_identity_combine_is_sum(field.modulus_spec(), locals, coef@);
            }
        }
        copy_vec(local_vec)
    }

    pub fn world_size(&self) -> (r: usize)
        ensures
            r == Self::size(),
    {
        1
    }

    pub fn world_rank(&self) -> (r: usize)
        ensures
            r == Self::root_rank(),
    {
        0
    }

    pub fn is_root(&self) -> (r: bool)
        ensures
            r,
    {
        true
    }

    /// Waits for every worker; with one worker it returns at once.
    pub fn barrier(&self) {
    }

    /// Brings every worker's transcript to the root's state. The only worker
    /// is the root, so no hash is spent and the transcript stays as it is.
    pub fn transcript_sync_up(&self, transcript: &mut Transcript)
        ensures
            *final(transcript) == *old(transcript),
    {
    }

    /// One transcript round: absorbs `ps` (3 or 4 elements) in order, draws a
    /// challenge and broadcasts it from the root. Any other batch length is
    /// refused with `ArityError` before anything is absorbed.
    pub fn transcript_io(&self, field: &PrimeField, ps: &[u64], transcript: &mut Transcript) -> (r:
        Result<u64, ArityError>)
        requires
            field.wf(),
            old(transcript).wf(),
            old(transcript).has_room(ps@.len() as int + 1),
        ensures
            final(transcript).wf(),
            r.is_ok() <==> valid_arity(ps@.len() as int),
            r.is_err() ==> *final(transcript) == *old(transcript) && r == Err::<u64, ArityError>(
                ArityError { len: ps@.len() as usize },
            ),
            r.is_ok() ==> *final(transcript) == after_round(*old(transcript), ps@) && r.unwrap()
                == round_challenge(*old(transcript), ps@, field.modulus_spec()),
    {
        let mut c = transcript.round(field, ps)?;
        self.root_broadcast(&mut c);
        Ok(c)
    }
}

} // verus!
