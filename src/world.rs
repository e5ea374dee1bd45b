//! The collectives of a group of `n` workers, simulated in one process: entry
//! `r` of each argument is what the worker of rank `r` holds, and entry `r` of
//! each result is what that worker ends up with. Rank 0 is the root.
use vstd::prelude::*;
use crate::field::{PrimeField, fadd, fmul, all_below};
use crate::transcript::{
    Transcript, ArityError, absorbed, after_round, round_challenge, valid_arity,
};

verus! {

/// Every worker's local vector has length `len`.
pub open spec fn uniform(locals: Seq<Vec<u64>>, len: int) -> bool {
    forall|r: int| 0 <= r < locals.len() ==> (#[trigger] locals[r])@.len() == len
}

/// Every worker's local vector holds residues modulo `m`.
pub open spec fn all_elems(locals: Seq<Vec<u64>>, m: int) -> bool {
    forall|r: int| 0 <= r < locals.len() ==> all_below((#[trigger] locals[r])@, m)
}

/// Field sum of position `j` over the ranks below `n`.
pub open spec fn col_sum(m: int, locals: Seq<Vec<u64>>, j: int, n: int) -> int
    decreases n,
{
    if n <= 0 {
        0
    } else {
        fadd(m, col_sum(m, locals, j, n - 1), locals[n - 1]@[j] as int)
    }
}

/// The rank-wise field sum of all workers' vectors.
pub open spec fn sum_spec(m: int, locals: Seq<Vec<u64>>) -> Seq<u64> {
    Seq::new(locals[0]@.len(), |j: int| col_sum(m, locals, j, locals.len() as int) as u64)
}

/// Field sum of `coef[r] * locals[r][j]` over the ranks below `n`.
pub open spec fn col_combine(m: int, locals: Seq<Vec<u64>>, coef: Seq<u64>, j: int, n: int) -> int
    decreases n,
{
    if n <= 0 {
        0
    } else {
        fadd(
            m,
            col_combine(m, locals, coef, j, n - 1),
            fmul(m, coef[n - 1] as int, locals[n - 1]@[j] as int),
        )
    }
}

/// The sum over ranks of each worker's vector scaled by its coefficient.
pub open spec fn combine_spec(m: int, locals: Seq<Vec<u64>>, coef: Seq<u64>) -> Seq<u64> {
    Seq::new(
        locals[0]@.len(),
        |j: int| col_combine(m, locals, coef, j, locals.len() as int) as u64,
    )
}

/// The vectors of the ranks below `n`, concatenated in ascending rank.
pub open spec fn gathered(locals: Seq<Vec<u64>>, n: int) -> Seq<u64>
    decreases n,
{
    if n <= 0 {
        Seq::empty()
    } else {
        gathered(locals, n - 1) + locals[n - 1]@
    }
}

/// Total length of the vectors of the ranks below `n`.
pub open spec fn total_len(locals: Seq<Vec<u64>>, n: int) -> int
    decreases n,
{
    if n <= 0 {
        0
    } else {
        total_len(locals, n - 1) + locals[n - 1]@.len()
    }
}

/// The root's state once it has hashed its own digest, ready to be sent out.
pub open spec fn resynced(t: Transcript) -> Transcript {
    absorbed(t, t.digest)
}

/// All entries of `s` are equal to `v`.
pub open spec fn all_equal_to<T>(s: Seq<T>, v: T) -> bool {
    forall|r: int| 0 <= r < s.len() ==> s[r] == v
}

pub(crate) fn copy_vec(v: &Vec<u64>) -> (r: Vec<u64>)
    ensures
        r@ == v@,
{
    let mut r: Vec<u64> = Vec::new();
    let mut i: usize = 0;
    while i < v.len()
        invariant
            0 <= i <= v@.len(),
            r@ == v@.subrange(0, i as int),
        decreases v@.len() - i,
    {
        r.push(v[i]);
        i = i + 1;
        proof {
            assert(r@ =~= v@.subrange(0, i as int));
        }
    }
    proof {
        assert(v@.subrange(0, v@.len() as int) =~= v@);
    }
    r
}

/// `n` copies of `v`, one per worker.
fn replicate(v: &Vec<u64>, n: usize) -> (r: Vec<Vec<u64>>)
    ensures
        r@.len() == n,
        forall|w: int| 0 <= w < n ==> (#[trigger] r@[w])@ == v@,
{
    let mut r: Vec<Vec<u64>> = Vec::new();
    let mut w: usize = 0;
    while w < n
        invariant
            0 <= w <= n,
            r@.len() == w,
            forall|k: int| 0 <= k < w ==> (#[trigger] r@[k])@ == v@,
        decreases n - w,
    {
        r.push(copy_vec(v));
        w = w + 1;
    }
    r
}

/// Broadcast from the root: every worker's value becomes the root's value.
pub fn root_broadcast(values: &mut Vec<u64>)
    requires
        old(values)@.len() >= 1,
    ensures
        final(values)@.len() == old(values)@.len(),
        all_equal_to(final(values)@, old(values)@[0]),
{
    let v = values[0];
    let mut w: usize = 1;
    while w < values.len()
        invariant
            1 <= w <= values@.len(),
            values@.len() == old(values)@.len(),
            values@[0] == v,
            v == old(values)@[0],
            forall|k: int| 0 <= k < w ==> values@[k] == v,
        decreases values@.len() - w,
    {
        values.set(w, v);
        w = w + 1;
    }
}

/// Sum-reduction: every worker receives the rank-wise field sum of all local
/// vectors.
pub fn sum_vec(f: &PrimeField, locals: &Vec<Vec<u64>>) -> (r: Vec<Vec<u64>>)
    requires
        f.wf(),
        locals@.len() >= 1,
        uniform(locals@, locals@[0]@.len() as int),
        all_elems(locals@, f.modulus_spec()),
    ensures
        r@.len() == locals@.len(),
        forall|w: int| 0 <= w < r@.len() ==> (#[trigger] r@[w])@ == sum_spec(f.modulus_spec(), locals@),
{
    let ghost m = f.modulus_spec();
    let n = locals.len();
    let len = locals[0].len();
    let mut out: Vec<u64> = Vec::new();
    let mut j: usize = 0;
    while j < len
        invariant
            f.wf(),
            m == f.modulus_spec(),
            n == locals@.len(),
            n >= 1,
            len == locals@[0]@.len(),
            uniform(locals@, len as int),
            all_elems(locals@, m),
            0 <= j <= len,
            out@.len() == j,
            forall|k: int| 0 <= k < j ==> out@[k] == col_sum(m, locals@, k, n as int) as u64,
        decreases len - j,
    {
        let mut acc: u64 = 0;
        let mut r: usize = 0;
        while r < n
            invariant
                f.wf(),
                m == f.modulus_spec(),
                n == locals@.len(),
                uniform(locals@, len as int),
                all_elems(locals@, m),
                0 <= j < len,
                0 <= r <= n,
                acc as int == col_sum(m, locals@, j as int, r as int),
                f.is_elem(acc),
            decreases n - r,
        {
            let row = &locals[r];
            proof {
                assert(all_below(locals@[r as int]@, m));
                assert(row@.len() == len);
            }
            acc = f.add(acc, row[j]);
            r = r + 1;
        }
        out.push(acc);
        j = j + 1;
    }
    proof {
        assert(out@ =~= sum_spec(m, locals@));
    }
    replicate(&out, n)
}

/// Weighted combination: every worker receives the field sum over ranks of
/// `coef[rank] * local[rank]`. The multiplication is made for every rank.
pub fn coef_combine_vec(f: &PrimeField, locals: &Vec<Vec<u64>>, coef: &[u64]) -> (r: Vec<Vec<u64>>)
    requires
        f.wf(),
        locals@.len() >= 1,
        coef@.len() == locals@.len(),
        all_below(coef@, f.modulus_spec()),
        uniform(locals@, locals@[0]@.len() as int),
        all_elems(locals@, f.modulus_spec()),
    ensures
        r@.len() == locals@.len(),
        forall|w: int|
            0 <= w < r@.len() ==> (#[trigger] r@[w])@ == combine_spec(
                f.modulus_spec(),
                locals@,
                coef@,
            ),
{
    let ghost m = f.modulus_spec();
    let n = locals.len();
    let len = locals[0].len();
    let mut out: Vec<u64> = Vec::new();
    let mut j: usize = 0;
    while j < len
        invariant
            f.wf(),
            m == f.modulus_spec(),
            n == locals@.len(),
            n == coef@.len(),
            n >= 1,
            len == locals@[0]@.len(),
            uniform(locals@, len as int),
            all_elems(locals@, m),
            all_below(coef@, m),
            0 <= j <= len,
            out@.len() == j,
            forall|k: int|
                0 <= k < j ==> out@[k] == col_combine(m, locals@, coef@, k, n as int) as u64,
        decreases len - j,
    {
        let mut acc: u64 = 0;
        let mut r: usize = 0;
        while r < n
            invariant
                f.wf(),
                m == f.modulus_spec(),
                n == locals@.len(),
                n == coef@.len(),
                uniform(locals@, len as int),
                all_elems(locals@, m),
                all_below(coef@, m),
                0 <= j < len,
                0 <= r <= n,
                acc as int == col_combine(m, locals@, coef@, j as int, r as int),
                f.is_elem(acc),
            decreases n - r,
        {
            let row = &locals[r];
            proof {
                assert(all_below(locals@[r as int]@, m));
                assert(row@.len() == len);
            }
            let p = f.mul(coef[r], row[j]);
            acc = f.add(acc, p);
            r = r + 1;
        }
        out.push(acc);
        j = j + 1;
    }
    proof {
        assert(out@ =~= combine_spec(m, locals@, coef@));
    }
    replicate(&out, n)
}


/// Gather to the root: the root receives every worker's vector concatenated
/// in ascending rank; the other workers receive an empty vector.
pub fn gather_vec(locals: &Vec<Vec<u64>>) -> (r: Vec<Vec<u64>>)
    requires
        locals@.len() >= 1,
    ensures
        r@.len() == locals@.len(),
        r@[0]@ == gathered(locals@, locals@.len() as int),
        forall|w: int| 1 <= w < r@.len() ==> (#[trigger] r@[w])@.len() == 0,
{
    let n = locals.len();
    let mut all: Vec<u64> = Vec::new();
    let mut r: usize = 0;
    while r < n
        invariant
            n == locals@.len(),
            0 <= r <= n,
            all@ == gathered(locals@, r as int),
        decreases n - r,
    {
        let row = &locals[r];
        let mut i: usize = 0;
        while i < row.len()
            invariant
                0 <= i <= row@.len(),
                n == locals@.len(),
                0 <= r < n,
                *row == locals@[r as int],
                all@ == gathered(locals@, r as int) + row@.subrange(0, i as int),
            decreases row@.len() - i,
        {
            all.push(row[i]);
            i = i + 1;
            proof {
                assert(all@ =~= gathered(locals@, r as int) + row@.subrange(0, i as int));
            }
        }
        proof {
            assert(row@.subrange(0, row@.len() as int) =~= row@);
        }
        r = r + 1;
    }
    let mut out: Vec<Vec<u64>> = Vec::new();
    out.push(all);
    let mut w: usize = 1;
    while w < n
        invariant
            n == locals@.len(),
            1 <= w <= n,
            out@.len() == w,
            out@[0]@ == gathered(locals@, n as int),
            forall|k: int| 1 <= k < w ==> (#[trigger] out@[k])@.len() == 0,
        decreases n - w,
    {
        out.push(Vec::new());
        w = w + 1;
    }
    out
}

/// Every worker's transcript is well formed and has room for `k` more
/// absorptions.
pub open spec fn transcripts_ready(ts: Seq<Transcript>, k: int) -> bool {
    forall|w: int| 0 <= w < ts.len() ==> (#[trigger] ts[w]).wf() && ts[w].has_room(k)
}

/// Transcript synchronisation: with more than one worker the root hashes its
/// digest once and every worker takes the root's resulting state; a single
/// worker is left as it is.
pub fn transcript_sync_up(ts: &mut Vec<Transcript>)
    requires
        old(ts)@.len() >= 1,
        old(ts)@[0].wf(),
        old(ts)@[0].has_room(1),
    ensures
        final(ts)@.len() == old(ts)@.len(),
        old(ts)@.len() == 1 ==> final(ts)@ == old(ts)@,
        old(ts)@.len() > 1 ==> all_equal_to(final(ts)@, resynced(old(ts)@[0])),
{
    let n = ts.len();
    if n == 1 {
        return;
    }
    let mut root = ts[0];
    let d = root.digest;
    root.append_u64(d);
    let mut w: usize = 0;
    while w < n
        invariant
            n == ts@.len(),
            n == old(ts)@.len(),
            root == resynced(old(ts)@[0]),
            0 <= w <= n,
            forall|k: int| 0 <= k < w ==> ts@[k] == root,
        decreases n - w,
    {
        ts.set(w, root);
        w = w + 1;
    }
}

/// One transcript round on every worker: each absorbs `ps` and draws a
/// challenge, and the root's challenge is then broadcast, so that every worker
/// returns the same value. A batch whose length is neither 3 nor 4 is refused
/// before any transcript changes.
pub fn transcript_io(f: &PrimeField, ps: &[u64], ts: &mut Vec<Transcript>) -> (r: Result<
    Vec<u64>,
    ArityError,
>)
    requires
        f.wf(),
        old(ts)@.len() >= 1,
        transcripts_ready(old(ts)@, ps@.len() as int + 1),
    ensures
        final(ts)@.len() == old(ts)@.len(),
        r.is_ok() <==> valid_arity(ps@.len() as int),
        r.is_err() ==> final(ts)@ == old(ts)@ && r == Err::<Vec<u64>, ArityError>(
            ArityError { len: ps@.len() as usize },
        ),
        r.is_ok() ==> forall|w: int|
            0 <= w < final(ts)@.len() ==> #[trigger] final(ts)@[w] == after_round(
                old(ts)@[w],
                ps@,
            ),
        r.is_ok() ==> r.unwrap()@.len() == old(ts)@.len() && all_equal_to(
            r.unwrap()@,
            round_challenge(old(ts)@[0], ps@, f.modulus_spec()),
        ),
{
    if ps.len() != 3 && ps.len() != 4 {
        return Err(ArityError { len: ps.len() });
    }
    let n = ts.len();
    let mut challenges: Vec<u64> = Vec::new();
    let mut w: usize = 0;
    while w < n
        invariant
            f.wf(),
            valid_arity(ps@.len() as int),
            n == ts@.len(),
            n == old(ts)@.len(),
            0 <= w <= n,
            challenges@.len() == w,
            transcripts_ready(old(ts)@, ps@.len() as int + 1),
            forall|k: int| w <= k < n ==> ts@[k] == old(ts)@[k],
            forall|k: int| 0 <= k < w ==> ts@[k] == after_round(old(ts)@[k], ps@),
            w > 0 ==> challenges@[0] == round_challenge(old(ts)@[0], ps@, f.modulus_spec()),
        decreases n - w,
    {
        let mut t = ts[w];
        proof {
            assert(old(ts)@[w as int].wf());
        }
        let c = t.absorb_and_challenge(f, ps);
        challenges.push(c);
        ts.set(w, t);
        w = w + 1;
    }
    root_broadcast(&mut challenges);
    Ok(challenges)
}


/// A group of one worker sums to that worker's own vector, unchanged.
pub proof fn lemma_sum_single_worker(m: int, locals: Seq<Vec<u64>>)
    requires
        m > 0,
        locals.len() == 1,
        all_elems(locals, m),
    ensures
        sum_spec(m, locals) == locals[0]@,
{
    assert(all_below(locals[0]@, m));
    assert forall|j: int| 0 <= j < locals[0]@.len() implies sum_spec(m, locals)[j] == locals[0]@[j] by {
        assert(col_sum(m, locals, j, 0) == 0);
        assert(locals[0]@[j] < m);
        vstd::arithmetic::div_mod::lemma_small_mod(locals[0]@[j] as nat, m as nat);
        assert(col_sum(m, locals, j, 1) == (0 + locals[0]@[j]) % m);
    }
    assert(sum_spec(m, locals) =~= locals[0]@);
}

proof fn lemma_identity_col(m: int, locals: Seq<Vec<u64>>, coef: Seq<u64>, j: int, n: int)
    requires
        m > 0,
        n <= coef.len(),
        forall|r: int| 0 <= r < coef.len() ==> coef[r] == 1,
    ensures
        col_combine(m, locals, coef, j, n) == col_sum(m, locals, j, n),
    decreases n,
{
    if n > 0 {
        lemma_identity_col(m, locals, coef, j, n - 1);
        let x = locals[n - 1]@[j] as int;
        assert(fmul(m, 1, x) == x % m);
        assert(fadd(m, col_sum(m, locals, j, n - 1), x % m) == fadd(
            m,
            col_sum(m, locals, j, n - 1),
            x,
        )) by {
            vstd::arithmetic::div_mod::lemma_add_mod_noop(col_sum(m, locals, j, n - 1), x, m);
            vstd::arithmetic::div_mod::lemma_mod_twice(x, m);
            vstd::arithmetic::div_mod::lemma_add_mod_noop(col_sum(m, locals, j, n - 1), x % m, m);
        }
    }
}

/// Weighted combination with every coefficient equal to the multiplicative
/// identity is the sum-reduction, for any number of workers.
pub proof fn lemma_identity_combine_is_sum(m: int, locals: Seq<Vec<u64>>, coef: Seq<u64>)
    requires
        m > 1,
        locals.len() >= 1,
        coef.len() == locals.len(),
        forall|r: int| 0 <= r < coef.len() ==> coef[r] == 1,
    ensures
        combine_spec(m, locals, coef) == sum_spec(m, locals),
{
    assert forall|j: int| 0 <= j < locals[0]@.len() implies combine_spec(m, locals, coef)[j]
        == sum_spec(m, locals)[j] by {
        lemma_identity_col(m, locals, coef, j, locals.len() as int);
    }
    assert(combine_spec(m, locals, coef) =~= sum_spec(m, locals));
}

/// What the root gathers is as long as all local vectors together, and the
/// vector of rank `r` stands at the offset given by the lengths of the lower
/// ranks.
pub proof fn lemma_gather_layout(locals: Seq<Vec<u64>>, n: int)
    requires
        0 <= n <= locals.len(),
    ensures
        gathered(locals, n).len() == total_len(locals, n),
        forall|r: int|
            0 <= r < n ==> gathered(locals, n).subrange(
                total_len(locals, r),
                #[trigger] total_len(locals, r + 1),
            ) == locals[r]@,
    decreases n,
{
    if n > 0 {
        lemma_gather_layout(locals, n - 1);
        lemma_total_len_monotone(locals, n - 1);
        let g = gathered(locals, n);
        let prev = gathered(locals, n - 1);
        assert forall|r: int| 0 <= r < n implies g.subrange(
            total_len(locals, r),
            #[trigger] total_len(locals, r + 1),
        ) == locals[r]@ by {
            lemma_total_len_monotone(locals, r);
            if r < n - 1 {
                lemma_total_len_monotone(locals, r + 1);
                assert(total_len(locals, r + 1) <= total_len(locals, n - 1)) by {
                    lemma_total_len_le(locals, r + 1, n - 1);
                }
                assert(g.subrange(total_len(locals, r), total_len(locals, r + 1)) =~= prev.subrange(
                    total_len(locals, r),
                    total_len(locals, r + 1),
                ));
            } else {
                assert(g.subrange(total_len(locals, r), total_len(locals, r + 1)) =~= locals[r]@);
            }
        }
    }
}

proof fn lemma_total_len_monotone(locals: Seq<Vec<u64>>, n: int)
    ensures
        total_len(locals, n) >= 0,
    decreases n,
{
    if n > 0 {
        lemma_total_len_monotone(locals, n - 1);
    }
}

proof fn lemma_total_len_le(locals: Seq<Vec<u64>>, a: int, b: int)
    requires
        0 <= a <= b,
    ensures
        total_len(locals, a) <= total_len(locals, b),
    decreases b - a,
{
    if a < b {
        lemma_total_len_le(locals, a, b - 1);
    }
}

/// Workers whose transcripts agree before a round still agree after it, and
/// all draw the root's challenge.
pub proof fn lemma_round_keeps_agreement(ts: Seq<Transcript>, ps: Seq<u64>, m: int)
    requires
        ts.len() >= 1,
        all_equal_to(ts, ts[0]),
    ensures
        forall|w: int|
            0 <= w < ts.len() ==> #[trigger] after_round(ts[w], ps) == after_round(ts[0], ps)
                && round_challenge(ts[w], ps, m) == round_challenge(ts[0], ps, m),
{
}

} // verus!
