use mpi_sync::world::{
    coef_combine_vec, gather_vec, root_broadcast, sum_vec, transcript_io, transcript_sync_up,
};
use mpi_sync::{ArityError, PrimeField, Transcript};

fn toy() -> PrimeField {
    PrimeField::new(13).unwrap()
}

#[test]
fn broadcast_sets_every_worker_to_root_value() {
    for n in 1..6usize {
        let mut vals: Vec<u64> = (0..n as u64).map(|i| 100 + i).collect();
        root_broadcast(&mut vals);
        assert_eq!(vals, vec![100u64; n]);
    }
}

#[test]
fn sum_is_rank_wise_field_sum() {
    let f = toy();
    let locals = vec![vec![1u64, 12, 6], vec![5, 3, 0], vec![9, 12, 7]];
    let r = sum_vec(&f, &locals);
    assert_eq!(r, vec![vec![2u64, 1, 0]; 3]);
}

#[test]
fn sum_single_worker_is_input() {
    let f = toy();
    let locals = vec![vec![3u64, 5, 7]];
    assert_eq!(sum_vec(&f, &locals), vec![vec![3u64, 5, 7]]);
}

#[test]
fn sum_of_empty_vectors() {
    let f = toy();
    let locals: Vec<Vec<u64>> = vec![vec![], vec![]];
    assert_eq!(sum_vec(&f, &locals), vec![Vec::<u64>::new(); 2]);
}

#[test]
fn identity_combine_equals_sum() {
    let f = toy();
    let locals = vec![vec![4u64, 11], vec![10, 2], vec![7, 7], vec![12, 0]];
    let coef = vec![1u64; 4];
    assert_eq!(coef_combine_vec(&f, &locals, &coef), sum_vec(&f, &locals));
}

#[test]
fn combine_two_workers_toy_field() {
    let f = toy();
    let locals = vec![vec![1u64], vec![1]];
    let r = coef_combine_vec(&f, &locals, &[2, 3]);
    assert_eq!(r, vec![vec![5u64], vec![5]]);
    assert_eq!(r[0], r[1]);
}

#[test]
fn combine_multiplies_every_rank() {
    let f = toy();
    let locals = vec![vec![3u64, 5, 7]];
    assert_eq!(coef_combine_vec(&f, &locals, &[2]), vec![vec![6u64, 10, 1]]);
}

#[test]
fn gather_concatenates_in_rank_order() {
    let locals = vec![vec![1u64, 2], vec![], vec![3], vec![4, 5, 6]];
    let r = gather_vec(&locals);
    assert_eq!(r.len(), 4);
    assert_eq!(r[0], vec![1u64, 2, 3, 4, 5, 6]);
    assert_eq!(r[0].len(), locals.iter().map(|v| v.len()).sum::<usize>());
    assert!(r[1..].iter().all(|v| v.is_empty()));
}

#[test]
fn gather_single_worker_is_input() {
    let locals = vec![vec![3u64, 5, 7]];
    assert_eq!(gather_vec(&locals), vec![vec![3u64, 5, 7]]);
}

#[test]
fn sync_up_spends_one_hash_for_several_workers() {
    let mut root = Transcript::new();
    root.append_u64(9);
    let other = Transcript::new();
    let mut ts = vec![root, other, other];
    transcript_sync_up(&mut ts);
    let mut expected = root;
    expected.append_u64(root.digest);
    assert_eq!(ts, vec![expected; 3]);
    assert_eq!(expected.count, root.count + 1);
}

#[test]
fn sync_up_single_worker_unchanged() {
    let mut t = Transcript::new();
    t.append_u64(9);
    let mut ts = vec![t];
    transcript_sync_up(&mut ts);
    assert_eq!(ts, vec![t]);
}

#[test]
fn group_transcript_io_arity_in_every_size() {
    let f = toy();
    for n in 1..5usize {
        for len in [0usize, 1, 2, 5, 6] {
            let mut ts = vec![Transcript::new(); n];
            let ps = vec![3u64; len];
            assert_eq!(transcript_io(&f, &ps, &mut ts), Err(ArityError { len }));
            assert_eq!(ts, vec![Transcript::new(); n]);
        }
        for len in [3usize, 4] {
            let mut ts = vec![Transcript::new(); n];
            let ps = vec![3u64; len];
            assert!(transcript_io(&f, &ps, &mut ts).is_ok());
        }
    }
}

#[test]
fn four_workers_agree_after_io() {
    let f = toy();
    let mut start = Transcript::new();
    start.append_u64(7);
    let mut ts = vec![start; 4];
    let r = transcript_io(&f, &[1, 2, 3], &mut ts).unwrap();
    assert_eq!(r.len(), 4);
    assert!(r.iter().all(|c| *c == r[0]));
    assert!(ts.iter().all(|t| *t == ts[0]));
    assert_eq!(ts[0].count, 5);
}

#[test]
fn io_returns_root_challenge_when_workers_differ() {
    let f = toy();
    let mut other = Transcript::new();
    other.append_u64(1);
    let mut ts = vec![Transcript::new(), other];
    let r = transcript_io(&f, &[1, 2, 3], &mut ts).unwrap();
    assert_eq!(r, vec![10u64, 10]);
    assert_eq!(ts[0].digest, 113181169);
}
