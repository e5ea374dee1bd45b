use mpi_sync::{ArityError, MPIConfig, PrimeField, Transcript};

fn toy() -> PrimeField {
    PrimeField::new(13).unwrap()
}

#[test]
fn queries_of_single_worker() {
    MPIConfig::init();
    MPIConfig::init();
    let c = MPIConfig::new();
    assert_eq!(c.world_size(), 1);
    assert_eq!(c.world_rank(), 0);
    assert!(c.is_root());
    assert_eq!(c, MPIConfig::default());
    c.barrier();
    MPIConfig::finalize();
}

#[test]
fn finalize_without_init() {
    MPIConfig::finalize();
}

#[test]
fn toy_field_scenario_single_worker() {
    let c = MPIConfig::new();
    let f = toy();
    let local = vec![3u64, 5, 7];
    assert_eq!(c.sum_vec(&f, &local), vec![3, 5, 7]);
    let mut global = vec![9u64];
    c.gather_vec(&local, &mut global);
    assert_eq!(global, vec![3, 5, 7]);
    assert_eq!(c.coef_combine_vec(&f, &local, &[2]), vec![3, 5, 7]);
    assert_eq!(c.coef_combine_vec(&f, &local, &[1]), c.sum_vec(&f, &local));
}

#[test]
fn empty_vectors_single_worker() {
    let c = MPIConfig::new();
    let f = toy();
    let local: Vec<u64> = vec![];
    assert_eq!(c.sum_vec(&f, &local), Vec::<u64>::new());
    let mut global = vec![1u64, 2];
    c.gather_vec(&local, &mut global);
    assert!(global.is_empty());
}

#[test]
fn root_broadcast_keeps_value() {
    let c = MPIConfig::new();
    let mut v = 11u64;
    c.root_broadcast(&mut v);
    assert_eq!(v, 11);
}

#[test]
fn sync_up_single_worker_spends_no_hash() {
    let c = MPIConfig::new();
    let mut t = Transcript::new();
    t.append_u64(5);
    let before = t;
    c.transcript_sync_up(&mut t);
    assert_eq!(t, before);
}

#[test]
fn transcript_io_rejects_bad_arity() {
    let c = MPIConfig::new();
    let f = toy();
    for len in [0usize, 1, 2, 5, 6] {
        let ps = vec![1u64; len];
        let mut t = Transcript::new();
        t.append_u64(4);
        let before = t;
        assert_eq!(c.transcript_io(&f, &ps, &mut t), Err(ArityError { len }));
        assert_eq!(t, before);
    }
}

#[test]
fn transcript_io_accepts_three_and_four() {
    let c = MPIConfig::new();
    let f = toy();
    for len in [3usize, 4] {
        let ps = vec![2u64; len];
        let mut t = Transcript::new();
        let r = c.transcript_io(&f, &ps, &mut t).unwrap();
        assert!(r < 13);
        assert_eq!(t.count, len as u64 + 1);
    }
}

#[test]
fn transcript_io_exact_challenge() {
    let c = MPIConfig::new();
    let f = toy();
    let mut t = Transcript::new();
    let r = c.transcript_io(&f, &[1, 2, 3], &mut t).unwrap();
    assert_eq!(t.digest, 113181169);
    assert_eq!(t.count, 4);
    assert_eq!(r, 10);
}
