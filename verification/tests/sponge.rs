use stroika::{Strit, Stroika};

fn strit_of(d: u8) -> Strit {
    match d {
        0 => Strit::ZERO(),
        1 => Strit::ONE(),
        _ => Strit::TWO(),
    }
}

fn cells_of(digits: &[u8]) -> Vec<Strit> {
    let mut v = Vec::new();
    for d in digits {
        v.push(strit_of(*d));
    }
    v
}

fn zero_cells(n: usize) -> Vec<Strit> {
    let mut v = Vec::new();
    for _ in 0..n {
        v.push(Strit::ZERO());
    }
    v
}

fn digits_of(cells: &[Strit]) -> Vec<u8> {
    cells.iter().map(|c| c.to_u8()).collect()
}

fn patterned(n: usize) -> Vec<u8> {
    (0..n).map(|i| (i % 3) as u8).collect()
}

fn one_shot_digest(message: &[u8], out_len: usize) -> Vec<u8> {
    let mut h = Stroika::default();
    h.absorb(cells_of(message).as_slice());
    h.finalize();
    let mut out = zero_cells(out_len);
    h.squeeze(&mut out);
    digits_of(out.as_slice())
}

#[test]
fn incremental_absorb_matches_single_call() {
    let message = patterned(500);
    let whole = one_shot_digest(&message, 243);
    for split in [1usize, 137, 242, 243, 244, 499] {
        let mut h = Stroika::default();
        h.absorb(cells_of(&message[..split]).as_slice());
        h.absorb(cells_of(&message[split..]).as_slice());
        h.finalize();
        let mut out = zero_cells(243);
        h.squeeze(&mut out);
        assert_eq!(digits_of(out.as_slice()), whole);
    }
}

#[test]
fn incremental_squeeze_matches_single_call() {
    let message = patterned(300);
    let whole = one_shot_digest(&message, 486);
    let mut h = Stroika::default();
    h.absorb(cells_of(&message).as_slice());
    h.finalize();
    let mut first = zero_cells(81);
    let mut second = zero_cells(162);
    let mut third = zero_cells(243);
    h.squeeze(&mut first);
    h.squeeze(&mut second);
    h.squeeze(&mut third);
    let mut joined = digits_of(first.as_slice());
    joined.extend(digits_of(second.as_slice()));
    joined.extend(digits_of(third.as_slice()));
    assert_eq!(joined, whole);
}

#[test]
fn reset_matches_fresh_instance() {
    let message = patterned(250);
    let mut h = Stroika::default();
    h.absorb(cells_of(&message).as_slice());
    h.finalize();
    let mut scratch = zero_cells(100);
    h.squeeze(&mut scratch);
    h.reset();
    h.absorb(cells_of(&message).as_slice());
    h.finalize();
    let mut out = zero_cells(243);
    h.squeeze(&mut out);
    assert_eq!(digits_of(out.as_slice()), one_shot_digest(&message, 243));
}

#[test]
fn max_round_count_matches_default() {
    let message = patterned(243);
    let mut h = Stroika::new(24).unwrap();
    h.absorb(cells_of(&message).as_slice());
    h.finalize();
    let mut out = zero_cells(243);
    h.squeeze(&mut out);
    assert_eq!(digits_of(out.as_slice()), one_shot_digest(&message, 243));
}

#[test]
fn round_count_above_maximum_is_rejected() {
    assert!(Stroika::new(25).is_err());
    assert!(Stroika::new(usize::MAX).is_err());
    assert!(Stroika::new(0).is_ok());
    assert!(Stroika::new(24).is_ok());
}

#[test]
fn long_zero_input_chunked_runs_agree() {
    let message = vec![0u8; 8019];
    let whole = one_shot_digest(&message, 243);
    let mut h = Stroika::default();
    h.absorb(cells_of(&message[..8019 / 4]).as_slice());
    h.absorb(cells_of(&message[8019 / 4..]).as_slice());
    h.finalize();
    let mut out = zero_cells(243);
    h.squeeze(&mut out);
    assert_eq!(digits_of(out.as_slice()), whole);
}

#[test]
fn state_snapshot_has_full_width_and_starts_zeroed() {
    let h = Stroika::default();
    let cells = h.state();
    assert_eq!(cells.len(), 729);
    assert!(cells.iter().all(|c| c.to_u8() == 0));
}
