use stroika::{Strit, Stroika};

const HASH: [u8; 243] = [
    0, 2, 2, 1, 2, 1, 0, 1, 2, 1, 1, 1, 1, 2, 2, 1, 1, 1, 0, 1, 2, 1, 2, 1, 2, 1, 2, 1, 2, 2,
    1, 1, 1, 0, 1, 0, 2, 1, 0, 0, 0, 1, 2, 0, 2, 1, 0, 0, 2, 1, 1, 1, 1, 1, 2, 0, 1, 0, 2, 1,
    1, 2, 0, 1, 1, 1, 1, 1, 2, 2, 0, 0, 2, 2, 2, 2, 0, 0, 2, 2, 2, 1, 2, 2, 0, 2, 1, 1, 2, 1,
    1, 1, 2, 2, 1, 1, 0, 0, 0, 2, 2, 2, 0, 2, 1, 1, 1, 1, 0, 0, 1, 0, 2, 0, 2, 0, 2, 0, 0, 0,
    0, 1, 1, 1, 0, 2, 1, 1, 1, 0, 2, 0, 0, 1, 0, 1, 0, 2, 0, 2, 2, 0, 0, 2, 2, 0, 1, 2, 1, 0,
    0, 1, 2, 1, 1, 0, 0, 1, 1, 0, 2, 1, 1, 0, 1, 2, 0, 0, 0, 1, 2, 2, 1, 1, 1, 0, 0, 2, 0, 1,
    1, 2, 1, 1, 2, 1, 0, 1, 2, 2, 2, 2, 1, 2, 0, 2, 2, 1, 2, 1, 2, 1, 2, 2, 1, 1, 2, 0, 2, 1,
    0, 1, 1, 1, 0, 2, 2, 0, 0, 2, 0, 2, 0, 1, 2, 0, 0, 2, 2, 1, 1, 2, 0, 1, 0, 0, 0, 0, 2, 0,
    2, 2, 2,
];

fn zero_cells(n: usize) -> Vec<Strit> {
    let mut v = Vec::new();
    for _ in 0..n {
        v.push(Strit::ZERO());
    }
    v
}

#[test]
fn test_hash() {
    let mut troika = Stroika::default();
    let mut output = zero_cells(243);
    let input = zero_cells(243);
    troika.absorb(input.as_slice());
    troika.finalize();
    troika.squeeze(&mut output);

    assert!(
        output.iter().zip(HASH.iter()).all(|(a, b)| a.to_u8() == *b),
        "Arrays are not equal"
    );
}

#[test]
fn known_answer_from_explicit_round_count() {
    let mut troika = Stroika::new(24).unwrap();
    let mut output = zero_cells(243);
    let input = zero_cells(243);
    troika.absorb(input.as_slice());
    troika.finalize();
    troika.squeeze(&mut output);
    for (a, b) in output.iter().zip(HASH.iter()) {
        assert_eq!(a.to_u8(), *b);
    }
}
