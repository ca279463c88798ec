use stroika::Strit;

fn strit_of(d: u8) -> Strit {
    match d {
        0 => Strit::ZERO(),
        1 => Strit::ONE(),
        _ => Strit::TWO(),
    }
}

#[test]
fn constructors_carry_their_digit() {
    assert_eq!(Strit::ZERO().to_u8(), 0);
    assert_eq!(Strit::ONE().to_u8(), 1);
    assert_eq!(Strit::TWO().to_u8(), 2);
    assert_eq!(Strit::default().to_u8(), 0);
}

#[test]
fn padding_is_the_one_element() {
    assert_eq!(Strit::PADDING().to_u8(), 1);
}

#[test]
fn add_matches_mod3_table() {
    for a in 0..3u8 {
        for b in 0..3u8 {
            assert_eq!(strit_of(a).add(&strit_of(b)).to_u8(), (a + b) % 3);
        }
    }
}

#[test]
fn mul_matches_mod3_table() {
    for a in 0..3u8 {
        for b in 0..3u8 {
            assert_eq!(strit_of(a).mul(&strit_of(b)).to_u8(), (a * b) % 3);
        }
    }
}

#[test]
fn inc_is_add_one_and_dec_is_add_two() {
    for a in 0..3u8 {
        let s = strit_of(a);
        assert_eq!(s.inc().to_u8(), s.add(&Strit::ONE()).to_u8());
        assert_eq!(s.dec().to_u8(), s.add(&Strit::TWO()).to_u8());
        assert_eq!(s.inc().to_u8(), (a + 1) % 3);
        assert_eq!(s.dec().to_u8(), (a + 2) % 3);
    }
}
