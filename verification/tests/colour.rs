use rsdf::colour::Colour;
use rsdf::colour::Colour::{Black, Blue, Cyan, Green, Magenta, Red, White, Yellow};

#[test]
fn bitand() {
    assert_eq!(Red, Red & Red);
    assert_eq!(Black, Red & Green);
    assert_eq!(Red, Red & Yellow);
    assert_eq!(Black, White & Black);
    assert_eq!(Magenta, White & Magenta);
    assert_eq!(Blue, Blue & Cyan);
    assert_eq!(Blue, Cyan & Magenta);
}

#[test]
fn bitor() {
    assert_eq!(Red, Red | Red);
    assert_eq!(Yellow, Red | Green);
    assert_eq!(Yellow, Red | Yellow);
    assert_eq!(White, White | Black);
    assert_eq!(White, White | Magenta);
    assert_eq!(Cyan, Blue | Cyan);
    assert_eq!(White, Cyan | Magenta);
}

#[test]
fn bitxor() {
    assert_eq!(Black, Red ^ Red);
    assert_eq!(Yellow, Red ^ Green);
    assert_eq!(Green, Red ^ Yellow);
    assert_eq!(White, White ^ Black);
    assert_eq!(Green, White ^ Magenta);
    assert_eq!(Green, Blue ^ Cyan);
    assert_eq!(Yellow, Cyan ^ Magenta);
}

#[test]
fn not() {
    assert_eq!(Cyan, !Red);
    assert_eq!(Magenta, !Green);
    assert_eq!(Yellow, !Blue);
    assert_eq!(Red, !Cyan);
    assert_eq!(Green, !Magenta);
    assert_eq!(Blue, !Yellow);
    assert_eq!(White, !Black);
    assert_eq!(Black, !White);
}

#[test]
fn colour_bits_round_trip() {
    let all = [Black, Red, Green, Blue, Yellow, Cyan, Magenta, White];
    for c in all {
        assert_eq!(Colour::from_u8(c.to_u8()), Some(c));
    }
    assert_eq!(Red.to_u8(), 0b001);
    assert_eq!(Blue.to_u8(), 0b100);
    assert_eq!(Colour::from_u8(8), None);
}

#[test]
fn colour_boolean_algebra_examples() {
    let all = [Black, Red, Green, Blue, Yellow, Cyan, Magenta, White];
    for a in all {
        assert_eq!(!!a, a);
        assert_eq!(a ^ a, Black);
        assert_eq!(a & !a, Black);
        assert_eq!(a | !a, White);
        for b in all {
            assert_eq!(a & b, b & a);
            assert_eq!(!(a & b), !a | !b);
            assert_eq!((a ^ b) ^ b, a);
        }
    }
}
