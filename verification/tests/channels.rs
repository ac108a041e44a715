use rsdf::channels::Channels;

#[test]
fn channels_as_bool() {
    assert!(Channels::from(0b100).as_bool());
    assert!(!Channels::from(0b000).as_bool());
}

#[test]
fn channels_bitand_u8_into() {
    assert_eq!(Channels::from(0b001), Channels::from(0b101) & 0b001.into());
    assert_eq!(Channels::from(0b000), Channels::from(0b100) & 0b001.into());
}

#[test]
fn channels_bitand() {
    assert_eq!(
        Channels::from(0b101),
        Channels::from(0b111) & Channels::from(0b101)
    );
    assert_eq!(
        Channels::from(0b000),
        Channels::from(0b010) & Channels::from(0b101)
    );
}
