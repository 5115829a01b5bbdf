use smf_to_ym2151log::Error;

#[test]
fn test_error_messages() {
    assert_eq!(Error::MidiParse("bad header".to_string()).message(), "bad header");
    assert_eq!(Error::InvalidParameter("rate".to_string()).message(), "rate");
    assert_eq!(Error::Other("misc".to_string()).message(), "misc");
}
