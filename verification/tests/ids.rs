use fastsync::ids::hex;

#[test]
fn hex_is_lower_case() {
    assert_eq!(hex(&[0x0f, 0xa0]), "0fa0");
}
