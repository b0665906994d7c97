use phoenix_channels_client::message::binary_text;
use phoenix_channels_client::web_socket::TungsteniteData;

#[test]
fn binary_payload_without_bytes_displays_empty_brackets() {
    assert_eq!(binary_text(&[]), "<<>>");
}

#[test]
fn binary_payload_with_one_byte_displays_it_padded() {
    assert_eq!(binary_text(&[10]), "<<0x0a>>");
}

#[test]
fn binary_payload_displays_bytes_in_lowercase_hex_separated_by_commas() {
    assert_eq!(binary_text(&[0, 1, 255, 16, 171]), "<<0x00, 0x01, 0xff, 0x10, 0xab>>");
}

#[test]
fn data_opcodes_display_their_names() {
    assert_eq!(TungsteniteData::Continue.to_string(), "CONTINUE");
    assert_eq!(TungsteniteData::Text.to_string(), "TEXT");
    assert_eq!(TungsteniteData::Binary.to_string(), "BINARY");
}

#[test]
fn reserved_data_opcode_displays_its_bits_in_decimal() {
    assert_eq!(TungsteniteData::Reserved { bits: 3 }.to_string(), "RESERVED_DATA_3");
    assert_eq!(TungsteniteData::Reserved { bits: 0 }.to_string(), "RESERVED_DATA_0");
    assert_eq!(TungsteniteData::Reserved { bits: 42 }.to_string(), "RESERVED_DATA_42");
    assert_eq!(TungsteniteData::Reserved { bits: 100 }.to_string(), "RESERVED_DATA_100");
    assert_eq!(TungsteniteData::Reserved { bits: 255 }.to_string(), "RESERVED_DATA_255");
}
