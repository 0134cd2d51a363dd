use dynstaller::bytes::{read_i64, read_u128, read_u16, read_u32, read_u64, read_units};
use dynstaller::text::{encode_utf16, to_decimal, to_hex, wide_c_string, ContainsNul};

#[test]
fn text_is_encoded_in_units() {
    assert_eq!(encode_utf16(""), Vec::<u16>::new());
    assert_eq!(encode_utf16("aé"), vec![0x61, 0xe9]);
    assert_eq!(encode_utf16("\u{1f600}"), vec![0xd83d, 0xde00]);
    assert_eq!(encode_utf16("\u{10ffff}\u{ffff}"), vec![0xdbff, 0xdfff, 0xffff]);
}

#[test]
fn encoded_text_decodes_to_itself() {
    for text in ["", "plain", "\u{10000}x\u{d7ff}\u{e000}", "C:\\Program Files"] {
        assert_eq!(String::from_utf16_lossy(&encode_utf16(text)), text);
        assert_eq!(encode_utf16(text), text.encode_utf16().collect::<Vec<u16>>());
    }
}

#[test]
fn a_text_gets_one_nul_at_its_end() {
    assert_eq!(wide_c_string(vec![0x61, 0x62]), Ok(vec![0x61, 0x62, 0]));
    assert_eq!(wide_c_string(vec![0x61, 0]), Ok(vec![0x61, 0]));
    assert_eq!(wide_c_string(vec![]), Ok(vec![0]));
    assert_eq!(wide_c_string(vec![0]), Ok(vec![0]));
}

#[test]
fn a_nul_within_a_text_is_an_error() {
    assert_eq!(wide_c_string(vec![0x61, 0, 0x62]), Err(ContainsNul { position: 1 }));
    assert_eq!(wide_c_string(vec![0x61, 0, 0]), Err(ContainsNul { position: 1 }));
    assert_eq!(wide_c_string(vec![0, 0]), Err(ContainsNul { position: 0 }));
}

#[test]
fn numbers_are_written_in_both_systems() {
    assert_eq!(to_hex(0), "0");
    assert_eq!(to_hex(0x8007_0005), "80070005");
    assert_eq!(to_hex(u32::MAX), "FFFFFFFF");
    assert_eq!(to_hex(0xabc), "ABC");
    assert_eq!(to_decimal(0), "0");
    assert_eq!(to_decimal(10), "10");
    assert_eq!(to_decimal(u64::MAX), "18446744073709551615");
}

#[test]
fn fields_are_little_endian() {
    let data: Vec<u8> = (1..=16).collect();
    assert_eq!(read_u16(&data, 0), 0x0201);
    assert_eq!(read_u32(&data, 1), 0x05040302);
    assert_eq!(read_u64(&data, 8), 0x100f0e0d0c0b0a09);
    assert_eq!(read_u128(&data, 0), 0x100f0e0d0c0b0a090807060504030201);
    assert_eq!(read_i64(&[0xff; 8], 0), -1);
    assert_eq!(read_i64(&[0, 0, 0, 0, 0, 0, 0, 0x80], 0), i64::MIN);
    assert_eq!(read_units(&data, 1, 5), vec![0x0302, 0x0504]);
}
