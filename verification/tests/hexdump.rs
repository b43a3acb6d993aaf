use hidpp::hexdump::hexdump;

#[test]
fn hexdump_of_nothing_is_empty() {
    assert_eq!(hexdump(vec![], 4), "");
}

#[test]
fn hexdump_of_one_short_chunk() {
    assert_eq!(hexdump(vec![0x37, 0x04, 0x01], 4), "37 04 01      7..");
}

#[test]
fn hexdump_of_one_full_chunk() {
    assert_eq!(hexdump(vec![0x48, 0x49, 0x44, 0x2b], 4), "48 49 44 2b   HID+");
}

#[test]
fn hexdump_puts_nothing_between_chunks() {
    assert_eq!(
        hexdump(vec![0x48, 0x49, 0x44, 0x2b, 0x2b, 0x00], 4),
        "48 49 44 2b   HID+2b 00         +."
    );
}

#[test]
fn hexdump_uses_lower_case_digits() {
    assert_eq!(hexdump(vec![0xab, 0xcd, 0xef, 0x09], 2), "ab cd   ..ef 09   ..");
}

#[test]
fn hexdump_shows_only_printable_ascii() {
    assert_eq!(hexdump(vec![0x1f, 0x20, 0x7e, 0x7f, 0x80, 0xff], 6), "1f 20 7e 7f 80 ff   . ~...");
}

#[test]
fn hexdump_with_chunks_of_one() {
    assert_eq!(hexdump(vec![0x41, 0x42], 1), "41   A42   B");
}

#[test]
fn hexdump_matches_formatting_of_std() {
    let data: Vec<u8> = (0..=255u8).collect();
    for chunk_size in [1usize, 3, 4, 16, 300] {
        let mut expected = String::new();
        for chunk in data.chunks(chunk_size) {
            let hex: Vec<String> = chunk.iter().map(|b| format!("{:02x}", b)).collect();
            let text: String = chunk
                .iter()
                .map(|&b| if b.is_ascii() && !b.is_ascii_control() { b as char } else { '.' })
                .collect();
            expected.push_str(&format!(
                "{:<width$}  {}",
                hex.join(" "),
                text,
                width = 3 * chunk_size
            ));
        }
        assert_eq!(hexdump(data.clone(), chunk_size), expected);
    }
}
