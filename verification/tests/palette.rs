use lib::palette::{ClipboardPalette, PaletteEntry};

fn entry(red: u8, green: u8, blue: u8, extra: u8) -> PaletteEntry {
    PaletteEntry { red, green, blue, extra }
}

fn encode_vec(palette: &ClipboardPalette) -> Vec<u8> {
    let mut buffer = Vec::new();
    palette.encode(&mut buffer);
    buffer
}

#[test]
fn palette_encodes_entries_in_order() {
    let palette = ClipboardPalette { entries: vec![entry(1, 2, 3, 4), entry(0xFF, 0x80, 0x00, 0x7F)] };
    assert_eq!(encode_vec(&palette), vec![1, 2, 3, 4, 0xFF, 0x80, 0x00, 0x7F]);
    assert_eq!(palette.size(), 8);
}

#[test]
fn palette_encode_appends_to_existing_bytes() {
    let palette = ClipboardPalette { entries: vec![entry(9, 8, 7, 6)] };
    let mut buffer = vec![0xAA, 0xBB];
    palette.encode(&mut buffer);
    assert_eq!(buffer, vec![0xAA, 0xBB, 9, 8, 7, 6]);
}

#[test]
fn empty_palette() {
    let palette = ClipboardPalette { entries: vec![] };
    assert_eq!(encode_vec(&palette), Vec::<u8>::new());
    assert_eq!(palette.size(), 0);
    let (decoded, read) = ClipboardPalette::decode(&[]);
    assert_eq!(decoded, palette);
    assert_eq!(read, 0);
}

#[test]
fn palette_decode_reads_whole_entries_only() {
    let (decoded, read) = ClipboardPalette::decode(&[1, 2, 3, 4, 5, 6, 7, 8, 9, 10, 11]);
    assert_eq!(decoded.entries, vec![entry(1, 2, 3, 4), entry(5, 6, 7, 8)]);
    assert_eq!(read, 8);
    let (decoded, read) = ClipboardPalette::decode(&[1, 2, 3]);
    assert!(decoded.entries.is_empty());
    assert_eq!(read, 0);
}

#[test]
fn palette_roundtrip_with_trailing_bytes() {
    let palette = ClipboardPalette {
        entries: vec![entry(0, 0, 0, 0), entry(0x10, 0x20, 0x30, 0x40), entry(0xFE, 0xFD, 0xFC, 0xFB)],
    };
    let mut bytes = encode_vec(&palette);
    let encoded_len = bytes.len();
    bytes.extend([0x55, 0x66, 0x77]);
    let (decoded, read) = ClipboardPalette::decode(&bytes);
    assert_eq!(decoded, palette);
    assert_eq!(read, encoded_len);
    assert_eq!(encode_vec(&decoded), bytes[..read].to_vec());
}

#[test]
fn palette_name() {
    let palette = ClipboardPalette { entries: vec![] };
    assert_eq!(palette.name(), "CLIPRDR_PALETTE");
    assert_eq!(ClipboardPalette::NAME, "CLIPRDR_PALETTE");
    assert_eq!(PaletteEntry::SIZE, 4);
}
