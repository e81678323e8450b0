use chip8::rom_loader::RomLoader;

#[test]
fn test_parse_assembly() {
    let input = "
            00E0                ; Clear the screen
            A200                ; Load sprite address
            6100                ; Set V1 = 0
            
            ; Sprite data
            F0808080F0          ; Sprite for 'C'
        ";

    let binary = RomLoader::parse_assembly(input);
    // A line contributes a single four-digit opcode; the ten-digit data line
    // is not one and contributes nothing.
    assert_eq!(binary, vec![0x00, 0xE0, 0xA2, 0x00, 0x61, 0x00]);
}

#[test]
fn test_opcode_to_bytes() {
    assert_eq!(RomLoader::opcode_to_bytes("00E0"), Some((0x00, 0xE0)));
    assert_eq!(RomLoader::opcode_to_bytes("A200"), Some((0xA2, 0x00)));
    assert_eq!(RomLoader::opcode_to_bytes("invalid"), None);
}

#[test]
fn parse_assembly_with_inline_comment() {
    let binary = RomLoader::parse_assembly("00E0 ; clear\nA200\n6100");
    assert_eq!(binary, vec![0x00, 0xE0, 0xA2, 0x00, 0x61, 0x00]);
}

#[test]
fn parse_assembly_labels_and_spaces() {
    let text = "start: 6105 ; set V1\r\n  loop:A2 00\n;only a comment\n\n: \nzz:12G4\n";
    assert_eq!(RomLoader::parse_assembly(text), vec![0x61, 0x05, 0xA2, 0x00]);
}

#[test]
fn parse_assembly_empty() {
    assert_eq!(RomLoader::parse_assembly(""), Vec::<u8>::new());
    assert_eq!(RomLoader::parse_assembly("\n\n; nothing\n"), Vec::<u8>::new());
}

#[test]
fn opcode_to_bytes_cases() {
    assert_eq!(RomLoader::opcode_to_bytes("a2f0"), Some((0xA2, 0xF0)));
    assert_eq!(RomLoader::opcode_to_bytes(" 1 2 3 4 "), Some((0x12, 0x34)));
    assert_eq!(RomLoader::opcode_to_bytes("12345"), None);
    assert_eq!(RomLoader::opcode_to_bytes("123"), None);
    assert_eq!(RomLoader::opcode_to_bytes("12G4"), None);
    assert_eq!(RomLoader::opcode_to_bytes("+123"), None);
    assert_eq!(RomLoader::opcode_to_bytes(""), None);
}

#[test]
fn detects_assembly_text() {
    assert!(RomLoader::is_assembly(b"6100 ; comment"));
    assert!(RomLoader::is_assembly(b"  \n\t00E0\n6100"));
    assert!(!RomLoader::is_assembly(b"6100\n00E0"));
    assert!(!RomLoader::is_assembly(&[0x00, 0xE0, 0x12, 0x00]));
    assert!(!RomLoader::is_assembly(b"00E"));
    assert!(!RomLoader::is_assembly(b""));
}

#[test]
fn load_bytes_binary_verbatim() {
    let rom = vec![0xFF, 0x00, 0x3A, 0x12, 0x34];
    assert_eq!(RomLoader::load_bytes(&rom), rom);
}

#[test]
fn load_bytes_assembles_text() {
    assert_eq!(RomLoader::load_bytes(b"00E0\n1200"), vec![0x00, 0xE0, 0x12, 0x00]);
    assert_eq!(RomLoader::load_bytes(b"x: 6A0B ;"), vec![0x6A, 0x0B]);
}

#[test]
fn unicode_whitespace_is_skipped() {
    assert_eq!(RomLoader::opcode_to_bytes("\u{a0}00E0"), Some((0x00, 0xE0)));
    assert_eq!(RomLoader::opcode_to_bytes("A2\u{3000}0\u{2009}0"), Some((0xA2, 0x00)));
    assert_eq!(RomLoader::opcode_to_bytes("\u{85}12\u{1680}3\u{205f}4\u{2028}"), Some((0x12, 0x34)));
    assert_eq!(RomLoader::opcode_to_bytes("12é4"), None);
    assert_eq!(
        RomLoader::parse_assembly("\u{a0}00E0\n\u{202f}lbl:\u{2029}A200\u{3000};c\n"),
        vec![0x00, 0xE0, 0xA2, 0x00]
    );
}

#[test]
fn unicode_whitespace_before_assembly_marker() {
    let text = "\u{a0}00E0\n6100";
    assert_eq!(text.as_bytes()[..2], [0xC2, 0xA0]);
    assert!(RomLoader::is_assembly(text.as_bytes()));
    assert_eq!(RomLoader::load_bytes(text.as_bytes()), vec![0x00, 0xE0, 0x61, 0x00]);
    assert!(!RomLoader::is_assembly("\u{a0}\u{e9}00E0".as_bytes()));
}
