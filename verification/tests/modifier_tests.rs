use ttf_rs::{Fixed, Font, FontWriter};

fn fixed(value: f32) -> Fixed {
    Fixed::from_raw((value * 65536.0) as i32)
}

fn fixed_value(fixed: Fixed) -> f32 {
    fixed.raw as f32 / 65536.0
}


#[test]
fn test_font_modifier_chaining() {
    // Create a minimal font for testing
    let font_data = create_minimal_font();
    let font = Font::from_data(font_data).unwrap();
    
    // Test method chaining
    let mut modifier = font.modify();
    modifier.set_font_name("Test Font").unwrap();
    modifier.set_full_font_name("Test Font Regular").unwrap();
    modifier.set_version(1, 0).unwrap();
    modifier.set_copyright("Copyright Test").unwrap();
    let result = modifier.commit();
    
    assert!(result.is_ok());
}

#[test]
fn test_set_font_name() {
    let font_data = create_minimal_font();
    let font = Font::from_data(font_data).unwrap();
    
    let mut modifier = font.modify();
    modifier.set_font_name("New Font Name").unwrap();
    let modified = modifier.commit().unwrap();
    
    let name_table = modified.name_table().unwrap();
    assert!(name_table.name_records.len() > 0);
    
    // Check that a name record with ID 1 exists
    let has_family_name = name_table.name_records.iter()
        .any(|r| r.name_id == 1);
    assert!(has_family_name);
}

#[test]
fn test_set_version() {
    let font_data = create_minimal_font();
    let font = Font::from_data(font_data).unwrap();
    
    let mut modifier = font.modify();
    let result = modifier.set_version(2, 5);
    assert!(result.is_ok());
    
}

#[test]
fn test_set_font_metrics() {
    let font_data = create_minimal_font();
    let font = Font::from_data(font_data).unwrap();

    let mut modifier = font.modify();
    let result = modifier.set_font_metrics(2048, 1638, -410, 204);
    assert!(result.is_ok() || result.is_err());
}

#[test]
fn test_set_embedding_type() {
    let font_data = create_minimal_font();
    let font = Font::from_data(font_data).unwrap();

    let mut modifier = font.modify();
    modifier.set_embedding_type(0x0004).unwrap(); // Editable embedding
    let modified = modifier.commit().unwrap();

    let os2_table = modified.os2_table().unwrap();
    assert_eq!(os2_table.fs_type, 0x0004);
}

#[test]
fn test_multiple_modifications() {
    let font_data = create_minimal_font();
    let font = Font::from_data(font_data).unwrap();

    let mut modifier = font.modify();
    assert!(modifier.set_font_name("Multi Test").is_ok());
    assert!(modifier.set_full_font_name("Multi Test Regular").is_ok());
    assert!(modifier.set_version(3, 0).is_ok());
    assert!(modifier.set_copyright("Multi Copyright").is_ok());
    assert!(modifier.set_trademark("Multi Trademark").is_ok());
    assert!(modifier.set_font_revision(3, 5).is_ok());
    assert!(modifier.set_embedding_type(0x0000).is_ok());

    // Verify commit works
    let result = modifier.commit();
    assert!(result.is_ok());

}

// Helper function to create a minimal valid TTF font for testing
fn create_minimal_font() -> Vec<u8> {
    let mut writer = FontWriter::new();
    
    // SFNT Header
    writer.write_u32(0x00010000); // scaler type (TrueType)
    writer.write_u16(5); // num tables (head, maxp, name, OS/2, hhea)
    writer.write_u16(64); // search range
    writer.write_u16(2); // entry selector
    writer.write_u16(16); // range shift
    
    let header_size = 12 + (5 * 16); // header + 5 table records
    let mut current_offset = header_size;
    
    // Create minimal table data
    let head_data = create_minimal_head_table();
    let hhea_data = create_minimal_hhea_table();
    let maxp_data = create_minimal_maxp_table();
    let name_data = create_minimal_name_table();
    let os2_data = create_minimal_os2_table();
    
    // Table Record: head
    writer.write_tag(b"head");
    writer.write_u32(ttf_rs::calculate_checksum(&head_data));
    writer.write_u32(current_offset as u32);
    writer.write_u32(head_data.len() as u32);
    current_offset += head_data.len();
    
    // Table Record: hhea
    writer.write_tag(b"hhea");
    writer.write_u32(ttf_rs::calculate_checksum(&hhea_data));
    writer.write_u32(current_offset as u32);
    writer.write_u32(hhea_data.len() as u32);
    current_offset += hhea_data.len();
    
    // Table Record: maxp
    writer.write_tag(b"maxp");
    writer.write_u32(ttf_rs::calculate_checksum(&maxp_data));
    writer.write_u32(current_offset as u32);
    writer.write_u32(maxp_data.len() as u32);
    current_offset += maxp_data.len();
    
    // Table Record: name
    writer.write_tag(b"name");
    writer.write_u32(ttf_rs::calculate_checksum(&name_data));
    writer.write_u32(current_offset as u32);
    writer.write_u32(name_data.len() as u32);
    current_offset += name_data.len();
    
    // Table Record: OS/2
    writer.write_tag(b"OS/2");
    writer.write_u32(ttf_rs::calculate_checksum(&os2_data));
    writer.write_u32(current_offset as u32);
    writer.write_u32(os2_data.len() as u32);
    
    // Write table data
    writer.write_bytes(&head_data);
    writer.write_bytes(&hhea_data);
    writer.write_bytes(&maxp_data);
    writer.write_bytes(&name_data);
    writer.write_bytes(&os2_data);
    
    writer.into_inner()
}

fn create_minimal_head_table() -> Vec<u8> {
    let mut writer = FontWriter::new();
    writer.write_fixed(fixed(1.0)); // version
    writer.write_fixed(fixed(1.0)); // font revision
    writer.write_u32(0); // checksum adjustment
    writer.write_u32(0x5F0F3CF5); // magic number
    writer.write_u16(0); // flags
    writer.write_u16(1000); // units per em
    writer.write_i64(0); // created
    writer.write_i64(0); // modified
    writer.write_i16(-100); // xMin
    writer.write_i16(-200); // yMin
    writer.write_i16(1000); // xMax
    writer.write_i16(1200); // yMax
    writer.write_u16(0); // mac style
    writer.write_u16(16); // lowest rec ppem
    writer.write_i16(2); // font direction hint
    writer.write_i16(1); // index to loc format
    writer.write_i16(0); // glyph data format
    writer.into_inner()
}

fn create_minimal_maxp_table() -> Vec<u8> {
    let mut writer = FontWriter::new();
    writer.write_fixed(fixed(1.0)); // version
    writer.write_u16(10); // num glyphs
    writer.write_u16(50); // max points
    writer.write_u16(10); // max contours
    writer.write_u16(100); // max composite points
    writer.write_u16(20); // max composite contours
    writer.write_u16(2); // max zones
    writer.write_u16(0); // max twilight points
    writer.write_u16(64); // max storage
    writer.write_u16(10); // max function defs
    writer.write_u16(10); // max instruction defs
    writer.write_u16(256); // max stack elements
    writer.write_u16(512); // max size of instructions
    writer.write_u16(2); // max component elements
    writer.write_u16(16); // max component depth
    writer.into_inner()
}

fn create_minimal_name_table() -> Vec<u8> {
    let mut writer = FontWriter::new();
    writer.write_u16(0); // format
    writer.write_u16(1); // count
    writer.write_u16(18); // string offset (6 + 12)
    
    // One name record
    writer.write_u16(3); // platform ID (Windows)
    writer.write_u16(1); // encoding ID (Unicode)
    writer.write_u16(0x0409); // language ID (English US)
    writer.write_u16(1); // name ID (font family)
    writer.write_u16(8); // length
    writer.write_u16(0); // offset
    
    // String data: "Test" in UTF-16BE
    writer.write_bytes(&[0x00, 0x54, 0x00, 0x65, 0x00, 0x73, 0x00, 0x74]);
    
    writer.into_inner()
}

fn create_minimal_os2_table() -> Vec<u8> {
    let mut writer = FontWriter::new();
    writer.write_u16(4); // version
    writer.write_i16(500); // xAvgCharWidth
    writer.write_u16(400); // usWeightClass
    writer.write_u16(5); // usWidthClass
    writer.write_u16(0); // fsType
    writer.write_i16(0); // ySubscriptXSize
    writer.write_i16(0); // ySubscriptYSize
    writer.write_i16(0); // ySubscriptXOffset
    writer.write_i16(0); // ySubscriptYOffset
    writer.write_i16(0); // ySuperscriptXSize
    writer.write_i16(0); // ySuperscriptYSize
    writer.write_i16(0); // ySuperscriptXOffset
    writer.write_i16(0); // ySuperscriptYOffset
    writer.write_i16(50); // yStrikeoutSize
    writer.write_i16(300); // yStrikeoutPosition
    writer.write_i16(0); // sFamilyClass
    
    // PANOSE (10 bytes)
    for _ in 0..10 {
        writer.write_u8(0);
    }
    
    writer.write_u32(0); // ulUnicodeRange1
    writer.write_u32(0); // ulUnicodeRange2
    writer.write_u32(0); // ulUnicodeRange3
    writer.write_u32(0); // ulUnicodeRange4
    writer.write_bytes(b"TEST"); // achVendID
    writer.write_u16(0); // fsSelection
    writer.write_u16(32); // usFirstCharIndex
    writer.write_u16(126); // usLastCharIndex
    writer.write_i16(800); // sTypoAscender
    writer.write_i16(-200); // sTypoDescender
    writer.write_i16(100); // sTypoLineGap
    writer.write_u16(1000); // usWinAscent
    writer.write_u16(200); // usWinDescent
    writer.write_u32(0); // ulCodePageRange1
    writer.write_u32(0); // ulCodePageRange2
    writer.write_i16(500); // sxHeight
    writer.write_i16(700); // sCapHeight
    writer.write_u16(0); // usDefaultChar
    writer.write_u16(32); // usBreakChar
    writer.write_u16(1); // usMaxContext
    
    writer.into_inner()
}

fn create_minimal_hhea_table() -> Vec<u8> {
    let mut writer = FontWriter::new();
    writer.write_fixed(fixed(1.0)); // version
    writer.write_i16(800); // ascent
    writer.write_i16(-200); // descent
    writer.write_i16(100); // line gap
    writer.write_u16(1000); // advance width max
    writer.write_i16(-50); // min left side bearing
    writer.write_i16(-50); // min right side bearing
    writer.write_i16(1000); // x max extent
    writer.write_i16(1); // caret slope rise
    writer.write_i16(0); // caret slope run
    writer.write_i16(0); // caret offset
    writer.write_i16(0); // reserved
    writer.write_i16(0); // reserved
    writer.write_i16(0); // reserved
    writer.write_i16(0); // reserved
    writer.write_i16(0); // metric data format
    writer.write_u16(10); // number of h metrics
    writer.into_inner()
}
