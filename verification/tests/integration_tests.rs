// Integration tests for ttf-rs comprehensive capabilities
//
// These tests validate the library's functionality with real-world operations

use std::time::Instant;
use ttf_rs::{
    calculate_checksum, BoundingBox, CachedFont, CmapTable, Fixed, Font, FontModifier, FontReader,
    FontSubset, FontWriter, GlyfTable, GlyphData, HeadTable, HheaTable, HmtxTable, IoError,
    IoErrorKind, LocaTable, MaxpTable, NameTable, Os2Table, Point, PostTable, TableRecord,
    TtfError, TtfTable, TtfTableWrite, ValidationReport,
};

fn fixed(value: f32) -> Fixed {
    Fixed::from_raw((value * 65536.0) as i32)
}

fn fixed_value(fixed: Fixed) -> f32 {
    fixed.raw as f32 / 65536.0
}


#[test]
fn test_minimal_font_structure() {
    let font_data = create_test_font_data();
    assert!(font_data.len() > 0);
    
    let mut reader = FontReader::from_slice(&font_data);
    let sfnt_version = reader.read_u32().unwrap();
    assert_eq!(sfnt_version, 0x00010000);
}

#[test]
fn test_font_reader_operations() {
    let data = vec![
        0x00, 0x01, 0x00, 0x00,
        0x00, 0x0A,
        0x00, 0x20,
        0x00, 0x03,
        0x00, 0x10,
        0x12, 0x34,
        0x56, 0x78,
    ];
    
    let mut reader = FontReader::from_slice(&data);
    
    assert_eq!(reader.read_u32().unwrap(), 0x00010000);
    assert_eq!(reader.read_u16().unwrap(), 10);
    assert_eq!(reader.read_u16().unwrap(), 0x20);
    assert_eq!(reader.read_u16().unwrap(), 3);
    assert_eq!(reader.read_u16().unwrap(), 0x10);
    assert_eq!(reader.position(), 12);
    
    reader.set_position(0).unwrap();
    assert_eq!(reader.position(), 0);
    
    let bytes = reader.read_bytes(4).unwrap();
    assert_eq!(bytes, &[0x00, 0x01, 0x00, 0x00]);
    assert_eq!(reader.position(), 4);
}

#[test]
fn test_font_writer_operations() {
    let mut writer = FontWriter::new();
    
    writer.write_u8(0x12);
    writer.write_i8(-5);
    writer.write_u16(0x1234);
    writer.write_i16(-100);
    writer.write_u32(0x12345678);
    writer.write_i32(-1000);
    writer.write_fixed(fixed(1.5));
    
    let data = writer.into_inner();
    
    assert_eq!(data[0], 0x12);
    assert_eq!(data[1] as i8, -5);
    
    let mut reader = FontReader::from_slice(&data);
    assert_eq!(reader.read_u8().unwrap(), 0x12);
    assert_eq!(reader.read_i8().unwrap(), -5);
    assert_eq!(reader.read_u16().unwrap(), 0x1234);
    assert_eq!(reader.read_i16().unwrap(), -100);
    assert_eq!(reader.read_u32().unwrap(), 0x12345678);
    assert_eq!(reader.read_i32().unwrap(), -1000);
    
    let fixed = fixed_value(reader.read_fixed().unwrap());
    assert!((fixed - 1.5).abs() < 0.01);
}

#[test]
fn integration_tests_test_checksum_calculation() {
    let data1 = [0x00, 0x01, 0x02, 0x03];
    let checksum1 = calculate_checksum(&data1);
    assert_ne!(checksum1, 0);
    
    let data2 = [0x00, 0x01, 0x02, 0x03, 0x04, 0x05, 0x06, 0x07];
    let checksum2 = calculate_checksum(&data2);
    assert_ne!(checksum2, 0);
    assert_ne!(checksum1, checksum2);
    
    let data3 = [0x00; 1024];
    let checksum3 = calculate_checksum(&data3);
    assert_eq!(checksum3, 0);
}

#[test]
fn test_checksum_padding() {
    let data1 = [0x12, 0x34, 0x56];
    let checksum1 = calculate_checksum(&data1);
    
    let data2 = [0x12, 0x34, 0x56, 0x00];
    let checksum2 = calculate_checksum(&data2);
    
    assert_eq!(checksum1, checksum2);
}

#[test]
fn test_head_table_helpers() {
    let head = HeadTable {
        table_version: fixed(1.0),
        font_revision: fixed(2.5),
        checksum_adjustment: 0x12345678,
        magic_number: 0x5F0F3CF5,
        flags: 0x0001,
        units_per_em: 2048,
        created: 1234567890,
        modified: 1234567900,
        x_min: -100,
        y_min: -200,
        x_max: 1000,
        y_max: 1200,
        mac_style: 0,
        lowest_rec_ppem: 8,
        font_direction_hint: 2,
        index_to_loc_format: 0,
        glyph_data_format: 0,
    };
    
    assert_eq!(head.units_per_em, 2048);
    assert_eq!(head.is_long_loca_format(), false);
    assert_eq!(head.magic_number, 0x5F0F3CF5);
    
    let mut head_long = head.clone();
    head_long.index_to_loc_format = 1;
    assert_eq!(head_long.is_long_loca_format(), true);
}

#[test]
fn test_maxp_table_versions() {
    let maxp_05 = MaxpTable {
        version: fixed(0.5),
        num_glyphs: 256,
        max_points: None,
        max_contours: None,
        max_composite_points: None,
        max_composite_contours: None,
        max_zones: None,
        max_twilight_points: None,
        max_storage: None,
        max_function_defs: None,
        max_instruction_defs: None,
        max_stack_elements: None,
        max_size_of_instructions: None,
        max_component_elements: None,
        max_component_depth: None,
    };
    
    assert!(maxp_05.is_version_0_5());
    assert!(!maxp_05.is_version_1_0());
    assert_eq!(maxp_05.num_glyphs, 256);
    
    let maxp_10 = MaxpTable {
        version: fixed(1.0),
        num_glyphs: 512,
        max_points: Some(200),
        max_contours: Some(20),
        max_composite_points: Some(100),
        max_composite_contours: Some(10),
        max_zones: Some(2),
        max_twilight_points: Some(0),
        max_storage: Some(0),
        max_function_defs: Some(0),
        max_instruction_defs: Some(0),
        max_stack_elements: Some(256),
        max_size_of_instructions: Some(512),
        max_component_elements: Some(4),
        max_component_depth: Some(3),
    };
    
    assert!(maxp_10.is_version_1_0());
    assert!(!maxp_10.is_version_0_5());
    assert_eq!(maxp_10.num_glyphs, 512);
    assert_eq!(maxp_10.max_points, Some(200));
}

#[test]
fn integration_tests_test_os2_table_helpers() {
    let os2_normal = Os2Table {
        version: 4,
        x_avg_char_width: 500,
        us_weight_class: 400,
        us_width_class: 5,
        fs_type: 0,
        y_subscript_x_size: 650,
        y_subscript_y_size: 600,
        y_subscript_x_offset: 0,
        y_subscript_y_offset: 75,
        y_superscript_x_size: 650,
        y_superscript_y_size: 600,
        y_superscript_x_offset: 0,
        y_superscript_y_offset: 350,
        y_strikeout_size: 50,
        y_strikeout_position: 300,
        s_family_class: 0,
        panose: [0; 10],
        ul_unicode_range1: 1,
        ul_unicode_range2: 0,
        ul_unicode_range3: 0,
        ul_unicode_range4: 0,
        ach_vend_id: *b"TEST",
        fs_selection: 64,
        us_first_char_index: 32,
        us_last_char_index: 126,
        s_typo_ascender: 800,
        s_typo_descender: -200,
        s_typo_line_gap: 0,
        us_win_ascent: 1000,
        us_win_descent: 200,
        ul_code_page_range1: 1,
        ul_code_page_range2: 0,
        sx_height: 500,
        s_cap_height: 700,
        us_default_char: 0,
        us_break_char: 32,
        us_max_context: 0,
    };
    
    assert!(!os2_normal.is_bold());
    assert!(!os2_normal.is_italic());
    assert_eq!(os2_normal.get_weight_string(), "Normal");
    
    let os2_bold = Os2Table {
        us_weight_class: 700,
        ..os2_normal.clone()
    };
    assert!(os2_bold.is_bold());
    assert_eq!(os2_bold.get_weight_string(), "Bold");
    
    let os2_italic = Os2Table {
        fs_selection: 1,
        ..os2_normal.clone()
    };
    assert!(os2_italic.is_italic());
}

#[test]
fn test_hhea_table_helpers() {
    let hhea = HheaTable {
        table_version: fixed(1.0),
        ascent: 800,
        descent: -200,
        line_gap: 100,
        advance_width_max: 1000,
        min_left_side_bearing: -50,
        min_right_side_bearing: -50,
        x_max_extent: 950,
        caret_slope_rise: 1,
        caret_slope_run: 0,
        caret_offset: 0,
        reserved0: 0,
        reserved1: 0,
        reserved2: 0,
        reserved3: 0,
        reserved4: 0,
        metric_data_format: 0,
        number_of_h_metrics: 100,
    };
    
    assert_eq!(hhea.get_line_height(), 1100);
    assert_eq!(hhea.ascent, 800);
    assert_eq!(hhea.descent, -200);
    assert_eq!(hhea.line_gap, 100);
}

#[test]
fn integration_tests_test_bounding_box() {
    let bbox = BoundingBox::new(10, 20, 110, 120);
    
    assert_eq!(bbox.x_min, 10);
    assert_eq!(bbox.y_min, 20);
    assert_eq!(bbox.x_max, 110);
    assert_eq!(bbox.y_max, 120);
    assert_eq!(bbox.width(), 100);
    assert_eq!(bbox.height(), 100);
}

#[test]
fn test_point() {
    let p1 = Point::new(10, 20);
    assert_eq!(p1.x, 10);
    assert_eq!(p1.y, 20);
    
    let p2 = Point::new(30, 40);
    let distance = (((p2.x - p1.x) as f32).powi(2) + ((p2.y - p1.y) as f32).powi(2)).sqrt();
    assert!((distance - 28.284).abs() < 0.01);
}

#[test]
fn integration_tests_test_glyph_data_variants() {
    
    let simple = GlyphData::Empty;
    
    match simple {
        GlyphData::Empty => {}
        _ => {}
    }
}

#[test]
fn integration_tests_test_error_types() {
    let err1 = TtfError::Io(IoError::new(IoErrorKind::NotFound, "file not found"));
    assert!(matches!(err1, TtfError::Io(_)));
    
    let err2 = TtfError::ParseError("invalid data".to_string());
    assert!(matches!(err2, TtfError::ParseError(_)));
    
    let err3 = TtfError::InvalidSignature { expected: 0x5F0F3CF5, actual: 0x12345678 };
    assert!(matches!(err3, TtfError::InvalidSignature { .. }));
    
    let err4 = TtfError::MissingTable("kern".to_string());
    assert!(matches!(err4, TtfError::MissingTable(_)));
    
    let err5 = TtfError::UnsupportedVersion(8);
    assert!(matches!(err5, TtfError::UnsupportedVersion(_)));
}

#[test]
fn integration_tests_test_table_record() {
    
    let record = TableRecord::new(*b"head", 100, 54);
    assert_eq!(record.table_tag, *b"head");
    assert_eq!(record.offset, 100);
    assert_eq!(record.length, 54);
    assert_eq!(record.tag_to_string(), "head");
    
    let record2 = TableRecord::new(*b"cmap", 200, 1024);
    assert_eq!(record2.tag_to_string(), "cmap");
}

#[test]
fn test_cmap_format4_basic() {
    // Test that CmapSubtable type exists and can be used
    // Actual format4 testing is done through integration with real fonts
    assert!(true);
}

#[test]
fn test_font_modifier_api_exists() {
    let font_data = create_test_font_data();
    
    match Font::from_data(font_data) {
        Ok(font) => {
            let _modifier = FontModifier::new(font);
        }
        Err(_) => {
        }
    }
}

#[test]
fn test_font_subset_api_exists() {
    let font_data = create_test_font_data();
    
    match Font::from_data(font_data) {
        Ok(font) => {
            let subset = font.subset();
            drop(subset);
        }
        Err(_) => {
        }
    }
}

#[test]
fn test_cached_font_api_exists() {
    let font_data = create_test_font_data();
    
    match Font::from_data(font_data) {
        Ok(font) => {
            let cached = font.with_cache();
            drop(cached);
        }
        Err(_) => {
        }
    }
}

#[test]
fn test_validation_api_exists() {
    let font_data = create_test_font_data();
    
    match Font::from_data(font_data) {
        Ok(font) => {
            let _report = font.validate();
        }
        Err(_) => {
        }
    }
}



#[test]
fn test_performance_checksum() {
    
    let data = vec![0x12u8; 1024 * 1024];
    let start = Instant::now();
    
    let checksum = calculate_checksum(&data);
    let elapsed = start.elapsed();
    
    assert_ne!(checksum, 0);
    assert!(elapsed.as_millis() < 100, "Checksum too slow: {:?}", elapsed);
}

#[test]
fn test_performance_reader() {
    
    let mut data = Vec::new();
    for i in 0..10000 {
        data.extend_from_slice(&(i as u32).to_be_bytes());
    }
    
    let start = Instant::now();
    let mut reader = FontReader::from_slice(&data);
    
    for _ in 0..10000 {
        let _ = reader.read_u32().unwrap();
    }
    
    let elapsed = start.elapsed();
    assert!(elapsed.as_millis() < 50, "Reader too slow: {:?}", elapsed);
}

#[test]
fn test_performance_writer() {
    
    let start = Instant::now();
    let mut writer = FontWriter::new();
    
    for i in 0..10000 {
        writer.write_u32(i);
    }
    
    let data = writer.into_inner();
    let elapsed = start.elapsed();
    
    assert_eq!(data.len(), 40000);
    assert!(elapsed.as_millis() < 50, "Writer too slow: {:?}", elapsed);
}

#[test]
fn test_transform_identity() {
    
    assert!(true);
}

#[test]
fn test_transform_translation() {
    assert!(true);
}

#[test]
fn integration_tests_test_library_exports() {

    let _: Option<TtfError> = None;
    let _: Option<Result<(), TtfError>> = None;
    let _: Option<(CachedFont, CmapTable, FontSubset, GlyfTable, HmtxTable)> = None;
    let _: Option<(LocaTable, NameTable, PostTable, TableRecord, ValidationReport)> = None;
    reads_table::<HeadTable>();
    writes_table::<HeadTable>();
    let _ = calculate_checksum(&[]);
    let _ = FontWriter::new();
}

#[test]
fn test_multiple_table_access() {
    let font_data = create_test_font_data();
    
    match Font::from_data(font_data) {
        Ok(font) => {
            let _ = font.head_table();
            let _ = font.maxp_table();
            let _ = font.cmap_table();
            let _ = font.name_table();
            let _ = font.hhea_table();
            let _ = font.hmtx_table();
            let _ = font.glyf_table();
            let _ = font.loca_table();
            let _ = font.post_table();
            let _ = font.os2_table();
        }
        Err(_) => {}
    }
}



fn create_test_font_data() -> Vec<u8> {
    let mut data = Vec::new();
    
    data.extend_from_slice(&[0x00, 0x01, 0x00, 0x00]);
    data.extend_from_slice(&[0x00, 0x01]);
    data.extend_from_slice(&[0x00, 0x10]);
    data.extend_from_slice(&[0x00, 0x00]);
    data.extend_from_slice(&[0x00, 0x00]);
    
    data.extend_from_slice(b"head");
    data.extend_from_slice(&[0x00, 0x00, 0x00, 0x00]);
    data.extend_from_slice(&[0x00, 0x00, 0x00, 0x14]);
    data.extend_from_slice(&[0x00, 0x00, 0x00, 0x36]);
    
    data.extend_from_slice(&[0u8; 54]);
    
    data
}

fn reads_table<T: TtfTable>() {}

fn writes_table<T: TtfTableWrite>() {}
