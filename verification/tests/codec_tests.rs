// Decoding and encoding of single tables and of the byte cursor.

use ttf_rs::error::lift;
use ttf_rs::subset_cmap::{
    build_format4_subset, collect_mappings, find_id, format4_for, write_cmap_subset,
};
use ttf_rs::subset_tables::{
    patch_u16, subset_glyf_table, subset_hmtx_table, subset_loca_table, update_maxp_table,
};
use ttf_rs::tables::cmap::{ConstantMapGroup, Format13};
use ttf_rs::tables::kern::{KernFormat0, KernSubtable, KernTable};
use ttf_rs::tables::name::encode_utf16_be;
use ttf_rs::{
    calculate_checksum, CmapSubtable, CmapTable, CompositeGlyph, EncodingRecord, F2Dot14, Fixed,
    Font, FontReader, FontWriter, Format0, Format12, Format4, Format6, GlyfTable, Glyph,
    GlyphComponent, GlyphData, HheaTable, HmtxTable, IoErrorKind, LongHorMetric, LocaTable,
    NameTable, SequentialMapGroup, SimpleGlyph, TableRecord, Transform, TtfError, TtfTable,
    TtfTableWrite,
};

const ONE: i32 = 16384;

fn one_segment(first: u16, last: u16, glyph: u16) -> Format4 {
    Format4 {
        format: 4,
        length: 32,
        language: 0,
        seg_count_x2: 4,
        search_range: 4,
        entry_selector: 1,
        range_shift: 0,
        end_codes: vec![last, 0xFFFF],
        start_codes: vec![first, 0xFFFF],
        id_deltas: vec![glyph.wrapping_sub(first) as i16, 1],
        id_range_offsets: vec![0, 0],
        glyph_id_array: vec![],
    }
}

#[test]
fn round_trip_of_every_primitive() {
    let mut writer = FontWriter::new();
    writer.write_u8(0xAB);
    writer.write_i8(-7);
    writer.write_u16(0xBEEF);
    writer.write_i16(-12345);
    writer.write_u24(0x123456);
    writer.write_u32(0xDEADBEEF);
    writer.write_i32(-123456789);
    writer.write_u64(0x0123456789ABCDEF);
    writer.write_i64(-1234567890123456789);
    writer.write_fixed(Fixed::from_raw(-98304));
    writer.write_f2dot14(F2Dot14::from_raw(-8192));
    writer.write_long_datetime(3_000_000_000);
    writer.write_tag(&[0x67, 0x6c, 0x79, 0x66]);
    writer.write_bytes(&[1, 2, 3]);
    writer.write_bytes("héllo".as_bytes());
    assert_eq!(writer.position(), 1 + 1 + 2 + 2 + 3 + 4 + 4 + 8 + 8 + 4 + 2 + 8 + 4 + 3 + 6);

    let mut reader = FontReader::new(writer.into_inner());
    assert_eq!(reader.read_u8().unwrap(), 0xAB);
    assert_eq!(reader.read_i8().unwrap(), -7);
    assert_eq!(reader.read_u16().unwrap(), 0xBEEF);
    assert_eq!(reader.read_i16().unwrap(), -12345);
    assert_eq!(reader.read_u24().unwrap(), 0x123456);
    assert_eq!(reader.read_u32().unwrap(), 0xDEADBEEF);
    assert_eq!(reader.read_i32().unwrap(), -123456789);
    assert_eq!(reader.read_u64().unwrap(), 0x0123456789ABCDEF);
    assert_eq!(reader.read_i64().unwrap(), -1234567890123456789);
    assert_eq!(reader.read_fixed().unwrap(), Fixed::from_raw(-98304));
    assert_eq!(reader.read_f2dot14().unwrap(), F2Dot14::from_raw(-8192));
    assert_eq!(reader.read_long_datetime().unwrap(), 3_000_000_000);
    assert_eq!(reader.read_tag().unwrap(), [0x67, 0x6c, 0x79, 0x66]);
    assert_eq!(reader.read_bytes(3).unwrap(), vec![1, 2, 3]);
    assert_eq!(reader.read_string(6).unwrap(), "héllo");
    assert!(reader.is_empty());
    assert_eq!(reader.remaining(), 0);
}

#[test]
fn failed_reads_leave_the_cursor_in_place() {
    let mut reader = FontReader::from_slice(&[1, 2, 3]);
    reader.read_u8().unwrap();
    let error = reader.read_u32().unwrap_err();
    assert_eq!(error.kind(), IoErrorKind::UnexpectedEof);
    assert_eq!(reader.position(), 1);
    assert!(reader.read_u64().is_err());
    assert!(reader.read_u24().is_err());
    assert!(reader.read_tag().is_err());
    assert!(reader.read_bytes(3).is_err());
    assert!(reader.skip(3).is_err());
    assert!(reader.set_position(4).is_err());
    assert_eq!(reader.position(), 1);
    assert_eq!(reader.read_u16().unwrap(), 0x0203);
    assert!(reader.set_position(3).is_ok());
    assert!(reader.skip(0).is_ok());
    assert!(reader.skip(usize::MAX).is_err());
    assert_eq!(reader.into_inner(), vec![1, 2, 3]);
}

#[test]
fn read_string_refuses_bytes_that_are_not_utf8() {
    let mut reader = FontReader::from_slice(&[0x41, 0xFF, 0xFE, 0x42]);
    let error = reader.read_string(4).unwrap_err();
    assert_eq!(error.kind(), IoErrorKind::InvalidData);
    assert_eq!(reader.position(), 0);
    assert_eq!(reader.read_string(1).unwrap(), "A");
    assert_eq!(reader.position(), 1);
}

#[test]
fn padding_and_pad_to() {
    let mut writer = FontWriter::with_capacity(16);
    writer.write_bytes(&[9, 9, 9, 9, 9]);
    writer.write_padding(4);
    assert_eq!(writer.as_slice(), &[9, 9, 9, 9, 9, 0, 0, 0]);
    writer.write_padding(4);
    assert_eq!(writer.position(), 8);
    writer.write_padding(0);
    assert_eq!(writer.position(), 8);
    writer.write_padding(3);
    assert_eq!(writer.position(), 9);
    writer.pad_to(12);
    assert_eq!(writer.position(), 12);
    writer.pad_to(4);
    assert_eq!(writer.position(), 12);
    let fresh = FontWriter::default();
    assert_eq!(fresh.position(), 0);
}

#[test]
fn checksum_values() {
    assert_eq!(calculate_checksum(&[0x12, 0x34, 0x56, 0x78]), 0x12345678);
    assert_eq!(calculate_checksum(&[0x12, 0x34, 0x56]), 0x12345600);
    assert_eq!(calculate_checksum(&[0x12]), 0x12000000);
    assert_eq!(calculate_checksum(&[0xFF, 0xFF, 0xFF, 0xFF, 0, 0, 0, 2]), 1);
    for len in 0..9 {
        assert_eq!(calculate_checksum(&vec![0u8; len]), 0);
    }
    for len in 1..4 {
        let data = vec![0xA5u8; 8 + len];
        let mut padded = data.clone();
        while padded.len() % 4 != 0 {
            padded.push(0);
        }
        assert_eq!(calculate_checksum(&data), calculate_checksum(&padded));
    }
}

#[test]
fn format4_single_segment_maps_letters() {
    let glyph: u16 = 37;
    let table = CmapTable {
        version: 0,
        encoding_records: vec![EncodingRecord { platform_id: 3, encoding_id: 1, offset: 12 }],
        subtables: vec![CmapSubtable::Format4(one_segment(0x41, 0x5A, glyph))],
    };
    assert_eq!(table.map_char('A'), Some(glyph as u32));
    assert_eq!(table.map_char('Z'), Some(glyph as u32 + 25));
    assert_eq!(table.map_char('M'), Some(glyph as u32 + 12));
    assert_eq!(table.map_char('@'), None);
    assert_eq!(table.map_char('['), None);
    assert_eq!(table.map_char('a'), None);
    assert_eq!(table.map_char('\u{1F600}'), None);
}

#[test]
fn format4_delta_wraps_and_range_offsets_index_the_array() {
    let mut format4 = one_segment(0xFFF0, 0xFFF5, 0xFFFE);
    assert_eq!(format4.get_glyph(0xFFF0), Some(0xFFFE));
    assert_eq!(format4.get_glyph(0xFFF2), Some(0));
    assert_eq!(format4.get_glyph(0xFFF3), Some(1));
    assert_eq!(format4.seg_count(), 2);
    format4.id_range_offsets = vec![4, 0];
    format4.glyph_id_array = vec![0, 0, 7, 0, 9];
    assert_eq!(format4.get_glyph(0xFFF0), Some(7));
    assert_eq!(format4.get_glyph(0xFFF1), None);
    assert_eq!(format4.get_glyph(0xFFF2), Some(9));
    assert_eq!(format4.get_glyph(0xFFF3), None);
    let empty = Format4 { seg_count_x2: 0, ..one_segment(1, 2, 3) };
    assert_eq!(empty.get_glyph(1), None);
}

#[test]
fn other_cmap_formats_look_up() {
    let format0 = Format0 { format: 0, length: 262, language: 0, glyph_id_array: vec![5, 6, 7] };
    assert_eq!(format0.get_glyph(1), Some(6));
    assert_eq!(format0.get_glyph(3), None);
    let format6 = Format6 {
        format: 6,
        length: 16,
        language: 0,
        first_code: 100,
        entry_count: 3,
        glyph_id_array: vec![11, 12, 13],
    };
    assert_eq!(format6.get_glyph(99), None);
    assert_eq!(format6.get_glyph(100), Some(11));
    assert_eq!(format6.get_glyph(102), Some(13));
    assert_eq!(format6.get_glyph(103), None);
    let format12 = Format12 {
        format: 12,
        length: 40,
        language: 0,
        groups: vec![
            SequentialMapGroup { start_char_code: 0x1F600, end_char_code: 0x1F60F, start_glyph_code: 50 },
            SequentialMapGroup { start_char_code: 10, end_char_code: 20, start_glyph_code: 0xFFFF_FFFF },
        ],
    };
    assert_eq!(format12.get_glyph(0x1F605), Some(55));
    assert_eq!(format12.get_glyph(11), Some(0));
    assert_eq!(format12.get_glyph(21), None);
    let empty12 = Format12 { format: 12, length: 16, language: 0, groups: vec![] };
    assert_eq!(empty12.get_glyph(1), None);
    let format13 = Format13 {
        format: 13,
        length: 28,
        language: 0,
        groups: vec![ConstantMapGroup { start_char_code: 5, end_char_code: 9, glyph_code: 3 }],
    };
    assert_eq!(format13.get_glyph(5), Some(3));
    assert_eq!(format13.get_glyph(9), Some(3));
    assert_eq!(format13.get_glyph(10), None);
    assert_eq!(CmapSubtable::Format0(format0).get_glyph(0x100), None);
    assert_eq!(CmapSubtable::Format6(format6).get_glyph(0x1_0064), None);
    assert_eq!(CmapSubtable::Format13(format13).get_glyph(7), Some(3));
}

#[test]
fn best_subtable_follows_the_preference_list() {
    let sub = |glyph: u16| CmapSubtable::Format4(one_segment(0x41, 0x41, glyph));
    let record = |platform_id, encoding_id| EncodingRecord { platform_id, encoding_id, offset: 0 };
    let table = CmapTable {
        version: 0,
        encoding_records: vec![record(1, 0), record(0, 3), record(3, 1), record(0, 4)],
        subtables: vec![sub(1), sub(2), sub(3), sub(4)],
    };
    assert_eq!(table.map_char('A'), Some(3));
    let table = CmapTable {
        version: 0,
        encoding_records: vec![record(1, 0), record(0, 3), record(0, 4)],
        subtables: vec![sub(1), sub(2), sub(4)],
    };
    assert_eq!(table.map_char('A'), Some(4));
    let table = CmapTable {
        version: 0,
        encoding_records: vec![record(1, 0), record(3, 0)],
        subtables: vec![sub(1), sub(2)],
    };
    assert_eq!(table.map_char('A'), Some(2));
    let table = CmapTable {
        version: 0,
        encoding_records: vec![record(7, 7), record(8, 8)],
        subtables: vec![sub(1), sub(2)],
    };
    assert_eq!(table.map_char('A'), Some(1));
    let table = CmapTable {
        version: 0,
        encoding_records: vec![record(7, 7), record(3, 1)],
        subtables: vec![sub(1)],
    };
    assert!(table.get_best_subtable().is_none());
    assert_eq!(table.map_char('A'), None);
    let table = CmapTable { version: 0, encoding_records: vec![], subtables: vec![] };
    assert!(table.get_best_subtable().is_none());
}

fn cmap_bytes_with_format(format: u16) -> Vec<u8> {
    let mut writer = FontWriter::new();
    writer.write_u16(0);
    writer.write_u16(1);
    writer.write_u16(3);
    writer.write_u16(1);
    writer.write_u32(12);
    writer.write_u16(format);
    writer.write_bytes(&[0u8; 30]);
    writer.into_inner()
}

#[test]
fn cmap_parses_each_format_it_knows() {
    // format 4 through the writer of the subsetter
    let bytes = write_cmap_subset(&one_segment(0x41, 0x5A, 5));
    let mut reader = FontReader::new(bytes);
    let table = CmapTable::from_reader(&mut reader, 0).unwrap();
    assert_eq!(reader.position(), 12);
    assert_eq!(table.encoding_records.len(), 1);
    assert_eq!(table.encoding_records[0].platform_id, 3);
    assert_eq!(table.encoding_records[0].encoding_id, 1);
    match &table.subtables[0] {
        CmapSubtable::Format4(f) => {
            assert_eq!(f.end_codes, vec![0x5A, 0xFFFF]);
            assert_eq!(f.start_codes, vec![0x41, 0xFFFF]);
            assert_eq!(f.id_deltas, vec![5 - 0x41, 1]);
            assert_eq!(f.id_range_offsets, vec![0, 0]);
            assert!(f.glyph_id_array.is_empty());
        }
        _ => panic!("wrong format"),
    }
    assert_eq!(table.map_char('B'), Some(6));

    // format 0, 6 and 12, out of order in the file
    let mut writer = FontWriter::new();
    writer.write_u16(0);
    writer.write_u16(3);
    let start12 = 4 + 24;
    let start6 = start12 + 28;
    let start0 = start6 + 14;
    for (platform, encoding, offset) in [(0u16, 4u16, start12), (1, 0, start0), (3, 0, start6)] {
        writer.write_u16(platform);
        writer.write_u16(encoding);
        writer.write_u32(offset as u32);
    }
    writer.write_u16(12);
    writer.write_u16(0);
    writer.write_u32(28);
    writer.write_u32(0);
    writer.write_u32(1);
    writer.write_u32(0x1F600);
    writer.write_u32(0x1F601);
    writer.write_u32(9);
    writer.write_u16(6);
    writer.write_u16(14);
    writer.write_u16(0);
    writer.write_u16(0x30);
    writer.write_u16(2);
    writer.write_u16(21);
    writer.write_u16(22);
    writer.write_u16(0);
    writer.write_u16(262);
    writer.write_u16(0);
    for i in 0..=255u8 {
        writer.write_u8(i);
    }
    let mut reader = FontReader::new(writer.into_inner());
    let table = CmapTable::from_reader(&mut reader, 0).unwrap();
    assert!(matches!(table.subtables[0], CmapSubtable::Format12(_)));
    assert!(matches!(table.subtables[1], CmapSubtable::Format0(_)));
    assert!(matches!(table.subtables[2], CmapSubtable::Format6(_)));
    assert_eq!(table.map_char('\u{1F601}'), Some(10));
    assert_eq!(table.subtables[1].get_glyph(65), Some(65));
    assert_eq!(table.subtables[2].get_glyph(0x31), Some(22));
}

#[test]
fn cmap_refuses_what_it_does_not_know() {
    for format in [13u16, 14, 2, 8, 10, 99] {
        let mut reader = FontReader::new(cmap_bytes_with_format(format));
        match CmapTable::from_reader(&mut reader, 0) {
            Err(TtfError::UnsupportedVersion(found)) => assert_eq!(found, format as u32),
            other => panic!("unexpected {:?}", other.map(|_| ())),
        }
        assert_eq!(reader.position(), 0);
    }
    let mut reader = FontReader::new(cmap_bytes_with_format(4));
    let bytes = {
        let mut bytes = cmap_bytes_with_format(4);
        bytes.truncate(20);
        bytes
    };
    assert!(CmapTable::from_reader(&mut reader, 0).is_ok());
    let mut reader = FontReader::new(bytes);
    match CmapTable::from_reader(&mut reader, 0) {
        Err(TtfError::Io(e)) => assert_eq!(e.kind(), IoErrorKind::UnexpectedEof),
        other => panic!("unexpected {:?}", other.map(|_| ())),
    }
    let mut reader = FontReader::from_slice(&[0, 0, 0, 1, 0, 3, 0, 1, 0, 0, 1, 0]);
    assert!(matches!(CmapTable::from_reader(&mut reader, 0), Err(TtfError::Io(_))));
}

#[test]
fn loca_offsets_double_in_the_short_form() {
    let mut writer = FontWriter::new();
    for half in [0u16, 10, 10, 30] {
        writer.write_u16(half);
    }
    let mut reader = FontReader::new(writer.into_inner());
    let loca = LocaTable::from_reader(&mut reader, 8, 3, false).unwrap();
    assert_eq!(loca.len(), 4);
    assert_eq!(loca.get_offset(0).unwrap(), 0);
    assert_eq!(loca.get_offset(1).unwrap(), 20);
    assert_eq!(loca.get_offset(2).unwrap(), 20);
    assert_eq!(loca.get_offset(3).unwrap(), 60);
    assert!(loca.is_ascending());
    for i in 0..3 {
        assert!(loca.get_offset(i).unwrap() <= loca.get_offset(i + 1).unwrap());
    }
    assert!(matches!(loca.get_offset(4), Err(TtfError::InvalidGlyphIndex(4))));
    assert!(matches!(loca.get_offset(0x1_0005), Err(TtfError::InvalidGlyphIndex(5))));

    let mut writer = FontWriter::new();
    for offset in [0u32, 100, 70000] {
        writer.write_u32(offset);
    }
    let bytes = writer.into_inner();
    let mut reader = FontReader::from_slice(&bytes);
    let loca = LocaTable::from_reader(&mut reader, 12, 2, true).unwrap();
    assert_eq!(loca.get_offset(2).unwrap(), 70000);
    assert!(matches!(loca, LocaTable::Long(_)));
    let mut reader = FontReader::from_slice(&bytes);
    assert!(matches!(LocaTable::from_reader(&mut reader, 12, 3, true), Err(TtfError::Io(_))));
    assert_eq!(reader.position(), 0);
    assert!(!LocaTable::Long(vec![10, 5]).is_ascending());
    assert!(LocaTable::Short(vec![]).is_ascending());
}

fn simple_glyph_bytes() -> Vec<u8> {
    let mut writer = FontWriter::new();
    writer.write_i16(2); // contours
    writer.write_i16(-10);
    writer.write_i16(-20);
    writer.write_i16(300);
    writer.write_i16(400);
    writer.write_u16(2); // end of first contour
    writer.write_u16(4); // end of second contour
    writer.write_u16(3); // instructions
    writer.write_bytes(&[0xB0, 0x01, 0x2B]);
    // flags: one on-curve point with short positive x and same y, repeated twice more;
    // then a point with long x and short negative y; then one with same x and long y
    writer.write_u8(0x01 | 0x02 | 0x10 | 0x20 | 0x08);
    writer.write_u8(2);
    writer.write_u8(0x01 | 0x04);
    writer.write_u8(0x10);
    // x: 3 short steps, a long step, nothing
    writer.write_u8(10);
    writer.write_u8(20);
    writer.write_u8(30);
    writer.write_i16(-100);
    // y: nothing three times, a short negative step, a long step
    writer.write_u8(5);
    writer.write_i16(1000);
    writer.into_inner()
}

#[test]
fn simple_glyph_decodes_runs_and_steps() {
    let bytes = simple_glyph_bytes();
    let len = bytes.len();
    let mut reader = FontReader::new(bytes);
    let glyph = Glyph::read(&mut reader).unwrap();
    assert_eq!(reader.position(), len);
    assert_eq!(glyph.number_of_contours, 2);
    assert_eq!((glyph.x_min, glyph.y_min, glyph.x_max, glyph.y_max), (-10, -20, 300, 400));
    assert!(glyph.is_simple() && !glyph.is_composite() && !glyph.is_empty());
    match &glyph.data {
        GlyphData::Simple(simple) => {
            assert_eq!(simple.end_pts_of_contours, vec![2, 4]);
            assert_eq!(simple.instruction_length, 3);
            assert_eq!(simple.instructions, vec![0xB0, 0x01, 0x2B]);
            assert_eq!(simple.flags, vec![0x3B, 0x3B, 0x3B, 0x05, 0x10]);
            assert_eq!(simple.x_coordinates, vec![10, 30, 60, -40, -40]);
            assert_eq!(simple.y_coordinates, vec![0, 0, 0, -5, 995]);
        }
        _ => panic!("not simple"),
    }
}

#[test]
fn simple_glyph_faults() {
    let bytes = simple_glyph_bytes();
    for cut in [0, 5, 11, 15, 19, 21, 24, bytes.len() - 1] {
        let mut reader = FontReader::from_slice(&bytes[..cut]);
        match Glyph::read(&mut reader) {
            Err(TtfError::Io(e)) => assert_eq!(e.kind(), IoErrorKind::UnexpectedEof),
            other => panic!("cut at {}: {:?}", cut, other.map(|_| ())),
        }
        assert_eq!(reader.position(), 0);
    }
    // a run that gives more flags than there are points
    let mut overrun = bytes.clone();
    overrun[20] = 5;
    let mut reader = FontReader::new(overrun);
    assert!(matches!(Glyph::read(&mut reader), Err(TtfError::ParseError(_))));
    assert_eq!(reader.position(), 0);
    // sixteen-bit sums wrap
    let mut writer = FontWriter::new();
    writer.write_u16(1);
    writer.write_u16(0);
    writer.write_u8(0);
    writer.write_u8(0);
    writer.write_i16(32767);
    writer.write_i16(1);
    writer.write_i16(-32768);
    writer.write_i16(-1);
    let mut reader = FontReader::new(writer.into_inner());
    let simple = SimpleGlyph::read(&mut reader, 1).unwrap();
    assert_eq!(simple.x_coordinates, vec![32767, -32768]);
    assert_eq!(simple.y_coordinates, vec![-32768, 32767]);
}

#[test]
fn composite_glyph_decodes_components() {
    let mut writer = FontWriter::new();
    writer.write_i16(-1);
    for _ in 0..4 {
        writer.write_i16(0);
    }
    // byte arguments, xx and yy stored, more to come (and so yx stored as well)
    writer.write_u16(0x0080 | 0x0010 | 0x0020);
    writer.write_u16(7);
    writer.write_i8(-3);
    writer.write_i8(4);
    writer.write_f2dot14(F2Dot14::from_raw(0x2000)); // xx = 0.5
    writer.write_f2dot14(F2Dot14::from_raw(-0x4000)); // yx = -1
    writer.write_f2dot14(F2Dot14::from_raw(0x6000)); // yy = 1.5
    // word arguments, xy stored, explicit offsets, last
    writer.write_u16(0x0001 | 0x0040 | 0x0008);
    writer.write_u16(9);
    writer.write_i16(300);
    writer.write_i16(-300);
    writer.write_f2dot14(F2Dot14::from_raw(0x1000));
    writer.write_i16(11);
    writer.write_i16(-12);
    let bytes = writer.into_inner();
    let len = bytes.len();
    let mut reader = FontReader::from_slice(&bytes);
    let glyph = Glyph::read(&mut reader).unwrap();
    assert_eq!(reader.position(), len);
    assert!(glyph.is_composite());
    match &glyph.data {
        GlyphData::Composite(composite) => {
            assert_eq!(composite.components.len(), 2);
            let first = composite.components[0];
            assert_eq!((first.flags, first.glyph_index, first.arg1, first.arg2), (0x00B0, 7, -3, 4));
            assert_eq!(
                first.transform,
                Transform { xx: 0x2000, xy: 0, yx: -0x4000, yy: 0x6000, dx: -3 * ONE, dy: 4 * ONE }
            );
            let second = composite.components[1];
            assert_eq!((second.glyph_index, second.arg1, second.arg2), (9, 300, -300));
            assert_eq!(
                second.transform,
                Transform { xx: ONE, xy: 0x1000, yx: 0, yy: ONE, dx: 11 * ONE, dy: -12 * ONE }
            );
        }
        _ => panic!("not composite"),
    }
    let mut reader = FontReader::from_slice(&bytes[..len - 1]);
    assert!(matches!(Glyph::read(&mut reader), Err(TtfError::Io(_))));
    assert_eq!(reader.position(), 0);
    assert_eq!(Transform::default(), Transform { xx: ONE, xy: 0, yx: 0, yy: ONE, dx: 0, dy: 0 });
}

#[test]
fn glyf_table_follows_the_offsets() {
    let simple = simple_glyph_bytes();
    let mut data = simple.clone();
    // a glyph whose header declares no contours
    data.extend_from_slice(&[0, 0, 0, 1, 0, 2, 0, 3, 0, 4, 0xEE, 0xEE]);
    let first = simple.len() as u32;
    let loca = LocaTable::Long(vec![0, first, first, first + 12]);
    let mut reader = FontReader::from_slice(&data);
    let table = GlyfTable::from_reader(&mut reader, data.len() as u32, &loca, 3).unwrap();
    assert_eq!(reader.position(), 0);
    assert_eq!(table.glyphs.len(), 3);
    assert!(table.glyphs[0].is_simple());
    assert!(table.glyphs[1].is_empty());
    assert_eq!(table.glyphs[1].x_max, 0);
    assert!(table.glyphs[2].is_empty());
    assert_eq!(table.glyphs[2].x_max, 3);
    for i in 0..3 {
        let empty_span = loca.get_offset(i).unwrap() == loca.get_offset(i + 1).unwrap();
        let no_contours = table.glyphs[i].number_of_contours == 0;
        assert_eq!(table.glyphs[i].is_empty(), empty_span || no_contours);
    }
    assert!(table.get_glyph(2).is_some());
    assert!(table.get_glyph(3).is_none());
    let mut reader = FontReader::from_slice(&data);
    assert!(matches!(
        GlyfTable::from_reader(&mut reader, data.len() as u32, &loca, 4),
        Err(TtfError::InvalidGlyphIndex(4))
    ));
    let far = LocaTable::Long(vec![0, first, 1000, 2000]);
    let mut reader = FontReader::from_slice(&data);
    assert!(matches!(
        GlyfTable::from_reader(&mut reader, data.len() as u32, &far, 3),
        Err(TtfError::Io(_))
    ));
    let mut table = table;
    table.get_glyph_mut(1).unwrap().x_max = 77;
    assert_eq!(table.glyphs[1].x_max, 77);
    assert!(table.get_glyph_mut(3).is_none());
}

#[test]
fn hmtx_reads_and_writes() {
    let mut writer = FontWriter::new();
    for (advance, lsb) in [(500u16, 50i16), (600, -60)] {
        writer.write_u16(advance);
        writer.write_i16(lsb);
    }
    writer.write_i16(7);
    writer.write_i16(-8);
    let bytes = writer.into_inner();
    let mut reader = FontReader::from_slice(&bytes);
    let hmtx = HmtxTable::from_reader(&mut reader, 12, 4, 2).unwrap();
    assert_eq!(reader.position(), 12);
    assert_eq!(hmtx.advance_widths(), vec![500, 600]);
    assert_eq!(hmtx.left_side_bearings, vec![7, -8]);
    assert_eq!((hmtx.get_advance_width(0), hmtx.get_lsb(0)), (500, 50));
    assert_eq!((hmtx.get_advance_width(1), hmtx.get_lsb(1)), (600, -60));
    assert_eq!((hmtx.get_advance_width(2), hmtx.get_lsb(2)), (600, 7));
    assert_eq!((hmtx.get_advance_width(3), hmtx.get_lsb(3)), (600, -8));
    assert_eq!((hmtx.get_advance_width(4), hmtx.get_lsb(4)), (600, 0));
    let mut writer = FontWriter::new();
    hmtx.write(&mut writer).unwrap();
    assert_eq!(writer.into_inner(), bytes);
    assert_eq!(<HmtxTable as TtfTableWrite>::table_tag(), *b"hmtx");
    let empty = HmtxTable { h_metrics: vec![], left_side_bearings: vec![] };
    assert_eq!((empty.get_advance_width(0), empty.get_lsb(0)), (0, 0));
    let mut reader = FontReader::from_slice(&bytes[..11]);
    assert!(matches!(HmtxTable::from_reader(&mut reader, 11, 4, 2), Err(TtfError::Io(_))));
    let mut reader = FontReader::from_slice(&bytes[..8]);
    assert!(HmtxTable::from_reader(&mut reader, 8, 1, 2).is_ok());
    let _ = LongHorMetric { advance_width: 1, lsb: 2 };
}

#[test]
fn line_height_is_ascent_minus_descent_plus_gap() {
    let mut hhea = HheaTable {
        table_version: Fixed::from_int(1),
        ascent: 800,
        descent: -200,
        line_gap: 0,
        advance_width_max: 0,
        min_left_side_bearing: 0,
        min_right_side_bearing: 0,
        x_max_extent: 0,
        caret_slope_rise: 0,
        caret_slope_run: 0,
        caret_offset: 0,
        reserved0: 0,
        reserved1: 0,
        reserved2: 0,
        reserved3: 0,
        reserved4: 0,
        metric_data_format: 0,
        number_of_h_metrics: 0,
    };
    assert_eq!(hhea.get_line_height(), 1000);
    assert_eq!((hhea.ascender(), hhea.descender()), (800, -200));
    hhea.ascent = 32767;
    hhea.descent = -32768;
    hhea.line_gap = 32767;
    assert_eq!(hhea.get_line_height(), 98302);
    let mut writer = FontWriter::new();
    hhea.write(&mut writer).unwrap();
    let bytes = writer.into_inner();
    assert_eq!(bytes.len(), 38);
    let mut reader = FontReader::new(bytes);
    let back = HheaTable::from_reader(&mut reader, 38).unwrap();
    assert_eq!(back.get_line_height(), 98302);
}

#[test]
fn name_table_sets_and_writes_names() {
    let mut writer = FontWriter::new();
    writer.write_u16(0);
    writer.write_u16(2);
    writer.write_u16(30);
    for (name_id, length, offset) in [(4u16, 4u16, 0u16), (1, 2, 4)] {
        writer.write_u16(3);
        writer.write_u16(1);
        writer.write_u16(0x0409);
        writer.write_u16(name_id);
        writer.write_u16(length);
        writer.write_u16(offset);
    }
    let bytes = writer.into_inner();
    let mut reader = FontReader::from_slice(&bytes);
    let mut table = NameTable::from_reader(&mut reader, 30).unwrap();
    assert_eq!(reader.position(), 30);
    assert_eq!(table.get_font_name().unwrap().length, 2);
    assert_eq!(table.get_full_name().unwrap().length, 4);
    assert!(table.get_postscript_name().is_none());
    let (record, text) = table.get_name(4).unwrap();
    assert_eq!((record.name_id, text.as_str()), (4, ""));
    assert!(table.get_name(9).is_none());

    table.set_name("Aé😀", 3, 1, 0x0409, 1);
    assert_eq!(table.count, 2);
    assert_eq!(table.name_records[0].name_id, 4);
    assert_eq!(table.name_records[1].name_id, 1);
    assert_eq!(table.name_records[1].length, 8);
    assert_eq!(table.string_data.len(), 1);
    assert_eq!(table.string_data[0].data, vec![0, 0x41, 0, 0xE9, 0xD8, 0x3D, 0xDE, 0x00]);
    table.set_name("B", 3, 1, 0x0409, 1);
    assert_eq!(table.string_data.len(), 1);
    assert_eq!(table.string_data[0].data, vec![0, 0x42]);

    let mut writer = FontWriter::new();
    table.write(&mut writer).unwrap();
    let written = writer.into_inner();
    assert_eq!(written.len(), 6 + 24 + 2);
    let mut reader = FontReader::from_slice(&written);
    let back = NameTable::from_reader(&mut reader, written.len() as u32).unwrap();
    assert_eq!(back.string_offset, 30);
    assert_eq!((back.name_records[0].length, back.name_records[0].offset), (4, 0));
    assert_eq!((back.name_records[1].length, back.name_records[1].offset), (2, 30));
    assert_eq!(&written[30..], &[0, 0x42]);

    let long = "x".repeat(40000);
    table.set_name(&long, 3, 1, 0x0409, 2);
    let mut writer = FontWriter::new();
    assert!(matches!(table.write(&mut writer), Err(TtfError::InvalidSize { .. })));
    assert_eq!(writer.position(), 0);
    assert_eq!(encode_utf16_be(""), Vec::<u8>::new());
    let mut reader = FontReader::from_slice(&bytes[..29]);
    assert!(matches!(NameTable::from_reader(&mut reader, 29), Err(TtfError::Io(_))));
}

#[test]
fn kern_table_keeps_format_zero() {
    let mut writer = FontWriter::new();
    writer.write_u16(0);
    writer.write_u16(2);
    // a subtable of another format, ten bytes long
    writer.write_u16(0);
    writer.write_u16(10);
    writer.write_u16(0x0101);
    writer.write_u16(0xAAAA);
    // format 0 with two pairs
    writer.write_u16(0);
    writer.write_u16(26);
    writer.write_u16(0x4000);
    writer.write_u16(2);
    writer.write_u16(0);
    writer.write_u16(0);
    writer.write_u16(0);
    for (left, right, value) in [(1u16, 2u16, -50i16), (3, 4, 25)] {
        writer.write_u16(left);
        writer.write_u16(right);
        writer.write_i16(value);
    }
    let bytes = writer.into_inner();
    let mut reader = FontReader::from_slice(&bytes);
    let table = KernTable::from_reader(&mut reader, bytes.len() as u32).unwrap();
    assert_eq!(reader.position(), bytes.len());
    assert_eq!(table.subtables.len(), 1);
    let KernSubtable::Format0(format0) = &table.subtables[0];
    assert_eq!(format0.pairs.len(), 2);
    assert_eq!((format0.pairs[0].left, format0.pairs[0].right, format0.pairs[0].value), (1, 2, -50));
    assert_eq!((format0.pairs[1].left, format0.pairs[1].right, format0.pairs[1].value), (3, 4, 25));
    assert!(format0.is_horizontal());
    assert!(format0.is_minimum());
    let other = KernFormat0 { version: 0, length: 0, coverage: 0x00E0, pairs: vec![] };
    assert!(!other.is_horizontal() && !other.is_minimum() && other.is_cross_stream());
    assert!(!format0.is_cross_stream());
    let mut reader = FontReader::from_slice(&bytes[..bytes.len() - 1]);
    assert!(matches!(KernTable::from_reader(&mut reader, 0), Err(TtfError::Io(_))));
    assert_eq!(reader.position(), 0);
}

#[test]
fn table_record_reads_writes_and_names_itself() {
    let record = TableRecord { table_tag: *b"OS/2", checksum: 0xCAFEBABE, offset: 1234, length: 96 };
    let mut writer = FontWriter::new();
    record.write(&mut writer);
    let bytes = writer.into_inner();
    assert_eq!(bytes.len(), 16);
    let mut reader = FontReader::from_slice(&bytes);
    let back = TableRecord::from_reader(&mut reader).unwrap();
    assert_eq!((back.table_tag, back.checksum, back.offset, back.length), (*b"OS/2", 0xCAFEBABE, 1234, 96));
    assert_eq!(back.tag_to_string(), "OS/2");
    let odd = TableRecord::new([0x41, 0xFF, 0x42, 0xC0], 0, 0);
    assert_eq!(odd.checksum, 0);
    assert_eq!(odd.tag_to_string(), "A\u{FFFD}B\u{FFFD}");
    let mut reader = FontReader::from_slice(&bytes[..15]);
    assert!(matches!(TableRecord::from_reader(&mut reader), Err(TtfError::Io(_))));
    assert_eq!(reader.position(), 0);
    assert!(matches!(lift::<u8>(Ok(3)), Ok(3)));
}

#[test]
fn format4_subset_holds_exactly_its_pairs() {
    let pairs: Vec<(u32, u32)> = vec![(0x41, 1), (0x42, 2), (0x43, 3), (0x45, 5), (0x46, 9), (0x47, 10), (0x100, 0)];
    let format4 = build_format4_subset(&pairs).unwrap();
    assert_eq!(format4.start_codes, vec![0x41, 0x45, 0x46, 0x100, 0xFFFF]);
    assert_eq!(format4.end_codes, vec![0x43, 0x45, 0x47, 0x100, 0xFFFF]);
    assert_eq!(format4.id_deltas, vec![-0x40, -0x40, -0x3D, -0x100, 1]);
    assert_eq!(format4.id_range_offsets, vec![0; 5]);
    assert_eq!(format4.seg_count_x2, 10);
    assert_eq!(format4.length, 16 + 8 * 5);
    assert_eq!((format4.search_range, format4.entry_selector, format4.range_shift), (8, 3, 2));
    for &(code, glyph) in &pairs {
        assert_eq!(format4.get_glyph(code as u16), Some(glyph as u16));
    }
    for code in [0x40u16, 0x44, 0x48, 0xFF, 0x101, 0xFFFE, 0] {
        assert_eq!(format4.get_glyph(code), None);
    }
    assert_eq!(format4.get_glyph(0xFFFF), Some(0));
    assert!(matches!(build_format4_subset(&[]), Err(TtfError::ParseError(_))));
    let scattered: Vec<(u32, u32)> = (0..8189u32).map(|i| (2 * i, 1)).collect();
    assert!(matches!(build_format4_subset(&scattered), Err(TtfError::InvalidSize { .. })));
    let fitting: Vec<(u32, u32)> = (0..8188u32).map(|i| (2 * i, 1)).collect();
    assert_eq!(build_format4_subset(&fitting).unwrap().seg_count(), 8189);
    // a delta that wraps
    let wrapped = build_format4_subset(&[(0xFFF0, 2), (0xFFF1, 3)]).unwrap();
    assert_eq!(wrapped.get_glyph(0xFFF1), Some(3));
    assert_eq!(wrapped.id_deltas[0], 18);
}

#[test]
fn mappings_take_the_least_new_id() {
    let table = CmapTable {
        version: 0,
        encoding_records: vec![],
        subtables: vec![
            CmapSubtable::Format4(one_segment(0x41, 0x44, 20)),
            CmapSubtable::Format6(Format6 {
                format: 6,
                length: 0,
                language: 0,
                first_code: 0x42,
                entry_count: 2,
                glyph_id_array: vec![10, 99],
            }),
        ],
    };
    let retained = [0u32, 10, 20, 21, 23];
    let pairs = collect_mappings(&table, &retained);
    assert_eq!(pairs, vec![(0x41, 2), (0x42, 1), (0x44, 4), (0xFFFF - 0, 0)].into_iter().filter(|p| p.0 < 0xFFFF).collect::<Vec<_>>());
    assert_eq!(find_id(&retained, 21), Some(3));
    assert_eq!(find_id(&retained, 22), None);
    assert_eq!(find_id(&[], 0), None);
}

#[test]
fn subset_tables_are_rewritten() {
    // outlines: glyph 0 empty, glyph 1 simple (12 bytes here), glyph 2 composite of 1 and 9
    let mut glyf = vec![0u8; 0];
    let simple = vec![0, 1, 0, 0, 0, 0, 0, 0, 0, 0, 0xAA, 0xBB];
    glyf.extend_from_slice(&simple);
    let mut writer = FontWriter::new();
    writer.write_i16(-1);
    for _ in 0..4 {
        writer.write_i16(0);
    }
    writer.write_u16(0x0020);
    writer.write_u16(1);
    writer.write_i8(0);
    writer.write_i8(0);
    writer.write_i16(0x4000);
    writer.write_u16(0x0000);
    writer.write_u16(9);
    writer.write_i8(1);
    writer.write_i8(1);
    let composite = writer.into_inner();
    glyf.extend_from_slice(&composite);
    let loca = LocaTable::Short(vec![0, 0, 6, (12 + composite.len() as u16) / 2]);
    let (outlines, offsets) = subset_glyf_table(&glyf, &loca, 3, &[0, 2]).unwrap();
    assert_eq!(offsets, vec![0, 0, composite.len() as u32]);
    assert_eq!(outlines, composite);
    let (outlines, offsets) = subset_glyf_table(&glyf, &loca, 3, &[0, 1, 2]).unwrap();
    assert_eq!(offsets, vec![0, 0, 12, 12 + composite.len() as u32]);
    assert_eq!(&outlines[..12], &simple[..]);
    assert_eq!(&outlines[12..], &composite[..]);
    let (outlines, _) = subset_glyf_table(&glyf, &loca, 3, &[1, 2]).unwrap();
    let mut renumbered = composite.clone();
    renumbered[13] = 0;
    assert_eq!(&outlines[12..], &renumbered[..]);
    assert!(matches!(subset_glyf_table(&glyf, &loca, 3, &[0, 3]), Err(TtfError::InvalidGlyphIndex(3))));
    let broken = LocaTable::Short(vec![0, 4, 2, 2]);
    assert!(matches!(subset_glyf_table(&glyf, &broken, 3, &[1]), Err(TtfError::InvalidLocaOffset(8))));

    assert_eq!(subset_loca_table(&[0, 12, 30], false).unwrap(), vec![0, 0, 0, 6, 0, 15]);
    assert_eq!(subset_loca_table(&[0, 70000], true).unwrap(), vec![0, 0, 0, 0, 0, 1, 0x11, 0x70]);
    assert!(matches!(subset_loca_table(&[0, 13], false), Err(TtfError::InvalidLocaOffset(13))));
    assert!(matches!(subset_loca_table(&[0x2_0000], false), Err(TtfError::InvalidLocaOffset(0x2_0000))));

    let hmtx = HmtxTable {
        h_metrics: vec![
            LongHorMetric { advance_width: 100, lsb: 1 },
            LongHorMetric { advance_width: 200, lsb: 2 },
        ],
        left_side_bearings: vec![-3],
    };
    assert_eq!(subset_hmtx_table(&hmtx, &[0, 2, 5]), vec![0, 100, 0, 1, 0, 200, 0xFF, 0xFD, 0, 200, 0, 0]);
    assert_eq!(update_maxp_table(&[0, 1, 0, 0, 0, 9, 7, 7], 300), vec![0, 1, 0, 0, 1, 44, 7, 7]);
    assert_eq!(update_maxp_table(&[0, 1, 0, 0, 0], 300), vec![0, 1, 0, 0, 0]);
    assert_eq!(patch_u16(&[1, 2, 3], 1, 0xABCD), vec![1, 0xAB, 0xCD]);
    assert_eq!(patch_u16(&[1, 2, 3], 2, 0xABCD), vec![1, 2, 3]);
    let _ = (CompositeGlyph { components: vec![] }, Font::from_data(vec![]).is_err());
    let _ = GlyphComponent { flags: 0, glyph_index: 0, arg1: 0, arg2: 0, transform: Transform::default() };
}

#[test]
fn format4_subset_segments_stand_in_order() {
    let built = build_format4_subset(&[(0x41, 1), (0x42, 2), (0x43, 3), (0x61, 5)]).unwrap();
    assert_eq!(built.format, 4);
    assert_eq!(built.start_codes, vec![0x41, 0x61, 0xFFFF]);
    assert_eq!(built.end_codes, vec![0x43, 0x61, 0xFFFF]);
    assert_eq!(built.id_deltas, vec![-64, -92, 1]);
    assert_eq!(built.id_range_offsets, vec![0, 0, 0]);
    assert!(built.glyph_id_array.is_empty());
    assert_eq!((built.seg_count_x2, built.length), (6, 40));
    assert!(matches!(build_format4_subset(&[]), Err(TtfError::ParseError(_))));
    let closing = format4_for(&[]).unwrap();
    assert_eq!(closing.start_codes, vec![0xFFFF]);
    assert_eq!(closing.end_codes, vec![0xFFFF]);
    assert_eq!(closing.id_deltas, vec![1]);
    assert_eq!((closing.seg_count_x2, closing.length), (2, 24));
    assert_eq!(closing.get_glyph(0x41), None);
}
