use ttf_rs::tables::base::BaseTable;
use ttf_rs::tables::bitmaps::{CbdTTable, CblcTable, SbixTable, SvgTable};
use ttf_rs::tables::colr::ColrTable;
use ttf_rs::tables::cpal::CpalTable;
use ttf_rs::tables::gpos::{GposTable, JstfTable};
use ttf_rs::tables::gvar::GvarTable;
use ttf_rs::tables::hvar::{HvarTable, VvarTable};
use ttf_rs::tables::programs::{CvtTable, FpgmTable, PrepTable};
use ttf_rs::tables::variations::{AvarTable, FvarTable, StatTable};
use ttf_rs::{Fixed, FontReader, TtfError, TtfTable};

fn truncated<T>(r: Result<T, TtfError>) -> bool {
    match r {
        Err(TtfError::Io(e)) => e.kind == ttf_rs::IoErrorKind::UnexpectedEof,
        _ => false,
    }
}

#[test]
fn base_header_is_three_words() {
    let bytes = vec![0, 1, 0, 0, 0, 0, 0, 12, 0, 0, 1, 0, 9];
    let mut reader = FontReader::new(bytes.clone());
    let table = BaseTable::from_reader(&mut reader, 12).unwrap();
    assert_eq!(
        (table.version, table.horiz_axis_offset, table.vert_axis_offset),
        (0x0001_0000, 12, 256)
    );
    assert_eq!(reader.position(), 12);
    let mut short = FontReader::new(bytes[..11].to_vec());
    assert!(truncated(BaseTable::from_reader(&mut short, 12)));
    assert_eq!(short.position(), 0);
}

#[test]
fn metric_variation_headers_are_three_words() {
    let bytes = vec![0, 1, 0, 0, 0, 0, 0, 20, 0, 0, 0, 40];
    let mut reader = FontReader::new(bytes.clone());
    let hvar = HvarTable::from_reader(&mut reader, 12).unwrap();
    assert_eq!(
        (hvar.version, hvar.variation_region_list_offset, hvar.item_variation_store_offset),
        (0x0001_0000, 20, 40)
    );
    let mut reader = FontReader::new(bytes.clone());
    let vvar = VvarTable::from_reader(&mut reader, 12).unwrap();
    assert_eq!(
        (vvar.version, vvar.variation_region_list_offset, vvar.item_variation_store_offset),
        (0x0001_0000, 20, 40)
    );
    assert_eq!(reader.position(), 12);
    let mut short = FontReader::new(bytes[..8].to_vec());
    assert!(truncated(HvarTable::from_reader(&mut short, 12)));
    assert!(truncated(VvarTable::from_reader(&mut short, 12)));
}

#[test]
fn glyph_variation_header_is_twelve_bytes() {
    let bytes = vec![0, 1, 0, 0, 0, 2, 0, 3, 0, 0, 0, 64, 1, 2];
    let mut reader = FontReader::new(bytes.clone());
    let table = GvarTable::from_reader(&mut reader, 14).unwrap();
    assert_eq!(table.version, 0x0001_0000);
    assert_eq!(
        (table.axes_array_offset, table.shared_tuples_count, table.shared_tuples_offset),
        (2, 3, 64)
    );
    assert!(table.glyph_variation_data.is_empty());
    assert_eq!(reader.position(), 12);
    let mut short = FontReader::new(bytes[..11].to_vec());
    assert!(truncated(GvarTable::from_reader(&mut short, 11)));
}

#[test]
fn colour_layer_header_holds_three_counts() {
    let bytes = vec![0, 1, 0, 0, 0, 2, 0, 0, 0, 3, 0, 0, 0, 4];
    let mut reader = FontReader::new(bytes.clone());
    let table = ColrTable::from_reader(&mut reader, 14).unwrap();
    assert_eq!(table.version, 1);
    assert_eq!(
        (table.num_base_glyph_records, table.num_layer_records, table.num_clip_boxes),
        (2, 3, 4)
    );
    assert!(table.base_glyph_records.is_empty());
    assert!(table.layer_records.is_empty() && table.clip_boxes.is_empty());
    assert_eq!(reader.position(), 14);
    let mut short = FontReader::new(bytes[..13].to_vec());
    assert!(truncated(ColrTable::from_reader(&mut short, 13)));
}

#[test]
fn control_values_are_signed_words() {
    let bytes = vec![0xff, 0xfe, 0x00, 0x10, 0x7f];
    let mut reader = FontReader::new(bytes.clone());
    let table = CvtTable::from_reader(&mut reader, 5).unwrap();
    assert_eq!(table.values, vec![-2, 16]);
    assert_eq!(reader.position(), 4);
    let mut reader = FontReader::new(bytes.clone());
    assert!(truncated(CvtTable::from_reader(&mut reader, 6)));
    assert_eq!(reader.position(), 0);
}

#[test]
fn programs_are_the_bytes_of_the_table() {
    let bytes = vec![0xb0, 0x01, 0x2c, 0x4b];
    let mut reader = FontReader::new(bytes.clone());
    let fpgm = FpgmTable::from_reader(&mut reader, 3).unwrap();
    assert_eq!(fpgm.instructions, vec![0xb0, 0x01, 0x2c]);
    assert_eq!(reader.position(), 3);
    let prep = PrepTable::from_reader(&mut reader, 1).unwrap();
    assert_eq!(prep.instructions, vec![0x4b]);
    assert!(truncated(PrepTable::from_reader(&mut reader, 1)));
    assert!(truncated(FpgmTable::from_reader(&mut reader, 1)));
    assert_eq!(FpgmTable::from_reader(&mut reader, 0).unwrap().instructions, Vec::<u8>::new());
}

#[test]
fn positioning_header_depends_on_the_version() {
    let mut bytes = vec![0, 0, 0x80, 0, 0, 0, 0, 10, 0, 0, 0, 20, 0, 0, 0, 30, 0, 0, 0, 40];
    let mut reader = FontReader::new(bytes.clone());
    let table = GposTable::from_reader(&mut reader, 20).unwrap();
    assert_eq!(table.version, 0x8000);
    assert_eq!(
        (table.script_list_offset, table.feature_list_offset, table.lookup_list_offset),
        (10, 20, 30)
    );
    assert_eq!(table.feature_variations_offset, None);
    assert_eq!(reader.position(), 16);
    bytes[1] = 1;
    bytes[2] = 0;
    let mut reader = FontReader::new(bytes.clone());
    let table = GposTable::from_reader(&mut reader, 20).unwrap();
    assert_eq!(table.feature_variations_offset, Some(40));
    assert_eq!(reader.position(), 20);
    let mut short = FontReader::new(bytes[..19].to_vec());
    assert!(truncated(GposTable::from_reader(&mut short, 19)));
    assert_eq!(short.position(), 0);
}

#[test]
fn justification_table_holds_two_lists() {
    let bytes = vec![
        0, 1, 0, 0, 0, 2, 9, 9, 0, 0, 0, 1, 0, 0, 0, 2, 0, 1, 9, 9, 0, 0, 0, 3,
    ];
    let mut reader = FontReader::new(bytes.clone());
    let table = JstfTable::from_reader(&mut reader, 24).unwrap();
    assert_eq!(table.version, 0x0001_0000);
    assert_eq!((table.gsub_lookup_count, table.gpos_lookup_count), (2, 1));
    assert_eq!(table.gsub_lookup_offsets, vec![1, 2]);
    assert_eq!(table.gpos_lookup_offsets, vec![3]);
    assert_eq!(reader.position(), 24);
    let mut short = FontReader::new(bytes[..23].to_vec());
    assert!(truncated(JstfTable::from_reader(&mut short, 23)));
    assert_eq!(short.position(), 0);
}

#[test]
fn bitmap_tables_decode_their_headers() {
    let bytes = vec![0, 3, 0, 0, 0, 0, 0, 2, 0, 0, 0, 16, 0, 0, 0, 32];
    let mut reader = FontReader::new(bytes.clone());
    let cbdt = CbdTTable::from_reader(&mut reader, 16).unwrap();
    assert_eq!((cbdt.version, cbdt.num_glyphs), (0x0003_0000, 2));
    assert!(cbdt.bitmap_sizes.is_empty());
    assert_eq!(reader.position(), 8);
    let mut reader = FontReader::new(bytes.clone());
    let cblc = CblcTable::from_reader(&mut reader, 16).unwrap();
    assert_eq!((cblc.version, cblc.num_sizes), (0x0003_0000, 2));
    assert_eq!(cblc.bitmap_tables, vec![16, 32]);
    assert_eq!(reader.position(), 16);
    let mut short = FontReader::new(bytes[..15].to_vec());
    assert!(truncated(CblcTable::from_reader(&mut short, 15)));
    let mut short = FontReader::new(bytes[..7].to_vec());
    assert!(truncated(CbdTTable::from_reader(&mut short, 7)));
}

#[test]
fn strikes_and_documents_are_counted() {
    let bytes = vec![0, 1, 0, 2, 0, 0, 0, 2, 0, 16, 0, 72, 0, 32, 0, 144];
    let mut reader = FontReader::new(bytes.clone());
    let sbix = SbixTable::from_reader(&mut reader, 16).unwrap();
    assert_eq!((sbix.version, sbix.flags), (1, 2));
    let strikes: Vec<(u16, u16)> = sbix.strikes.iter().map(|s| (s.ppem, s.resolution)).collect();
    assert_eq!(strikes, vec![(16, 72), (32, 144)]);
    assert!(sbix.strikes.iter().all(|s| s.bitmaps.is_empty()));
    assert_eq!(reader.position(), 16);
    let mut short = FontReader::new(bytes[..14].to_vec());
    assert!(truncated(SbixTable::from_reader(&mut short, 14)));

    let bytes = vec![0, 0, 0, 0, 0, 2, 0, 0, 0, 10, 0, 0, 0, 20, 7];
    let mut reader = FontReader::new(bytes.clone());
    let svg = SvgTable::from_reader(&mut reader, 15).unwrap();
    assert_eq!(svg.version, 0);
    assert!(svg.svg_documents.is_empty());
    assert_eq!(reader.position(), 14);
    let mut short = FontReader::new(bytes[..13].to_vec());
    assert!(truncated(SvgTable::from_reader(&mut short, 13)));
    assert_eq!(short.position(), 0);
}

#[test]
fn palettes_hold_their_colours() {
    let mut bytes = vec![0, 0, 0, 2, 0, 2, 0, 0, 0, 4];
    bytes.extend_from_slice(&[1, 2, 3, 4, 5, 6, 7, 8, 9, 10, 11, 12, 13, 14, 15, 16]);
    let mut reader = FontReader::new(bytes.clone());
    let table = CpalTable::from_reader(&mut reader, 26).unwrap();
    assert_eq!((table.version, table.num_palette_entries, table.num_palettes), (0, 2, 2));
    assert_eq!(table.num_color_records, 4);
    assert_eq!(table.palettes.len(), 2);
    let colour = table.palettes[1].colors[0];
    assert_eq!((colour.blue, colour.green, colour.red, colour.alpha), (9, 10, 11, 12));
    let colour = table.palettes[0].colors[1];
    assert_eq!((colour.blue, colour.green, colour.red, colour.alpha), (5, 6, 7, 8));
    assert_eq!(reader.position(), 26);
    let mut short = FontReader::new(bytes[..25].to_vec());
    assert!(truncated(CpalTable::from_reader(&mut short, 25)));
    assert_eq!(short.position(), 0);
}

#[test]
fn style_attributes_list_their_axes() {
    let mut bytes = vec![0, 1, 0, 2, 0, 2];
    bytes.extend_from_slice(b"wght");
    bytes.extend_from_slice(&[1, 0, 0, 0]);
    bytes.extend_from_slice(b"wdth");
    bytes.extend_from_slice(&[1, 1, 0, 1]);
    bytes.extend_from_slice(&[0, 5]);
    let mut reader = FontReader::new(bytes.clone());
    let table = StatTable::from_reader(&mut reader, 24).unwrap();
    assert_eq!((table.version, table.design_axis_count, table.axis_value_count), (0x0001_0002, 2, 5));
    assert_eq!(&table.design_axes[0].axis_tag, b"wght");
    assert_eq!(&table.design_axes[1].axis_tag, b"wdth");
    assert_eq!((table.design_axes[1].axis_name_id, table.design_axes[1].axis_ordering), (257, 1));
    assert!(table.axis_values.is_empty());
    assert_eq!(reader.position(), 24);
    let mut short = FontReader::new(bytes[..23].to_vec());
    assert!(truncated(StatTable::from_reader(&mut short, 23)));
    assert_eq!(short.position(), 0);
}

#[test]
fn axis_maps_hold_two_lists_each() {
    let mut bytes = vec![0, 1, 0, 0, 0, 1];
    bytes.extend_from_slice(&[0, 2, 0xff, 0xff, 0, 0, 0, 1, 0, 0]);
    bytes.extend_from_slice(&[0, 1, 0, 0, 0x80, 0]);
    let mut reader = FontReader::new(bytes.clone());
    let table = AvarTable::from_reader(&mut reader, 22).unwrap();
    assert_eq!((table.version, table.reserved), (1, 0));
    assert_eq!(table.axis_segment_maps.len(), 1);
    let map = &table.axis_segment_maps[0];
    assert_eq!((map.from_axis_count, map.to_axis_count), (2, 1));
    assert_eq!(map.from_coordinate_array, vec![Fixed::from_int(-1), Fixed::from_int(1)]);
    assert_eq!(map.to_coordinate_array, vec![Fixed::from_raw(0x8000)]);
    assert_eq!(reader.position(), 22);
    let mut short = FontReader::new(bytes[..21].to_vec());
    assert!(truncated(AvarTable::from_reader(&mut short, 21)));
    assert_eq!(short.position(), 0);
}

#[test]
fn variation_axes_start_with_the_first_axis() {
    let mut bytes = vec![0, 1, 0, 2, 0, 1, 0, 0, 9, 9];
    bytes.extend_from_slice(b"wght");
    bytes.extend_from_slice(&[1, 0]);
    bytes.extend_from_slice(&[0, 100, 0, 0, 1, 144, 0, 0, 3, 132, 0, 0]);
    bytes.extend_from_slice(&[0, 1, 1, 1]);
    bytes.extend_from_slice(&[0, 8, 0, 3]);
    let mut reader = FontReader::new(bytes.clone());
    let table = FvarTable::from_reader(&mut reader, 36).unwrap();
    assert_eq!((table.version, table.offset_to_axes, table.count_size_pairs), (1, 2, 1));
    assert_eq!(table.axes.len(), 1);
    let axis = &table.axes[0];
    assert_eq!(&axis.axis_tag, b"wght");
    assert_eq!(axis.axis_name_id, 256);
    assert_eq!(
        (axis.min_value, axis.default_value, axis.max_value),
        (Fixed::from_int(100), Fixed::from_int(400), Fixed::from_int(900))
    );
    assert_eq!((axis.flags, axis.axis_name_id_short), (1, 257));
    assert_eq!((table.instance_size, table.count_instances), (8, 3));
    assert!(table.instances.is_empty());
    assert_eq!(reader.position(), 36);
    let mut short = FontReader::new(bytes[..35].to_vec());
    assert!(truncated(FvarTable::from_reader(&mut short, 35)));

    let bytes = vec![0, 1, 0, 2, 0, 0, 0, 0, 0, 4, 0, 5];
    let mut reader = FontReader::new(bytes);
    let table = FvarTable::from_reader(&mut reader, 12).unwrap();
    assert!(table.axes.is_empty());
    assert_eq!((table.instance_size, table.count_instances), (4, 5));
    assert_eq!(reader.position(), 12);
}

#[test]
fn numbers_are_written_without_leading_zeros() {
    assert_eq!(ttf_rs::text::hex(0), "0x0");
    assert_eq!(ttf_rs::text::hex(0xff), "0xff");
    assert_eq!(ttf_rs::text::hex(0x1234_abcd), "0x1234abcd");
    assert_eq!(ttf_rs::text::hex(u64::MAX), "0xffffffffffffffff");
    assert_eq!(ttf_rs::text::decimal(0), "0");
    assert_eq!(ttf_rs::text::decimal(20712), "20712");
    assert_eq!(ttf_rs::text::decimal(u64::MAX), "18446744073709551615");
    assert_eq!(ttf_rs::text::joined("ab", "cd"), "abcd");
}
