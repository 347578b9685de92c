// A whole font: the container, the accessors, and the operations on fonts.

use ttf_rs::rasterizer::Rasterizer;
use ttf_rs::rebuild::Replacement;
use ttf_rs::tables::outline_ops::copy_vec;
use ttf_rs::validation::{ValidationErrorType, ValidationWarningType};
use ttf_rs::woff::{WoffHeader, WoffTableEntry, WOFF2_MAGIC, WOFF_MAGIC};
use ttf_rs::{
    calculate_checksum, BoundingBox, CachedFont, CmapSubtable, CompositeGlyph, Fixed, Font,
    FontModifier, FontReader, FontSubset, FontWriter, GlyfTable, Glyph, GlyphComponent, GlyphData,
    IoErrorKind, LocaTable, Point, SimpleGlyph, Transform, TtfError,
};

const ONE: i32 = 16384;

fn head_table(loc_format: i16) -> Vec<u8> {
    let mut writer = FontWriter::new();
    writer.write_fixed(Fixed::from_int(1));
    writer.write_fixed(Fixed::from_raw(0x0001_8000));
    writer.write_u32(0);
    writer.write_u32(0x5F0F3CF5);
    writer.write_u16(0);
    writer.write_u16(1000);
    writer.write_long_datetime(0);
    writer.write_long_datetime(0);
    writer.write_i16(0);
    writer.write_i16(-200);
    writer.write_i16(1000);
    writer.write_i16(800);
    writer.write_u16(0);
    writer.write_u16(8);
    writer.write_i16(2);
    writer.write_i16(loc_format);
    writer.write_i16(0);
    writer.into_inner()
}

fn hhea_table(metrics: u16) -> Vec<u8> {
    let mut writer = FontWriter::new();
    writer.write_fixed(Fixed::from_int(1));
    writer.write_i16(800);
    writer.write_i16(-200);
    writer.write_i16(0);
    for _ in 0..13 {
        writer.write_i16(0);
    }
    writer.write_u16(metrics);
    writer.into_inner()
}

fn maxp_table(glyphs: u16) -> Vec<u8> {
    let mut writer = FontWriter::new();
    writer.write_fixed(Fixed::from_int(1));
    writer.write_u16(glyphs);
    for _ in 0..13 {
        writer.write_u16(0);
    }
    writer.into_inner()
}

fn triangle(shift: i16) -> Vec<u8> {
    let mut writer = FontWriter::new();
    writer.write_i16(1);
    writer.write_i16(shift);
    writer.write_i16(0);
    writer.write_i16(shift + 100);
    writer.write_i16(100);
    writer.write_u16(2);
    writer.write_u16(0);
    writer.write_bytes(&[0x01, 0x01, 0x01]);
    writer.write_i16(shift);
    writer.write_i16(100);
    writer.write_i16(-50);
    writer.write_i16(0);
    writer.write_i16(0);
    writer.write_i16(100);
    writer.write_u8(0);
    writer.into_inner()
}

fn pair_of(first: u16, second: u16) -> Vec<u8> {
    let mut writer = FontWriter::new();
    writer.write_i16(-1);
    for _ in 0..4 {
        writer.write_i16(0);
    }
    writer.write_u16(0x0021);
    writer.write_u16(first);
    writer.write_i16(0);
    writer.write_i16(0);
    writer.write_i16(0);
    writer.write_u16(0x0001);
    writer.write_u16(second);
    writer.write_i16(200);
    writer.write_i16(0);
    writer.into_inner()
}

fn cmap_table() -> Vec<u8> {
    let mut writer = FontWriter::new();
    writer.write_u16(0);
    writer.write_u16(1);
    writer.write_u16(3);
    writer.write_u16(1);
    writer.write_u32(12);
    writer.write_u16(4);
    writer.write_u16(32);
    writer.write_u16(0);
    writer.write_u16(4);
    writer.write_u16(4);
    writer.write_u16(1);
    writer.write_u16(0);
    writer.write_u16(0x44);
    writer.write_u16(0xFFFF);
    writer.write_u16(0);
    writer.write_u16(0x41);
    writer.write_u16(0xFFFF);
    writer.write_i16(1 - 0x41);
    writer.write_i16(1);
    writer.write_u16(0);
    writer.write_u16(0);
    writer.into_inner()
}

fn name_table() -> Vec<u8> {
    let mut writer = FontWriter::new();
    writer.write_u16(0);
    writer.write_u16(1);
    writer.write_u16(18);
    writer.write_u16(3);
    writer.write_u16(1);
    writer.write_u16(0x0409);
    writer.write_u16(1);
    writer.write_u16(8);
    writer.write_u16(0);
    writer.write_bytes(&[0, 0x54, 0, 0x65, 0, 0x73, 0, 0x74]);
    writer.into_inner()
}

fn os2_table(weight: u16, selection: u16) -> Vec<u8> {
    let mut writer = FontWriter::new();
    writer.write_u16(4);
    writer.write_i16(500);
    writer.write_u16(weight);
    writer.write_bytes(&[0u8; 56]);
    writer.write_u16(selection);
    writer.write_bytes(&[0u8; 32]);
    writer.into_inner()
}

fn post_table() -> Vec<u8> {
    let mut writer = FontWriter::new();
    writer.write_fixed(Fixed::from_int(3));
    writer.write_bytes(&[0u8; 28]);
    writer.into_inner()
}

fn assemble(version: u32, tables: &[(&[u8; 4], Vec<u8>)]) -> Vec<u8> {
    let mut writer = FontWriter::new();
    writer.write_u32(version);
    writer.write_u16(tables.len() as u16);
    writer.write_u16(0);
    writer.write_u16(0);
    writer.write_u16(0);
    let mut offset = 12 + 16 * tables.len();
    for (tag, data) in tables {
        writer.write_tag(tag);
        writer.write_u32(calculate_checksum(data));
        writer.write_u32(offset as u32);
        writer.write_u32(data.len() as u32);
        offset += data.len();
    }
    for (_, data) in tables {
        writer.write_bytes(data);
    }
    writer.into_inner()
}

/// Five glyphs: the empty glyph 0, three triangles for A, B and C, and a composite of the
/// first and the third triangle for D.
fn sample_tables() -> Vec<(&'static [u8; 4], Vec<u8>)> {
    let outlines = [Vec::new(), triangle(0), triangle(10), triangle(20), pair_of(1, 3)];
    let mut glyf = Vec::new();
    let mut loca = FontWriter::new();
    for outline in &outlines {
        loca.write_u16((glyf.len() / 2) as u16);
        glyf.extend_from_slice(outline);
    }
    loca.write_u16((glyf.len() / 2) as u16);
    let mut hmtx = FontWriter::new();
    for glyph in 0..5u16 {
        hmtx.write_u16(500 + 10 * glyph);
        hmtx.write_i16(glyph as i16 - 2);
    }
    vec![
        (b"OS/2", os2_table(400, 0x40)),
        (b"cmap", cmap_table()),
        (b"glyf", glyf),
        (b"head", head_table(0)),
        (b"hhea", hhea_table(5)),
        (b"hmtx", hmtx.into_inner()),
        (b"loca", loca.into_inner()),
        (b"maxp", maxp_table(5)),
        (b"name", name_table()),
        (b"post", post_table()),
    ]
}

fn sample_font() -> Font {
    Font::from_data(assemble(0x00010000, &sample_tables())).unwrap()
}

#[test]
fn container_is_parsed_from_header_and_directory() {
    let tables = sample_tables();
    let font = Font::from_data(assemble(0x00010000, &tables)).unwrap();
    assert_eq!(font.sfnt_version, 0x00010000);
    assert_eq!(font.num_tables, 10);
    assert_eq!(font.table_records.len(), 10);
    assert_eq!(font.list_tables()[0], "OS/2");
    assert_eq!(font.list_tables()[9], "post");
    for (tag, data) in &tables {
        assert_eq!(font.get_table_data(tag).as_ref(), Some(data));
        assert_eq!(font.get_table_record(tag).unwrap().length as usize, data.len());
    }
    assert!(font.get_table_record(b"HEAD").is_none());
    assert!(font.get_table_data(b"kern").is_none());
    assert_eq!(font.find_table(b"glyf"), Some(2));
    assert!(Font::from_data(assemble(0x4F54544F, &tables)).is_ok());
    let copy = font.duplicate();
    assert_eq!(copy.data, font.data);
    assert_eq!(copy.table_records.len(), 10);
}

#[test]
fn container_faults() {
    match Font::from_data(assemble(0x74727565, &sample_tables())) {
        Err(TtfError::InvalidSignature { expected, actual }) => {
            assert_eq!((expected, actual), (0x00010000, 0x74727565));
        }
        other => panic!("unexpected {:?}", other.map(|_| ())),
    }
    for cut in [0, 3, 4, 11, 12, 27, 171] {
        let bytes = assemble(0x00010000, &sample_tables());
        match Font::from_data(bytes[..cut].to_vec()) {
            Err(TtfError::Io(e)) => assert_eq!(e.kind(), IoErrorKind::UnexpectedEof),
            other => panic!("cut at {}: {:?}", cut, other.map(|_| ())),
        }
    }
    // a table that reaches past the end is absent, and an accessor says so
    let mut font = sample_font();
    let end = font.data.len() as u32;
    font.table_records[3].offset = end - 10;
    assert!(font.get_table_data(b"head").is_none());
    match font.head_table() {
        Err(TtfError::InvalidOffset(offset)) => assert_eq!(offset, (end - 10) as u64),
        other => panic!("unexpected {:?}", other.map(|_| ())),
    }
    assert!(matches!(font.units_per_em(), Err(TtfError::InvalidOffset(_))));
    // every accessor names the table it misses
    let font = Font::from_data(assemble(0x00010000, &[])).unwrap();
    let missing = |r: Result<(), TtfError>, name: &str| match r {
        Err(TtfError::MissingTable(found)) => assert_eq!(found, name),
        other => panic!("{}: {:?}", name, other),
    };
    missing(font.head_table().map(|_| ()), "head");
    missing(font.maxp_table().map(|_| ()), "maxp");
    missing(font.hhea_table().map(|_| ()), "hhea");
    missing(font.hmtx_table().map(|_| ()), "hmtx");
    missing(font.loca_table().map(|_| ()), "loca");
    missing(font.glyf_table().map(|_| ()), "glyf");
    missing(font.cmap_table().map(|_| ()), "cmap");
    missing(font.name_table().map(|_| ()), "name");
    missing(font.os2_table().map(|_| ()), "OS/2");
    missing(font.post_table().map(|_| ()), "post");
    missing(font.char_to_glyph('A').map(|_| ()), "cmap");
    missing(font.num_glyphs().map(|_| ()), "maxp");
    missing(font.is_bold().map(|_| ()), "OS/2");
    missing(font.font_name().map(|_| ()), "name");
    // a bad magic number in head is a bad signature
    let mut tables = sample_tables();
    tables[3].1[12] = 0;
    let font = Font::from_data(assemble(0x00010000, &tables)).unwrap();
    assert!(matches!(
        font.head_table(),
        Err(TtfError::InvalidSignature { expected: 0x5F0F3CF5, actual: 0x000F3CF5 })
    ));
    assert!(matches!(
        font.loca_table(),
        Err(TtfError::InvalidSignature { expected: 0x5F0F3CF5, actual: 0x000F3CF5 })
    ));
}

#[test]
fn accessors_decode_the_sample() {
    let font = sample_font();
    assert_eq!(font.units_per_em().unwrap(), 1000);
    assert_eq!(font.num_glyphs().unwrap(), 5);
    assert_eq!(font.hhea_table().unwrap().get_line_height(), 1000);
    assert_eq!(font.head_table().unwrap().font_revision, Fixed::from_raw(0x0001_8000));
    assert!(font.head_table().unwrap().is_short_loca_format());
    assert!(font.maxp_table().unwrap().is_version_1_0());
    assert_eq!(font.maxp_table().unwrap().max_points, Some(0));
    assert_eq!(font.post_table().unwrap().format, Fixed::from_int(3));
    assert!(!font.is_bold().unwrap());
    assert!(!font.is_italic().unwrap());
    assert_eq!(font.os2_table().unwrap().get_weight_string(), "Normal");
    assert_eq!(font.char_to_glyph('A').unwrap(), 1);
    assert_eq!(font.char_to_glyph('D').unwrap(), 4);
    assert!(matches!(font.char_to_glyph('E'), Err(TtfError::ParseError(_))));
    assert_eq!(font.hmtx_table().unwrap().get_advance_width(4), 540);
    assert_eq!(font.loca_table().unwrap().len(), 6);
    let glyf = font.glyf_table().unwrap();
    assert_eq!(glyf.glyphs.len(), 5);
    assert!(glyf.glyphs[0].is_empty());
    assert!(glyf.glyphs[2].is_simple());
    assert!(glyf.glyphs[4].is_composite());
    match &glyf.glyphs[2].data {
        GlyphData::Simple(simple) => {
            assert_eq!(simple.x_coordinates, vec![10, 110, 60]);
            assert_eq!(simple.y_coordinates, vec![0, 0, 100]);
        }
        _ => panic!("not simple"),
    }
    let name = font.font_name().unwrap();
    assert!(name.contains("name_id: 1") && name.contains("length: 8"), "{}", name);
    assert_eq!(font.family_name().unwrap(), "Unknown");
    let mut tables = sample_tables();
    tables[0].1 = os2_table(700, 0x01);
    let bold = Font::from_data(assemble(0x00010000, &tables)).unwrap();
    assert!(bold.is_bold().unwrap() && bold.is_italic().unwrap());
    assert_eq!(bold.os2_table().unwrap().get_weight_string(), "Bold");
    tables[7].1 = vec![0, 0, 0x80, 0, 0, 9];
    let small = Font::from_data(assemble(0x00010000, &tables)).unwrap();
    assert!(small.maxp_table().unwrap().is_version_0_5());
    assert_eq!(small.num_glyphs().unwrap(), 9);
    assert_eq!(small.maxp_table().unwrap().max_points, None);
}

#[test]
fn rebuilt_file_is_consistent() {
    let font = sample_font();
    let bytes = font.to_bytes().unwrap();
    assert_eq!(bytes.len() % 4, 0);
    let again = Font::from_data(bytes.clone()).unwrap();
    assert_eq!(again.num_tables, 10);
    for (tag, data) in sample_tables() {
        let record = again.get_table_record(tag).unwrap();
        assert_eq!(record.offset % 4, 0);
        assert_eq!(record.checksum, calculate_checksum(&data));
        assert_eq!(again.get_table_data(tag), Some(data));
    }
    assert_eq!(again.to_bytes().unwrap(), bytes);
    // an entry without bytes keeps its length and gets zero for offset and checksum
    let mut broken = sample_font();
    broken.table_records[1].offset = 1_000_000;
    let rebuilt = Font::from_data(broken.to_bytes().unwrap()).unwrap();
    let record = rebuilt.table_records[1];
    assert_eq!((record.offset, record.checksum, record.length), (0, 0, 44));
    assert_eq!(rebuilt.get_table_data(b"glyf"), font.get_table_data(b"glyf"));
    assert_eq!(Font::calculate_search_range(10), (128, 3, 32));
    assert_eq!(Font::calculate_search_range(0), (16, 0, 0));
    assert_eq!(Font::calculate_search_range(1), (16, 0, 0));
    assert_eq!(Font::calculate_search_range(16), (256, 4, 0));
    assert_eq!(Font::calculate_search_range(4095), (32768, 11, 32752));
}

#[test]
fn replacing_a_table_reflows_the_file() {
    let font = sample_font();
    let longer = vec![7u8; 301];
    let changed = font.with_table_data(b"glyf", longer.clone()).unwrap();
    assert_eq!(changed.get_table_data(b"glyf"), Some(longer.clone()));
    for (tag, data) in sample_tables() {
        if tag != b"glyf" {
            assert_eq!(changed.get_table_data(tag), Some(data));
        }
    }
    assert_eq!(changed.get_table_record(b"glyf").unwrap().checksum, calculate_checksum(&longer));
    assert!(Font::from_data(changed.data.clone()).is_ok());
    let same = font.with_table_data(b"kern", vec![1, 2, 3]).unwrap();
    assert_eq!(same.data, font.data);
    let kept = font
        .rebuild_with(&vec![Replacement { tag: *b"post", data: vec![1] }], &vec![*b"post", *b"head"])
        .unwrap();
    assert_eq!(kept.num_tables, 2);
    assert_eq!(kept.list_tables(), vec!["head", "post"]);
    assert_eq!(kept.get_table_data(b"post"), Some(vec![1]));
    assert_eq!((kept.search_range, kept.entry_selector, kept.range_shift), (32, 1, 0));
}

#[test]
fn subset_by_characters() {
    let font = sample_font();
    let mut subset = font.duplicate().subset();
    subset.with_chars(&['A', 'B', 'C']).unwrap();
    let small = subset.build().unwrap();
    // .notdef and the three glyphs
    assert_eq!(small.num_glyphs().unwrap(), 4);
    for (c, glyph) in [('A', 1), ('B', 2), ('C', 3)] {
        assert_eq!(small.char_to_glyph(c).unwrap(), glyph);
        assert!(small.char_to_glyph(c).unwrap() < small.num_glyphs().unwrap() as u32);
    }
    assert!(small.char_to_glyph('D').is_err());
    assert_eq!(small.hhea_table().unwrap().number_of_h_metrics, 4);
    assert_eq!(small.list_tables().len(), 10);

    let mut subset = font.duplicate().subset();
    subset.with_chars(&['C', 'D']).unwrap().clone();
    let small = subset.build().unwrap();
    assert_eq!(small.num_glyphs().unwrap(), 3);
    assert_eq!(small.char_to_glyph('C').unwrap(), 1);
    assert_eq!(small.char_to_glyph('D').unwrap(), 2);
    assert!(small.char_to_glyph('A').is_err());
    let glyf = small.glyf_table().unwrap();
    assert!(glyf.glyphs[0].is_empty());
    match &glyf.glyphs[1].data {
        GlyphData::Simple(simple) => assert_eq!(simple.x_coordinates, vec![20, 120, 70]),
        _ => panic!("not simple"),
    }
    match &glyf.glyphs[2].data {
        // the first component's glyph is gone and keeps its old id; the third triangle is
        // now glyph 1
        GlyphData::Composite(composite) => {
            assert_eq!(composite.components[0].glyph_index, 1);
            assert_eq!(composite.components[1].glyph_index, 1);
            assert_eq!(composite.components[1].transform.dx, 200 * ONE);
        }
        _ => panic!("not composite"),
    }
    let hmtx = small.hmtx_table().unwrap();
    assert_eq!(hmtx.advance_widths(), vec![500, 530, 540]);
    assert_eq!((hmtx.get_lsb(0), hmtx.get_lsb(1), hmtx.get_lsb(2)), (-2, 1, 2));
    let loca = small.loca_table().unwrap();
    assert_eq!(loca.get_offset(0).unwrap(), 0);
    assert_eq!(loca.get_offset(1).unwrap(), 0);
    assert_eq!(loca.get_offset(2).unwrap(), 30);
    assert_eq!(loca.get_offset(3).unwrap(), 58);
    assert!(small.validate().unwrap().is_valid);
}

#[test]
fn subset_by_glyph_ids_and_kept_tables() {
    let font = sample_font();
    let mut subset = FontSubset::new(font.duplicate());
    subset.with_glyphs(&[4, 2, 4, 0]).retain_tables(&[*b"glyf", *b"loca", *b"maxp"]);
    subset.retain_tables(&[*b"head"]);
    assert_eq!(subset.retained_ids(), vec![0, 2, 4]);
    let small = subset.build().unwrap();
    assert_eq!(small.list_tables(), vec!["glyf", "head", "loca", "maxp"]);
    assert_eq!(small.num_tables, 4);
    assert_eq!(small.num_glyphs().unwrap(), 3);
    assert!(matches!(small.char_to_glyph('B'), Err(TtfError::MissingTable(_))));
    let glyf = small.glyf_table().unwrap();
    assert!(glyf.glyphs[1].is_simple() && glyf.glyphs[2].is_composite());

    // faults
    let empty = FontSubset::new(font.duplicate());
    assert!(matches!(empty.build(), Err(TtfError::ParseError(_))));
    let mut unmapped = FontSubset::new(font.duplicate());
    unmapped.with_glyphs(&[1]);
    assert!(matches!(unmapped.with_chars(&['B', 'x', 'C']), Err(TtfError::ParseError(_))));
    assert_eq!(unmapped.retained_ids(), vec![0, 1]);
    let mut outside = FontSubset::new(font.duplicate());
    outside.with_glyphs(&[1, 5]);
    assert!(matches!(outside.build(), Err(TtfError::InvalidGlyphIndex(5))));
    let mut bare = FontSubset::new(Font::from_data(assemble(0x00010000, &[])).unwrap());
    bare.with_glyphs(&[0]);
    assert!(matches!(bare.build(), Err(TtfError::MissingTable(_))));
    assert!(matches!(bare.with_chars(&['A']), Err(TtfError::MissingTable(_))));
    // where no code has a glyph in the subset the new map holds the closing segment alone
    let unmapped = {
        let mut subset = font.duplicate().subset();
        subset.with_glyphs(&[0]);
        subset.build().unwrap()
    };
    assert_eq!(
        unmapped.get_table_data(b"cmap").unwrap(),
        vec![
            0, 0, 0, 1, 0, 3, 0, 1, 0, 0, 0, 12, 0, 4, 0, 24, 0, 0, 0, 2, 0, 2, 0, 1, 0, 0, 255,
            255, 0, 0, 255, 255, 0, 1, 0, 0
        ]
    );
    let cmap = unmapped.cmap_table().unwrap();
    assert_eq!(cmap.encoding_records.len(), 1);
    assert_eq!((cmap.encoding_records[0].platform_id, cmap.encoding_records[0].encoding_id), (3, 1));
    assert_eq!(cmap.subtables.len(), 1);
    assert_eq!(cmap.map_char('A'), None);
    assert_eq!(cmap.map_char('\u{ffff}'), Some(0));
    assert_eq!(unmapped.num_glyphs().unwrap(), 1);
}

#[test]
fn composite_resolves_to_moved_points() {
    let simple = |xs: Vec<i16>, ys: Vec<i16>, ends: Vec<u16>| Glyph {
        number_of_contours: ends.len() as i16,
        x_min: 0,
        y_min: 0,
        x_max: 0,
        y_max: 0,
        data: GlyphData::Simple(SimpleGlyph {
            end_pts_of_contours: ends,
            instruction_length: 0,
            instructions: vec![],
            flags: vec![1; xs.len() - 1],
            x_coordinates: xs,
            y_coordinates: ys,
        }),
    };
    let component = |glyph_index: u16, transform: Transform| GlyphComponent {
        flags: 0,
        glyph_index,
        arg1: 0,
        arg2: 0,
        transform,
    };
    let doubled = Transform { xx: 2 * ONE, xy: 0, yx: 0, yy: 2 * ONE, dx: 10 * ONE, dy: 10 * ONE };
    let halved = Transform { xx: ONE / 2, xy: 0, yx: ONE, yy: ONE / 2, dx: 0, dy: ONE / 2 };
    let composite = |components: Vec<GlyphComponent>| Glyph {
        number_of_contours: -1,
        x_min: 1,
        y_min: 2,
        x_max: 3,
        y_max: 4,
        data: GlyphData::Composite(CompositeGlyph { components }),
    };
    let table = GlyfTable {
        glyphs: vec![
            simple(vec![0, 5, -5], vec![0, 7, 3], vec![2]),
            simple(vec![1, 3], vec![1, -3], vec![0, 1]),
            composite(vec![
                component(0, doubled),
                component(2, doubled),
                component(9, doubled),
                component(1, halved),
            ]),
            composite(vec![component(3, doubled), component(2, doubled)]),
            Glyph { number_of_contours: 0, x_min: 0, y_min: 0, x_max: 0, y_max: 0, data: GlyphData::Empty },
        ],
    };
    let flat = table.resolve_composite(2).unwrap().unwrap();
    assert_eq!(flat.number_of_contours, 3);
    match &flat.data {
        GlyphData::Simple(outline) => {
            // the point (0, 0) goes to (10, 10)
            assert_eq!((outline.x_coordinates[0], outline.y_coordinates[0]), (10, 10));
            assert_eq!(outline.x_coordinates, vec![10, 20, 0, 1, 2]);
            assert_eq!(outline.y_coordinates, vec![10, 24, 16, 2, 2]);
            assert_eq!(outline.flags, vec![1, 1, 0, 1, 0]);
            assert_eq!(outline.end_pts_of_contours, vec![2, 3, 4]);
            assert!(outline.instructions.is_empty());
        }
        _ => panic!("not flat"),
    }
    assert_eq!((flat.x_min, flat.y_min, flat.x_max, flat.y_max), (0, 2, 20, 24));
    // glyph 3 refers to itself, which adds nothing, and to glyph 2, which is flattened in
    // its turn and then moved
    let nested = table.resolve_composite(3).unwrap().unwrap();
    match &nested.data {
        GlyphData::Simple(outline) => {
            assert_eq!(outline.x_coordinates, vec![30, 50, 10, 12, 14]);
            assert_eq!(outline.y_coordinates, vec![30, 58, 42, 14, 14]);
            assert_eq!(outline.flags, vec![1, 1, 0, 1, 0]);
            assert_eq!(outline.end_pts_of_contours, vec![2, 3, 4]);
        }
        _ => panic!("not flat"),
    }
    assert_eq!((nested.x_min, nested.y_min, nested.x_max, nested.y_max), (10, 14, 50, 58));
    assert!(table.resolve_composite(5).unwrap().is_none());
    assert!(table.resolve_composite(0).unwrap().unwrap().is_simple());
    assert!(table.resolve_composite(4).unwrap().unwrap().is_empty());
    assert_eq!(Point::new(0, 0).transform(&doubled), Point::new(10, 10));
    assert_eq!(Point::new(3, -4).transform(&doubled), Point::new(16, 2));
    assert_eq!(Point::new(1, 1).transform(&halved), Point::new(1, 2));
    assert_eq!(Point::new(-1, -1).transform(&halved), Point::new(-1, -1));
    assert_eq!(copy_vec(&vec![1u16, 2]), vec![1, 2]);
}

#[test]
fn glyphs_move_scale_and_thin() {
    let mut glyph = Glyph {
        number_of_contours: 1,
        x_min: 0,
        y_min: 0,
        x_max: 0,
        y_max: 0,
        data: GlyphData::Simple(SimpleGlyph {
            end_pts_of_contours: vec![4],
            instruction_length: 0,
            instructions: vec![],
            flags: vec![1, 2, 3, 4, 5],
            x_coordinates: vec![0, 100, 101, 200, 200],
            y_coordinates: vec![0, 0, 0, 0, 300],
        }),
    };
    assert_eq!(glyph.calculate_bounding_box(), Some(BoundingBox::new(0, 0, 200, 300)));
    glyph.translate(10 * ONE, -20 * ONE).unwrap();
    assert_eq!((glyph.x_min, glyph.y_min, glyph.x_max, glyph.y_max), (10, -20, 210, 280));
    glyph.scale(ONE / 2, 2 * ONE).unwrap();
    assert_eq!((glyph.x_min, glyph.y_min, glyph.x_max, glyph.y_max), (5, -40, 105, 560));
    glyph.rotate(0, ONE).unwrap();
    assert_eq!((glyph.x_min, glyph.y_min, glyph.x_max, glyph.y_max), (-560, 5, 40, 105));
    glyph.rotate(0, -ONE).unwrap();
    glyph.scale(2 * ONE, ONE / 2).unwrap();
    glyph.translate(-10 * ONE, 20 * ONE).unwrap();
    match &glyph.data {
        GlyphData::Simple(simple) => {
            assert_eq!(simple.x_coordinates, vec![0, 100, 102, 200, 200]);
            assert_eq!(simple.y_coordinates, vec![0, 0, 0, 0, 300]);
        }
        _ => panic!("not simple"),
    }
    glyph.scale(1000 * ONE, ONE).unwrap();
    assert_eq!(glyph.x_max, 32767);
    glyph.scale(ONE / 1000, ONE).unwrap();

    let mut thin = Glyph {
        number_of_contours: 2,
        x_min: 1,
        y_min: 2,
        x_max: 3,
        y_max: 4,
        data: GlyphData::Simple(SimpleGlyph {
            end_pts_of_contours: vec![4, 7],
            instruction_length: 0,
            instructions: vec![],
            flags: vec![0, 1, 2, 3, 4, 5, 6, 7],
            x_coordinates: vec![0, 100, 101, 200, 200, 0, 1, 50],
            y_coordinates: vec![0, 0, 0, 0, 300, 500, 500, 500],
        }),
    };
    thin.simplify(2 * ONE).unwrap();
    match &thin.data {
        GlyphData::Simple(simple) => {
            // points 1, 2 and 6 lie on a straight line between their neighbours
            assert_eq!(simple.x_coordinates, vec![0, 200, 200, 0, 50]);
            assert_eq!(simple.y_coordinates, vec![0, 0, 300, 500, 500]);
            assert_eq!(simple.flags, vec![0, 3, 4, 5, 7]);
            assert_eq!(simple.end_pts_of_contours, vec![2, 4]);
        }
        _ => panic!("not simple"),
    }
    assert_eq!((thin.x_min, thin.y_min, thin.x_max, thin.y_max), (1, 2, 3, 4));
    let before = thin.duplicate();
    thin.simplify(0).unwrap();
    thin.simplify(-5).unwrap();
    match (&thin.data, &before.data) {
        (GlyphData::Simple(a), GlyphData::Simple(b)) => assert_eq!(a.x_coordinates, b.x_coordinates),
        _ => panic!("not simple"),
    }

    let mut composite = Glyph {
        number_of_contours: -1,
        x_min: 1,
        y_min: 2,
        x_max: 3,
        y_max: 4,
        data: GlyphData::Composite(CompositeGlyph {
            components: vec![GlyphComponent {
                flags: 0,
                glyph_index: 1,
                arg1: 0,
                arg2: 0,
                transform: Transform { xx: 2 * ONE, xy: 0, yx: 0, yy: ONE, dx: 5 * ONE, dy: 0 },
            }],
        }),
    };
    composite.translate(ONE, ONE).unwrap();
    composite.simplify(ONE).unwrap();
    assert_eq!(composite.calculate_bounding_box(), Some(BoundingBox::from_glyph(1, 2, 3, 4)));
    match &composite.data {
        GlyphData::Composite(c) => assert_eq!(
            c.components[0].transform,
            Transform { xx: 2 * ONE, xy: 0, yx: 0, yy: ONE, dx: 7 * ONE, dy: ONE }
        ),
        _ => panic!("not composite"),
    }
    assert_eq!(
        Transform::combine_transforms(
            &Transform { xx: ONE / 2, xy: ONE, yx: -ONE, yy: 0, dx: 3 * ONE, dy: 0 },
            &Transform { xx: 0, xy: 2 * ONE, yx: ONE, yy: 0, dx: ONE, dy: 4 * ONE },
        ),
        Transform { xx: ONE, xy: ONE, yx: 0, yy: -2 * ONE, dx: 7 * ONE + ONE / 2, dy: -ONE }
    );
    let a = BoundingBox::new(0, 5, 10, 6);
    assert_eq!(a.merge(&BoundingBox::new(-3, 7, 4, 9)), BoundingBox::new(-3, 5, 10, 9));
    assert_eq!((a.width(), a.height()), (10, 1));
    assert_eq!(BoundingBox::new(i32::MIN, 0, i32::MAX, 0).width(), 0xFFFF_FFFF);
    let mut empty = Glyph { number_of_contours: 0, x_min: 0, y_min: 0, x_max: 0, y_max: 0, data: GlyphData::Empty };
    empty.scale(ONE, ONE).unwrap();
    assert_eq!(empty.calculate_bounding_box(), None);
}

#[test]
fn modifier_stages_tables_and_commits() {
    let font = sample_font();
    let mut modifier = FontModifier::new(font.duplicate());
    modifier.set_font_name("Longer than before").unwrap();
    modifier.set_embedding_type(0x0008).unwrap();
    modifier.set_font_metrics(2048, 1900, -500, 90).unwrap();
    modifier.set_glyph_advance(2, 777).unwrap();
    modifier.set_glyph_advance(50, 1).unwrap();
    let changed = modifier.commit().unwrap();
    assert_eq!(changed.os2_table().unwrap().fs_type, 8);
    assert_eq!(changed.units_per_em().unwrap(), 2048);
    let hhea = changed.hhea_table().unwrap();
    assert_eq!((hhea.ascent, hhea.descent, hhea.line_gap), (1900, -500, 90));
    assert_eq!(changed.hmtx_table().unwrap().advance_widths(), vec![500, 510, 777, 530, 540]);
    let name = changed.name_table().unwrap();
    assert_eq!(name.name_records.len(), 1);
    assert_eq!((name.name_records[0].name_id, name.name_records[0].length), (1, 36));
    let bytes = changed.get_table_data(b"name").unwrap();
    assert_eq!(&bytes[18..22], &[0, b'L', 0, b'o']);
    assert_eq!(changed.get_table_data(b"glyf"), font.get_table_data(b"glyf"));
    assert_eq!(changed.char_to_glyph('B').unwrap(), 2);

    let mut modifier = font.duplicate().modify();
    modifier.set_version(2, 5).unwrap();
    modifier.set_localized_font_name("Nom", 0x040C).unwrap();
    let changed = modifier.commit().unwrap();
    assert_eq!(changed.head_table().unwrap().font_revision, Fixed::from_raw(2 * 65536 + 3276));
    let name = changed.name_table().unwrap();
    assert_eq!(name.name_records.len(), 2);
    assert_eq!(name.name_records[1].language_id, 0x040C);

    let mut modifier = font.duplicate().modify();
    modifier.set_version(12, 345).unwrap();
    let changed = modifier.commit().unwrap();
    let bytes = changed.get_table_data(b"name").unwrap();
    let text: Vec<u8> = bytes[30..].iter().skip(1).step_by(2).cloned().collect();
    assert_eq!(text, b"Version 12.345");
    assert_eq!(Fixed::from_hundredths(1, 50), Fixed::from_raw(0x0001_8000));
    assert_eq!(Fixed::from_hundredths(65535, 65535).raw, 0x7fff_ffff);
    assert_eq!((Fixed::from_raw(-1).floor(), Fixed::from_raw(0x1_ffff).floor()), (-1, 1));

    let mut modifier = Font::from_data(assemble(0x00010000, &[])).unwrap().modify();
    assert!(matches!(modifier.set_font_name("x"), Err(TtfError::MissingTable(_))));
    assert!(matches!(modifier.set_copyright("x"), Err(TtfError::MissingTable(_))));
    assert!(matches!(modifier.set_trademark("x"), Err(TtfError::MissingTable(_))));
    assert!(matches!(modifier.set_full_font_name("x"), Err(TtfError::MissingTable(_))));
    assert!(matches!(modifier.set_font_revision(1, 0), Err(TtfError::MissingTable(_))));
    assert!(matches!(modifier.set_embedding_type(1), Err(TtfError::MissingTable(_))));
    assert!(matches!(modifier.set_glyph_advance(0, 1), Err(TtfError::MissingTable(_))));
    assert!(modifier.commit().is_ok());
}

#[test]
fn validation_reports_what_is_wrong() {
    let report = sample_font().validate().unwrap();
    assert!(report.is_valid && report.errors.is_empty() && report.warnings.is_empty());
    assert_eq!(report.summary(), "\u{2713} Font is valid\n");
    assert!(sample_font().is_valid().unwrap());

    let mut tables = sample_tables();
    tables.remove(9);
    tables.remove(6);
    tables[6].1 = maxp_table(0);
    tables[1].1 = vec![0, 0, 0, 0];
    tables.push((b"ZZZZ", vec![1, 2, 3, 4, 5]));
    let mut font = Font::from_data(assemble(0x00010000, &tables)).unwrap();
    font.sfnt_version = 0x12345678;
    font.table_records[0].checksum ^= 1;
    let report = font.validate().unwrap();
    assert!(!report.is_valid);
    assert!(!font.is_valid().unwrap());
    let kinds: Vec<ValidationErrorType> = report.errors.iter().map(|e| e.error_type).collect();
    assert_eq!(
        kinds,
        vec![
            ValidationErrorType::InvalidSignature,
            ValidationErrorType::MissingRequiredTable,
            ValidationErrorType::InvalidGlyphData,
            ValidationErrorType::InvalidCmapData,
        ]
    );
    assert_eq!(report.errors[1].table.as_deref(), Some("post"));
    assert_eq!(report.errors[0].message, "Invalid SFNT version: 0x12345678");
    assert_eq!(report.errors[0].table, None);
    assert_eq!(report.errors[1].message, "Missing required table: post (PostScript information)");
    assert_eq!(report.errors[2].table.as_deref(), Some("maxp"));
    assert_eq!(report.errors[2].message, "Font has no glyphs");
    assert_eq!(report.errors[3].table.as_deref(), Some("cmap"));
    assert_eq!(report.errors[3].message, "Cmap table has no subtables");
    let kinds: Vec<ValidationWarningType> = report.warnings.iter().map(|w| w.warning_type).collect();
    assert_eq!(
        kinds,
        vec![ValidationWarningType::PotentiallyProblematic, ValidationWarningType::NonStandardTable]
    );
    assert_eq!(report.warnings[0].table.as_deref(), Some("OS/2"));
    assert_eq!(report.warnings[1].message, "Non-standard table: ZZZZ");
    let mismatch = format!(
        "Checksum mismatch for table OS/2: expected {:#x}, got {:#x}",
        font.table_records[0].checksum,
        calculate_checksum(&font.get_table_data(b"OS/2").unwrap())
    );
    assert_eq!(report.warnings[0].message, mismatch);
    let expected = format!(
        "\u{2717} Font is invalid\n\nErrors (4):\n  \u{2717} : Invalid SFNT version: 0x12345678\n  \u{2717} [post] : Missing required table: post (PostScript information)\n  \u{2717} [maxp] : Font has no glyphs\n  \u{2717} [cmap] : Cmap table has no subtables\n\nWarnings (2):\n  \u{26a0} [OS/2] : {}\n  \u{26a0} [ZZZZ] : Non-standard table: ZZZZ\n",
        mismatch
    );
    assert_eq!(report.summary(), expected);
    font.sfnt_version = 0x00010000;
    let report = font.validate().unwrap();
    assert_eq!(report.errors.len(), 4);
    assert_eq!(report.errors[1].table.as_deref(), Some("loca"));
    assert_eq!(
        report.errors[1].message,
        "Missing required table for TrueType: loca (index to location)"
    );
    let mut tables = sample_tables();
    tables[3].1[18] = 0x50;
    let report = Font::from_data(assemble(0x4F54544F, &tables)).unwrap().validate().unwrap();
    assert!(report.is_valid);
    assert_eq!(report.warnings[0].message, "Unusual units_per_em value: 20712");
}

#[test]
fn cache_hands_out_what_the_font_has() {
    let font = sample_font();
    let mut cached = CachedFont::new(font.duplicate());
    for _ in 0..2 {
        assert_eq!(cached.get_table_data_cached(b"glyf").unwrap(), font.get_table_data(b"glyf"));
        assert_eq!(cached.get_table_data_cached(b"kern").unwrap(), None);
        assert_eq!(cached.head_table_cached().unwrap().units_per_em, 1000);
        assert_eq!(cached.maxp_table_cached().unwrap().num_glyphs, 5);
        assert_eq!(cached.cmap_table_cached().unwrap().map_char('C'), Some(3));
    }
    cached.clear_cache();
    assert_eq!(cached.head_table_cached().unwrap().units_per_em, 1000);
    assert_eq!(cached.font().data, font.data);
    let mut bare = Font::from_data(assemble(0x00010000, &[])).unwrap().with_cache();
    assert!(matches!(bare.head_table_cached(), Err(TtfError::MissingTable(_))));
    assert!(matches!(bare.maxp_table_cached(), Err(TtfError::MissingTable(_))));
    assert!(matches!(bare.cmap_table_cached(), Err(TtfError::MissingTable(_))));
}

#[test]
fn rasterizer_draws_lines() {
    let mut bitmap = vec![0u8; 5 * 4];
    Rasterizer::draw_line(&mut bitmap, 5, 4, 0, 0, 4, 0);
    assert_eq!((bitmap[0], bitmap[4]), (255, 255));
    assert_eq!(&bitmap[5..], &[0; 15]);
    Rasterizer::draw_line(&mut bitmap, 5, 4, 2, 3, 2, 1);
    assert_eq!((bitmap[17], bitmap[7]), (255, 255));
    Rasterizer::draw_line(&mut bitmap, 5, 4, -9, 99, 99, 99);
    assert_eq!((bitmap[15], bitmap[19]), (255, 255));
    let mut bitmap = vec![0u8; 9];
    Rasterizer::draw_line(&mut bitmap, 3, 3, 0, 0, 2, 2);
    assert_eq!((bitmap[0], bitmap[8]), (255, 255));
    assert!(bitmap.iter().all(|&b| b == 0 || b == 255));
    let mut bitmap = vec![0u8; 9];
    Rasterizer::draw_line(&mut bitmap, 3, 3, 1, 1, 1, 1);
    assert_eq!(bitmap, vec![0, 0, 0, 0, 255, 0, 0, 0, 0]);
    let mut none: Vec<u8> = vec![];
    Rasterizer::draw_line(&mut none, 0, 0, 0, 0, 1, 1);
    let mut short = vec![0u8; 2];
    Rasterizer::draw_line(&mut short, 3, 3, 0, 0, 2, 2);
    assert_eq!(short[0], 255);

    let font = sample_font();
    let mut rasterizer = font.rasterizer();
    let drawn = rasterizer.rasterize_glyph(1, 100).unwrap();
    assert_eq!((drawn.glyph_id, drawn.width, drawn.height), (1, 10, 10));
    assert_eq!((drawn.advance_width, drawn.left_side_bearing), (510, -1));
    assert_eq!(drawn.bitmap.len(), 100);
    assert_eq!(drawn.bitmap[0], 255);
    assert!(drawn.bitmap.iter().any(|&b| b == 0));
    assert!(drawn.bitmap.iter().all(|&b| b == 0 || b == 255));
    let again = rasterizer.rasterize_glyph(1, 7).unwrap();
    assert_eq!(again.bitmap, drawn.bitmap);
    rasterizer.clear_cache();
    let smaller = rasterizer.rasterize_glyph(1, 50).unwrap();
    assert_eq!((smaller.width, smaller.height), (5, 5));
    let empty = rasterizer.rasterize_glyph(0, 100).unwrap();
    assert_eq!((empty.width, empty.height, empty.bitmap.len()), (0, 0, 0));
    let composite = rasterizer.rasterize_glyph(4, 100).unwrap();
    assert!(composite.bitmap.is_empty());
    assert!(matches!(rasterizer.rasterize_glyph(5, 100), Err(TtfError::InvalidGlyphIndex(5))));
    let mut tables = sample_tables();
    tables[3].1[18] = 0;
    tables[3].1[19] = 0;
    let mut zero = Rasterizer::new(Font::from_data(assemble(0x00010000, &tables)).unwrap());
    assert!(matches!(zero.rasterize_glyph(1, 100), Err(TtfError::ParseError(_))));
    assert!(zero.rasterize_glyph(0, 100).is_ok());
}

#[test]
fn woff_wrappers() {
    let font = sample_font();
    let woff = font.to_woff().unwrap();
    let mut reader = FontReader::from_slice(&woff);
    assert_eq!(reader.read_u32().unwrap(), WOFF_MAGIC);
    assert_eq!(reader.read_u32().unwrap(), 0x00010000);
    assert_eq!(reader.read_u32().unwrap(), 0);
    assert_eq!(reader.read_u16().unwrap(), 10);
    assert_eq!(reader.read_u16().unwrap(), 0);
    assert_eq!(reader.read_u32().unwrap() as usize, font.to_bytes().unwrap().len());
    reader.set_position(40).unwrap();
    assert_eq!(reader.read_tag().unwrap(), *b"OS/2");
    assert_eq!(reader.read_u32().unwrap(), 44 + 200);
    assert_eq!(reader.read_u32().unwrap(), 96);
    assert_eq!(reader.read_u32().unwrap(), 96);
    reader.set_position(60).unwrap();
    assert_eq!(reader.read_tag().unwrap(), *b"cmap");
    assert_eq!(reader.read_u32().unwrap(), 44 + 200 + 96);
    assert_eq!(&woff[240..336], &os2_table(400, 0x40)[..]);
    assert_eq!(woff.len() % 4, 0);

    let woff2 = font.to_woff2().unwrap();
    assert_eq!(&woff2[..4], &WOFF2_MAGIC.to_be_bytes());
    assert_eq!(&woff2[48..52], b"OS/2");
    assert_eq!(&woff2[52..56], &(48u32 + 200).to_be_bytes());
    assert_eq!(woff2.len(), 48 + 240 + font.data.len() - 172);

    assert!(matches!(Font::from_woff_bytes(&woff), Err(TtfError::ParseError(_))));
    assert!(matches!(Font::from_woff_bytes(&woff[..100]), Err(TtfError::Io(_))));
    assert!(matches!(Font::from_woff_bytes(&woff[..3]), Err(TtfError::Io(_))));
    match Font::from_woff_bytes(&woff2) {
        Err(TtfError::InvalidSignature { expected, actual }) => {
            assert_eq!((expected, actual), (WOFF_MAGIC, WOFF2_MAGIC));
        }
        other => panic!("unexpected {:?}", other.map(|_| ())),
    }
    assert!(matches!(Font::from_woff2_bytes(&woff2), Err(TtfError::ParseError(_))));
    assert!(matches!(Font::from_woff2_bytes(&woff), Err(TtfError::InvalidSignature { .. })));
    assert!(matches!(Font::from_woff2_bytes(&[]), Err(TtfError::Io(_))));
    let header = WoffHeader {
        signature: 1,
        flavor: 2,
        length: 3,
        num_tables: 4,
        reserved: 5,
        total_sfnt_size: 6,
        major_version: 7,
        minor_version: 8,
        meta_offset: 9,
        meta_length: 10,
        private_offset: 11,
        private_length: 12,
    };
    let mut writer = FontWriter::new();
    header.write(&mut writer);
    WoffTableEntry { tag: *b"abcd", offset: 1, comp_length: 2, orig_length: 3, orig_checksum: 4 }
        .write(&mut writer);
    assert_eq!(writer.position(), 60);
    let _ = (LocaTable::Short(vec![]), CmapSubtable::Format0);
}

fn font_without(tag: &[u8; 4]) -> Font {
    let tables: Vec<(&'static [u8; 4], Vec<u8>)> =
        sample_tables().into_iter().filter(|(t, _)| *t != tag).collect();
    Font::from_data(assemble(0x00010000, &tables)).unwrap()
}

fn missing(r: Result<(), TtfError>) -> String {
    match r {
        Err(TtfError::MissingTable(name)) => name,
        other => panic!("unexpected {:?}", other),
    }
}

#[test]
fn a_missing_table_is_named_in_the_error() {
    assert_eq!(missing(font_without(b"head").units_per_em().map(|_| ())), "head");
    assert_eq!(missing(font_without(b"maxp").num_glyphs().map(|_| ())), "maxp");
    assert_eq!(missing(font_without(b"OS/2").is_bold().map(|_| ())), "OS/2");
    assert_eq!(missing(font_without(b"OS/2").is_italic().map(|_| ())), "OS/2");
    assert_eq!(missing(font_without(b"name").font_name().map(|_| ())), "name");
    assert_eq!(missing(font_without(b"name").family_name().map(|_| ())), "name");
    assert_eq!(missing(font_without(b"cmap").char_to_glyph('A').map(|_| ())), "cmap");
    assert_eq!(missing(font_without(b"hmtx").hmtx_table().map(|_| ())), "hmtx");
    assert_eq!(missing(font_without(b"hhea").hmtx_table().map(|_| ())), "hhea");
    assert_eq!(missing(font_without(b"maxp").hmtx_table().map(|_| ())), "maxp");
    assert_eq!(missing(font_without(b"loca").loca_table().map(|_| ())), "loca");
    assert_eq!(missing(font_without(b"head").loca_table().map(|_| ())), "head");
    assert_eq!(missing(font_without(b"maxp").loca_table().map(|_| ())), "maxp");
    assert_eq!(missing(font_without(b"glyf").glyf_table().map(|_| ())), "glyf");
    assert_eq!(missing(font_without(b"loca").glyf_table().map(|_| ())), "loca");
    assert_eq!(missing(font_without(b"head").glyf_table().map(|_| ())), "head");
    assert_eq!(missing(font_without(b"maxp").glyf_table().map(|_| ())), "maxp");

    let mut subset = font_without(b"glyf").subset();
    subset.with_glyphs(&[1]);
    assert_eq!(missing(subset.build().map(|_| ())), "glyf");
    let mut subset = font_without(b"cmap").subset();
    assert_eq!(missing(subset.with_chars(&['A'])), "cmap");

    let mut modifier = font_without(b"head").modify();
    assert_eq!(missing(modifier.set_font_revision(1, 0)), "head");
    assert_eq!(missing(modifier.set_font_metrics(1000, 800, -200, 0)), "head");
    let mut modifier = font_without(b"hhea").modify();
    assert_eq!(missing(modifier.set_font_metrics(1000, 800, -200, 0)), "hhea");
    let mut modifier = font_without(b"hmtx").modify();
    assert_eq!(missing(modifier.set_glyph_advance(0, 1)), "hmtx");
}

#[test]
fn committed_changes_are_read_back() {
    let mut modifier = sample_font().modify();
    modifier.set_font_revision(2, 50).unwrap();
    modifier.set_font_metrics(2048, 1638, -410, 204).unwrap();
    modifier.set_embedding_type(8).unwrap();
    modifier.set_glyph_advance(3, 777).unwrap();
    let before = sample_font();
    let font = modifier.commit().unwrap();
    let head = font.head_table().unwrap();
    assert_eq!(head.units_per_em, 2048);
    // Each change starts from the table as the font has it: the later change to `head`
    // stands in place of the earlier one.
    assert_eq!(head.font_revision, before.head_table().unwrap().font_revision);
    assert_eq!(head.created, before.head_table().unwrap().created);
    let hhea = font.hhea_table().unwrap();
    assert_eq!((hhea.ascent, hhea.descent, hhea.line_gap), (1638, -410, 204));
    assert_eq!(hhea.number_of_h_metrics, 5);
    assert_eq!(hhea.get_line_height(), 1638 + 410 + 204);
    let os2 = font.os2_table().unwrap();
    assert_eq!(os2.fs_type, 8);
    assert_eq!(os2.us_weight_class, before.os2_table().unwrap().us_weight_class);
    let hmtx = font.hmtx_table().unwrap();
    assert_eq!(hmtx.get_advance_width(3), 777);
    assert_eq!(hmtx.get_lsb(3), 1);
    assert_eq!(hmtx.get_advance_width(2), 520);
    assert_eq!(font.get_table_data(b"glyf"), before.get_table_data(b"glyf"));

    let mut modifier = sample_font().modify();
    modifier.set_font_revision(2, 50).unwrap();
    let head = modifier.commit().unwrap().head_table().unwrap();
    assert_eq!(head.font_revision, Fixed::from_raw(0x0002_8000));
    assert_eq!(head.units_per_em, before.head_table().unwrap().units_per_em);
}

#[test]
fn a_committed_name_is_read_back() {
    let mut modifier = sample_font().modify();
    modifier.set_localized_font_name("A\u{e9}", 0x040c).unwrap();
    let font = modifier.commit().unwrap();
    let table = font.name_table().unwrap();
    let record = table.name_records.last().unwrap();
    assert_eq!(
        (record.platform_id, record.encoding_id, record.language_id, record.name_id),
        (3, 1, 0x040c, 1)
    );
    assert_eq!(record.length, 4);
    let bytes = font.get_table_data(b"name").unwrap();
    let at = record.offset as usize;
    assert_eq!(&bytes[at..at + 4], &[0, 0x41, 0, 0xe9]);
    assert_eq!(table.format, sample_font().name_table().unwrap().format);
    assert_eq!(table.count as usize, table.name_records.len());
}

fn line_in(width: usize, height: usize, ends: (i32, i32, i32, i32)) -> Vec<u8> {
    let mut bitmap = vec![0u8; width * height];
    Rasterizer::draw_line(&mut bitmap, width, height, ends.0, ends.1, ends.2, ends.3);
    bitmap
}

#[test]
fn lines_set_the_pixels_of_each_step() {
    assert_eq!(
        line_in(4, 3, (0, 1, 3, 1)),
        vec![0, 255, 255, 0, 255, 0, 0, 255, 0, 0, 0, 0]
    );
    assert_eq!(
        line_in(4, 4, (0, 0, 3, 3)),
        vec![255, 0, 0, 0, 255, 0, 0, 0, 0, 255, 0, 0, 0, 0, 0, 255]
    );
    assert_eq!(
        line_in(5, 4, (4, 3, 0, 1)),
        vec![0, 0, 0, 0, 0, 255, 0, 0, 0, 0, 0, 0, 0, 0, 0, 0, 255, 255, 255, 255]
    );
    assert_eq!(
        line_in(3, 5, (-7, 9, 1, 0)),
        vec![0, 255, 0, 0, 255, 0, 0, 255, 0, 0, 255, 0, 255, 0, 0]
    );
    assert_eq!(
        line_in(4, 4, (2, 2, 2, 2)),
        vec![0, 0, 0, 0, 0, 0, 0, 0, 0, 0, 255, 0, 0, 0, 0, 0]
    );
}

#[test]
fn a_glyph_is_drawn_once_and_kept() {
    let font = sample_font();
    let glyf = font.glyf_table().unwrap();
    let glyph = glyf.get_glyph(2).unwrap();
    let simple = match &glyph.data {
        GlyphData::Simple(simple) => simple,
        _ => panic!("not simple"),
    };
    let (bitmap, width, height) = Rasterizer::rasterize_simple(simple, 40, 1000, glyph).unwrap();
    let mut by_lines = vec![0u8; width * height];
    let left = (glyph.x_min as i64 * 40).div_euclid(1000);
    let low = (glyph.y_min as i64 * 40).div_euclid(1000);
    let pixel = |c: i16, from: i64| ((2 * c as i64 * 40 + 1000).div_euclid(2000) - from) as i32;
    let count = simple.x_coordinates.len();
    let mut point = 0;
    for &end in &simple.end_pts_of_contours {
        while point <= end as usize && point < count {
            let next = if point < end as usize { point + 1 } else { 0 };
            Rasterizer::draw_line(
                &mut by_lines,
                width,
                height,
                pixel(simple.x_coordinates[point], left),
                pixel(simple.y_coordinates[point], low),
                pixel(simple.x_coordinates[next], left),
                pixel(simple.y_coordinates[next], low),
            );
            point += 1;
        }
    }
    assert_eq!(bitmap, by_lines);
    assert!(bitmap.iter().any(|&b| b == 255));

    let mut rasterizer = font.rasterizer();
    let first = rasterizer.rasterize_glyph(2, 40).unwrap();
    assert_eq!((first.width, first.height), (width, height));
    assert_eq!(first.bitmap, bitmap);
    assert_eq!((first.advance_width, first.left_side_bearing), (520, 0));
    let second = rasterizer.rasterize_glyph(2, 400).unwrap();
    assert_eq!((second.width, second.height), (width, height));
    assert_eq!(second.bitmap, bitmap);
    assert!(rasterizer.rasterize_glyph(9, 40).is_err());
    let third = rasterizer.rasterize_glyph(2, 400).unwrap();
    assert_eq!(third.bitmap, bitmap);
    rasterizer.clear_cache();
    let larger = rasterizer.rasterize_glyph(2, 400).unwrap();
    assert_eq!((width, height), (5, 4));
    assert_eq!((larger.width, larger.height), (40, 40));

    let mut bare = font_without(b"glyf").rasterizer();
    assert!(matches!(bare.rasterize_glyph(1, 40), Err(TtfError::MissingTable(name)) if name == "glyf"));
}

#[test]
fn a_point_on_a_straight_line_is_dropped() {
    let mut glyph = Glyph {
        number_of_contours: 1,
        x_min: 0,
        y_min: 0,
        x_max: 10,
        y_max: 10,
        data: GlyphData::Simple(SimpleGlyph {
            end_pts_of_contours: vec![3],
            instruction_length: 0,
            instructions: vec![],
            flags: vec![1, 1, 1, 1],
            x_coordinates: vec![0, 5, 10, 10],
            y_coordinates: vec![0, 0, 0, 10],
        }),
    };
    assert!(glyph.simplify(ONE).is_ok());
    match &glyph.data {
        GlyphData::Simple(simple) => {
            assert_eq!(simple.x_coordinates, vec![0, 10, 10]);
            assert_eq!(simple.y_coordinates, vec![0, 0, 10]);
            assert_eq!(simple.flags, vec![1, 1, 1]);
            assert_eq!(simple.end_pts_of_contours, vec![2]);
        }
        _ => panic!("not simple"),
    }
}

fn composite_of(targets: &[u16]) -> Glyph {
    Glyph {
        number_of_contours: -1,
        x_min: 0,
        y_min: 0,
        x_max: 0,
        y_max: 0,
        data: GlyphData::Composite(CompositeGlyph {
            components: targets
                .iter()
                .map(|&glyph_index| GlyphComponent {
                    flags: 0,
                    glyph_index,
                    arg1: 0,
                    arg2: 0,
                    transform: Transform { xx: ONE, xy: 0, yx: 0, yy: ONE, dx: ONE, dy: 0 },
                })
                .collect(),
        }),
    }
}

fn dot() -> Glyph {
    Glyph {
        number_of_contours: 1,
        x_min: 0,
        y_min: 0,
        x_max: 0,
        y_max: 0,
        data: GlyphData::Simple(SimpleGlyph {
            end_pts_of_contours: vec![0],
            instruction_length: 0,
            instructions: vec![],
            flags: vec![1],
            x_coordinates: vec![0],
            y_coordinates: vec![5],
        }),
    }
}

fn points_of(glyph: &Glyph) -> (Vec<i16>, Vec<i16>, Vec<u16>) {
    match &glyph.data {
        GlyphData::Simple(outline) => (
            outline.x_coordinates.clone(),
            outline.y_coordinates.clone(),
            outline.end_pts_of_contours.clone(),
        ),
        _ => panic!("not flat"),
    }
}

#[test]
fn composites_resolve_through_composites() {
    // glyphs 1 and 2 refer to each other; glyph 2 also refers to the dot
    let table = GlyfTable { glyphs: vec![dot(), composite_of(&[2, 0]), composite_of(&[1, 0])] };
    let flat = table.resolve_composite(1).unwrap().unwrap();
    assert_eq!(points_of(&flat), (vec![2, 1], vec![5, 5], vec![0, 1]));
    let flat = table.resolve_composite(2).unwrap().unwrap();
    assert_eq!(points_of(&flat), (vec![2, 1], vec![5, 5], vec![0, 1]));

    // a chain of composites: glyph i refers to glyph i + 1, the last to the dot
    let chain = |length: u16| {
        let mut glyphs = vec![dot()];
        for i in 1..=length {
            glyphs.push(composite_of(&[if i == length { 0 } else { i + 1 }]));
        }
        GlyfTable { glyphs }
    };
    let flat = chain(3).resolve_composite(1).unwrap().unwrap();
    assert_eq!(points_of(&flat), (vec![3], vec![5], vec![0]));
    let flat = chain(16).resolve_composite(1).unwrap().unwrap();
    assert_eq!(points_of(&flat), (vec![16], vec![5], vec![0]));
    assert!(chain(17).resolve_composite(1).unwrap().is_none());
    assert!(chain(17).resolve_composite(2).unwrap().is_some());
}
