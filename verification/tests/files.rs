use epaint_font::tables::{check_listing, check_mapping, check_metrics, is_charmap_truncated};

fn u16s(values: &[u16]) -> Vec<u8> {
    values.iter().flat_map(|v| v.to_be_bytes()).collect()
}

fn u32s(values: &[u32]) -> Vec<u8> {
    values.iter().flat_map(|v| v.to_be_bytes()).collect()
}

/// A file with these tables, which must be sorted, behind `gap` bytes that belong to
/// nothing.
fn file_with(gap: usize, tables: &[(&[u8; 4], &[u8])]) -> Vec<u8> {
    let mut file = vec![0; gap];
    file.extend(u32s(&[0x0001_0000]));
    file.extend(u16s(&[tables.len() as u16, 0, 0, 0]));
    let mut offset = gap + 12 + 16 * tables.len();
    for (tag, table) in tables {
        file.extend(*tag);
        file.extend(u32s(&[0, offset as u32, table.len() as u32]));
        offset += table.len();
    }
    for (_, table) in tables {
        file.extend(*table);
    }
    file
}

fn cmap_file(cmap: &[u8]) -> Vec<u8> {
    file_with(0, &[(b"aaaa", &[1, 2, 3]), (b"cmap", cmap)])
}

fn groups(format: u16, groups: &[[u32; 3]]) -> Vec<u8> {
    let mut cmap = u16s(&[0, 1, 3, 10]);
    cmap.extend(u32s(&[12]));
    cmap.extend(u16s(&[format, 0]));
    cmap.extend(u32s(&[0, 0, groups.len() as u32]));
    for group in groups {
        cmap.extend(u32s(group));
    }
    cmap
}

fn symbols(cmap: Vec<u8>) -> Vec<u8> {
    let mut cmap = cmap;
    cmap[7] = 0;
    cmap
}

#[test]
fn glyph_numbers_of_a_character_map_must_fit() {
    let cmap = groups(12, &[[0x20, 0x7E, 1], [0xA0, 0xFF, 0xFFFF_FFF0]]);
    let file = cmap_file(&cmap);
    assert!(!is_charmap_truncated(&file, 0));
    for (code_point, ok) in [(0x41, true), (0x9F, true), (0xAF, true), (0xB0, false), (0xFF, false)]
    {
        assert_eq!(check_mapping(&file, 0, code_point), ok);
    }
    assert!(check_mapping(&file, 0, 0x10FFFF));
    assert!(!check_listing(&file, 0));
    // The directory may be anywhere; where there is none, there is no character map.
    let file = file_with(8, &[(b"cmap", &cmap)]);
    assert!(!check_mapping(&file, 8, 0xFF));
    assert!(check_mapping(&file, 0, 0xFF));
    assert!(check_mapping(&[], 0, 0xFF));
    assert!(check_listing(&[], 0));
}

#[test]
fn listing_adds_code_points_before_it_takes_the_first_away() {
    let mapped = cmap_file(&groups(12, &[[0x1000, 0x1003, 0xFFFF_FFFC]]));
    assert!(check_mapping(&mapped, 0, 0x1003));
    assert!(!check_listing(&mapped, 0));
    assert!(check_listing(&cmap_file(&groups(12, &[[0x1000, 0x1003, 0xFFFF_EFFC]])), 0));
    assert!(!check_listing(&cmap_file(&groups(12, &[[0x1000, 0x1003, 0xFFFF_EFFD]])), 0));
    // An empty group adds nothing up.
    assert!(check_listing(&cmap_file(&groups(12, &[[0xFF, 0xA0, 0xFFFF_FFFF]])), 0));
}

#[test]
fn only_the_low_byte_of_the_format_counts_for_looking_up() {
    let bad = [[0x41, 0x42, 0xFFFF_FFFF]];
    assert!(check_mapping(&cmap_file(&groups(4, &bad)), 0, 0x42));
    assert!(!check_mapping(&cmap_file(&groups(0x10C, &bad)), 0, 0x42));
    assert!(check_listing(&cmap_file(&groups(0x10C, &bad)), 0));
}

#[test]
fn symbols_have_a_second_place() {
    let bad = [[0xF041, 0xF042, 0xFFFF_FFFF]];
    assert!(check_mapping(&cmap_file(&groups(12, &bad)), 0, 0x42));
    let file = cmap_file(&symbols(groups(12, &bad)));
    assert!(check_mapping(&file, 0, 0x41));
    assert!(!check_mapping(&file, 0, 0x42));
    // A glyph at the first place is enough.
    let both = [[0x42, 0x42, 7], [0xF041, 0xF042, 0xFFFF_FFFF]];
    assert!(check_mapping(&cmap_file(&symbols(groups(12, &both))), 0, 0x42));
}

#[test]
fn only_the_part_that_is_used_matters() {
    // Two parts: the first for Unicode in segments, the second as given.
    let two = |platform: u16, encoding: u16, format: u16| {
        let mut cmap = u16s(&[0, 2, 0, 3]);
        cmap.extend(u32s(&[20]));
        cmap.extend(u16s(&[platform, encoding]));
        cmap.extend(u32s(&[36]));
        cmap.extend(u16s(&[4, 0, 0, 0, 0, 0, 0, 0]));
        cmap.extend(u16s(&[format, 0]));
        cmap.extend(u32s(&[0, 0, 1, 0x41, 0x42, 0xFFFF_FFFF]));
        cmap_file(&cmap)
    };
    assert!(!check_mapping(&two(3, 10, 12), 0, 0x42));
    assert!(!check_mapping(&two(0, 4, 12), 0, 0x42));
    assert!(!check_mapping(&two(3, 0, 12), 0, 0x42));
    assert!(check_mapping(&two(1, 0, 12), 0, 0x42));
    assert!(check_mapping(&two(3, 10, 6), 0, 0x42));
}

#[test]
fn a_character_map_that_ends_early_is_empty() {
    let file = cmap_file(&groups(12, &[[0x41, 0x42, 0xFFFF_FFFF]]));
    // Without its last byte the file has fewer groups than it claims.
    let short = &file[..file.len() - 1];
    assert!(check_mapping(short, 0, 0x42) && check_listing(short, 0));
    assert!(!is_charmap_truncated(short, 0));
    let shorter = &file[..file.len() - 13];
    assert!(check_mapping(shorter, 0, 0x42) && check_listing(shorter, 0));
    assert!(is_charmap_truncated(shorter, 0));
}

/// A file with the tables that metrics are read from, and some more.
fn metrics_file(more: &[(&[u8; 4], &[u8])]) -> Vec<u8> {
    let mut tables: Vec<(&[u8; 4], &[u8])> = vec![(b"head", &[0; 54]), (b"maxp", &[0; 6])];
    tables.extend(more);
    tables.sort();
    file_with(0, &tables)
}

fn header(descender: u16, count: u16) -> Vec<u8> {
    let mut table = u16s(&[1, 0, 800, descender]);
    table.extend(vec![0; 26]);
    table.extend(u16s(&[count]));
    table
}

const DOWN: u16 = 0xFF38;

#[test]
fn headers_must_have_metrics_and_descenders_with_opposites() {
    assert!(check_metrics(&metrics_file(&[]), 0, 0));
    assert!(!check_metrics(&file_with(0, &[(b"maxp", &[0; 6])]), 0, 0));
    assert!(!check_metrics(&file_with(0, &[(b"head", &[0; 54])]), 0, 0));
    assert!(!check_metrics(&[], 0, 0));
    assert!(check_metrics(&metrics_file(&[(b"hhea", &header(DOWN, 1))]), 0, 0));
    assert!(!check_metrics(&metrics_file(&[(b"hhea", &header(DOWN, 0))]), 0, 0));
    assert!(!check_metrics(&metrics_file(&[(b"hhea", &header(0x8000, 1))]), 0, 0));
    assert!(!check_metrics(&metrics_file(&[(b"hhea", &header(DOWN, 1)[..35])]), 0, 0));
    assert!(check_metrics(&metrics_file(&[(b"vhea", &header(DOWN, 0))]), 0, 0));
    assert!(!check_metrics(&metrics_file(&[(b"vhea", &header(0x8000, 1))]), 0, 0));
}

#[test]
fn a_descender_that_is_not_read_does_not_matter() {
    let os2 = |flags: u16, ascender: u16, descender: u16| {
        let mut table = vec![0; 62];
        table.extend(u16s(&[flags, 0, 0, ascender, descender]));
        table
    };
    assert!(check_metrics(&metrics_file(&[(b"OS/2", &os2(0x80, 800, DOWN))]), 0, 0));
    assert!(check_metrics(&metrics_file(&[(b"OS/2", &os2(0x40, 800, 0x8000))]), 0, 0));
    assert!(!check_metrics(&metrics_file(&[(b"OS/2", &os2(0xC0, 800, 0x8000))]), 0, 0));
    let hhea = header(0x8000, 1);
    let both = |os2: &[u8]| metrics_file(&[(b"OS/2", os2), (b"hhea", &hhea)]);
    assert!(check_metrics(&both(&os2(0x80, 800, DOWN)), 0, 0));
    assert!(!check_metrics(&both(&os2(0x80, 0, DOWN)), 0, 0));
    assert!(!check_metrics(&both(&os2(0, 800, DOWN)), 0, 0));
}

#[test]
fn variations_must_have_no_more_wide_deltas_than_deltas() {
    // One region of one axis, and one group of deltas, behind a list if there is one.
    let hvar = |list: &[u16], wide: u16, all: u16| {
        let list = u16s(list);
        let mut table = u32s(&[0x0001_0000, 20 + list.len() as u32]);
        table.extend(u32s(&[if list.is_empty() { 0 } else { 20 }, 0, 0]));
        table.extend(&list);
        table.extend(u16s(&[1]));
        table.extend(u32s(&[12]));
        table.extend(u16s(&[1]));
        table.extend(u32s(&[22]));
        table.extend(u16s(&[1, 1, 0, 0x4000, 0x4000, 1, wide, all, 0, 0]));
        table
    };
    assert!(check_metrics(&metrics_file(&[(b"HVAR", &hvar(&[], 0, 1))]), 0, 0));
    assert!(check_metrics(&metrics_file(&[(b"HVAR", &hvar(&[], 1, 1))]), 0, 0));
    assert!(!check_metrics(&metrics_file(&[(b"HVAR", &hvar(&[], 2, 1))]), 0, 0));
    assert!(!check_metrics(&metrics_file(&[(b"HVAR", &hvar(&[], 0x8000, 1))]), 0, 0));
    assert!(check_metrics(&metrics_file(&[(b"HVAR", &hvar(&[0, 1, 0], 0, 1))]), 0, 0));
    // Entries of one byte, one bit of which is for the inner number: the first glyph has
    // deltas of the only group, the second has none.
    let file = metrics_file(&[(b"HVAR", &hvar(&[0, 2, 0x0102], 2, 1))]);
    assert!(!check_metrics(&file, 0, 0));
    assert!(check_metrics(&file, 0, 1));
    assert!(check_metrics(&file, 0, 9));
    assert!(!check_metrics(&metrics_file(&[(b"HVAR", &hvar(&[0, 0, 0], 0, 1))]), 0, 0));
}
