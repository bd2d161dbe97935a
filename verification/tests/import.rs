use std::io::Write;

use anvil_import::nbt::parse_chunk;
use anvil_import::stage::{Chunk, MinecraftAnvilStage, Registry, Resources, WorldConfig};

fn nbt_str(s: &str) -> Vec<u8> {
    let b = s.as_bytes();
    let mut v = vec![(b.len() >> 8) as u8, b.len() as u8];
    v.extend_from_slice(b);
    v
}

fn named(tag: u8, name: &str) -> Vec<u8> {
    let mut v = vec![tag];
    v.extend(nbt_str(name));
    v
}

fn long_array(values: &[i64]) -> Vec<u8> {
    let mut v = (values.len() as u32).to_be_bytes().to_vec();
    for x in values {
        v.extend_from_slice(&x.to_be_bytes());
    }
    v
}

fn palette_list(names: &[&str]) -> Vec<u8> {
    let mut v = vec![10u8];
    v.extend_from_slice(&(names.len() as u32).to_be_bytes());
    for name in names {
        v.extend(named(8, "Name"));
        v.extend(nbt_str(name));
        v.push(0);
    }
    v
}

/// A single-section record in the modern shape: a top-level `sections` list.
fn modern_record(y: i8, names: &[&str], words: &[i64]) -> Vec<u8> {
    let mut section = Vec::new();
    section.extend(named(1, "Y"));
    section.push(y as u8);
    section.extend(named(9, "palette"));
    section.extend(palette_list(names));
    section.extend(named(12, "block_states"));
    section.extend(long_array(words));
    section.push(0);

    let mut root = vec![10u8];
    root.extend(nbt_str(""));
    root.extend(named(9, "sections"));
    root.push(10);
    root.extend_from_slice(&1u32.to_be_bytes());
    root.extend(section);
    root.push(0);
    root
}

/// The same content in the legacy shape: a `Level` wrapper with `Sections`,
/// `Palette` and `BlockStates`.
fn legacy_record(y: i8, names: &[&str], words: &[i64]) -> Vec<u8> {
    let mut section = Vec::new();
    section.extend(named(1, "Y"));
    section.push(y as u8);
    section.extend(named(9, "Palette"));
    section.extend(palette_list(names));
    section.extend(named(12, "BlockStates"));
    section.extend(long_array(words));
    section.push(0);

    let mut level = Vec::new();
    level.extend(named(9, "Sections"));
    level.push(10);
    level.extend_from_slice(&1u32.to_be_bytes());
    level.extend(section);
    level.push(0);

    let mut root = vec![10u8];
    root.extend(nbt_str(""));
    root.extend(named(10, "Level"));
    root.extend(level);
    root.push(0);
    root
}

fn zlib(data: &[u8]) -> Vec<u8> {
    let mut enc = libflate::zlib::Encoder::new(Vec::new()).unwrap();
    enc.write_all(data).unwrap();
    enc.finish().into_result().unwrap()
}

fn gzip(data: &[u8]) -> Vec<u8> {
    let mut enc = libflate::gzip::Encoder::new(Vec::new()).unwrap();
    enc.write_all(data).unwrap();
    enc.finish().into_result().unwrap()
}

/// A region file whose slot for local chunk (0, 0) holds the given record.
fn region_with_record(scheme: u8, compressed: &[u8]) -> Vec<u8> {
    let mut region = vec![0u8; 8192];
    region[0..4].copy_from_slice(&((2u32 << 8) | 1u32).to_be_bytes());
    region.extend_from_slice(&((compressed.len() + 1) as u32).to_be_bytes());
    region.push(scheme);
    region.extend_from_slice(compressed);
    region
}

fn resources() -> Resources {
    Resources {
        registry: Registry { blocks_by_name: vec![("stone".to_string(), 5u32)] },
        config: WorldConfig { max_height: 64 },
    }
}

/// 4096 alternating palette indices 0,1 at 4 bits each.
fn alternating_words() -> Vec<i64> {
    vec![0x1010101010101010u64 as i64; 256]
}

#[test]
fn parses_modern_shape() {
    let record = modern_record(0, &["minecraft:air", "minecraft:stone"], &[3, -1]);
    let chunk = parse_chunk(&record).expect("record should parse");
    let sections = chunk.into_sections();
    assert_eq!(sections.len(), 1);
    assert_eq!(sections[0].y, 0);
    let palette = sections[0].palette().expect("palette present");
    assert_eq!(palette.len(), 2);
    assert_eq!(palette[0].name, "minecraft:air".to_string());
    assert_eq!(palette[1].name, "minecraft:stone".to_string());
    assert_eq!(sections[0].block_states().expect("words present"), &vec![3i64, -1i64]);
}

#[test]
fn parses_legacy_shape() {
    let record = legacy_record(-2, &["minecraft:dirt"], &[7]);
    let chunk = parse_chunk(&record).expect("record should parse");
    let sections = chunk.into_sections();
    assert_eq!(sections.len(), 1);
    assert_eq!(sections[0].y, -2);
    let palette = sections[0].palette().expect("palette present");
    assert_eq!(palette[0].name, "minecraft:dirt".to_string());
    assert_eq!(sections[0].block_states().expect("words present"), &vec![7i64]);
}

#[test]
fn malformed_record_is_rejected() {
    assert!(parse_chunk(&Vec::new()).is_none());
    assert!(parse_chunk(&vec![9u8, 0, 0]).is_none());
    let mut record = modern_record(0, &["minecraft:air"], &[]);
    record.truncate(record.len() - 4);
    assert!(parse_chunk(&record).is_none());
}

#[test]
fn end_to_end_zlib_import() {
    let record = modern_record(0, &["minecraft:air", "minecraft:stone"], &alternating_words());
    let region = region_with_record(2, &zlib(&record));
    let chunk = Chunk::new((0, 0), (0, 0, 0), 64);
    let mut stage = MinecraftAnvilStage::new("world".to_string());
    let out = stage.process(chunk, &resources(), Some(&region));
    for y in 0..64i32 {
        for z in 0..16i32 {
            for x in 0..16i32 {
                let i = (y * 256 + z * 16 + x) as usize;
                let expect = if y < 16 && i % 2 == 1 { 5 } else { 0 };
                assert_eq!(out.get_voxel(x, y, z), expect);
            }
        }
    }
}

#[test]
fn end_to_end_gzip_import() {
    let record = modern_record(0, &["minecraft:air", "minecraft:stone"], &alternating_words());
    let region = region_with_record(1, &gzip(&record));
    let chunk = Chunk::new((0, 0), (0, 0, 0), 64);
    let mut stage = MinecraftAnvilStage::new("world".to_string());
    let out = stage.process(chunk, &resources(), Some(&region));
    assert_eq!(out.get_voxel(1, 0, 0), 5);
    assert_eq!(out.get_voxel(0, 0, 0), 0);
}

#[test]
fn unsupported_scheme_leaves_chunk_unmodified() {
    let record = modern_record(0, &["minecraft:air", "minecraft:stone"], &alternating_words());
    let region = region_with_record(3, &zlib(&record));
    let chunk = Chunk::new((0, 0), (0, 0, 0), 64);
    let mut stage = MinecraftAnvilStage::new("world".to_string());
    let out = stage.process(chunk, &resources(), Some(&region));
    for y in 0..64i32 {
        assert_eq!(out.get_voxel(1, y, 0), 0);
    }
}

#[test]
fn missing_region_data_leaves_chunk_unmodified() {
    let chunk = Chunk::new((0, 0), (0, 0, 0), 64);
    let mut stage = MinecraftAnvilStage::new("world".to_string());
    let out = stage.process(chunk, &resources(), None);
    assert_eq!(out.get_voxel(1, 0, 0), 0);
    assert!(stage.resolved.is_empty());
}

#[test]
fn section_above_max_height_is_skipped() {
    // base_y = 10 * 16 = 160 >= max_height 64: no write, no resolution.
    let record = modern_record(10, &["minecraft:stone"], &alternating_words());
    let region = region_with_record(2, &zlib(&record));
    let chunk = Chunk::new((0, 0), (0, 0, 0), 64);
    let mut stage = MinecraftAnvilStage::new("world".to_string());
    let out = stage.process(chunk, &resources(), Some(&region));
    for y in 0..64i32 {
        for z in 0..16i32 {
            for x in 0..16i32 {
                assert_eq!(out.get_voxel(x, y, z), 0);
            }
        }
    }
    assert!(stage.resolved.is_empty());
}

#[test]
fn section_below_zero_is_skipped() {
    // base_y = -2 * 16 = -32; base_y + 15 < 0: skipped entirely.
    let record = modern_record(-2, &["minecraft:stone"], &alternating_words());
    let region = region_with_record(2, &zlib(&record));
    let chunk = Chunk::new((0, 0), (0, 0, 0), 64);
    let mut stage = MinecraftAnvilStage::new("world".to_string());
    let out = stage.process(chunk, &resources(), Some(&region));
    assert_eq!(out.get_voxel(0, 0, 0), 0);
    assert!(stage.resolved.is_empty());
}

#[test]
fn y_offset_shifts_sections_into_range() {
    // Section y = -1 with a +16 offset lands at base_y 0.
    let words = vec![0x1111111111111111u64 as i64; 256];
    let record = modern_record(-1, &["minecraft:air", "minecraft:stone"], &words);
    let region = region_with_record(2, &zlib(&record));
    let chunk = Chunk::new((0, 0), (0, 0, 0), 64);
    let mut stage = MinecraftAnvilStage::new("world".to_string()).with_y_offset(16);
    let out = stage.process(chunk, &resources(), Some(&region));
    for y in 0..16i32 {
        assert_eq!(out.get_voxel(3, y, 3), 5);
    }
    for y in 16..64i32 {
        assert_eq!(out.get_voxel(3, y, 3), 0);
    }
}

#[test]
fn out_of_range_palette_index_is_skipped() {
    // Palette of two entries, but every stored index is 3: no voxel written.
    let words = vec![0x3333333333333333u64 as i64; 256];
    let record = modern_record(0, &["minecraft:air", "minecraft:stone"], &words);
    let region = region_with_record(2, &zlib(&record));
    let chunk = Chunk::new((0, 0), (0, 0, 0), 64);
    let mut stage = MinecraftAnvilStage::new("world".to_string());
    let out = stage.process(chunk, &resources(), Some(&region));
    assert_eq!(out.get_voxel(0, 0, 0), 0);
    assert_eq!(out.get_voxel(1, 0, 0), 0);
}

#[test]
fn chunk_voxel_accessors() {
    let mut chunk = Chunk::new((0, 0), (-16, 0, 32), 8);
    chunk.set_voxel(-16, 0, 32, 42);
    chunk.set_voxel(-1, 7, 47, 7);
    // Out of bounds in each direction: ignored.
    chunk.set_voxel(-17, 0, 32, 9);
    chunk.set_voxel(-16, 8, 32, 9);
    chunk.set_voxel(-16, 0, 48, 9);
    assert_eq!(chunk.get_voxel(-16, 0, 32), 42);
    assert_eq!(chunk.get_voxel(-1, 7, 47), 7);
    assert_eq!(chunk.get_voxel(-17, 0, 32), 0);
    assert_eq!(chunk.get_voxel(-15, 0, 32), 0);
}
