use anvil_import::stage::{MinecraftAnvilStage, Registry};

fn registry_with_stone() -> Registry {
    Registry { blocks_by_name: vec![("stone".to_string(), 5u32)] }
}

fn empty_registry() -> Registry {
    Registry { blocks_by_name: Vec::new() }
}

#[test]
fn override_table_wins() {
    let mut stage = MinecraftAnvilStage::new("world".to_string()).with_mapping(vec![(
        "minecraft:stone".to_string(),
        "Stone".to_string(),
    )]);
    let id = stage.resolve_block_id(&registry_with_stone(), &"minecraft:stone".to_string());
    assert_eq!(id, 5);
}

#[test]
fn mapping_keys_are_lowercased() {
    let stage = MinecraftAnvilStage::new("world".to_string()).with_mapping(vec![(
        "Minecraft:STONE".to_string(),
        "Stone".to_string(),
    )]);
    assert_eq!(stage.mapping[0].0, "minecraft:stone".to_string());
    assert_eq!(stage.mapping[0].1, "Stone".to_string());
}

#[test]
fn namespace_stripping_fallback() {
    let mut stage = MinecraftAnvilStage::new("world".to_string());
    let id = stage.resolve_block_id(&registry_with_stone(), &"minecraft:stone".to_string());
    assert_eq!(id, 5);
}

#[test]
fn unknown_name_uses_default() {
    let mut stage = MinecraftAnvilStage::new("world".to_string()).with_default_block(77);
    let id = stage.resolve_block_id(&registry_with_stone(), &"minecraft:unknown_block".to_string());
    assert_eq!(id, 77);
}

#[test]
fn name_without_namespace_and_no_override_uses_default() {
    let mut stage = MinecraftAnvilStage::new("world".to_string()).with_default_block(9);
    let id = stage.resolve_block_id(&registry_with_stone(), &"plainname".to_string());
    assert_eq!(id, 9);
}

#[test]
fn air_resolves_to_zero_without_caching() {
    let mut stage = MinecraftAnvilStage::new("world".to_string()).with_default_block(9);
    let id = stage.resolve_block_id(&empty_registry(), &"minecraft:air".to_string());
    assert_eq!(id, 0);
    assert!(stage.resolved.is_empty());
}

#[test]
fn second_resolution_is_served_from_the_cache() {
    let mut stage = MinecraftAnvilStage::new("world".to_string());
    let first = stage.resolve_block_id(&registry_with_stone(), &"minecraft:stone".to_string());
    assert_eq!(first, 5);
    assert_eq!(stage.resolved.len(), 1);
    // A second resolution never consults the registry: an empty one gives
    // the same answer.
    let second = stage.resolve_block_id(&empty_registry(), &"minecraft:stone".to_string());
    assert_eq!(second, 5);
    assert_eq!(stage.resolved.len(), 1);
}

#[test]
fn cache_keys_are_case_sensitive() {
    let mut stage = MinecraftAnvilStage::new("world".to_string());
    let first = stage.resolve_block_id(&registry_with_stone(), &"minecraft:STONE".to_string());
    assert_eq!(first, 5);
    let second = stage.resolve_block_id(&registry_with_stone(), &"minecraft:stone".to_string());
    assert_eq!(second, 5);
    assert_eq!(stage.resolved.len(), 2);
}

#[test]
fn stage_name() {
    let stage = MinecraftAnvilStage::new("world".to_string());
    assert_eq!(stage.name(), "Minecraft Anvil Import".to_string());
}

#[test]
fn builders_set_fields() {
    let stage = MinecraftAnvilStage::new("world".to_string())
        .with_default_block(3)
        .with_y_offset(-64);
    assert_eq!(stage.world_path, "world".to_string());
    assert_eq!(stage.default_block, 3);
    assert_eq!(stage.y_offset, -64);
    assert!(stage.mapping.is_empty());
    assert!(stage.resolved.is_empty());
}
