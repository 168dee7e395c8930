use rustmine::chunk::{Block, Chunk, ChunkSection, Palette};
use rustmine::config::ServerConfig;
use rustmine::dimension::{DimensionError, DimensionType, DimensionTypeManager};
use rustmine::world::WorldManager;

fn overworld() -> DimensionType {
    DimensionType {
        piglin_safe: false,
        natural: true,
        fixed_time: None,
        infiniburn: String::from("#minecraft:infiniburn_overworld"),
        respawn_anchor_works: false,
        bed_works: true,
        effects: String::from("minecraft:overworld"),
        has_skylight: true,
        has_ceiling: false,
        ultrawarm: false,
        has_raids: true,
        logical_height: 384,
        min_y: -64,
        height: 384,
        monster_spawn_light_level: Some(7),
        monster_spawn_block_light_limit: 0,
    }
}

#[test]
fn dimension_validation_rules() {
    assert!(overworld().validate().is_ok());

    let mut d = overworld();
    d.min_y = -63;
    assert_eq!(d.validate().unwrap_err(), "min_y must be multiple of 16");

    let mut d = overworld();
    d.height = 100;
    assert_eq!(d.validate().unwrap_err(), "height must be multiple of 16");

    let mut d = overworld();
    d.logical_height = 385;
    assert_eq!(
        d.validate().unwrap_err(),
        "logical_height must be between 0 and height"
    );

    let mut d = overworld();
    d.logical_height = -1;
    assert!(d.validate().is_err());
}

#[test]
fn dimension_registration_never_overwrites() {
    let mut manager = DimensionTypeManager::default();
    assert!(manager.register("minecraft:overworld", overworld()).is_ok());
    assert_eq!(
        manager.register("minecraft:overworld", overworld()),
        Err(DimensionError::AlreadyRegistered)
    );
    let got = manager.get("minecraft:overworld").unwrap();
    assert_eq!(got.height, 384);
    assert!(manager.get("minecraft:the_end").is_none());
}

#[test]
fn dimension_registration_validates() {
    let mut manager = DimensionTypeManager::default();
    let mut bad = overworld();
    bad.min_y = 7;
    assert_eq!(
        manager.register("minecraft:bad", bad),
        Err(DimensionError::ValidationError)
    );
    assert!(manager.get("minecraft:bad").is_none());
}

#[test]
fn world_manager_keeps_creation_order() {
    let mut worlds = WorldManager::default();
    let first = worlds.create_world(overworld());
    let mut tall = overworld();
    tall.height = 512;
    tall.logical_height = 512;
    let second = worlds.create_world(tall);
    assert_eq!(first, 0);
    assert_eq!(second, 1);
    assert_eq!(worlds.worlds.len(), 2);
    assert_eq!(worlds.worlds[1].dimension_type.height, 512);
}

#[test]
fn palette_reuses_indices() {
    let mut palette = Palette::new();
    assert_eq!(palette.as_vec().as_slice(), &[Block::Air]);
    let stone = palette.get_or_insert(Block::Stone);
    let dirt = palette.get_or_insert(Block::Dirt);
    let stone_again = palette.get_or_insert(Block::Stone);
    let air = palette.get_or_insert(Block::Air);
    assert_eq!(stone, 1);
    assert_eq!(dirt, 2);
    assert_eq!(stone_again, 1);
    assert_eq!(air, 0);
    assert_eq!(palette.get(1), Block::Stone);
    assert_eq!(palette.get(200), Block::Air);
}

#[test]
fn section_set_and_get() {
    let mut section = ChunkSection::new();
    assert_eq!(section.get_block(3, 4, 5), Block::Air);
    section.set_block(3, 4, 5, Block::GrassBlock);
    assert_eq!(section.get_block(3, 4, 5), Block::GrassBlock);
    assert_eq!(section.get_block(3, 4, 6), Block::Air);
    // out-of-range coordinates are ignored / read as air
    section.set_block(16, 0, 0, Block::Stone);
    assert_eq!(section.get_block(16, 0, 0), Block::Air);
}

#[test]
fn chunk_spans_sections() {
    let mut chunk = Chunk::new(-3, 9);
    assert_eq!(chunk.coordinates(), (-3, 9));
    chunk.set_block(1, 0, 1, Block::Stone);
    chunk.set_block(1, 17, 1, Block::Dirt);
    chunk.set_block(1, 255, 1, Block::GrassBlock);
    assert_eq!(chunk.get_block(1, 0, 1), Block::Stone);
    assert_eq!(chunk.get_block(1, 17, 1), Block::Dirt);
    assert_eq!(chunk.get_block(1, 255, 1), Block::GrassBlock);
    assert_eq!(chunk.get_block(1, 16, 1), Block::Air);
}

#[test]
fn server_config_defaults() {
    let config = ServerConfig::default();
    assert_eq!(config.bind_address, "0.0.0.0");
    assert_eq!(config.port, 25565);
}

#[test]
fn status_document_defaults() {
    let version = rustmine::packet::clientbound::StatusVersion::default();
    assert_eq!(version.name, "Rustmine");
    assert_eq!(version.protocol, 771);
    let players = rustmine::packet::clientbound::StatusPlayers::default();
    assert_eq!(players.max, 0);
    assert_eq!(players.online, 0);
    assert!(players.sample.is_empty());
}
