use nano_entropy::config::PresentationConfig;
use nano_entropy::config::status_response;
use nano_entropy::join::ChunkColumn;
use nano_entropy::join::GameMode;
use nano_entropy::join::Identity;
use nano_entropy::join::Packet;
use nano_entropy::join::SignedKey;
use nano_entropy::join::build_join_sequence;
use nano_entropy::join::codec_snapshot;
use nano_entropy::join::terrain_grid;
use nano_entropy::join::varint_bytes;
use nano_entropy::join::protocol_string;
use nano_entropy::join::brand_payload;
use nano_entropy::nbt::Tag;
use nano_entropy::nbt::get_tag;
use nano_entropy::registry::dimension_from_protocol;

fn test_config() -> PresentationConfig {
    PresentationConfig {
        title: "A Minimal World".to_owned(),
        subtitle: "nothing happens here".to_owned(),
        motd: "a quiet server".to_owned(),
        max_players: 20,
        online_players: 0,
        favicon: None,
    }
}

fn tester_identity() -> Identity {
    Identity { name: "Tester".to_owned(), id: 0x0011223344556677_8899aabbccddeeff, key: None }
}

fn join_packets(protocol_version: i32) -> Vec<Packet> {
    let registry = dimension_from_protocol(protocol_version).expect("registry should load");
    let cfg = test_config();
    let identity = tester_identity();
    build_join_sequence(&identity, protocol_version, &cfg, &registry)
}

#[test]
fn join_sequence_emits_exactly_nine_packets_in_order() {
    for version in [760, 340, 341, 5, -1] {
        let packets = join_packets(version);
        assert_eq!(packets.len(), 9);
        assert!(matches!(packets[0], Packet::LoginSuccess { .. }));
        assert!(matches!(packets[1], Packet::JoinWorld { .. }));
        assert!(matches!(packets[2], Packet::Brand { .. }));
        assert!(matches!(packets[3], Packet::Abilities { .. }));
        assert!(matches!(packets[4], Packet::Position { .. }));
        assert!(matches!(packets[5], Packet::PlayerListAdd { .. }));
        assert!(matches!(packets[6], Packet::CommandGraph { .. }));
        assert!(matches!(packets[7], Packet::TerrainGrid { .. }));
        assert!(matches!(packets[8], Packet::TitleSequence { .. }));
    }
}

#[test]
fn join_sequence_confirms_the_identity_first() {
    let packets = join_packets(760);
    match &packets[0] {
        Packet::LoginSuccess { name, id } => {
            assert_eq!(name, "Tester");
            assert_eq!(*id, 0x0011223344556677_8899aabbccddeeffu128);
        },
        _ => panic!("the first packet should confirm the login"),
    }
}

#[test]
fn join_world_carries_fixed_world_metadata_and_the_codec() {
    let packets = join_packets(760);
    match &packets[1] {
        Packet::JoinWorld {
            player_id,
            hardcore,
            game_mode,
            previous_game_mode,
            levels,
            codec,
            dimension_type,
            dimension,
            seed,
            max_players,
            chunk_radius,
            simulation_distance,
            reduced_debug_info,
            show_death_screen,
            is_debug,
            is_flat,
        } => {
            assert_eq!(*player_id, 1);
            assert!(!*hardcore);
            assert_eq!(*game_mode, GameMode::Adventure);
            assert_eq!(*previous_game_mode, GameMode::Unset);
            assert_eq!(levels.len(), 1);
            assert_eq!(levels[0], "minecraft:overworld");
            assert_eq!(dimension_type, "minecraft:overworld");
            assert_eq!(dimension, "minecraft:overworld");
            assert_eq!(*seed, 0);
            assert_eq!(*max_players, 20);
            assert_eq!(*chunk_radius, 0);
            assert_eq!(*simulation_distance, 10);
            assert!(!*reduced_debug_info);
            assert!(*show_death_screen);
            assert!(!*is_debug);
            assert!(!*is_flat);
            // The codec holds the three registries, and its dimension-type
            // registry holds a "minecraft:overworld" entry.
            let dim = get_tag(&codec.entries, &b"minecraft:dimension_type".to_vec())
                .expect("codec should carry the dimension types");
            match dim {
                Tag::Compound(fields) => {
                    let value = get_tag(fields, &b"value".to_vec())
                        .expect("dimension types should carry entries");
                    match value {
                        Tag::List(10, items) => {
                            assert_eq!(items.len(), 1);
                            match &items[0] {
                                Tag::Compound(entry) => {
                                    let name = get_tag(entry, &b"name".to_vec())
                                        .expect("a dimension entry is named");
                                    match name {
                                        Tag::Str(s) => assert_eq!(s, b"minecraft:overworld"),
                                        _ => panic!("a dimension name should be a string"),
                                    }
                                },
                                _ => panic!("a dimension entry should be a compound"),
                            }
                        },
                        _ => panic!("dimension entries should be a list of compounds"),
                    }
                },
                _ => panic!("the dimension-type registry should be a compound"),
            }
            assert!(get_tag(&codec.entries, &b"minecraft:worldgen/biome".to_vec()).is_some());
            assert!(get_tag(&codec.entries, &b"minecraft:chat_type".to_vec()).is_some());
        },
        _ => panic!("the second packet should join the world"),
    }
}

#[test]
fn brand_channel_depends_on_the_version_threshold() {
    let modern = join_packets(760);
    match &modern[2] {
        Packet::Brand { channel, payload } => {
            assert_eq!(channel, "minecraft:brand");
            let mut expected: Vec<u8> = vec![12];
            expected.extend_from_slice(b"Nano Entropy");
            assert_eq!(payload, &expected);
        },
        _ => panic!("the third packet should announce the brand"),
    }
    let legacy = join_packets(340);
    match &legacy[2] {
        Packet::Brand { channel, .. } => assert_eq!(channel, "MC|Brand"),
        _ => panic!("the third packet should announce the brand"),
    }
}

#[test]
fn abilities_position_and_player_list_are_fixed() {
    let packets = join_packets(760);
    match &packets[3] {
        Packet::Abilities {
            invulnerable,
            flying,
            can_fly,
            instant_build,
            flying_speed_thousandths,
            fov_modifier_thousandths,
        } => {
            assert!(*invulnerable);
            assert!(*flying);
            assert!(*can_fly);
            assert!(!*instant_build);
            assert_eq!(*flying_speed_thousandths, 100);
            assert_eq!(*fov_modifier_thousandths, 100);
        },
        _ => panic!("the fourth packet should set abilities"),
    }
    match &packets[4] {
        Packet::Position { x, y, z, relative_mask, teleport_id, dismount_vehicle } => {
            assert_eq!((*x, *y, *z), (0, 0, 0));
            assert_eq!(*relative_mask, 0x08);
            assert_eq!(*teleport_id, 0);
            assert!(!*dismount_vehicle);
        },
        _ => panic!("the fifth packet should place the player"),
    }
    match &packets[5] {
        Packet::PlayerListAdd { name, id, key, game_mode, latency_ms } => {
            assert_eq!(name, "Tester");
            assert_eq!(*id, 0x0011223344556677_8899aabbccddeeffu128);
            assert!(key.is_none());
            assert_eq!(*game_mode, GameMode::Adventure);
            assert_eq!(*latency_ms, 55);
        },
        _ => panic!("the sixth packet should announce the player"),
    }
}

#[test]
fn signed_key_material_is_carried_through() {
    let registry = dimension_from_protocol(760).expect("registry should load");
    let cfg = test_config();
    let identity = Identity {
        name: "Tester".to_owned(),
        id: 7,
        key: Some(SignedKey {
            expires_at_ms: 123456789,
            public_key: vec![1, 2, 3],
            signature: vec![9, 8],
        }),
    };
    let packets = build_join_sequence(&identity, 760, &cfg, &registry);
    match &packets[5] {
        Packet::PlayerListAdd { key, .. } => {
            let k = key.as_ref().expect("the key material should be announced");
            assert_eq!(k.expires_at_ms, 123456789);
            assert_eq!(k.public_key, vec![1, 2, 3]);
            assert_eq!(k.signature, vec![9, 8]);
        },
        _ => panic!("the sixth packet should announce the player"),
    }
}

#[test]
fn command_graph_is_a_single_root() {
    let packets = join_packets(760);
    match &packets[6] {
        Packet::CommandGraph { nodes, root_index } => {
            assert_eq!(*nodes, 1);
            assert_eq!(*root_index, 0);
        },
        _ => panic!("the seventh packet should declare the command graph"),
    }
}

#[test]
fn terrain_grid_covers_the_square_of_radius_five() {
    let grid = terrain_grid();
    assert_eq!(grid.len(), 100);
    assert_eq!(grid[0], ChunkColumn { x: -5, z: -5 });
    assert_eq!(grid[9], ChunkColumn { x: -5, z: 4 });
    assert_eq!(grid[10], ChunkColumn { x: -4, z: -5 });
    assert_eq!(grid[99], ChunkColumn { x: 4, z: 4 });
    for (i, c) in grid.iter().enumerate() {
        assert_eq!(c.x, -5 + (i as i32) / 10);
        assert_eq!(c.z, -5 + (i as i32) % 10);
    }
    let packets = join_packets(760);
    match &packets[7] {
        Packet::TerrainGrid { columns } => assert_eq!(columns, &grid),
        _ => panic!("the eighth packet should send the terrain"),
    }
}

#[test]
fn title_sequence_holds_indefinitely() {
    let packets = join_packets(760);
    match &packets[8] {
        Packet::TitleSequence { fade_in_ticks, stay_ticks, fade_out_ticks, title, subtitle } => {
            assert_eq!(*fade_in_ticks, 0);
            assert_eq!(*stay_ticks, i32::MAX);
            assert_eq!(*fade_out_ticks, 0);
            assert_eq!(title, "A Minimal World");
            assert_eq!(subtitle, "nothing happens here");
        },
        _ => panic!("the ninth packet should announce the title"),
    }
}

#[test]
fn codec_snapshot_takes_the_codec_of_a_join_world_packet() {
    let packets = join_packets(760);
    assert!(codec_snapshot(&packets[0]).is_none());
    let codec = codec_snapshot(&packets[1]).expect("join-world carries the codec");
    assert!(get_tag(&codec.entries, &b"minecraft:worldgen/biome".to_vec()).is_some());
}

#[test]
fn varint_encoding_is_the_transport_form() {
    assert_eq!(varint_bytes(0), vec![0]);
    assert_eq!(varint_bytes(1), vec![1]);
    assert_eq!(varint_bytes(127), vec![127]);
    assert_eq!(varint_bytes(128), vec![0x80, 1]);
    assert_eq!(varint_bytes(300), vec![0xAC, 2]);
    assert_eq!(varint_bytes(32767), vec![0xFF, 0xFF, 1]);
}

#[test]
fn protocol_string_prefixes_the_length() {
    let payload = protocol_string(&b"abc".to_vec());
    assert_eq!(payload, vec![3, b'a', b'b', b'c']);
    let brand = brand_payload();
    let mut expected: Vec<u8> = vec![12];
    expected.extend_from_slice(b"Nano Entropy");
    assert_eq!(brand, expected);
}

#[test]
fn status_response_reflects_the_configuration() {
    let cfg = test_config();
    let status = status_response(&cfg);
    assert_eq!(status.max_players, 20);
    assert_eq!(status.online_players, 0);
    assert_eq!(status.motd, "a quiet server");
    assert!(status.favicon.is_none());
    let with_icon = PresentationConfig { favicon: Some("data:image/png".to_owned()), ..cfg };
    let status2 = status_response(&with_icon);
    assert_eq!(status2.favicon.as_deref(), Some("data:image/png"));
}
