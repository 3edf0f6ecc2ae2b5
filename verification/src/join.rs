//! The join sequence: the fixed, ordered burst of onboarding packets that
//! makes a newly authenticated client believe it has joined a live world.
//!
//! Everything here is a pure function of the session's identity, protocol
//! version, shared configuration, and the loaded dimension registry; the
//! surrounding runtime writes the packets out in the order given and aborts
//! on the first write failure.

use vstd::prelude::*;
use vstd::string::StrSliceExecFns;
use vstd::string::StringSliceAdditionalSpecFns;
use crate::config::PresentationConfig;
use crate::nbt::NbtDocument;
use crate::nbt::NbtDocumentModel;
use crate::nbt::Tag;
use crate::nbt::TagModel;
use crate::nbt::copy_vec;
use crate::nbt::lemma_ascii_bytes;
use crate::nbt::push_entry;
use crate::nbt::push_item;
use crate::nbt::spec_lookup;
use crate::nbt::get_tag;
use crate::nbt::clone_tag;
use vstd::pervasive::unreached;

verus! {

/// The authenticated identity of a connecting client: display name, stable
/// unique id, and the optional signed public-key material the authentication
/// layer verified.
pub struct Identity {
    pub name: String,
    pub id: u128,
    pub key: Option<SignedKey>,
}

/// Signed public-key material attached to an identity.
pub struct SignedKey {
    /// When the key expires, as milliseconds since the epoch.
    pub expires_at_ms: u64,
    /// The DER bytes of the public key.
    pub public_key: Vec<u8>,
    /// The signature over the key material.
    pub signature: Vec<u8>,
}

/// The game mode a player is put into.
#[derive(Clone, Copy, Debug, PartialEq, Eq, Structural)]
pub enum GameMode {
    Survival,
    Creative,
    Adventure,
    Spectator,
    /// No previous mode: what a fresh session reports as its prior mode.
    Unset,
}

/// One column of the pre-generated terrain grid, by its chunk coordinates.
#[derive(Clone, Copy, Debug, PartialEq, Eq, Structural)]
pub struct ChunkColumn {
    pub x: i32,
    pub z: i32,
}

/// The value of optional signed-key material, for stating what an option
/// holds.
pub open spec fn spec_key_model(k: Option<SignedKey>) -> Option<(u64, Seq<u8>, Seq<u8>)> {
    match k {
        Some(s) => Some((s.expires_at_ms, s.public_key@, s.signature@)),
        None => None,
    }
}

/// A client-bound packet of the session layer, modelled by the values the
/// session decides; the wire encoding is the transport layer's business.
pub enum Packet {
    /// Login-success acknowledgment: the confirmed identity.
    LoginSuccess { name: String, id: u128 },
    /// The world registry/codec document and the world metadata.
    JoinWorld {
        player_id: i32,
        hardcore: bool,
        game_mode: GameMode,
        previous_game_mode: GameMode,
        levels: Vec<String>,
        codec: NbtDocument,
        dimension_type: String,
        dimension: String,
        seed: i64,
        max_players: i32,
        chunk_radius: i32,
        simulation_distance: i32,
        reduced_debug_info: bool,
        show_death_screen: bool,
        is_debug: bool,
        is_flat: bool,
    },
    /// The client-brand announcement on a version-appropriate channel.
    Brand { channel: String, payload: Vec<u8> },
    /// Player abilities. The two speed fields carry thousandths, so that the
    /// fixed one-tenth modifiers are exact plain values.
    Abilities {
        invulnerable: bool,
        flying: bool,
        can_fly: bool,
        instant_build: bool,
        flying_speed_thousandths: u32,
        fov_modifier_thousandths: u32,
    },
    /// Absolute spawn position.
    Position {
        x: i64,
        y: i64,
        z: i64,
        relative_mask: u8,
        teleport_id: i32,
        dismount_vehicle: bool,
    },
    /// Player-list addition announcing the identity.
    PlayerListAdd {
        name: String,
        id: u128,
        key: Option<SignedKey>,
        game_mode: GameMode,
        latency_ms: i32,
    },
    /// The command-graph declaration: node count and root index.
    CommandGraph { nodes: u32, root_index: u32 },
    /// The pre-generated terrain columns, with trivial lighting.
    TerrainGrid { columns: Vec<ChunkColumn> },
    /// Title and subtitle with their fade-in/hold/fade-out timing.
    TitleSequence {
        fade_in_ticks: i32,
        stay_ticks: i32,
        fade_out_ticks: i32,
        title: String,
        subtitle: String,
    },
    /// A periodic liveness packet carrying its identifier.
    KeepAlive { id: u64 },
}

/// The wire bytes of an unsigned value in the transport's variable-width
/// integer form: seven bits per byte, least significant group first, the top
/// bit of each byte marking continuation.
pub open spec fn spec_varint(n: u32) -> Seq<u8>
    decreases n,
{
    if n < 0x80 {
        seq![n as u8]
    } else {
        seq![((n % 0x80) + 0x80) as u8] + spec_varint(n / 0x80)
    }
}

/// The transport's length-prefixed string payload: the byte length as a
/// variable-width integer, then the bytes.
pub open spec fn spec_protocol_string(b: Seq<u8>) -> Seq<u8> {
    spec_varint(b.len() as u32) + b
}

/// The wire bytes of `n` in variable-width form, exactly [`spec_varint`].
pub fn varint_bytes(n: u32) -> (r: Vec<u8>)
    ensures
        r@ == spec_varint(n),
{
    let mut r: Vec<u8> = Vec::new();
    let mut cur: u32 = n;
    while cur >= 0x80
        invariant
            spec_varint(n) == r@ + spec_varint(cur),
        decreases cur,
    {
        r.push(((cur % 0x80) + 0x80) as u8);
        proof {
            assert(r@ + spec_varint(cur / 0x80) =~= (r@.drop_last() + seq![
                ((cur % 0x80) + 0x80) as u8,
            ]) + spec_varint(cur / 0x80));
            assert((r@.drop_last() + seq![((cur % 0x80) + 0x80) as u8]) + spec_varint(cur / 0x80)
                =~= r@.drop_last() + (seq![((cur % 0x80) + 0x80) as u8] + spec_varint(cur / 0x80)));
        }
        cur = cur / 0x80;
    }
    r.push(cur as u8);
    proof {
        assert(r@ =~= r@.drop_last() + seq![cur as u8]);
        assert(r@.drop_last() + seq![cur as u8] =~= r@.drop_last() + spec_varint(cur));
    }
    r
}

/// The transport's string payload for the given bytes, exactly
/// [`spec_protocol_string`]. The protocol caps such strings well below the
/// variable-width integer's range.
pub fn protocol_string(b: &Vec<u8>) -> (r: Vec<u8>)
    requires
        b@.len() <= 32767,
    ensures
        r@ == spec_protocol_string(b@),
{
    let mut r = varint_bytes(b.len() as u32);
    let mut i: usize = 0;
    while i < b.len()
        invariant
            i <= b@.len(),
            r@ == spec_varint(b@.len() as u32) + b@.subrange(0, i as int),
        decreases b@.len() - i,
    {
        r.push(b[i]);
        assert(r@ =~= spec_varint(b@.len() as u32) + b@.subrange(0, (i + 1) as int));
        i = i + 1;
    }
    assert(b@.subrange(0, b@.len() as int) =~= b@);
    r
}

/// The brand name this server announces to clients.
pub open spec fn spec_brand_name() -> Seq<u8> {
    "Nano Entropy".spec_bytes()
}

/// The brand-announcement payload: the server's brand as a protocol string.
pub fn brand_payload() -> (r: Vec<u8>)
    ensures
        r@ == spec_protocol_string(spec_brand_name()),
{
    proof {
        reveal_strlit("Nano Entropy");
        lemma_ascii_bytes("Nano Entropy");
    }
    let b = "Nano Entropy".as_bytes_vec();
    protocol_string(&b)
}

/// The channel of the brand announcement: the namespaced channel on modern
/// protocols, the legacy channel at or below the compatibility threshold.
pub open spec fn spec_brand_channel(protocol_version: int) -> Seq<char> {
    if protocol_version > 340 {
        "minecraft:brand"@
    } else {
        "MC|Brand"@
    }
}

/// The fixed dimension-type registry sent in the world codec: one overworld
/// entry. The 64-bit field carries the bit pattern of a double-precision
/// one; the light level is an unsigned range.
pub open spec fn spec_dimension_type() -> TagModel {
    TagModel::Compound(
        seq![
            ("type".spec_bytes(), TagModel::Str("minecraft:dimension_type".spec_bytes())),
            ("value".spec_bytes(), TagModel::List(10, seq![spec_overworld_entry()])),
        ],
    )
}

/// The one dimension entry: the overworld, with this server's fixed world
/// parameters. The 32-bit `min_y` field carries the two's-complement pattern
/// of its negative depth.
pub open spec fn spec_overworld_entry() -> TagModel {
    TagModel::Compound(
        seq![
            ("name".spec_bytes(), TagModel::Str("minecraft:overworld".spec_bytes())),
            ("id".spec_bytes(), TagModel::Int(0)),
            ("element".spec_bytes(), spec_overworld_element()),
        ],
    )
}

/// The overworld's dimension parameters.
pub open spec fn spec_overworld_element() -> TagModel {
    TagModel::Compound(
        seq![
            ("natural".spec_bytes(), TagModel::Byte(1)),
            ("coordinate_scale".spec_bytes(), TagModel::Double(0x3FF0000000000000)),
            ("height".spec_bytes(), TagModel::Int(384)),
            ("min_y".spec_bytes(), TagModel::Int(0xFFFFFFC0)),
            ("piglin_safe".spec_bytes(), TagModel::Byte(0)),
            ("has_raids".spec_bytes(), TagModel::Byte(1)),
            ("logical_height".spec_bytes(), TagModel::Int(384)),
            ("ultrawarm".spec_bytes(), TagModel::Byte(0)),
            ("bed_works".spec_bytes(), TagModel::Byte(1)),
            ("respawn_anchor_works".spec_bytes(), TagModel::Byte(0)),
            ("ambient_light".spec_bytes(), TagModel::Float(0)),
            ("effects".spec_bytes(), TagModel::Str("minecraft:overworld".spec_bytes())),
            ("has_skylight".spec_bytes(), TagModel::Byte(1)),
            ("monster_spawn_block_light_limit".spec_bytes(), TagModel::Int(0)),
            ("infiniburn".spec_bytes(), TagModel::Str("#minecraft:infiniburn_overworld".spec_bytes())),
            ("has_ceiling".spec_bytes(), TagModel::Byte(0)),
            ("monster_spawn_light_level".spec_bytes(), spec_monster_spawn_light_level()),
        ],
    )
}

/// The overworld's monster-spawn light level: a uniform range.
pub open spec fn spec_monster_spawn_light_level() -> TagModel {
    TagModel::Compound(
        seq![
            ("type".spec_bytes(), TagModel::Str("minecraft:uniform".spec_bytes())),
            ("value".spec_bytes(), TagModel::Compound(
                seq![
                    ("min_inclusive".spec_bytes(), TagModel::Int(0)),
                    ("max_inclusive".spec_bytes(), TagModel::Int(7)),
                ],
            )),
        ],
    )
}

/// The fixed chat-type registry sent in the world codec: one plain chat
/// entry with its narration, each taking the sender and the content.
pub open spec fn spec_chat_type() -> TagModel {
    TagModel::Compound(
        seq![
            ("type".spec_bytes(), TagModel::Str("minecraft:chat_type".spec_bytes())),
            ("value".spec_bytes(), TagModel::List(10, seq![spec_chat_entry()])),
        ],
    )
}

/// The one chat-type entry.
pub open spec fn spec_chat_entry() -> TagModel {
    TagModel::Compound(
        seq![
            ("name".spec_bytes(), TagModel::Str("minecraft:chat".spec_bytes())),
            ("id".spec_bytes(), TagModel::Int(0)),
            ("element".spec_bytes(), TagModel::Compound(
                seq![
                    ("narration".spec_bytes(), spec_chat_decoration("chat.type.text.narrate".spec_bytes())),
                    ("chat".spec_bytes(), spec_chat_decoration("chat.type.text".spec_bytes())),
                ],
            )),
        ],
    )
}

/// A chat decoration: a translation key applied to the sender and the
/// content.
pub open spec fn spec_chat_decoration(translation_key: Seq<u8>) -> TagModel {
    TagModel::Compound(
        seq![
            ("translation_key".spec_bytes(), TagModel::Str(translation_key)),
            ("parameters".spec_bytes(), TagModel::List(8, seq![
                TagModel::Str("sender".spec_bytes()),
                TagModel::Str("content".spec_bytes()),
            ])),
        ],
    )
}

/// The world codec document carried by the join-world packet: the fixed
/// dimension-type registry, the biome registry taken from the loaded
/// dimension-registry document, and the fixed chat-type registry.
pub open spec fn spec_join_document(biome: TagModel) -> NbtDocumentModel {
    NbtDocumentModel {
        name: Seq::empty(),
        entries: seq![
            ("minecraft:dimension_type".spec_bytes(), spec_dimension_type()),
            ("minecraft:worldgen/biome".spec_bytes(), biome),
            ("minecraft:chat_type".spec_bytes(), spec_chat_type()),
        ],
    }
}

/// Builds the overworld's dimension parameters, exactly
/// [`spec_overworld_element`].
#[verifier::rlimit(100)]
fn build_overworld_element() -> (t: Tag)
    ensures
        t.model() == spec_overworld_element(),
{
    let mut light: Vec<(Vec<u8>, Tag)> = Vec::new();
    push_entry(&mut light, "min_inclusive".as_bytes_vec(), Tag::Int(0));
    push_entry(&mut light, "max_inclusive".as_bytes_vec(), Tag::Int(7));
    let light_tag = Tag::Compound(light);

    let mut spawn: Vec<(Vec<u8>, Tag)> = Vec::new();
    push_entry(&mut spawn, "type".as_bytes_vec(), Tag::Str("minecraft:uniform".as_bytes_vec()));
    push_entry(&mut spawn, "value".as_bytes_vec(), light_tag);
    let spawn_tag = Tag::Compound(spawn);
    assert(spawn_tag.model() == spec_monster_spawn_light_level()) by {
        assert(light_tag.model()->Compound_0 =~= seq![
            ("min_inclusive".spec_bytes(), TagModel::Int(0)),
            ("max_inclusive".spec_bytes(), TagModel::Int(7)),
        ]);
        assert(spawn_tag.model()->Compound_0 =~= spec_monster_spawn_light_level()->Compound_0);
    }

    let mut element: Vec<(Vec<u8>, Tag)> = Vec::new();
    push_entry(&mut element, "natural".as_bytes_vec(), Tag::Byte(1));
    push_entry(&mut element, "coordinate_scale".as_bytes_vec(), Tag::Double(0x3FF0000000000000));
    push_entry(&mut element, "height".as_bytes_vec(), Tag::Int(384));
    push_entry(&mut element, "min_y".as_bytes_vec(), Tag::Int(0xFFFFFFC0));
    push_entry(&mut element, "piglin_safe".as_bytes_vec(), Tag::Byte(0));
    push_entry(&mut element, "has_raids".as_bytes_vec(), Tag::Byte(1));
    push_entry(&mut element, "logical_height".as_bytes_vec(), Tag::Int(384));
    push_entry(&mut element, "ultrawarm".as_bytes_vec(), Tag::Byte(0));
    push_entry(&mut element, "bed_works".as_bytes_vec(), Tag::Byte(1));
    push_entry(&mut element, "respawn_anchor_works".as_bytes_vec(), Tag::Byte(0));
    push_entry(&mut element, "ambient_light".as_bytes_vec(), Tag::Float(0));
    push_entry(&mut element, "effects".as_bytes_vec(), Tag::Str("minecraft:overworld".as_bytes_vec()));
    push_entry(&mut element, "has_skylight".as_bytes_vec(), Tag::Byte(1));
    push_entry(&mut element, "monster_spawn_block_light_limit".as_bytes_vec(), Tag::Int(0));
    push_entry(
        &mut element,
        "infiniburn".as_bytes_vec(),
        Tag::Str("#minecraft:infiniburn_overworld".as_bytes_vec()),
    );
    push_entry(&mut element, "has_ceiling".as_bytes_vec(), Tag::Byte(0));
    push_entry(&mut element, "monster_spawn_light_level".as_bytes_vec(), spawn_tag);
    let element_tag = Tag::Compound(element);
    assert(element_tag.model() == spec_overworld_element()) by {
        assert(element_tag.model()->Compound_0 =~= spec_overworld_element()->Compound_0);
    }
    element_tag
}

/// Builds the fixed dimension-type registry, exactly [`spec_dimension_type`].
fn build_dimension_type() -> (t: Tag)
    ensures
        t.model() == spec_dimension_type(),
{
    let element_tag = build_overworld_element();
    let mut overworld: Vec<(Vec<u8>, Tag)> = Vec::new();
    push_entry(&mut overworld, "name".as_bytes_vec(), Tag::Str("minecraft:overworld".as_bytes_vec()));
    push_entry(&mut overworld, "id".as_bytes_vec(), Tag::Int(0));
    push_entry(&mut overworld, "element".as_bytes_vec(), element_tag);
    let overworld_tag = Tag::Compound(overworld);
    assert(overworld_tag.model() == spec_overworld_entry()) by {
        assert(overworld_tag.model()->Compound_0 =~= spec_overworld_entry()->Compound_0);
    }

    let mut dimension_items: Vec<Tag> = Vec::new();
    push_item(&mut dimension_items, overworld_tag);
    let dimension_value = Tag::List(10, dimension_items);
    assert(dimension_value.model() == TagModel::List(10, seq![spec_overworld_entry()])) by {
        assert(dimension_value.model()->List_1 =~= seq![spec_overworld_entry()]);
    }

    let mut dimension_type: Vec<(Vec<u8>, Tag)> = Vec::new();
    push_entry(
        &mut dimension_type,
        "type".as_bytes_vec(),
        Tag::Str("minecraft:dimension_type".as_bytes_vec()),
    );
    push_entry(&mut dimension_type, "value".as_bytes_vec(), dimension_value);
    let dimension_type_tag = Tag::Compound(dimension_type);
    assert(dimension_type_tag.model() == spec_dimension_type()) by {
        assert(dimension_type_tag.model()->Compound_0 =~= spec_dimension_type()->Compound_0);
    }
    dimension_type_tag
}

/// Builds the fixed chat-type registry, exactly [`spec_chat_type`].
fn build_chat_type() -> (t: Tag)
    ensures
        t.model() == spec_chat_type(),
{
    let narration_tag = chat_decoration("chat.type.text.narrate");
    let chat_tag = chat_decoration("chat.type.text");
    let mut chat_element: Vec<(Vec<u8>, Tag)> = Vec::new();
    push_entry(&mut chat_element, "narration".as_bytes_vec(), narration_tag);
    push_entry(&mut chat_element, "chat".as_bytes_vec(), chat_tag);
    let chat_element_tag = Tag::Compound(chat_element);

    let mut chat_entry: Vec<(Vec<u8>, Tag)> = Vec::new();
    push_entry(&mut chat_entry, "name".as_bytes_vec(), Tag::Str("minecraft:chat".as_bytes_vec()));
    push_entry(&mut chat_entry, "id".as_bytes_vec(), Tag::Int(0));
    push_entry(&mut chat_entry, "element".as_bytes_vec(), chat_element_tag);
    let chat_entry_tag = Tag::Compound(chat_entry);
    assert(chat_entry_tag.model() == spec_chat_entry()) by {
        assert(chat_entry_tag.model()->Compound_0[2].1->Compound_0
            =~= spec_chat_entry()->Compound_0[2].1->Compound_0);
        assert(chat_entry_tag.model()->Compound_0 =~= spec_chat_entry()->Compound_0);
    }

    let mut chat_items: Vec<Tag> = Vec::new();
    push_item(&mut chat_items, chat_entry_tag);
    let chat_value = Tag::List(10, chat_items);
    assert(chat_value.model() == TagModel::List(10, seq![spec_chat_entry()])) by {
        assert(chat_value.model()->List_1 =~= seq![spec_chat_entry()]);
    }

    let mut chat_type: Vec<(Vec<u8>, Tag)> = Vec::new();
    push_entry(&mut chat_type, "type".as_bytes_vec(), Tag::Str("minecraft:chat_type".as_bytes_vec()));
    push_entry(&mut chat_type, "value".as_bytes_vec(), chat_value);
    let chat_type_tag = Tag::Compound(chat_type);
    assert(chat_type_tag.model() == spec_chat_type()) by {
        assert(chat_type_tag.model()->Compound_0 =~= spec_chat_type()->Compound_0);
    }
    chat_type_tag
}

/// Builds the world codec document around the given biome registry, exactly
/// [`spec_join_document`].
#[verifier::rlimit(100)]
pub fn build_join_document(biome: Tag) -> (d: NbtDocument)
    ensures
        d@ == spec_join_document(biome@),
{
    let dimension_type_tag = build_dimension_type();
    let chat_type_tag = build_chat_type();
    let ghost biome_model = biome@;
    let mut entries: Vec<(Vec<u8>, Tag)> = Vec::new();
    push_entry(&mut entries, "minecraft:dimension_type".as_bytes_vec(), dimension_type_tag);
    push_entry(&mut entries, "minecraft:worldgen/biome".as_bytes_vec(), biome);
    push_entry(&mut entries, "minecraft:chat_type".as_bytes_vec(), chat_type_tag);
    let d = NbtDocument { name: Vec::new(), entries };
    assert(d@.entries =~= spec_join_document(biome_model).entries);
    assert(d@.name =~= spec_join_document(biome_model).name);
    d
}

/// Builds one chat decoration, exactly [`spec_chat_decoration`] of the key's
/// bytes.
fn chat_decoration(translation_key: &str) -> (t: Tag)
    ensures
        t.model() == spec_chat_decoration(translation_key.spec_bytes()),
{
    let mut params: Vec<Tag> = Vec::new();
    push_item(&mut params, Tag::Str("sender".as_bytes_vec()));
    push_item(&mut params, Tag::Str("content".as_bytes_vec()));
    let params_tag = Tag::List(8, params);
    assert(params_tag.model() == TagModel::List(8, seq![
        TagModel::Str("sender".spec_bytes()),
        TagModel::Str("content".spec_bytes()),
    ])) by {
        assert(params_tag.model()->List_1 =~= seq![
            TagModel::Str("sender".spec_bytes()),
            TagModel::Str("content".spec_bytes()),
        ]);
    }
    let mut fields: Vec<(Vec<u8>, Tag)> = Vec::new();
    push_entry(&mut fields, "translation_key".as_bytes_vec(), Tag::Str(translation_key.as_bytes_vec()));
    push_entry(&mut fields, "parameters".as_bytes_vec(), params_tag);
    let t = Tag::Compound(fields);
    assert(t.model()->Compound_0 =~= spec_chat_decoration(translation_key.spec_bytes())->Compound_0);
    t
}

/// The codec document of a join-world packet: what a snapshot tool saves of
/// a world it joined. No other packet carries one.
pub fn codec_snapshot(p: &Packet) -> (r: Option<&NbtDocument>)
    ensures
        match *p {
            Packet::JoinWorld { .. } => r matches Some(d) && d@ == p->JoinWorld_codec@,
            _ => r is None,
        },
{
    match p {
        Packet::JoinWorld { codec, .. } => Some(codec),
        _ => None,
    }
}

/// The fixed terrain grid: one column for every chunk position in the square
/// of radius five around the origin, in row order.
pub open spec fn spec_chunk_grid() -> Seq<ChunkColumn> {
    Seq::new(100, |i: int| ChunkColumn { x: (-5 + i / 10) as i32, z: (-5 + i % 10) as i32 })
}

/// Builds the terrain grid, exactly [`spec_chunk_grid`].
pub fn terrain_grid() -> (g: Vec<ChunkColumn>)
    ensures
        g@ == spec_chunk_grid(),
{
    let mut g: Vec<ChunkColumn> = Vec::new();
    let mut i: usize = 0;
    while i < 100
        invariant
            i <= 100,
            g@ == spec_chunk_grid().subrange(0, i as int),
        decreases 100 - i,
    {
        let x = -5 + (i / 10) as i32;
        let z = -5 + (i % 10) as i32;
        g.push(ChunkColumn { x, z });
        assert(g@ =~= spec_chunk_grid().subrange(0, (i + 1) as int));
        i = i + 1;
    }
    proof {
        assert(spec_chunk_grid().subrange(0, 100) =~= spec_chunk_grid());
    }
    g
}

/// Builds the onboarding sequence: exactly nine packets, in the fixed order,
/// for every identity, configuration and protocol version — only the brand
/// channel varies with the version. The registry document must carry a biome
/// registry; its absence would mean a corrupted build artifact, and the
/// loader's contract rules it out for the bundled resources.
pub fn build_join_sequence(
    identity: &Identity,
    protocol_version: i32,
    cfg: &PresentationConfig,
    registry: &NbtDocument,
) -> (packets: Vec<Packet>)
    requires
        spec_lookup(registry@.entries, "minecraft:worldgen/biome".spec_bytes()) is Some,
    ensures
        packets@.len() == 9,
        packets@[0] matches Packet::LoginSuccess { name, id } && name@ == identity.name@ && id
            == identity.id,
        packets@[1] matches Packet::JoinWorld {
            player_id,
            hardcore,
            game_mode,
            previous_game_mode,
            levels,
            codec,
            dimension_type,
            dimension,
            seed,
            max_players,
            chunk_radius,
            simulation_distance,
            reduced_debug_info,
            show_death_screen,
            is_debug,
            is_flat,
        } && player_id == 1 && !hardcore && game_mode == GameMode::Adventure
            && previous_game_mode == GameMode::Unset && levels@.len() == 1 && levels@[0]@
            == "minecraft:overworld"@ && codec@ == spec_join_document(
            spec_lookup(registry@.entries, "minecraft:worldgen/biome".spec_bytes()).unwrap(),
        ) && dimension_type@ == "minecraft:overworld"@ && dimension@ == "minecraft:overworld"@
            && seed == 0 && max_players == 20 && chunk_radius == 0 && simulation_distance == 10
            && !reduced_debug_info && show_death_screen && !is_debug && !is_flat,
        packets@[2] matches Packet::Brand { channel, payload } && channel@ == spec_brand_channel(
            protocol_version as int,
        ) && payload@ == spec_protocol_string(spec_brand_name()),
        packets@[3] matches Packet::Abilities {
            invulnerable,
            flying,
            can_fly,
            instant_build,
            flying_speed_thousandths,
            fov_modifier_thousandths,
        } && invulnerable && flying && can_fly && !instant_build && flying_speed_thousandths == 100
            && fov_modifier_thousandths == 100,
        packets@[4] matches Packet::Position { x, y, z, relative_mask, teleport_id, dismount_vehicle }
            && x == 0 && y == 0 && z == 0 && relative_mask == 0x08 && teleport_id == 0
            && !dismount_vehicle,
        packets@[5] matches Packet::PlayerListAdd { name, id, key, game_mode, latency_ms } && name@
            == identity.name@ && id == identity.id && spec_key_model(key) == spec_key_model(
            identity.key,
        ) && game_mode == GameMode::Adventure && latency_ms == 55,
        packets@[6] matches Packet::CommandGraph { nodes, root_index } && nodes == 1 && root_index
            == 0,
        packets@[7] matches Packet::TerrainGrid { columns } && columns@ == spec_chunk_grid(),
        packets@[8] matches Packet::TitleSequence {
            fade_in_ticks,
            stay_ticks,
            fade_out_ticks,
            title,
            subtitle,
        } && fade_in_ticks == 0 && stay_ticks == 0x7FFFFFFF && fade_out_ticks == 0 && title@
            == cfg.title@ && subtitle@ == cfg.subtitle@,
{
    let biome = match get_tag(&registry.entries, &"minecraft:worldgen/biome".as_bytes_vec()) {
        Some(t) => clone_tag(t),
        None => unreached(),
    };
    let codec = build_join_document(biome);

    let mut packets: Vec<Packet> = Vec::new();
    packets.push(Packet::LoginSuccess { name: identity.name.clone(), id: identity.id });
    let mut levels: Vec<String> = Vec::new();
    levels.push("minecraft:overworld".to_owned());
    packets.push(Packet::JoinWorld {
        player_id: 1,
        hardcore: false,
        game_mode: GameMode::Adventure,
        previous_game_mode: GameMode::Unset,
        levels,
        codec,
        dimension_type: "minecraft:overworld".to_owned(),
        dimension: "minecraft:overworld".to_owned(),
        seed: 0,
        max_players: 20,
        chunk_radius: 0,
        simulation_distance: 10,
        reduced_debug_info: false,
        show_death_screen: true,
        is_debug: false,
        is_flat: false,
    });
    let channel = if protocol_version > 340 {
        "minecraft:brand".to_owned()
    } else {
        "MC|Brand".to_owned()
    };
    packets.push(Packet::Brand { channel, payload: brand_payload() });
    packets.push(Packet::Abilities {
        invulnerable: true,
        flying: true,
        can_fly: true,
        instant_build: false,
        flying_speed_thousandths: 100,
        fov_modifier_thousandths: 100,
    });
    packets.push(Packet::Position {
        x: 0,
        y: 0,
        z: 0,
        relative_mask: 0x08,
        teleport_id: 0,
        dismount_vehicle: false,
    });
    let key = match &identity.key {
        Some(k) => Some(SignedKey {
            expires_at_ms: k.expires_at_ms,
            public_key: copy_vec(&k.public_key),
            signature: copy_vec(&k.signature),
        }),
        None => None,
    };
    packets.push(Packet::PlayerListAdd {
        name: identity.name.clone(),
        id: identity.id,
        key,
        game_mode: GameMode::Adventure,
        latency_ms: 55,
    });
    packets.push(Packet::CommandGraph { nodes: 1, root_index: 0 });
    packets.push(Packet::TerrainGrid { columns: terrain_grid() });
    packets.push(Packet::TitleSequence {
        fade_in_ticks: 0,
        stay_ticks: 0x7FFFFFFF,
        fade_out_ticks: 0,
        title: cfg.title.clone(),
        subtitle: cfg.subtitle.clone(),
    });
    packets
}

} // verus!
