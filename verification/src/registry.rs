//! The versioned dimension-registry cache: one embedded binary resource per
//! known protocol version, decoded under a fixed size bound.
//!
//! The lookup policy maps the one known protocol version to its resource and
//! lets every unrecognized version fall back to the designated default
//! resource (today the known mapping's own target) rather than fail. That
//! fallback-for-unknown-version policy is a deliberate simplification of this
//! server, not an accident; the laws at the bottom of this file state it.

use vstd::prelude::*;
use vstd::string::StrSliceExecFns;
use vstd::string::StringSliceAdditionalSpecFns;
use crate::DecodeError;
use crate::nbt::NbtDocument;
use crate::nbt::NbtDocumentModel;
use crate::nbt::Tag;
use crate::nbt::TagModel;
use crate::nbt::decode_document;
use crate::nbt::encode_document;
use crate::nbt::lemma_ascii_bytes;
use crate::nbt::push_entry;
use crate::nbt::push_item;
use crate::nbt::spec_decode_document;
use crate::nbt::spec_encode_document;
use crate::nbt::spec_wf_document;
use crate::nbt::spec_wf_entries;
use crate::nbt::spec_wf_list;
use crate::nbt::spec_wf_tag;

verus! {

/// Upper bound, in bytes, on any registry resource the loader will decode:
/// the guard against a malformed resource driving unbounded allocation.
pub const MAX_REGISTRY_RESOURCE_BYTES: usize = 0x200000;

/// The only protocol version with a resource of its own today.
pub const KNOWN_PROTOCOL_VERSION: i32 = 760;

/// The display colors of the default biome's client effects.
pub open spec fn spec_biome_effects() -> TagModel {
    TagModel::Compound(
        seq![
            ("sky_color".spec_bytes(), TagModel::Int(7907327)),
            ("fog_color".spec_bytes(), TagModel::Int(12638463)),
            ("water_color".spec_bytes(), TagModel::Int(4159204)),
            ("water_fog_color".spec_bytes(), TagModel::Int(329011)),
        ],
    )
}

/// The default biome's climate and effects. The two 32-bit fields carry the
/// bit patterns of the climate's single-precision values.
pub open spec fn spec_biome_element() -> TagModel {
    TagModel::Compound(
        seq![
            ("precipitation".spec_bytes(), TagModel::Str("rain".spec_bytes())),
            ("temperature".spec_bytes(), TagModel::Float(0x3F4CCCCD)),
            ("downfall".spec_bytes(), TagModel::Float(0x3ECCCCCD)),
            ("effects".spec_bytes(), spec_biome_effects()),
        ],
    )
}

/// The one biome entry of the default registry resource.
pub open spec fn spec_biome_entry() -> TagModel {
    TagModel::Compound(
        seq![
            ("name".spec_bytes(), TagModel::Str("minecraft:plains".spec_bytes())),
            ("id".spec_bytes(), TagModel::Int(0)),
            ("element".spec_bytes(), spec_biome_element()),
        ],
    )
}

/// The biome registry of the default resource: its type tag and its entries.
pub open spec fn spec_biome_registry() -> TagModel {
    TagModel::Compound(
        seq![
            ("type".spec_bytes(), TagModel::Str("minecraft:worldgen/biome".spec_bytes())),
            ("value".spec_bytes(), TagModel::List(10, seq![spec_biome_entry()])),
        ],
    )
}

/// The default registry document: an unnamed root compound holding the biome
/// registry.
pub open spec fn spec_default_registry() -> NbtDocumentModel {
    NbtDocumentModel {
        name: Seq::empty(),
        entries: seq![("minecraft:worldgen/biome".spec_bytes(), spec_biome_registry())],
    }
}

/// The default registry document fits the wire form.
pub proof fn lemma_default_registry_wf()
    ensures
        spec_wf_document(spec_default_registry()),
{
    reveal_strlit("sky_color");
    reveal_strlit("fog_color");
    reveal_strlit("water_color");
    reveal_strlit("water_fog_color");
    reveal_strlit("precipitation");
    reveal_strlit("rain");
    reveal_strlit("temperature");
    reveal_strlit("downfall");
    reveal_strlit("effects");
    reveal_strlit("name");
    reveal_strlit("minecraft:plains");
    reveal_strlit("id");
    reveal_strlit("element");
    reveal_strlit("type");
    reveal_strlit("value");
    reveal_strlit("minecraft:worldgen/biome");
    lemma_ascii_bytes("sky_color");
    lemma_ascii_bytes("fog_color");
    lemma_ascii_bytes("water_color");
    lemma_ascii_bytes("water_fog_color");
    lemma_ascii_bytes("precipitation");
    lemma_ascii_bytes("rain");
    lemma_ascii_bytes("temperature");
    lemma_ascii_bytes("downfall");
    lemma_ascii_bytes("effects");
    lemma_ascii_bytes("name");
    lemma_ascii_bytes("minecraft:plains");
    lemma_ascii_bytes("id");
    lemma_ascii_bytes("element");
    lemma_ascii_bytes("type");
    lemma_ascii_bytes("value");
    lemma_ascii_bytes("minecraft:worldgen/biome");
    assert(spec_wf_tag(spec_biome_effects())) by {
        reveal_with_fuel(spec_wf_entries, 6);
        reveal_with_fuel(spec_wf_tag, 3);
    }
    assert(spec_wf_tag(spec_biome_element())) by {
        reveal_with_fuel(spec_wf_entries, 6);
        reveal_with_fuel(spec_wf_tag, 3);
    }
    assert(spec_wf_tag(spec_biome_entry())) by {
        reveal_with_fuel(spec_wf_entries, 6);
        reveal_with_fuel(spec_wf_tag, 3);
    }
    assert(spec_wf_tag(spec_biome_registry())) by {
        reveal_with_fuel(spec_wf_entries, 6);
        reveal_with_fuel(spec_wf_tag, 3);
        reveal_with_fuel(spec_wf_list, 3);
    }
    assert(spec_wf_entries(spec_default_registry().entries)) by {
        reveal_with_fuel(spec_wf_entries, 3);
    }
}

/// Builds the default registry document, exactly [`spec_default_registry`].
pub fn default_registry_document() -> (d: NbtDocument)
    ensures
        d@ == spec_default_registry(),
{
    let mut effects: Vec<(Vec<u8>, Tag)> = Vec::new();
    push_entry(&mut effects, "sky_color".as_bytes_vec(), Tag::Int(7907327));
    push_entry(&mut effects, "fog_color".as_bytes_vec(), Tag::Int(12638463));
    push_entry(&mut effects, "water_color".as_bytes_vec(), Tag::Int(4159204));
    push_entry(&mut effects, "water_fog_color".as_bytes_vec(), Tag::Int(329011));
    let effects_tag = Tag::Compound(effects);
    assert(effects_tag.model() == spec_biome_effects()) by {
        assert(effects_tag.model()->Compound_0 =~= spec_biome_effects()->Compound_0);
    }

    let mut element: Vec<(Vec<u8>, Tag)> = Vec::new();
    push_entry(&mut element, "precipitation".as_bytes_vec(), Tag::Str("rain".as_bytes_vec()));
    push_entry(&mut element, "temperature".as_bytes_vec(), Tag::Float(0x3F4CCCCD));
    push_entry(&mut element, "downfall".as_bytes_vec(), Tag::Float(0x3ECCCCCD));
    push_entry(&mut element, "effects".as_bytes_vec(), effects_tag);
    let element_tag = Tag::Compound(element);
    assert(element_tag.model() == spec_biome_element()) by {
        assert(element_tag.model()->Compound_0 =~= spec_biome_element()->Compound_0);
    }

    let mut entry: Vec<(Vec<u8>, Tag)> = Vec::new();
    push_entry(&mut entry, "name".as_bytes_vec(), Tag::Str("minecraft:plains".as_bytes_vec()));
    push_entry(&mut entry, "id".as_bytes_vec(), Tag::Int(0));
    push_entry(&mut entry, "element".as_bytes_vec(), element_tag);
    let entry_tag = Tag::Compound(entry);
    assert(entry_tag.model() == spec_biome_entry()) by {
        assert(entry_tag.model()->Compound_0 =~= spec_biome_entry()->Compound_0);
    }

    let mut value_items: Vec<Tag> = Vec::new();
    push_item(&mut value_items, entry_tag);
    let value_tag = Tag::List(10, value_items);
    assert(value_tag.model() == TagModel::List(10, seq![spec_biome_entry()])) by {
        assert(value_tag.model()->List_1 =~= seq![spec_biome_entry()]);
    }

    let mut registry: Vec<(Vec<u8>, Tag)> = Vec::new();
    push_entry(
        &mut registry,
        "type".as_bytes_vec(),
        Tag::Str("minecraft:worldgen/biome".as_bytes_vec()),
    );
    push_entry(&mut registry, "value".as_bytes_vec(), value_tag);
    let registry_tag = Tag::Compound(registry);
    assert(registry_tag.model() == spec_biome_registry()) by {
        assert(registry_tag.model()->Compound_0 =~= spec_biome_registry()->Compound_0);
    }

    let mut entries: Vec<(Vec<u8>, Tag)> = Vec::new();
    push_entry(&mut entries, "minecraft:worldgen/biome".as_bytes_vec(), registry_tag);
    let d = NbtDocument { name: Vec::new(), entries };
    assert(d@.entries =~= spec_default_registry().entries);
    assert(d@.name =~= spec_default_registry().name);
    d
}

/// The embedded resource bytes for a protocol version: the known version's
/// resource, and the designated default for every other version.
pub open spec fn spec_registry_resource(version: int) -> Seq<u8> {
    if version == KNOWN_PROTOCOL_VERSION as int {
        spec_encode_document(spec_default_registry())
    } else {
        spec_encode_document(spec_default_registry())
    }
}

fn default_resource() -> (r: Vec<u8>)
    ensures
        r@ == spec_encode_document(spec_default_registry()),
{
    let d = default_registry_document();
    proof {
        lemma_default_registry_wf();
    }
    encode_document(&d)
}

/// The embedded binary resource for a protocol version, exactly
/// [`spec_registry_resource`].
pub fn registry_resource(version: i32) -> (r: Vec<u8>)
    ensures
        r@ == spec_registry_resource(version as int),
{
    if version == KNOWN_PROTOCOL_VERSION {
        default_resource()
    } else {
        default_resource()
    }
}

/// What loading the registry for a protocol version yields: the resource,
/// decoded under the size bound; a resource without a root document is a
/// corrupted build artifact and surfaces as its own error.
pub open spec fn spec_dimension_registry(version: int) -> Result<NbtDocumentModel, DecodeError> {
    match spec_decode_document(
        spec_registry_resource(version),
        MAX_REGISTRY_RESOURCE_BYTES as int,
    ) {
        Ok(Some(d)) => Ok(d),
        Ok(None) => Err(DecodeError::MissingRootDocument),
        Err(e) => Err(e),
    }
}

/// Loads the dimension-registry document for a protocol version, exactly as
/// [`spec_dimension_registry`] says: a pure function of the version, safe to
/// call repeatedly and concurrently.
pub fn dimension_from_protocol(version: i32) -> (r: Result<NbtDocument, DecodeError>)
    ensures
        match r {
            Ok(d) => spec_dimension_registry(version as int) == Ok::<NbtDocumentModel,
            DecodeError>(d@),
            Err(e) => spec_dimension_registry(version as int) == Err::<NbtDocumentModel,
            DecodeError>(e),
        },
{
    let resource = registry_resource(version);
    match decode_document(&resource, MAX_REGISTRY_RESOURCE_BYTES) {
        Ok(Some(d)) => Ok(d),
        Ok(None) => Err(DecodeError::MissingRootDocument),
        Err(e) => Err(e),
    }
}

/// Law: the loader is referentially transparent. Two loads of the same
/// protocol version yield the same document, byte-for-byte: equal values,
/// and equal wire encodings.
pub proof fn lemma_registry_load_deterministic(
    version: int,
    d1: NbtDocumentModel,
    d2: NbtDocumentModel,
)
    requires
        spec_dimension_registry(version) == Ok::<NbtDocumentModel, DecodeError>(d1),
        spec_dimension_registry(version) == Ok::<NbtDocumentModel, DecodeError>(d2),
    ensures
        d1 == d2,
        spec_encode_document(d1) == spec_encode_document(d2),
{
}

/// Law: an unrecognized protocol version falls back to the designated
/// default document rather than failing: it loads exactly what the known
/// version loads.
pub proof fn lemma_unknown_version_falls_back(version: int)
    requires
        version != KNOWN_PROTOCOL_VERSION as int,
    ensures
        spec_dimension_registry(version) == spec_dimension_registry(760),
{
}

/// Law: a resource larger than the decode bound is rejected with the size
/// error before anything is decoded or built.
pub proof fn lemma_oversize_resource_rejected(b: Seq<u8>, limit: int)
    requires
        b.len() > limit,
    ensures
        spec_decode_document(b, limit) == Err::<Option<NbtDocumentModel>, DecodeError>(
            DecodeError::SizeLimitExceeded,
        ),
{
}

} // verus!
