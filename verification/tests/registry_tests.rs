use nano_entropy::DecodeError;
use nano_entropy::nbt::NbtDocument;
use nano_entropy::nbt::Tag;
use nano_entropy::nbt::decode_document;
use nano_entropy::nbt::encode_document;
use nano_entropy::nbt::get_tag;
use nano_entropy::registry::MAX_REGISTRY_RESOURCE_BYTES;
use nano_entropy::registry::default_registry_document;
use nano_entropy::registry::dimension_from_protocol;
use nano_entropy::registry::registry_resource;

fn doc_bytes(d: &NbtDocument) -> Vec<u8> {
    encode_document(d)
}

#[test]
fn loading_twice_yields_byte_identical_documents() {
    let d1 = dimension_from_protocol(760).expect("registry should load");
    let d2 = dimension_from_protocol(760).expect("registry should load");
    assert_eq!(doc_bytes(&d1), doc_bytes(&d2));
}

#[test]
fn loading_twice_is_deterministic_for_other_versions_too() {
    let d1 = dimension_from_protocol(5).expect("registry should load");
    let d2 = dimension_from_protocol(5).expect("registry should load");
    assert_eq!(doc_bytes(&d1), doc_bytes(&d2));
}

#[test]
fn unknown_version_falls_back_to_the_default_document() {
    let known = dimension_from_protocol(760).expect("registry should load");
    let unknown = dimension_from_protocol(-1).expect("fallback should load, not fail");
    let unknown2 = dimension_from_protocol(123456).expect("fallback should load, not fail");
    assert_eq!(doc_bytes(&known), doc_bytes(&unknown));
    assert_eq!(doc_bytes(&known), doc_bytes(&unknown2));
    assert_eq!(registry_resource(760), registry_resource(42));
}

#[test]
fn loaded_document_carries_the_biome_registry() {
    let d = dimension_from_protocol(760).expect("registry should load");
    let name = b"minecraft:worldgen/biome".to_vec();
    let biome = get_tag(&d.entries, &name);
    assert!(biome.is_some());
    match biome.unwrap() {
        Tag::Compound(entries) => {
            assert!(get_tag(entries, &b"type".to_vec()).is_some());
            assert!(get_tag(entries, &b"value".to_vec()).is_some());
        },
        _ => panic!("the biome registry should be a compound"),
    }
}

#[test]
fn truncated_resource_fails_with_decode_error() {
    let resource = registry_resource(760);
    // Cut the resource off in the middle of its fields.
    let truncated: Vec<u8> = resource[..resource.len() / 2].to_vec();
    let r = decode_document(&truncated, MAX_REGISTRY_RESOURCE_BYTES);
    assert!(matches!(r, Err(DecodeError::Truncated)));
    let empty: Vec<u8> = Vec::new();
    assert!(matches!(
        decode_document(&empty, MAX_REGISTRY_RESOURCE_BYTES),
        Err(DecodeError::Truncated)
    ));
}

#[test]
fn every_strict_prefix_of_the_resource_fails_to_decode() {
    // The bundled resource has no trailing bytes, so a cut anywhere is a
    // truncation, and the decoder must reject it.
    let resource = registry_resource(760);
    for m in 0..resource.len() {
        let prefix: Vec<u8> = resource[..m].to_vec();
        assert!(decode_document(&prefix, MAX_REGISTRY_RESOURCE_BYTES).is_err());
    }
}

#[test]
fn oversize_resource_fails_with_decode_error_before_decoding() {
    let resource = registry_resource(760);
    // A bound smaller than the input rejects it outright.
    let r = decode_document(&resource, resource.len() - 1);
    assert!(matches!(r, Err(DecodeError::SizeLimitExceeded)));
}

#[test]
fn resource_with_no_root_document_is_distinguished() {
    // A lone terminator byte decodes cleanly but carries no root compound.
    let no_root: Vec<u8> = vec![0];
    let r = decode_document(&no_root, MAX_REGISTRY_RESOURCE_BYTES);
    assert!(matches!(r, Ok(None)));
}

#[test]
fn resource_with_a_non_compound_root_is_malformed() {
    // Wire kind 3 cannot stand as a document root.
    let bad_root: Vec<u8> = vec![3, 0, 0, 0, 0, 0, 7];
    let r = decode_document(&bad_root, MAX_REGISTRY_RESOURCE_BYTES);
    assert!(matches!(r, Err(DecodeError::Malformed)));
}

#[test]
fn negative_array_count_is_malformed() {
    // Root compound, empty name, then a byte-array field whose four-byte
    // count has the sign bit set.
    let mut bytes: Vec<u8> = vec![10, 0, 0];
    bytes.push(7); // field kind: byte array
    bytes.extend_from_slice(&[0, 1]); // name length 1
    bytes.push(b'a');
    bytes.extend_from_slice(&[0x80, 0, 0, 0]); // negative count
    let r = decode_document(&bytes, MAX_REGISTRY_RESOURCE_BYTES);
    assert!(matches!(r, Err(DecodeError::Malformed)));
}

#[test]
fn missing_root_error_never_comes_from_the_bundled_resources() {
    for version in [760, 0, -7, 761] {
        match dimension_from_protocol(version) {
            Ok(_) => {},
            Err(e) => panic!("bundled resource failed to load: {:?}", e),
        }
    }
}

#[test]
fn every_tag_kind_round_trips_through_the_codec() {
    let doc = NbtDocument {
        name: b"root".to_vec(),
        entries: vec![
            (b"a".to_vec(), Tag::Byte(0x7F)),
            (b"b".to_vec(), Tag::Short(0x1234)),
            (b"c".to_vec(), Tag::Int(0xDEADBEEF)),
            (b"d".to_vec(), Tag::Long(0x0102030405060708)),
            (b"e".to_vec(), Tag::Float(0x3F800000)),
            (b"f".to_vec(), Tag::Double(0x3FF0000000000000)),
            (b"g".to_vec(), Tag::ByteArray(vec![1, 2, 3])),
            (b"h".to_vec(), Tag::Str(b"hello".to_vec())),
            (b"i".to_vec(), Tag::List(3, vec![Tag::Int(1), Tag::Int(2)])),
            (b"j".to_vec(), Tag::Compound(vec![(b"k".to_vec(), Tag::Byte(1))])),
            (b"l".to_vec(), Tag::IntArray(vec![10, 20, 30])),
            (b"m".to_vec(), Tag::LongArray(vec![40, 50])),
        ],
    };
    let bytes = encode_document(&doc);
    let decoded = decode_document(&bytes, MAX_REGISTRY_RESOURCE_BYTES)
        .expect("a document with every kind should decode")
        .expect("it should carry a root document");
    assert_eq!(decoded.name, doc.name);
    assert_eq!(decoded.entries.len(), doc.entries.len());
    assert_eq!(encode_document(&decoded), bytes);
    // And a cut anywhere inside it is rejected.
    for m in 0..bytes.len() {
        let prefix: Vec<u8> = bytes[..m].to_vec();
        assert!(decode_document(&prefix, MAX_REGISTRY_RESOURCE_BYTES).is_err());
    }
}

#[test]
fn registry_resource_round_trips_through_the_codec() {
    let built = default_registry_document();
    let bytes = encode_document(&built);
    let decoded = decode_document(&bytes, MAX_REGISTRY_RESOURCE_BYTES)
        .expect("own encoding should decode")
        .expect("own encoding should carry a root document");
    assert_eq!(encode_document(&decoded), bytes);
    assert_eq!(decoded.name, built.name);
}
