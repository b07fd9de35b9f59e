use comde::codegen::MapBuilder;
use comde::phf::CompressedPhfMap;
use comde::xz::{XzCompressor, XzDecompressor};
use comde::zstd::{ZstdCompressor, ZstdDecompressor};
use comde::CodecError;

#[test]
fn phf_basic() {
    let phf_map = CompressedPhfMap::<String, ZstdDecompressor>::new(
        3213172566270843353,
        vec![(0, 0)],
        vec![(
            "boop".to_string(),
            b"(\xb5/\xfd\x00\x80\r\x01\x00\xb0this is a stringindeed\x03\x00^\xd5\xba\xea\x05\x8a,K"
                .to_vec(),
        )],
    )
    .unwrap();
    let result = phf_map.get("boop");
    println!("{:?}", result);
    assert_eq!(Some("this is a string string string string string string this is indeed a string string string".to_string()), result);
}

#[test]
fn phf_miss_in_occupied_slot() {
    let phf_map = CompressedPhfMap::<String, ZstdDecompressor>::new(
        3213172566270843353,
        vec![(0, 0)],
        vec![(
            "boop".to_string(),
            b"(\xb5/\xfd\x00\x80\r\x01\x00\xb0this is a stringindeed\x03\x00^\xd5\xba\xea\x05\x8a,K"
                .to_vec(),
        )],
    )
    .unwrap();
    // with a single slot, every probe lands in the occupied slot; only the
    // stored key may answer
    assert_eq!(phf_map.get("nope"), None);
    assert_eq!(phf_map.get(""), None);
    assert_eq!(phf_map.get("boo"), None);
    assert_eq!(phf_map.get("boopp"), None);
}

#[test]
fn phf_built_at_build_time() {
    let mut builder = MapBuilder::<String, ZstdCompressor>::new(
        "::comde::zstd::ZstdDecompressor",
        "String",
    );
    builder
        .entry(
            "boop".to_string(),
            "this is a string string string string string string this is indeed a string string string".to_string(),
        )
        .unwrap();
    let map = builder.build_map::<ZstdDecompressor>().unwrap();
    assert_eq!(
        map.get("boop"),
        Some("this is a string string string string string string this is indeed a string string string".to_string())
    );
    assert_eq!(map.get("nope"), None);
}

#[test]
fn phf_many_keys() {
    let mut builder = MapBuilder::<String, XzCompressor>::new(
        "::comde::xz::XzDecompressor",
        "String",
    );
    let keys = [
        "alpha", "beta", "gamma", "delta", "epsilon", "zeta", "eta", "theta", "iota", "kappa",
        "lambda", "mu",
    ];
    for k in keys {
        builder.entry(k.to_string(), format!("value of {}", k)).unwrap();
    }
    let map = builder.build_map::<XzDecompressor>().unwrap();
    for k in keys {
        assert_eq!(map.get(k), Some(format!("value of {}", k)));
    }
    assert_eq!(map.get("omega"), None);
    assert_eq!(map.get("alph"), None);
    assert_eq!(map.get("alphaa"), None);
}

#[test]
fn phf_empty_table() {
    let builder = MapBuilder::<String, ZstdCompressor>::new(
        "::comde::zstd::ZstdDecompressor",
        "String",
    );
    let map = builder.build_map::<ZstdDecompressor>().unwrap();
    assert_eq!(map.get("anything"), None);
}

#[test]
fn phf_rejects_bad_layout() {
    // two entries with the same key can never satisfy the slot law
    let r = CompressedPhfMap::<String, ZstdDecompressor>::new(
        0,
        vec![(0, 0)],
        vec![
            ("dup".to_string(), b"x".to_vec()),
            ("dup".to_string(), b"x".to_vec()),
        ],
    );
    assert!(r.is_err());
}

#[test]
fn phf_rejects_bad_bytes() {
    // a correctly placed entry whose bytes are not a zstd frame is refused
    // at assembly, so lookups never fail later
    let r = CompressedPhfMap::<String, ZstdDecompressor>::new(
        3213172566270843353,
        vec![(0, 0)],
        vec![("boop".to_string(), b"not a zstd frame".to_vec())],
    );
    assert!(matches!(r, Err(CodecError::Codec)));
}
