use comde::codegen::MapBuilder;
use comde::deflate::DeflateCompressor;
use comde::snappy::SnappyCompressor;
use comde::stored::StoredCompressor;
use comde::xz::XzCompressor;
use comde::zstd::ZstdCompressor;
use comde::CodecError;

const LONG: &str = "this is a string string string string string string this is indeed a string string string";

#[test]
fn basic_snappy() {
    let mut map = MapBuilder::<String, SnappyCompressor>::new(
        "::comde::snappy::SnappyDecompressor",
        "String",
    );
    map.entry("boop".to_string(), LONG.to_string()).unwrap();
    let out = map.build().unwrap();
    println!("snappy: {}", String::from_utf8(out).unwrap());
}

#[test]
fn basic_xz() {
    let mut map =
        MapBuilder::<String, XzCompressor>::new("::comde::xz::XzDecompressor", "String");
    map.entry("boop".to_string(), LONG.to_string()).unwrap();
    let out = map.build().unwrap();
    println!("xz: {}", String::from_utf8(out).unwrap());
}

#[test]
fn basic_deflate() {
    let mut map = MapBuilder::<String, DeflateCompressor>::new(
        "::comde::deflate::DeflateDecompressor",
        "String",
    );
    map.entry("boop".to_string(), LONG.to_string()).unwrap();
    let out = map.build().unwrap();
    println!("deflate: {}", String::from_utf8(out).unwrap());
}

#[test]
fn basic_zstd() {
    let mut map = MapBuilder::<String, ZstdCompressor>::new(
        "::comde::zstd::ZstdDecompressor",
        "String",
    );
    map.entry("boop".to_string(), LONG.to_string()).unwrap();
    let out = map.build().unwrap();
    println!("zstd: {}", String::from_utf8(out).unwrap());
}

#[test]
fn build_output_shape() {
    let mut map = MapBuilder::<String, StoredCompressor>::new(
        "::comde::stored::StoredDecompressor",
        "String",
    );
    map.entry("boop".to_string(), "xyz".to_string()).unwrap();
    let out = String::from_utf8(map.build().unwrap()).unwrap();
    assert!(out.starts_with(
        "::comde::phf::CompressedPhfMap::<String, ::comde::stored::StoredDecompressor>::new("
    ));
    assert!(out.ends_with("])"));
    assert!(out.contains("u64, vec![(0u32, 0u32), ], vec!["));
    assert!(out.contains("(String::from(\"boop\"), b\"xyz\".to_vec()), "));
}

#[test]
fn build_escapes_keys_and_bytes() {
    let mut map = MapBuilder::<String, StoredCompressor>::new(
        "::comde::stored::StoredDecompressor",
        "String",
    );
    map.entry("a\"b\\c".to_string(), "x\u{1}\u{7f}".to_string()).unwrap();
    let out = String::from_utf8(map.build().unwrap()).unwrap();
    assert!(out.contains("(String::from(\"a\\\"b\\\\c\"), b\"x\\x01\\x7f\".to_vec()), "));
}

#[test]
fn build_keeps_multibyte_keys() {
    let mut map = MapBuilder::<String, StoredCompressor>::new(
        "::comde::stored::StoredDecompressor",
        "String",
    );
    map.entry("müßig".to_string(), "idle".to_string()).unwrap();
    let out = String::from_utf8(map.build().unwrap()).unwrap();
    assert!(out.contains("(String::from(\"müßig\"), b\"idle\".to_vec()), "));
}

#[test]
fn build_respects_phf_path() {
    let mut map = MapBuilder::<String, StoredCompressor>::new(
        "::comde::stored::StoredDecompressor",
        "String",
    );
    map.phf_path("crate");
    let out = String::from_utf8(map.build().unwrap()).unwrap();
    assert!(out.starts_with("crate::phf::CompressedPhfMap::<"));
}

#[test]
fn build_rejects_duplicate_keys() {
    let mut map = MapBuilder::<String, StoredCompressor>::new(
        "::comde::stored::StoredDecompressor",
        "String",
    );
    map.entry("k".to_string(), "v1".to_string()).unwrap();
    map.entry("k".to_string(), "v2".to_string()).unwrap();
    assert!(matches!(map.build(), Err(CodecError::DuplicateKey)));
    assert!(matches!(
        map.build_map::<comde::stored::StoredDecompressor>(),
        Err(CodecError::DuplicateKey)
    ));
}

#[test]
fn build_empty_builder() {
    let map = MapBuilder::<String, StoredCompressor>::new(
        "::comde::stored::StoredDecompressor",
        "String",
    );
    let out = String::from_utf8(map.build().unwrap()).unwrap();
    assert!(out.contains("u64, vec![], vec![])"));
}
