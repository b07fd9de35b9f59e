use comde::deflate::DeflateHashMap;
use comde::Decompressor;
use comde::hash_map::CompressedHashMap;
use comde::snappy::SnappyHashMap;
use comde::stored::{StoredCompressor, StoredDecompressor};
use comde::xz::XzHashMap;
use comde::xz2::Xz2HashMap;
use comde::zstd::ZstdHashMap;

type PassthroughHashMap<V> = CompressedHashMap<V, StoredCompressor, StoredDecompressor>;

type BrotliHashMap<V> =
    CompressedHashMap<V, comde::brotli::BrotliCompressor, comde::brotli::BrotliDecompressor>;

#[test]
fn deflate_basic() {
    let mut map = DeflateHashMap::<String>::new();
    map.insert("foo".into(), "bar".into()).unwrap();
    assert_eq!("bar".to_string(), map.get("foo").unwrap());
    assert_ne!("bap".to_string(), map.get("foo").unwrap());
}

#[test]
fn snappy_basic() {
    let mut map = SnappyHashMap::<String>::new();
    map.insert("foo".into(), "bar".into()).unwrap();
    assert_eq!("bar".to_string(), map.get("foo").unwrap());
    assert_ne!("bap".to_string(), map.get("foo").unwrap());
}

#[test]
fn stored_basic() {
    let mut map = PassthroughHashMap::<String>::new();
    map.insert("foo".into(), "bar".into()).unwrap();
    assert_eq!("bar".to_string(), map.get("foo").unwrap());
    assert_ne!("bap".to_string(), map.get("foo").unwrap());
}

#[test]
fn xz_basic() {
    let mut map = XzHashMap::<String>::new();
    map.insert("foo".into(), "bar".into()).unwrap();
    assert_eq!("bar".to_string(), map.get("foo").unwrap());
    assert_ne!("bap".to_string(), map.get("foo").unwrap());
}

#[test]
fn xz2_basic() {
    let mut map = Xz2HashMap::<String>::new();
    map.insert("foo".into(), "bar".into()).unwrap();
    assert_eq!("bar".to_string(), map.get("foo").unwrap());
    assert_ne!("bap".to_string(), map.get("foo").unwrap());
}

#[test]
fn zstd_basic() {
    let mut map = ZstdHashMap::<String>::new();
    map.insert("foo".into(), "bar".into()).unwrap();
    assert_eq!("bar".to_string(), map.get("foo").unwrap());
    assert_ne!("bap".to_string(), map.get("foo").unwrap());
}

#[test]
fn brotli_basic() {
    let mut map = BrotliHashMap::<String>::new();
    map.insert("foo".into(), "bar".into()).unwrap();
    assert_eq!("bar".to_string(), map.get("foo").unwrap());
    assert_ne!("bap".to_string(), map.get("foo").unwrap());
}

#[test]
fn with_phf() {}

#[test]
fn map_overwrite_returns_prior() {
    let mut map = DeflateHashMap::<String>::new();
    assert_eq!(map.insert("k".to_string(), "v1".to_string()).unwrap(), None);
    let prior = map.insert("k".to_string(), "v2".to_string()).unwrap();
    assert_eq!(prior, Some("v1".to_string()));
    assert_eq!(map.get("k"), Some("v2".to_string()));
}

#[test]
fn map_miss_is_none() {
    let mut map = ZstdHashMap::<String>::new();
    assert_eq!(map.get("absent"), None);
    map.insert("present".to_string(), "value".to_string()).unwrap();
    assert_eq!(map.get("absent"), None);
    assert_eq!(map.get("presen"), None);
    assert_eq!(map.get("presentt"), None);
}

#[test]
fn map_get_raw_is_compressed() {
    let mut map = ZstdHashMap::<String>::new();
    map.insert("foo".to_string(), "bar".to_string()).unwrap();
    let raw = map.get_raw("foo").unwrap().clone();
    assert_ne!(raw, b"bar".to_vec());
    let back: String = comde::zstd::ZstdDecompressor.from_vec(&raw).unwrap();
    assert_eq!(back, "bar");
    assert!(map.get_raw("nope").is_none());
}

#[test]
fn map_empty_string_value() {
    let mut map = SnappyHashMap::<String>::new();
    map.insert("empty".to_string(), String::new()).unwrap();
    assert_eq!(map.get("empty"), Some(String::new()));
}

#[test]
fn map_remove() {
    let mut map = XzHashMap::<String>::new();
    map.insert("a".to_string(), "va".to_string()).unwrap();
    map.insert("b".to_string(), "vb".to_string()).unwrap();
    assert_eq!(map.remove("a"), Some("va".to_string()));
    assert_eq!(map.get("a"), None);
    assert_eq!(map.get("b"), Some("vb".to_string()));
    assert_eq!(map.remove("a"), None);
}

#[test]
fn map_default_is_empty() {
    let map: DeflateHashMap<String> = Default::default();
    assert_eq!(map.get("anything"), None);
}
