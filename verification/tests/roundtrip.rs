use comde::brotli::{BrotliCompressor, BrotliDecompressor};
use comde::deflate::{DeflateCompressor, DeflateDecompressor};
use comde::snappy::{SnappyCompressor, SnappyDecompressor};
use comde::stored::{StoredCompressor, StoredDecompressor};
use comde::xz::{XzCompressor, XzDecompressor};
use comde::xz2::{Xz2Compressor, Xz2Decompressor};
use comde::zstd::{ZstdCompressor, ZstdDecompressor};
use comde::{cross_backend, round_trip, CodecError, Compressor, Decompressor};

fn sample() -> Vec<u8> {
    let mut data = Vec::new();
    for i in 0..512u32 {
        data.push((i % 251) as u8);
        data.extend_from_slice(b"a compressible stretch of text, ");
    }
    data
}

#[test]
fn round_trip_stored() {
    let data = sample();
    assert_eq!(round_trip(&StoredCompressor, &StoredDecompressor, &data).unwrap(), data);
}

#[test]
fn round_trip_deflate() {
    let data = sample();
    assert_eq!(round_trip(&DeflateCompressor, &DeflateDecompressor, &data).unwrap(), data);
}

#[test]
fn round_trip_snappy() {
    let data = sample();
    assert_eq!(round_trip(&SnappyCompressor, &SnappyDecompressor, &data).unwrap(), data);
}

#[test]
fn round_trip_xz() {
    let data = sample();
    assert_eq!(round_trip(&XzCompressor, &XzDecompressor, &data).unwrap(), data);
}

#[test]
fn round_trip_xz2() {
    let data = sample();
    assert_eq!(round_trip(&Xz2Compressor, &Xz2Decompressor, &data).unwrap(), data);
}

#[test]
fn round_trip_zstd() {
    let data = sample();
    assert_eq!(round_trip(&ZstdCompressor, &ZstdDecompressor, &data).unwrap(), data);
}

#[test]
fn round_trip_brotli() {
    let data = sample();
    assert_eq!(round_trip(&BrotliCompressor, &BrotliDecompressor, &data).unwrap(), data);
}

#[test]
fn round_trip_empty_input() {
    let data: Vec<u8> = Vec::new();
    assert_eq!(round_trip(&DeflateCompressor, &DeflateDecompressor, &data).unwrap(), data);
    assert_eq!(round_trip(&ZstdCompressor, &ZstdDecompressor, &data).unwrap(), data);
}

#[test]
fn byte_count_exact() {
    let data = sample();
    let (out, count) = DeflateCompressor.compress(&data).unwrap();
    assert_eq!(count.read, data.len() as u64);
    assert_eq!(count.write, out.len() as u64);
    assert_ne!(out, data);

    let (out, count) = ZstdCompressor.compress(&data).unwrap();
    assert_eq!(count.read, data.len() as u64);
    assert_eq!(count.write, out.len() as u64);
    assert_ne!(out, data);

    let (out, count) = StoredCompressor.compress(&data).unwrap();
    assert_eq!(count.read, data.len() as u64);
    assert_eq!(count.write, count.read);
    assert_eq!(out, data);
}

#[test]
fn compressed_bytes_differ_from_input() {
    let data = sample();
    for out in [
        DeflateCompressor.compress(&data).unwrap().0,
        SnappyCompressor.compress(&data).unwrap().0,
        XzCompressor.compress(&data).unwrap().0,
        ZstdCompressor.compress(&data).unwrap().0,
        BrotliCompressor.compress(&data).unwrap().0,
    ] {
        assert_ne!(out, data);
        assert!(out.len() < data.len());
    }
}

#[test]
fn cross_backend_equivalence() {
    let value = "the same value, whichever backend carries it".to_string();
    let bytes = value.clone().into_bytes();
    let (a, b) = cross_backend(
        &DeflateCompressor,
        &DeflateDecompressor,
        &ZstdCompressor,
        &ZstdDecompressor,
        &bytes,
    )
    .unwrap();
    assert_eq!(a, bytes);
    assert_eq!(b, bytes);

    let mut results: Vec<String> = Vec::new();
    results.push(StoredDecompressor.from_vec(&StoredCompressor.to_vec(value.clone()).unwrap()).unwrap());
    results.push(DeflateDecompressor.from_vec(&DeflateCompressor.to_vec(value.clone()).unwrap()).unwrap());
    results.push(SnappyDecompressor.from_vec(&SnappyCompressor.to_vec(value.clone()).unwrap()).unwrap());
    results.push(XzDecompressor.from_vec(&XzCompressor.to_vec(value.clone()).unwrap()).unwrap());
    results.push(Xz2Decompressor.from_vec(&Xz2Compressor.to_vec(value.clone()).unwrap()).unwrap());
    results.push(ZstdDecompressor.from_vec(&ZstdCompressor.to_vec(value.clone()).unwrap()).unwrap());
    results.push(BrotliDecompressor.from_vec(&BrotliCompressor.to_vec(value.clone()).unwrap()).unwrap());
    for r in results {
        assert_eq!(r, value);
    }
}

#[test]
fn codec_error_on_garbage() {
    let garbage: &[u8] = &[0xde, 0xad, 0xbe, 0xef, 1, 2, 3];
    assert_eq!(ZstdDecompressor.copy(garbage).unwrap_err(), CodecError::Codec);
    assert_eq!(XzDecompressor.copy(garbage).unwrap_err(), CodecError::Codec);
    assert_eq!(SnappyDecompressor.copy(garbage).unwrap_err(), CodecError::Codec);
}

#[test]
fn decode_error_on_invalid_text() {
    let bytes: Vec<u8> = vec![0xff, 0xfe, 0xfd];
    let r: Result<String, CodecError> = StoredDecompressor.from_vec(&bytes);
    assert_eq!(r.unwrap_err(), CodecError::Decode);
}

#[test]
fn value_contract_str_and_bytes() {
    let bytes_value: Vec<u8> = vec![0, 159, 146, 150];
    let compressed = XzCompressor.to_vec(&bytes_value).unwrap();
    let back: Vec<u8> = XzDecompressor.copy(&compressed).unwrap();
    assert_eq!(back, bytes_value);

    let compressed = SnappyCompressor.to_vec("a borrowed str").unwrap();
    let back: String = SnappyDecompressor.from_vec(&compressed).unwrap();
    assert_eq!(back, "a borrowed str");
}
