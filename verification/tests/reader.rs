use voxtral_mini_realtime::gguf::bytes::{ByteSource, ShardedCursor, SliceCursor};
use voxtral_mini_realtime::gguf::floats::{decode_halves, decode_singles, FloatBits};
use voxtral_mini_realtime::gguf::loader::{
    gguf_load_f32_tensor, gguf_load_q4_linear, gguf_load_rms_norm, reverse_gguf_dims,
};
use voxtral_mini_realtime::gguf::reader::{GgmlDtype, GgufError, GgufReader, TensorError};
use voxtral_mini_realtime::gguf::tensor::QuantError;

struct Entry {
    name: &'static str,
    dims: Vec<u64>,
    code: u32,
    data: Vec<u8>,
}

fn entry(name: &'static str, dims: &[u64], code: u32, data: Vec<u8>) -> Entry {
    Entry { name, dims: dims.to_vec(), code, data }
}

fn put_string(out: &mut Vec<u8>, s: &str) {
    out.extend_from_slice(&(s.len() as u64).to_le_bytes());
    out.extend_from_slice(s.as_bytes());
}

/// A file with `n_meta` metadata entries, which are already written out.
fn file(version: u32, n_meta: u64, meta: &[u8], alignment: usize, entries: &[Entry]) -> Vec<u8> {
    let mut out = b"GGUF".to_vec();
    out.extend_from_slice(&version.to_le_bytes());
    out.extend_from_slice(&(entries.len() as u64).to_le_bytes());
    out.extend_from_slice(&n_meta.to_le_bytes());
    out.extend_from_slice(meta);
    let mut data: Vec<u8> = Vec::new();
    for e in entries {
        while data.len() % alignment != 0 {
            data.push(0);
        }
        put_string(&mut out, e.name);
        out.extend_from_slice(&(e.dims.len() as u32).to_le_bytes());
        for d in &e.dims {
            out.extend_from_slice(&d.to_le_bytes());
        }
        out.extend_from_slice(&e.code.to_le_bytes());
        out.extend_from_slice(&(data.len() as u64).to_le_bytes());
        data.extend_from_slice(&e.data);
    }
    while out.len() % alignment != 0 {
        out.push(0);
    }
    out.extend_from_slice(&data);
    out
}

fn plain(entries: &[Entry]) -> Vec<u8> {
    file(3, 0, &[], 32, entries)
}

fn open_error(bytes: &[u8]) -> GgufError {
    GgufReader::from_bytes(bytes).err().unwrap()
}

#[test]
fn gguf_reader_reads_q8_payload() {
    let payload: Vec<u8> = (0..34).collect();
    let bytes = plain(&[
        entry("a", &[2], 0, vec![1; 8]),
        entry("w", &[32, 1], 8, payload.clone()),
    ]);
    let reader = GgufReader::from_bytes(&bytes).unwrap();
    assert_eq!(reader.version(), 3);
    assert_eq!(reader.tensor_count(), 2);
    let info = reader.tensor_info("w").unwrap();
    assert_eq!(info.dtype(), GgmlDtype::Q8_0);
    assert_eq!(info.shape(), &[32, 1]);
    assert_eq!(reader.tensor_data("w"), Ok(payload));
    assert_eq!(reader.tensor_data("a"), Ok(vec![1; 8]));
}

#[test]
fn gguf_reader_knows_every_kind_of_elements() {
    let bytes = plain(&[
        entry("f32", &[3], 0, vec![1; 12]),
        entry("f16", &[3], 1, vec![2; 6]),
        entry("q4", &[64], 2, vec![3; 36]),
        entry("q8", &[32], 8, vec![4; 34]),
        entry("scalar", &[], 0, vec![5; 4]),
        entry("none", &[0, 7], 0, vec![]),
    ]);
    let reader = GgufReader::from_bytes(&bytes).unwrap();
    assert_eq!(reader.tensor_data("f32"), Ok(vec![1; 12]));
    assert_eq!(reader.tensor_data("f16"), Ok(vec![2; 6]));
    assert_eq!(reader.tensor_data("q4"), Ok(vec![3; 36]));
    assert_eq!(reader.tensor_data("q8"), Ok(vec![4; 34]));
    assert_eq!(reader.tensor_data("scalar"), Ok(vec![5; 4]));
    assert_eq!(reader.tensor_data("none"), Ok(vec![]));
    assert_eq!(reader.tensor_info("f16").unwrap().dtype(), GgmlDtype::F16);
    assert_eq!(GgmlDtype::from_code(2), Some(GgmlDtype::Q4_0));
    assert_eq!(GgmlDtype::from_code(3), None);
}

#[test]
fn metadata_is_skipped_and_gives_the_alignment() {
    let mut meta = Vec::new();
    put_string(&mut meta, "general.name");
    meta.extend_from_slice(&8u32.to_le_bytes());
    put_string(&mut meta, "voice");
    put_string(&mut meta, "general.alignment");
    meta.extend_from_slice(&4u32.to_le_bytes());
    meta.extend_from_slice(&64u32.to_le_bytes());
    put_string(&mut meta, "flag");
    meta.extend_from_slice(&7u32.to_le_bytes());
    meta.push(1);
    put_string(&mut meta, "half");
    meta.extend_from_slice(&2u32.to_le_bytes());
    meta.extend_from_slice(&[1, 2]);
    put_string(&mut meta, "wide");
    meta.extend_from_slice(&12u32.to_le_bytes());
    meta.extend_from_slice(&[0; 8]);
    // An array of two strings.
    put_string(&mut meta, "tokens");
    meta.extend_from_slice(&9u32.to_le_bytes());
    meta.extend_from_slice(&8u32.to_le_bytes());
    meta.extend_from_slice(&2u64.to_le_bytes());
    put_string(&mut meta, "ab");
    put_string(&mut meta, "");
    // An array that holds one array of three bytes.
    put_string(&mut meta, "nested");
    meta.extend_from_slice(&9u32.to_le_bytes());
    meta.extend_from_slice(&9u32.to_le_bytes());
    meta.extend_from_slice(&1u64.to_le_bytes());
    meta.extend_from_slice(&0u32.to_le_bytes());
    meta.extend_from_slice(&3u64.to_le_bytes());
    meta.extend_from_slice(&[7, 8, 9]);
    let bytes = file(2, 7, &meta, 64, &[entry("t", &[1], 0, vec![1, 2, 3, 4])]);
    let reader = GgufReader::from_bytes(&bytes).unwrap();
    assert_eq!(reader.version(), 2);
    assert_eq!(reader.tensor_data("t"), Ok(vec![1, 2, 3, 4]));
}

#[test]
fn bad_files_are_refused() {
    let good = plain(&[entry("t", &[1], 0, vec![0; 4])]);
    assert_eq!(open_error(&[]), GgufError::Truncated);
    assert_eq!(open_error(b"GGU"), GgufError::Truncated);
    assert_eq!(open_error(b"GGML\x03\0\0\0"), GgufError::BadMagic);
    assert_eq!(open_error(b"GGUF\x01\0\0\0"), GgufError::UnsupportedVersion { version: 1 });
    assert_eq!(open_error(b"GGUF\x04\0\0\0"), GgufError::UnsupportedVersion { version: 4 });
    assert_eq!(open_error(&good[..20]), GgufError::Truncated);
    assert_eq!(open_error(&good[..30]), GgufError::Truncated);
    assert_eq!(
        open_error(&plain(&[entry("t", &[1], 7, vec![])])),
        GgufError::UnsupportedDtype { code: 7 }
    );
}

#[test]
fn bad_metadata_is_refused() {
    let mut meta = Vec::new();
    put_string(&mut meta, "x");
    meta.extend_from_slice(&13u32.to_le_bytes());
    meta.extend_from_slice(&[0; 8]);
    assert_eq!(open_error(&file(3, 1, &meta, 32, &[])), GgufError::BadValueType { code: 13 });

    let mut meta = Vec::new();
    put_string(&mut meta, "general.alignment");
    meta.extend_from_slice(&4u32.to_le_bytes());
    meta.extend_from_slice(&0u32.to_le_bytes());
    assert_eq!(open_error(&file(3, 1, &meta, 32, &[])), GgufError::BadAlignment);

    let mut meta = (u64::MAX).to_le_bytes().to_vec();
    meta.extend_from_slice(&[0; 64]);
    assert_eq!(open_error(&file(3, 1, &meta, 32, &[])), GgufError::TooLarge);
}

#[test]
fn missing_and_cut_tensors_are_reported() {
    let mut bytes = plain(&[
        entry("t", &[4], 0, vec![0; 16]),
        entry("part", &[31], 2, vec![]),
        entry("huge", &[1 << 40, 1 << 40], 0, vec![]),
    ]);
    let reader = GgufReader::from_bytes(&bytes).unwrap();
    assert!(reader.tensor_info("u").is_none());
    assert_eq!(reader.tensor_data("u"), Err(TensorError::Missing));
    assert_eq!(reader.tensor_data("part"), Err(TensorError::PartialBlock));
    assert_eq!(reader.tensor_data("huge"), Err(TensorError::TooLarge));
    assert_eq!(reader.tensor_data("t"), Ok(vec![0; 16]));
    bytes.truncate(bytes.len() - 17);
    let reader = GgufReader::from_bytes(&bytes).unwrap();
    assert_eq!(reader.tensor_data("t"), Err(TensorError::Truncated));
}

#[test]
fn the_last_tensor_of_a_name_counts() {
    let bytes = plain(&[
        entry("t", &[1], 0, vec![1; 4]),
        entry("u", &[1], 0, vec![2; 4]),
        entry("t", &[2], 0, vec![3; 8]),
    ]);
    let reader = GgufReader::from_bytes(&bytes).unwrap();
    assert_eq!(reader.tensor_data("t"), Ok(vec![3; 8]));
    assert_eq!(reader.tensor_info("t").unwrap().shape(), &[2]);
}

#[test]
fn shards_are_read_as_one_file() {
    let bytes = plain(&[
        entry("a", &[32], 8, (0..34).collect()),
        entry("b", &[5], 1, vec![9; 10]),
    ]);
    let whole = GgufReader::from_bytes(&bytes).unwrap();
    for size in [1usize, 3, 7, 64, 100, 1000] {
        let shards: Vec<Vec<u8>> = bytes.chunks(size).map(|c| c.to_vec()).collect();
        let reader = GgufReader::open(ShardedCursor::new(shards)).unwrap();
        assert_eq!(reader.tensor_count(), whole.tensor_count());
        assert_eq!(reader.tensor_data("a"), whole.tensor_data("a"));
        assert_eq!(reader.tensor_data("b"), whole.tensor_data("b"));
        assert_eq!(reader.tensor_data("c"), Err(TensorError::Missing));
    }
    let refused = GgufReader::open(ShardedCursor::new(vec![vec![0x47], vec![]])).err();
    assert_eq!(refused, Some(GgufError::Truncated));
}

#[test]
fn cursors_read_only_what_is_there() {
    let data = [1u8, 2, 3, 4, 5];
    let cursor = SliceCursor::new(&data);
    assert_eq!(cursor.read_at(1, 3), Some(vec![2, 3, 4]));
    assert_eq!(cursor.read_at(5, 0), Some(vec![]));
    assert_eq!(cursor.read_at(6, 0), None);
    assert_eq!(cursor.read_at(3, 3), None);
    assert_eq!(cursor.read_at(u64::MAX, usize::MAX), None);

    let cursor = ShardedCursor::new(vec![vec![1, 2], vec![], vec![3], vec![4, 5]]);
    assert_eq!(cursor.read_at(0, 5), Some(vec![1, 2, 3, 4, 5]));
    assert_eq!(cursor.read_at(1, 3), Some(vec![2, 3, 4]));
    assert_eq!(cursor.read_at(5, 0), Some(vec![]));
    assert_eq!(cursor.read_at(6, 0), None);
    assert_eq!(cursor.read_at(3, 3), None);
}

#[test]
fn dimensions_are_reversed() {
    assert_eq!(reverse_gguf_dims(&[3072, 9216]), vec![9216, 3072]);
    assert_eq!(reverse_gguf_dims(&[1, 2, 3]), vec![3, 2, 1]);
    assert_eq!(reverse_gguf_dims(&[]), Vec::<usize>::new());
}

#[test]
fn words_are_little_endian() {
    assert_eq!(decode_singles(&[0, 0, 0x80, 0x3F, 1, 2, 3, 4, 9]), vec![0x3F80_0000, 0x0403_0201]);
    assert_eq!(decode_halves(&[0, 0x3C, 5]), vec![0x3C00]);
    assert_eq!(f32::from_bits(decode_singles(&1.5f32.to_le_bytes())[0]), 1.5);
}

#[test]
fn float_tensors_load() {
    let mut singles = Vec::new();
    for x in [1.0f32, -2.0, 3.0, 4.0, 5.0, 6.0] {
        singles.extend_from_slice(&x.to_le_bytes());
    }
    let bytes = plain(&[
        entry("m", &[3, 2], 0, singles),
        entry("h", &[2], 1, vec![0, 0x3C, 0, 0xC0]),
        entry("q", &[32, 1], 2, vec![0; 18]),
    ]);
    let reader = GgufReader::from_bytes(&bytes).unwrap();
    let m = gguf_load_f32_tensor(&reader, "m", 2).unwrap();
    assert_eq!(m.shape, vec![2, 3]);
    let values: Vec<f32> = match &m.values {
        FloatBits::Single(v) => v.iter().map(|b| f32::from_bits(*b)).collect(),
        _ => panic!("not stored as 32-bit floats"),
    };
    assert_eq!(values, vec![1.0, -2.0, 3.0, 4.0, 5.0, 6.0]);
    let h = gguf_load_rms_norm(&reader, "h", 1e-5f64.to_bits()).unwrap();
    assert_eq!(f64::from_bits(h.eps), 1e-5);
    assert!(matches!(&h.weight.values, FloatBits::Half(v) if v == &vec![0x3C00, 0xC000]));

    let e = gguf_load_f32_tensor(&reader, "m", 3).err().unwrap();
    assert_eq!(e.name, "m");
    assert_eq!(e.error, TensorError::Rank { expected: 3, found: 2 });
    let e = gguf_load_f32_tensor(&reader, "q", 2).err().unwrap();
    assert_eq!(e.error, TensorError::NotFloat { dtype: GgmlDtype::Q4_0 });
    let e = gguf_load_rms_norm(&reader, "missing", 0).err().unwrap();
    assert_eq!((e.name.as_str(), e.error), ("missing", TensorError::Missing));
}

#[test]
fn quantized_layers_load() {
    let bytes = plain(&[
        entry("q4", &[32, 2], 2, (0..36).collect()),
        entry("q8", &[32, 1], 8, vec![1; 34]),
        entry("f", &[32, 1], 0, vec![0; 128]),
        entry("flat", &[32], 2, vec![0; 18]),
        entry("deep", &[32, 1, 2], 2, vec![0; 36]),
    ]);
    let reader = GgufReader::from_bytes(&bytes).unwrap();
    let l = gguf_load_q4_linear(&reader, "q4").unwrap();
    assert_eq!(l.weights().shape(), [2, 32]);
    assert_eq!(l.weights().image(), (0..36).collect::<Vec<u8>>().as_slice());
    assert!(l.bias().is_none());
    let l = gguf_load_q4_linear(&reader, "q8").unwrap();
    assert_eq!(l.weights().dtype(), GgmlDtype::Q8_0);

    let e = gguf_load_q4_linear(&reader, "f").err().unwrap();
    let error = QuantError::UnsupportedDtype { dtype: GgmlDtype::F32 };
    assert_eq!(e.error, TensorError::Quant { error });
    let e = gguf_load_q4_linear(&reader, "flat").err().unwrap();
    assert_eq!(e.error, TensorError::TooFewDims { found: 1 });
    let e = gguf_load_q4_linear(&reader, "deep").err().unwrap();
    assert!(matches!(e.error, TensorError::Quant { error: QuantError::PartialBlock { .. } }));
    let e = gguf_load_q4_linear(&reader, "nothing").err().unwrap();
    assert_eq!(e.name, "nothing");
    assert_eq!(e.error, TensorError::Missing);
}
