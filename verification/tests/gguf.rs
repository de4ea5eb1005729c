use loci::error::{LociContext, LociError};
use loci::float::{Float32, Float64};
use loci::gguf::cursor::ByteCursor;
use loci::gguf::loader::{MAX_ARRAY_ELEMENTS, MAX_STRING_LEN};
use loci::gguf::report::TextPiece;
use loci::gguf::types::GgmlType;
use loci::gguf::{GgufHeaders, GgufInfo, GgufKVMeta, GgufTensorInfo, GgufType, GgufValue, Loader};

fn float(value: f32) -> Float32 {
    Float32 {
        bits: value.to_bits(),
    }
}

fn rendered(pieces: &[TextPiece]) -> String {
    let mut text = String::new();
    for piece in pieces {
        match piece {
            TextPiece::Text(part) => text.push_str(part),
            TextPiece::Float32(value) => {
                text.push_str(&format!("{}", f32::from_bits(value.bits)));
            }
            TextPiece::Float64(value) => {
                text.push_str(&format!("{}", f64::from_bits(value.bits)));
            }
            TextPiece::PlainFloat32(value) => {
                text.push_str(&format!("{:?}", f32::from_bits(value.bits)));
            }
            TextPiece::PlainFloat64(value) => {
                text.push_str(&format!("{:?}", f64::from_bits(value.bits)));
            }
            TextPiece::Quoted(part) => text.push_str(&format!("{:?}", part)),
        }
    }
    text
}

fn shown(value: &GgufValue) -> String {
    let mut pieces = vec![];
    value.push_display(&mut pieces);
    rendered(&pieces)
}

fn gguf_fixture() -> Vec<u8> {
    let mut fake_gguf = vec![];
    fake_gguf.extend_from_slice(b"GGUF");
    fake_gguf.extend_from_slice(&3u32.to_le_bytes());
    fake_gguf.extend_from_slice(&2u64.to_le_bytes());
    fake_gguf.extend_from_slice(&1u64.to_le_bytes());
    fake_gguf.extend_from_slice(&("general.alignment".len() as u64).to_le_bytes());
    fake_gguf.extend_from_slice(b"general.alignment");
    fake_gguf.extend_from_slice(&4i32.to_le_bytes());
    fake_gguf.extend_from_slice(&32u32.to_le_bytes());
    for name in ["tensor1", "tensor2"] {
        fake_gguf.extend_from_slice(&(name.len() as u64).to_le_bytes());
        fake_gguf.extend_from_slice(name.as_bytes());
        fake_gguf.extend_from_slice(&2i32.to_le_bytes());
        fake_gguf.extend_from_slice(&2i64.to_le_bytes());
        fake_gguf.extend_from_slice(&3i64.to_le_bytes());
        fake_gguf.extend_from_slice(&3i32.to_le_bytes());
        fake_gguf.extend_from_slice(&0i64.to_le_bytes());
    }
    fake_gguf
}

fn gguf_info_fixture() -> GgufInfo {
    let tensor = |name: &str| GgufTensorInfo {
        name: name.to_string(),
        n_dims: 2,
        shapes: vec![2, 3],
        ggml_type: 3,
        offset: 0,
    };
    GgufInfo {
        headers: GgufHeaders {
            path: String::from("test"),
            magic: "GGUF".to_string(),
            version: 3,
            tensor_count: 2,
            metadata_kv_count: 1,
        },
        kv_meta: vec![GgufKVMeta {
            key: "general.alignment".to_string(),
            value_type: GgufType::Uint32,
            value: GgufValue::Uint32(32),
        }],
        tensor_info: vec![tensor("tensor1"), tensor("tensor2")],
        tensor_offset_start: 160,
    }
}

#[test]
fn test_load_gguf_info_from_bytes_success() {
    let loaded_gguf_info = Loader::load_gguf_info_from_bytes(&gguf_fixture(), "test")
        .expect("load_gguf_info_from_bytes expected to succeed but failed");
    assert_eq!(loaded_gguf_info, gguf_info_fixture());

    let mut fake_gguf = gguf_fixture();
    fake_gguf[8] = 0x00;
    fake_gguf.truncate(57);
    let mut fake_gguf_info = gguf_info_fixture();
    fake_gguf_info.headers.tensor_count = 0;
    fake_gguf_info.tensor_info = vec![];
    fake_gguf_info.tensor_offset_start = 64;
    let loaded_gguf_info = Loader::load_gguf_info_from_bytes(&fake_gguf, "test")
        .expect("load_gguf_info_from_bytes expected to succeed but failed");
    assert_eq!(loaded_gguf_info, fake_gguf_info);
}

#[test]
fn test_load_gguf_info_from_bytes_failure() {
    let truncated = |len: usize| {
        let mut fake_gguf = gguf_fixture();
        fake_gguf.truncate(len);
        fake_gguf
    };
    let mut wrong_magic = gguf_fixture();
    wrong_magic.insert(1, b'X');
    let cases = vec![
        (vec![], "reading magic bytes"),
        (wrong_magic, "GGUF file has magic bytes mismatch"),
        (truncated(4), "reading version"),
        (truncated(8), "reading tensor_count"),
        (truncated(16), "reading metadata_kv_count"),
        (truncated(24), "metadata key"),
        (truncated(49), "metadata value type"),
        (truncated(53), "metadata value for key 'general.alignment'"),
        (truncated(57), "tensor name"),
        (truncated(72), "tensor 'tensor1' n_dims"),
        (truncated(76), "tensor 'tensor1' shape"),
        (truncated(92), "tensor 'tensor1' ggml_type"),
        (truncated(96), "tensor 'tensor1' offset"),
    ];
    for (bytes, expected_error_str) in cases {
        let result = Loader::load_gguf_info_from_bytes(&bytes, "test")
            .expect_err("load_gguf_info_from_bytes expected to fail but succeeded");
        assert!(
            result.message().contains(expected_error_str),
            "expected an error containing '{}', but got '{}'",
            expected_error_str,
            result.message()
        );
    }
}

#[test]
fn a_cut_file_is_refused() {
    let mut file = gguf_fixture();
    let records_end = file.len();
    file.extend_from_slice(&[0u8; 40]);
    let whole = Loader::load_gguf_info_from_bytes(&file, "test").expect("a whole file");
    for len in 0..file.len() {
        let cut = Loader::load_gguf_info_from_bytes(&file[..len], "test");
        if len < records_end {
            assert!(cut.is_err(), "{} bytes were accepted", len);
        } else {
            assert_eq!(cut.expect("all records"), whole);
        }
    }
}

#[test]
fn a_tensor_has_no_negative_number_of_dimensions() {
    let mut file = gguf_fixture();
    file[72..76].copy_from_slice(&(-1i32).to_le_bytes());
    match Loader::load_gguf_info_from_bytes(&file, "test") {
        Err(LociError::InvalidFileMetadata {
            field,
            offset,
            source,
            ..
        }) => {
            assert_eq!(field, "tensor 'tensor1' n_dims");
            assert_eq!(offset, 76);
            assert_eq!(
                source.message(),
                "Invalid file format: Number of dimensions is negative"
            );
        }
        other => panic!("{:?}", other),
    }
}

#[test]
fn an_accepted_file_keeps_its_counts() {
    let info = Loader::load_gguf_info_from_bytes(&gguf_fixture(), "test").expect("a file");
    assert_eq!(info.kv_meta.len() as u64, info.headers.metadata_kv_count);
    assert_eq!(info.tensor_info.len() as u64, info.headers.tensor_count);
    for tensor in &info.tensor_info {
        assert_eq!(tensor.shapes.len() as i32, tensor.n_dims);
    }
    assert_eq!(info.tensor_offset_start % 32, 0);
}

#[test]
fn a_file_is_what_its_bytes_say() {
    let bytes = gguf_fixture();
    assert_eq!(
        Loader::load_gguf_info("test", Ok(&bytes)).expect("a file"),
        gguf_info_fixture()
    );
    assert!(Loader::load_gguf_info("test", Ok(b"NOTG")).is_err());
    let unread = Err(LociError::Io("No such file".to_string()));
    match Loader::load_gguf_info("test", unread) {
        Err(error) => assert_eq!(error.message(), "IO error: No such file"),
        Ok(_) => panic!("nothing was read"),
    }
}

#[test]
fn test_print_gguf_headers() {
    let gguf_headers = GgufHeaders {
        magic: String::from("GGUF"),
        path: String::from("test"),
        version: 1,
        tensor_count: 2,
        metadata_kv_count: 1,
    };
    let mut buffer = String::new();
    Loader::print_gguf_headers(&mut buffer, &gguf_headers);
    let expected_output = String::from(
        "\nloci Model Loader\n\
        ─────────────────────────────────\n\
        File: test\n\
        Magic: GGUF\n\
        Version: 1\n\
        Tensor Count: 2\n\
        Metadata KV Count: 1\n\
        ─────────────────────────────────\n\
        Model file is valid GGUF format!\n",
    );
    assert_eq!(buffer, expected_output);
}

#[test]
fn test_print_gguf_kv_meta() {
    let gguf_kv = GgufKVMeta {
        key: String::from("key"),
        value_type: GgufType::Uint32,
        value: GgufValue::Uint32(1),
    };
    let mut buffer = vec![];
    Loader::print_gguf_kv_meta(&mut buffer, &[gguf_kv]);
    let expected_output = String::from(
        "\nMetadata:\n\
        ─────────────────────────────────\n\
        key: Uint32 = 1\n\
        ─────────────────────────────────\n",
    );
    assert_eq!(rendered(&buffer), expected_output);
}

#[test]
fn test_print_gguf_tensor() {
    let tensors = [
        GgufTensorInfo {
            name: String::from("tensor1"),
            n_dims: 2,
            shapes: vec![1, 2],
            ggml_type: 0,
            offset: 0,
        },
        GgufTensorInfo {
            name: String::from("tensor2"),
            n_dims: 2,
            shapes: vec![3, 4],
            ggml_type: 0,
            offset: 0,
        },
    ];
    let both = "Tensors (first 2 of 2):\n\
        ─────────────────────────────────\n\
        [0] tensor1 | n_dims: 2 | shape: [1, 2] | type: 0 | offset: 0x0\n\
        [1] tensor2 | n_dims: 2 | shape: [3, 4] | type: 0 | offset: 0x0\n\
        ─────────────────────────────────\n";
    let cases = vec![
        (
            0,
            "Tensors (first 0 of 2):\n\
            ─────────────────────────────────\n\
            ─────────────────────────────────\n",
        ),
        (
            1,
            "Tensors (first 1 of 2):\n\
            ─────────────────────────────────\n\
            [0] tensor1 | n_dims: 2 | shape: [1, 2] | type: 0 | offset: 0x0\n\
            ─────────────────────────────────\n",
        ),
        (2, both),
        (4, both),
    ];
    for (first_k, expected_output) in cases {
        let mut buffer = String::new();
        Loader::print_gguf_tensor_info(&mut buffer, &tensors, first_k, 2);
        assert_eq!(buffer, expected_output);
    }
}

#[test]
fn tensor_offsets_are_shown_in_base_sixteen() {
    let tensor = GgufTensorInfo {
        name: String::from("w"),
        n_dims: 1,
        shapes: vec![-7],
        ggml_type: -1,
        offset: 43981,
    };
    let mut buffer = String::new();
    Loader::print_gguf_tensor_info(&mut buffer, &[tensor], 1, 1);
    assert!(buffer.contains("[0] w | n_dims: 1 | shape: [-7] | type: -1 | offset: 0xabcd\n"));
}

#[test]
fn test_get_gguf_value_success() {
    let cases = vec![
        (vec![0x00], GgufType::Uint8, GgufValue::Uint8(0)),
        (vec![0x01], GgufType::Int8, GgufValue::Int8(1)),
        (vec![0x02, 0x03], GgufType::Uint16, GgufValue::Uint16(0x0302)),
        (vec![0x04, 0x05], GgufType::Int16, GgufValue::Int16(0x0504)),
        (
            vec![0x06, 0x07, 0x08, 0x09],
            GgufType::Uint32,
            GgufValue::Uint32(0x09080706),
        ),
        (
            vec![0x0A, 0x0B, 0x0C, 0x0D],
            GgufType::Int32,
            GgufValue::Int32(0x0D0C0B0A),
        ),
        (
            vec![0x0E, 0x0F, 0x10, 0x11],
            GgufType::Float32,
            GgufValue::Float32(float(f32::from_le_bytes([0x0E, 0x0F, 0x10, 0x11]))),
        ),
        (vec![0x12], GgufType::Bool, GgufValue::Bool(true)),
        (vec![0x00], GgufType::Bool, GgufValue::Bool(false)),
        (vec![0; 8], GgufType::String, GgufValue::String(String::from(""))),
        (
            vec![0x04, 0, 0, 0, 0, 0, 0, 0, b'a', b'b', b'c', b'd'],
            GgufType::String,
            GgufValue::String(String::from("abcd")),
        ),
        (
            vec![
                0x09, 0, 0, 0, 0, 0, 0, 0, b'a', b'b', b'c', b'd', 0x00, b'e', b'f', b'g', b'h',
            ],
            GgufType::String,
            GgufValue::String(String::from("abcd\0efgh")),
        ),
        (
            vec![0x07, 0x06, 0x05, 0x04, 0x03, 0x02, 0x01, 0x00],
            GgufType::Uint64,
            GgufValue::Uint64(0x0001020304050607),
        ),
        (
            vec![0x0F, 0x0E, 0x0D, 0x0C, 0x0B, 0x0A, 0x09, 0x08],
            GgufType::Int64,
            GgufValue::Int64(0x08090A0B0C0D0E0F),
        ),
        (
            vec![0x12, 0x13, 0x14, 0x15, 0x00, 0x00, 0x00, 0x00],
            GgufType::Float64,
            GgufValue::Float64(Float64 {
                bits: f64::from_le_bytes([0x12, 0x13, 0x14, 0x15, 0x00, 0x00, 0x00, 0x00])
                    .to_bits(),
            }),
        ),
        (
            vec![
                0x04, 0, 0, 0, 0x04, 0, 0, 0, 0, 0, 0, 0, 0x00, 0, 0, 0, 0x01, 0, 0, 0, 0x02, 0, 0,
                0, 0x03, 0, 0, 0,
            ],
            GgufType::Array,
            GgufValue::Array(vec![
                GgufValue::Uint32(0),
                GgufValue::Uint32(1),
                GgufValue::Uint32(2),
                GgufValue::Uint32(3),
            ]),
        ),
    ];
    for (bytes, value_type, expected_value) in cases {
        let mut cursor = ByteCursor::new(bytes.as_slice());
        let result = Loader::get_gguf_value(&mut cursor, &value_type)
            .expect("get_gguf_value expected to succeed but failed");
        assert_eq!(result, expected_value);
        let mut skipping = ByteCursor::new(bytes.as_slice());
        Loader::skip_gguf_value(&mut skipping, &value_type)
            .expect("skip_gguf_value expected to succeed but failed");
        assert_eq!(skipping.position, cursor.position);
    }
}

#[test]
fn test_get_gguf_value_failure() {
    let too_long = (MAX_STRING_LEN + 1).to_le_bytes().to_vec();
    let mut too_many = vec![0x01, 0x00, 0x00, 0x00];
    too_many.extend((MAX_ARRAY_ELEMENTS + 1).to_le_bytes());
    let cases = vec![
        (vec![], GgufType::Uint8, "reading u8"),
        (vec![], GgufType::Int8, "reading i8"),
        (vec![], GgufType::Uint16, "reading u16"),
        (vec![], GgufType::Int16, "reading i16"),
        (vec![], GgufType::Uint32, "reading u32"),
        (vec![], GgufType::Int32, "reading i32"),
        (vec![], GgufType::Float32, "reading f32"),
        (vec![], GgufType::Bool, "reading bool"),
        (vec![], GgufType::String, "reading string length"),
        (too_long, GgufType::String, "String length exceeds safety threshold"),
        (
            vec![0x04, 0, 0, 0, 0, 0, 0, 0],
            GgufType::String,
            "reading string bytes",
        ),
        (vec![], GgufType::Array, "reading gguf type"),
        (vec![0x01, 0x00, 0x00, 0x00], GgufType::Array, "reading array length"),
        (too_many, GgufType::Array, "Array length exceeds safety threshold"),
        (vec![], GgufType::Uint64, "reading u64"),
        (vec![], GgufType::Int64, "reading i64"),
        (vec![], GgufType::Float64, "reading f64"),
    ];
    for (bytes, value_type, expected_error_str) in cases {
        let mut cursor = ByteCursor::new(bytes.as_slice());
        let result = Loader::get_gguf_value(&mut cursor, &value_type)
            .expect_err("get_gguf_value expected to fail but succeeded");
        assert!(result.message().contains(expected_error_str));
    }
}

#[test]
fn text_that_is_no_utf8_is_refused() {
    let bytes = vec![0x02, 0, 0, 0, 0, 0, 0, 0, 0xff, 0xfe];
    let mut cursor = ByteCursor::new(bytes.as_slice());
    let result = Loader::read_gguf_string(&mut cursor).expect_err("bytes that are no text");
    assert!(matches!(result, LociError::InvalidUtf8 { .. }));
}

#[test]
fn test_read_gguf_type_unknown_gguf_type() {
    let bytes = vec![0x13, 0x00, 0x00, 0x00];
    let mut cursor = ByteCursor::new(bytes.as_slice());
    let result = Loader::read_gguf_type(&mut cursor)
        .expect_err("read_gguf_type expected to fail but succeeded");
    assert!(
        matches!(result, LociError::UnknownGgufType(..)),
        "read_gguf_type expected to fail with 'UnknownGgufType' but failed with '{}'",
        result.message()
    );
}

#[test]
fn test_skip_gguf_value_success() {
    let four = vec![0x04, 0x00, 0x00, 0x00];
    let eight = vec![0x04, 0x00, 0x00, 0x00, 0x01, 0x00, 0x00, 0x00];
    let cases = vec![
        (four.clone(), GgufType::Uint8, 1),
        (four.clone(), GgufType::Int8, 1),
        (four.clone(), GgufType::Uint16, 2),
        (four.clone(), GgufType::Int16, 2),
        (four.clone(), GgufType::Uint32, 4),
        (four.clone(), GgufType::Int32, 4),
        (four.clone(), GgufType::Float32, 4),
        (vec![0x01, 0x00, 0x00, 0x00], GgufType::Bool, 1),
        (vec![0x04, 0, 0, 0, 0, 0, 0, 0, 0, 0, 0, 0], GgufType::String, 12),
        (
            vec![0x04, 0, 0, 0, 0x01, 0, 0, 0, 0, 0, 0, 0, 0x01, 0, 0, 0],
            GgufType::Array,
            16,
        ),
        (eight.clone(), GgufType::Uint64, 8),
        (eight.clone(), GgufType::Int64, 8),
        (eight.clone(), GgufType::Float64, 8),
    ];
    for (bytes, value_type, expected_position) in cases {
        let mut cursor = ByteCursor::new(bytes.as_slice());
        Loader::skip_gguf_value(&mut cursor, &value_type)
            .expect("skip_gguf_value expected to succeed but failed");
        assert_eq!(cursor.position, expected_position);
    }
}

#[test]
fn test_skip_gguf_value_failure() {
    let bytes = vec![0x00];
    let mut cursor = ByteCursor::new(bytes.as_slice());
    let result = Loader::skip_gguf_value(&mut cursor, &GgufType::String)
        .expect_err("skip_gguf_value expected to fail but succeeded");
    assert!(result.message().contains("reading string length for skip"));
}

#[test]
fn test_get_byte_alignment() {
    let entry = |key: &str, value: u32| GgufKVMeta {
        key: key.to_string(),
        value_type: GgufType::Uint32,
        value: GgufValue::Uint32(value),
    };
    assert_eq!(Loader::get_byte_alignment(&[entry("general.alignment", 64)]), 64);
    assert_eq!(Loader::get_byte_alignment(&[entry("general.alignment", 0)]), 0);
    assert_eq!(Loader::get_byte_alignment(&[entry("not.general.alignment", 64)]), 32);
}

#[test]
fn positions_are_aligned_upwards() {
    let bytes = vec![0u8; 200];
    for start in 0..200u64 {
        for shift in 0..6 {
            let alignment = 1i64 << shift;
            let mut cursor = ByteCursor::new(bytes.as_slice());
            cursor.position = start;
            let result = Loader::get_pos_with_byte_alignment(&cursor, alignment);
            assert_eq!(result % alignment, 0);
            assert!(result >= start as i64);
            assert!(result - (start as i64) < alignment);
        }
    }
    let cursor = ByteCursor::new(bytes.as_slice());
    assert_eq!(Loader::get_pos_with_byte_alignment(&cursor, 0), 0);
}

#[test]
fn test_as_usize() {
    assert_eq!(GgufValue::Uint8(42).as_usize(), Some(42));
    assert_eq!(GgufValue::Int32(100).as_usize(), Some(100));
    assert_eq!(GgufValue::Int32(-5).as_usize(), None);
    assert_eq!(GgufValue::Float32(float(3.14)).as_usize(), None);
    assert_eq!(GgufValue::Bool(true).as_usize(), None);
    assert_eq!(GgufValue::String("hello".into()).as_usize(), None);
    assert_eq!(GgufValue::Array(vec![]).as_usize(), None);
}

#[test]
fn whole_numbers_as_usize() {
    assert_eq!(GgufValue::Uint16(9).as_usize(), Some(9));
    assert_eq!(GgufValue::Uint32(9).as_usize(), Some(9));
    assert_eq!(GgufValue::Int16(9).as_usize(), Some(9));
    assert_eq!(GgufValue::Int16(-9).as_usize(), None);
    assert_eq!(GgufValue::Int8(9).as_usize(), None);
    assert_eq!(GgufValue::Uint64(9).as_usize(), None);
    assert_eq!(GgufValue::Int64(9).as_usize(), None);
}

#[test]
fn test_as_f32() {
    assert_eq!(GgufValue::Uint8(42).as_f32(), Some(float(42.0)));
    assert_eq!(GgufValue::Int32(100).as_f32(), None);
    assert_eq!(GgufValue::Int32(-5).as_f32(), None);
    assert_eq!(GgufValue::Float32(float(3.14)).as_f32(), Some(float(3.14)));
    assert_eq!(GgufValue::Bool(true).as_f32(), None);
    assert_eq!(GgufValue::String("hello".into()).as_f32(), None);
    assert_eq!(GgufValue::Array(vec![]).as_f32(), None);
}

#[test]
fn small_integers_as_f32_are_exact() {
    for value in [0u16, 1, 2, 3, 1000, 40961, 65535] {
        assert_eq!(GgufValue::Uint16(value).as_f32(), Some(float(value as f32)));
    }
    for value in [i16::MIN, -3, -1, 0, 7, i16::MAX] {
        assert_eq!(GgufValue::Int16(value).as_f32(), Some(float(value as f32)));
    }
    for value in [0u8, 1, 200, 255] {
        assert_eq!(GgufValue::Uint8(value).as_f32(), Some(float(value as f32)));
    }
    assert_eq!(GgufValue::Int8(1).as_f32(), None);
}

#[test]
fn test_as_u32() {
    assert_eq!(GgufValue::Uint8(42).as_u32(), Some(42));
    assert_eq!(GgufValue::Int32(100).as_u32(), None);
    assert_eq!(GgufValue::Int32(-5).as_u32(), None);
    assert_eq!(GgufValue::Float32(float(3.14)).as_u32(), None);
    assert_eq!(GgufValue::Bool(true).as_u32(), None);
    assert_eq!(GgufValue::String("hello".into()).as_u32(), None);
    assert_eq!(GgufValue::Array(vec![]).as_u32(), None);
}

#[test]
fn test_as_i32() {
    assert_eq!(GgufValue::Uint8(42).as_i32(), Some(42));
    assert_eq!(GgufValue::Int32(100).as_i32(), Some(100));
    assert_eq!(GgufValue::Int32(-5).as_i32(), Some(-5));
    assert_eq!(GgufValue::Float32(float(3.14)).as_i32(), None);
    assert_eq!(GgufValue::Bool(true).as_i32(), None);
    assert_eq!(GgufValue::String("hello".into()).as_i32(), None);
    assert_eq!(GgufValue::Array(vec![]).as_i32(), None);
}

#[test]
fn test_as_i64() {
    assert_eq!(GgufValue::Uint8(42).as_i64(), Some(42));
    assert_eq!(GgufValue::Int32(100).as_i64(), Some(100));
    assert_eq!(GgufValue::Int32(-5).as_i64(), Some(-5));
    assert_eq!(GgufValue::Float32(float(3.14)).as_i64(), None);
    assert_eq!(GgufValue::Bool(true).as_i64(), None);
    assert_eq!(GgufValue::String("hello".into()).as_i64(), None);
    assert_eq!(GgufValue::Array(vec![]).as_i64(), None);
}

#[test]
fn test_as_bool() {
    assert_eq!(GgufValue::Uint8(1).as_bool(), Some(true));
    assert_eq!(GgufValue::Uint8(0).as_bool(), Some(false));
    assert_eq!(GgufValue::Uint8(42).as_bool(), None);
    assert_eq!(GgufValue::Int32(100).as_bool(), None);
    assert_eq!(GgufValue::Int32(-5).as_bool(), None);
    assert_eq!(GgufValue::Float32(float(3.14)).as_bool(), None);
    assert_eq!(GgufValue::Bool(true).as_bool(), Some(true));
    assert_eq!(GgufValue::String("hello".into()).as_bool(), None);
    assert_eq!(GgufValue::Array(vec![]).as_bool(), None);
}

#[test]
fn test_as_str() {
    assert_eq!(GgufValue::Uint8(42).as_str(), None);
    assert_eq!(GgufValue::Int32(100).as_str(), None);
    assert_eq!(GgufValue::Float32(float(3.14)).as_str(), None);
    assert_eq!(GgufValue::Bool(true).as_str(), None);
    assert_eq!(GgufValue::String("hello".into()).as_str(), Some("hello"));
    assert_eq!(GgufValue::Array(vec![]).as_str(), None);
}

#[test]
fn test_as_slice() {
    let list = GgufValue::Array(vec![
        GgufValue::Uint8(42),
        GgufValue::Int32(100),
        GgufValue::Int32(-5),
        GgufValue::Float32(float(3.14)),
        GgufValue::Bool(true),
        GgufValue::String("hello".into()),
    ]);
    let slice = list.as_slice().expect("an array");
    assert_eq!(slice.len(), 6);
    assert!(matches!(slice[0], GgufValue::Uint8(42)));
    assert!(matches!(slice[1], GgufValue::Int32(100)));
    assert!(matches!(slice[2], GgufValue::Int32(-5)));
    assert_eq!(slice[3], GgufValue::Float32(float(3.14)));
    assert!(matches!(slice[4], GgufValue::Bool(true)));
    assert!(matches!(&slice[5], GgufValue::String(s) if s == "hello"));
    assert_eq!(GgufValue::Array(vec![]).as_slice().map(|s| s.len()), Some(0));
    assert_eq!(GgufValue::Bool(true).as_slice().map(|s| s.len()), None);
}

#[test]
fn test_display_gguf_value() {
    assert_eq!(shown(&GgufValue::Uint16(8)), "8");
    assert_eq!(shown(&GgufValue::Int32(100)), "100");
    assert_eq!(shown(&GgufValue::Int32(-5)), "-5");
    assert_eq!(shown(&GgufValue::Float32(float(3.14))), "3.14");
    assert_eq!(shown(&GgufValue::Bool(true)), "true");
    assert_eq!(shown(&GgufValue::String("hello".into())), "hello");
    assert_eq!(shown(&GgufValue::Array(vec![])), "[]");
    assert_eq!(shown(&GgufValue::Int64(i64::MIN)), "-9223372036854775808");
    assert_eq!(shown(&GgufValue::Uint64(u64::MAX)), "18446744073709551615");
}

#[test]
fn test_complex_array_snapshot() {
    let complex_nested_array = GgufValue::Array(vec![
        GgufValue::String("nested".into()),
        GgufValue::Array(vec![GgufValue::Uint8(1), GgufValue::Int16(-2)]),
    ]);
    assert_eq!(shown(&complex_nested_array), "[nested, [1, -2]]");
}

#[test]
fn test_gguf_value_float32_snapshot() {
    assert_eq!(shown(&GgufValue::Float32(float(3.14))), "3.14");
}

#[test]
fn test_ggml_type_from_primitive() {
    let cases = [
        (0, GgmlType::F32),
        (1, GgmlType::F16),
        (2, GgmlType::Q40),
        (3, GgmlType::Q41),
        (6, GgmlType::Q50),
        (7, GgmlType::Q51),
        (8, GgmlType::Q80),
        (9, GgmlType::Q81),
        (10, GgmlType::Q2K),
        (11, GgmlType::Q3K),
        (12, GgmlType::Q4K),
        (13, GgmlType::Q5K),
        (14, GgmlType::Q6K),
        (15, GgmlType::Q8K),
        (16, GgmlType::Iq2Xxs),
        (17, GgmlType::Iq2Xs),
        (18, GgmlType::Iq3Xxs),
        (19, GgmlType::Iq1S),
        (20, GgmlType::Iq4Nl),
        (21, GgmlType::Iq3S),
        (22, GgmlType::Iq2S),
        (23, GgmlType::Iq4Xs),
        (24, GgmlType::I8),
        (25, GgmlType::I16),
        (26, GgmlType::I32),
        (27, GgmlType::I64),
        (28, GgmlType::F64),
        (29, GgmlType::Iq1M),
        (30, GgmlType::Bf16),
        (34, GgmlType::Tq10),
        (35, GgmlType::Tq20),
        (39, GgmlType::Mxfp4),
        (40, GgmlType::Count),
    ];
    for (input, expected) in cases {
        assert_eq!(GgmlType::from_i32(input), Some(expected));
    }
    assert_eq!(GgmlType::from_i32(4), None);
    assert_eq!(GgmlType::from_i32(-1), None);
}

#[test]
fn gguf_type_codes() {
    assert_eq!(GgufType::from_i32(0), Some(GgufType::Uint8));
    assert_eq!(GgufType::from_i32(8), Some(GgufType::String));
    assert_eq!(GgufType::from_i32(12), Some(GgufType::Float64));
    assert_eq!(GgufType::from_i32(13), None);
    assert_eq!(GgufType::from_i32(-1), None);
    assert_eq!(GgufType::Uint32.name(), "Uint32");
}

#[test]
fn errors_in_words() {
    let inner = LociError::UnknownGgufType(19);
    assert!(inner.message().contains("19"));
    let outer = inner.with_meta_ctx("GGUF", "metadata key", 24);
    assert!(outer.message().contains("metadata key"));
    assert!(outer.message().contains("24"));
    let failed: Result<u8, String> = Err("gone".to_string());
    let error = failed.io_ctx("reading").expect_err("a failure");
    assert!(matches!(error, LociError::IoWithContext { context: "reading", .. }));
    assert!(error.message().contains("gone"));
    let kept: Result<u8, String> = Ok(3);
    assert!(matches!(kept.io_ctx("reading"), Ok(3)));
}
