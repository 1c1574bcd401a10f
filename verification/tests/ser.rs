use roslibrust_serde_rosmsg::{to_vec, to_vec_skip_length, to_writer, Cursor, MapEntry, Value};

fn s(text: &str) -> Value {
    Value::Str(String::from(text))
}

fn bools(v: &[bool]) -> Value {
    Value::Sequence(Some(v.len()), v.iter().map(|b| Value::Bool(*b)).collect())
}

fn test_struct_one() -> Value {
    Value::Struct(vec![
        Value::I16(2050),
        Value::Bool(true),
        Value::U8(7),
        s("ABC012"),
        bools(&[true, false, false, true]),
    ])
}

fn string_map(pairs: &[(&str, &str)]) -> Value {
    let mut entries = Vec::new();
    for (k, v) in pairs {
        entries.push(MapEntry::Key(s(k)));
        entries.push(MapEntry::Val(s(v)));
    }
    Value::Mapping(entries)
}

#[test]
fn writes_u8() {
    assert_eq!(vec![1, 0, 0, 0, 150], to_vec(&Value::U8(150u8)).unwrap());
}

#[test]
fn writes_u16() {
    assert_eq!(vec![2, 0, 0, 0, 0x34, 0xA2], to_vec(&Value::U16(0xA234u16)).unwrap());
}

#[test]
fn writes_u32() {
    assert_eq!(
        vec![4, 0, 0, 0, 0x45, 0x23, 1, 0xCD],
        to_vec(&Value::U32(0xCD012345u32)).unwrap()
    );
}

#[test]
fn writes_u64() {
    assert_eq!(
        vec![8, 0, 0, 0, 0xBB, 0xAA, 0x10, 0x32, 0x54, 0x76, 0x98, 0xAB],
        to_vec(&Value::U64(0xAB9876543210AABBu64)).unwrap()
    );
}

#[test]
fn writes_i8() {
    assert_eq!(vec![1, 0, 0, 0, 156], to_vec(&Value::I8(-100i8)).unwrap());
}

#[test]
fn writes_i16() {
    assert_eq!(vec![2, 0, 0, 0, 0xD0, 0x8A], to_vec(&Value::I16(-30000i16)).unwrap());
}

#[test]
fn writes_i32() {
    assert_eq!(
        vec![4, 0, 0, 0, 0x00, 0x6C, 0xCA, 0x88],
        to_vec(&Value::I32(-2000000000i32)).unwrap()
    );
}

#[test]
fn writes_i64() {
    assert_eq!(
        vec![8, 0, 0, 0, 0x00, 0x00, 0x7c, 0x1d, 0xaf, 0x93, 0x19, 0x83],
        to_vec(&Value::I64(-9000000000000000000i64)).unwrap()
    );
}

#[test]
fn writes_f32() {
    assert_eq!(
        vec![4, 0, 0, 0, 0x00, 0x70, 0x7b, 0x44],
        to_vec(&Value::F32(1005.75f32.to_bits())).unwrap()
    );
}

#[test]
fn writes_f64() {
    assert_eq!(
        vec![8, 0, 0, 0, 0x00, 0x00, 0x00, 0x00, 0x00, 0x6e, 0x8f, 0x40],
        to_vec(&Value::F64(1005.75f64.to_bits())).unwrap()
    );
}

#[test]
fn writes_bool() {
    assert_eq!(vec![1, 0, 0, 0, 1], to_vec(&Value::Bool(true)).unwrap());
    assert_eq!(vec![1, 0, 0, 0, 0], to_vec(&Value::Bool(false)).unwrap());
}

#[test]
fn writes_string() {
    assert_eq!(vec![4, 0, 0, 0, 0, 0, 0, 0], to_vec(&s("")).unwrap());
    assert_eq!(
        vec![
            17, 0, 0, 0, 13, 0, 0, 0, 72, 101, 108, 108, 111, 44, 32, 87, 111, 114, 108, 100, 33
        ],
        to_vec(&s("Hello, World!")).unwrap()
    );
}

#[test]
fn writes_array() {
    // An array is serialized as a tuple of its elements.
    let array = Value::Tuple(vec![
        Value::I16(7),
        Value::I16(1025),
        Value::I16(33),
        Value::I16(57),
    ]);
    assert_eq!(vec![8, 0, 0, 0, 7, 0, 1, 4, 33, 0, 57, 0], to_vec(&array).unwrap());
}

#[test]
fn writes_vector() {
    let vector = Value::Sequence(
        Some(4),
        vec![Value::I16(7), Value::I16(1025), Value::I16(33), Value::I16(57)],
    );
    assert_eq!(
        vec![12, 0, 0, 0, 4, 0, 0, 0, 7, 0, 1, 4, 33, 0, 57, 0],
        to_vec(&vector).unwrap()
    );
}

#[test]
fn writes_tuple() {
    let tuple = Value::Tuple(vec![
        Value::I16(2050),
        Value::Bool(true),
        Value::U8(7),
        s("ABC012"),
        bools(&[true, false, false, true]),
    ]);
    assert_eq!(
        vec![22, 0, 0, 0, 2, 8, 1, 7, 6, 0, 0, 0, 65, 66, 67, 48, 49, 50, 4, 0, 0, 0, 1, 0, 0, 1],
        to_vec(&tuple).unwrap()
    );
}

#[test]
fn writes_simple_struct() {
    assert_eq!(
        vec![22, 0, 0, 0, 2, 8, 1, 7, 6, 0, 0, 0, 65, 66, 67, 48, 49, 50, 4, 0, 0, 0, 1, 0, 0, 1],
        to_vec(&test_struct_one()).unwrap()
    );
}

#[test]
fn writes_simple_struct_no_length() {
    assert_eq!(
        vec![
            //22, 0, 0, 0,
            2, 8, 1, 7, 6, 0, 0, 0, 65, 66, 67, 48, 49, 50, 4, 0, 0, 0, 1, 0, 0, 1
        ],
        to_vec_skip_length(&test_struct_one()).unwrap()
    );
}

#[test]
fn writes_complex_struct() {
    let part = |a: &str, b: bool| Value::Struct(vec![s(a), Value::Bool(b)]);
    let parts = vec![part("ABC", true), part("1!!!!", true), part("234b", false)];
    let v = Value::Struct(vec![Value::Sequence(Some(parts.len()), parts), s("EEe")]);
    assert_eq!(
        vec![
            38, 0, 0, 0, 3, 0, 0, 0, 3, 0, 0, 0, 65, 66, 67, 1, 5, 0, 0, 0, 49, 33, 33, 33, 33, 1,
            4, 0, 0, 0, 50, 51, 52, 98, 0, 3, 0, 0, 0, 69, 69, 101
        ],
        to_vec(&v).unwrap()
    );
}

#[test]
fn writes_empty_string_string_map() {
    assert_eq!(vec![0, 0, 0, 0], to_vec(&string_map(&[])).unwrap());
}

#[test]
fn writes_single_item_string_string_map() {
    assert_eq!(
        vec![11, 0, 0, 0, 7, 0, 0, 0, 97, 98, 99, 61, 49, 50, 51],
        to_vec(&string_map(&[("abc", "123")])).unwrap()
    );
}

#[test]
fn writes_multiple_item_string_string_map() {
    // A hash map hands its entries over in either order.
    for pairs in [[("abc", "123"), ("AAA", "B0")], [("AAA", "B0"), ("abc", "123")]] {
        let answer = to_vec(&string_map(&pairs)).unwrap();
        assert!(
            vec![
                21, 0, 0, 0, 7, 0, 0, 0, 97, 98, 99, 61, 49, 50, 51, 6, 0, 0, 0, 65, 65, 65, 61,
                66, 48
            ] == answer
                || vec![
                    21, 0, 0, 0, 6, 0, 0, 0, 65, 65, 65, 61, 66, 48, 7, 0, 0, 0, 97, 98, 99, 61,
                    49, 50, 51
                ] == answer
        );
    }
}

#[test]
fn to_writer_basic() {
    let mut cursor = Cursor::new(Vec::new());
    to_writer(&mut cursor, &s("Hello, World!")).unwrap();
    assert_eq!(cursor.into_inner(), b"\x11\0\0\0\x0d\0\0\0Hello, World!");
}

#[test]
fn to_writer_same_as_to_vec() {
    let test_value = Value::Sequence(
        Some(5),
        vec![Value::U32(1), Value::U32(2), Value::U32(3), Value::U32(4), Value::U32(5)],
    );

    let expected = to_vec(&test_value).unwrap();

    let mut cursor = Cursor::new(Vec::new());
    to_writer(&mut cursor, &test_value).unwrap();

    assert_eq!(cursor.into_inner(), expected);
}

#[test]
fn to_writer_multiple_times() {
    let mut cursor = Cursor::new(Vec::new());

    // First write
    to_writer(&mut cursor, &s("Hello")).unwrap();

    // Second write appends
    to_writer(&mut cursor, &s("World")).unwrap();

    let result = cursor.into_inner();

    // Should contain both messages
    assert_eq!(&result[0..13], b"\x09\0\0\0\x05\0\0\0Hello");
    assert_eq!(&result[13..26], b"\x09\0\0\0\x05\0\0\0World");
}
