use roslibrust_serde_rosmsg::{
    to_vec, to_vec_skip_length, to_writer, to_writer_skip_length, Cursor, Error, MapEntry,
    Serializer, Value,
};

fn s(text: &str) -> Value {
    Value::Str(String::from(text))
}

#[test]
fn char_is_refused() {
    assert_eq!(to_vec(&Value::Char('a')), Err(Error::UnsupportedCharType));
}

#[test]
fn enums_and_options_are_refused() {
    for v in [
        Value::OptionNone,
        Value::OptionSome,
        Value::UnitVariant,
        Value::NewtypeVariant,
        Value::TupleVariant,
        Value::StructVariant,
    ] {
        assert_eq!(to_vec(&v), Err(Error::UnsupportedEnumType));
    }
}

#[test]
fn sequence_without_length_is_refused() {
    let v = Value::Sequence(None, vec![Value::U8(1)]);
    assert_eq!(to_vec(&v), Err(Error::VariableArraySizeAnnotation));
}

#[test]
fn failure_of_the_value_is_reported() {
    let v = Value::Tuple(vec![Value::U8(1), Value::Failed(String::from("bad field"))]);
    assert_eq!(to_vec(&v), Err(Error::Message(String::from("bad field"))));
}

#[test]
fn first_failure_wins() {
    let v = Value::Tuple(vec![Value::Char('x'), Value::Failed(String::from("later"))]);
    assert_eq!(to_vec(&v), Err(Error::UnsupportedCharType));
}

#[test]
fn unit_and_unit_struct_write_nothing() {
    assert_eq!(to_vec(&Value::Unit).unwrap(), vec![0, 0, 0, 0]);
    assert_eq!(to_vec_skip_length(&Value::UnitStruct).unwrap(), Vec::<u8>::new());
}

#[test]
fn newtype_struct_is_transparent() {
    let inner = to_vec(&Value::U16(513)).unwrap();
    let wrapped = to_vec(&Value::NewtypeStruct(Box::new(Value::U16(513)))).unwrap();
    assert_eq!(inner, wrapped);
    assert_eq!(wrapped, vec![2, 0, 0, 0, 1, 2]);
}

#[test]
fn bytes_are_written_with_their_size() {
    assert_eq!(
        to_vec_skip_length(&Value::Bytes(vec![9, 8, 7])).unwrap(),
        vec![3, 0, 0, 0, 9, 8, 7]
    );
}

#[test]
fn str_is_written_as_its_utf8_bytes() {
    let text = "h\u{e9}";
    assert_eq!(
        to_vec(&s(text)).unwrap(),
        to_vec(&Value::Bytes(text.as_bytes().to_vec())).unwrap()
    );
    assert_eq!(to_vec_skip_length(&s(text)).unwrap(), vec![3, 0, 0, 0, b'h', 0xC3, 0xA9]);
}

#[test]
fn sequence_length_is_the_announced_one() {
    let v = Value::Sequence(Some(7), vec![Value::U8(1)]);
    assert_eq!(to_vec_skip_length(&v).unwrap(), vec![7, 0, 0, 0, 1]);
}

#[test]
fn tuple_struct_is_a_tuple() {
    let a = Value::TupleStruct(vec![Value::U8(1), Value::I8(-1)]);
    let b = Value::Tuple(vec![Value::U8(1), Value::I8(-1)]);
    assert_eq!(to_vec(&a).unwrap(), to_vec(&b).unwrap());
    assert_eq!(to_vec_skip_length(&a).unwrap(), vec![1, 255]);
}

#[test]
fn message_is_length_then_data() {
    let v = Value::Tuple(vec![s("ab"), Value::U32(0x01020304)]);
    let data = to_vec_skip_length(&v).unwrap();
    let message = to_vec(&v).unwrap();
    assert_eq!(&message[0..4], &(data.len() as u32).to_le_bytes());
    assert_eq!(&message[4..], &data[..]);
}

#[test]
fn map_key_drops_four_bytes_of_non_string_key() {
    // A key of one byte leaves nothing after its first four bytes are dropped.
    let v = Value::Mapping(vec![MapEntry::Key(Value::U8(5)), MapEntry::Val(s("x"))]);
    assert_eq!(to_vec_skip_length(&v).unwrap(), vec![2, 0, 0, 0, b'=', b'x']);
}

#[test]
fn map_value_without_new_key_extends_the_item() {
    let v = Value::Mapping(vec![
        MapEntry::Key(s("k")),
        MapEntry::Val(s("a")),
        MapEntry::Val(s("b")),
    ]);
    assert_eq!(
        to_vec_skip_length(&v).unwrap(),
        vec![3, 0, 0, 0, b'k', b'=', b'a', 4, 0, 0, 0, b'k', b'=', b'a', b'b']
    );
}

#[test]
fn map_failure_in_key() {
    let v = Value::Mapping(vec![
        MapEntry::Key(s("k")),
        MapEntry::Val(s("a")),
        MapEntry::Key(Value::OptionNone),
        MapEntry::Val(s("b")),
    ]);
    let mut writer = Vec::new();
    assert_eq!(to_writer_skip_length(&mut writer, &v), Err(Error::UnsupportedEnumType));
    assert_eq!(writer, vec![3, 0, 0, 0, b'k', b'=', b'a']);
}

#[test]
fn skip_length_writer_keeps_partial_output() {
    let v = Value::Tuple(vec![Value::U8(1), Value::Char('c'), Value::U8(2)]);
    let mut writer = vec![42];
    assert_eq!(to_writer_skip_length(&mut writer, &v), Err(Error::UnsupportedCharType));
    assert_eq!(writer, vec![42, 1]);
}

#[test]
fn writer_keeps_placeholder_on_failure() {
    let v = Value::Tuple(vec![Value::U16(0x0102), Value::OptionSome]);
    let mut writer = Cursor::new(vec![9]);
    writer.set_position(1);
    assert_eq!(to_writer(&mut writer, &v), Err(Error::UnsupportedEnumType));
    assert_eq!(writer.position(), 7);
    assert_eq!(writer.into_inner(), vec![9, 0, 0, 0, 0, 2, 1]);
}

#[test]
fn writer_appends_after_existing_bytes() {
    let mut writer = Cursor::new(vec![1, 2]);
    writer.set_position(2);
    to_writer(&mut writer, &Value::U8(3)).unwrap();
    assert_eq!(writer.get_ref(), &vec![1, 2, 1, 0, 0, 0, 3]);
}

#[test]
fn serializer_does_not_write_size_prefix() {
    let mut ser = Serializer::new(vec![0xFF]);
    ser.serialize(&Value::U16(0x0A0B)).unwrap();
    ser.serialize_str("hi").unwrap();
    assert!(!ser.is_human_readable());
    assert_eq!(ser.into_inner(), vec![0xFF, 0x0B, 0x0A, 2, 0, 0, 0, b'h', b'i']);
}

#[test]
fn compound_writes_elements_after_length() {
    let mut ser = Serializer::new(Vec::new());
    {
        let mut seq = ser.serialize_seq(Some(2)).unwrap();
        seq.serialize_element(&Value::U8(4)).unwrap();
        seq.serialize_element(&Value::Bool(true)).unwrap();
        seq.end().unwrap();
    }
    assert_eq!(ser.into_inner(), vec![2, 0, 0, 0, 4, 1]);
}

#[test]
fn compound_seq_without_length() {
    let mut ser = Serializer::new(Vec::new());
    assert!(matches!(ser.serialize_seq(None), Err(Error::VariableArraySizeAnnotation)));
    assert_eq!(ser.into_inner(), Vec::<u8>::new());
}

#[test]
fn compound_map_writes_items() {
    let mut ser = Serializer::new(Vec::new());
    {
        let mut map = ser.serialize_map(Some(1));
        map.serialize_key(&s("a")).unwrap();
        assert_eq!(map.item, vec![b'a', b'=']);
        map.serialize_value(&s("1")).unwrap();
        map.end().unwrap();
    }
    assert_eq!(ser.into_inner(), vec![3, 0, 0, 0, b'a', b'=', b'1']);
}

#[test]
fn struct_compound_fields() {
    let mut ser = Serializer::new(Vec::new());
    {
        let mut st = ser.serialize_struct(2);
        st.serialize_field(&Value::I32(-1)).unwrap();
        st.serialize_field(&Value::Unit).unwrap();
        st.end().unwrap();
    }
    assert_eq!(ser.into_inner(), vec![0xFF, 0xFF, 0xFF, 0xFF]);
}

#[test]
fn floats_by_bits() {
    assert_eq!(
        to_vec_skip_length(&Value::F32((-2.5f32).to_bits())).unwrap(),
        (-2.5f32).to_le_bytes().to_vec()
    );
    assert_eq!(
        to_vec_skip_length(&Value::F64(0.1f64.to_bits())).unwrap(),
        0.1f64.to_le_bytes().to_vec()
    );
}

#[test]
fn tuples_compose() {
    let a = vec![Value::U8(1), s("x")];
    let b = vec![Value::I16(-2), Value::Bool(false)];
    let mut both = Vec::new();
    both.push(Value::U8(1));
    both.push(s("x"));
    both.push(Value::I16(-2));
    both.push(Value::Bool(false));
    let mut expected = to_vec_skip_length(&Value::Tuple(a)).unwrap();
    expected.extend(to_vec_skip_length(&Value::Tuple(b)).unwrap());
    assert_eq!(to_vec_skip_length(&Value::Tuple(both)).unwrap(), expected);
}

#[test]
fn supported_nested_value_succeeds() {
    let v = Value::Struct(vec![
        Value::NewtypeStruct(Box::new(Value::U64(1))),
        Value::Sequence(Some(1), vec![Value::Tuple(vec![Value::Unit])]),
        Value::Mapping(vec![MapEntry::Key(s("a")), MapEntry::Val(s("b"))]),
    ]);
    assert!(to_vec(&v).is_ok());
}

#[test]
fn unsupported_deep_inside_fails() {
    let v = Value::Struct(vec![Value::Sequence(
        Some(1),
        vec![Value::Tuple(vec![Value::U8(1), Value::OptionNone])],
    )]);
    assert_eq!(to_vec(&v), Err(Error::UnsupportedEnumType));
}

#[test]
fn writer_overwrites_at_earlier_position() {
    let mut writer = Cursor::new(vec![7, 7, 7, 7, 7, 7, 7, 7, 7]);
    writer.set_position(1);
    to_writer(&mut writer, &Value::U16(0x0201)).unwrap();
    assert_eq!(writer.position(), 7);
    assert_eq!(writer.into_inner(), vec![7, 2, 0, 0, 0, 1, 2, 7, 7]);
}

#[test]
fn writer_rewrites_message_in_place() {
    let v = Value::Tuple(vec![s("abc"), Value::U32(9)]);
    let message = to_vec(&v).unwrap();
    let mut writer = Cursor::new(message.clone());
    to_writer(&mut writer, &v).unwrap();
    assert_eq!(writer.position(), message.len());
    assert_eq!(writer.into_inner(), message);
}

#[test]
fn writer_past_the_end_pads_with_zeros() {
    let mut writer = Cursor::new(vec![5]);
    writer.set_position(3);
    to_writer(&mut writer, &Value::U8(1)).unwrap();
    assert_eq!(writer.into_inner(), vec![5, 0, 0, 1, 0, 0, 0, 1]);
}
