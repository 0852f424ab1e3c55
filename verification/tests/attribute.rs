use airuntime::model::attribute::{AttType, Attribute, AttributeError};
use airuntime::model::element::F32;

fn float(x: f32) -> F32 {
    F32::from_bits(x.to_bits())
}

fn number(x: F32) -> f32 {
    f32::from_bits(x.to_bits())
}

#[test]
fn it_works() {
    let attr = Attribute::from(-1);
    let v: i64 = attr.into_int().unwrap();
    assert_eq!(-1, v);

    let attr = Attribute::from(&[-1_i64, 1_i64] as &[i64]);
    let v: Vec<i64> = attr.into_ints().unwrap();
    assert_eq!(&[-1, 1], v.as_slice());

    let attr = Attribute::from(float(-1.0));
    let v: f32 = number(attr.into_float().unwrap());
    assert_eq!(-1.0, v);

    let a: &[f32] = &[1.0, 2.0];
    let bits: Vec<F32> = a.iter().map(|x| float(*x)).collect();
    let attr = Attribute::from(bits.as_slice());
    let v: Vec<f32> = attr.into_floats().unwrap().iter().map(|x| number(*x)).collect();
    assert_eq!(a, v.as_slice());

    let attr = Attribute::from("test");
    let v: String = attr.into_string().unwrap();
    assert_eq!("test", v);

    let str = String::from("value");
    let attr = Attribute::from_vec_u8_as_string(str.into_bytes());
    let v: String = attr.into_string().unwrap();
    assert_eq!("value", v);

    let attr = Attribute::from(&[String::from("1234"), String::from("123")] as &[String]);
    let v: Vec<String> = attr.into_strings().unwrap();
    assert_eq!(&[String::from("1234"), String::from("123")], v.as_slice());

    let v1: Vec<u8> = String::from("value1").into_bytes();
    let v2: Vec<u8> = String::from("value2").into_bytes();
    let mut v: Vec<Vec<u8>> = vec![];
    v.push(v1);
    v.push(v2);
    let attr = Attribute::from_vec_u8_as_strings(v);
    if let Some(u) = attr.into_data().try_into_own_data() {
        let vs = String::from_utf8(u).unwrap();
        assert_eq!(String::from("value1value2"), vs);
    } else {
        panic!("the storage of an attribute owns its bytes");
    };
}

#[test]
fn attribute_ints_through_float_accessor_is_a_typed_error() {
    let attr = Attribute::from(&[1_i64, 2_i64] as &[i64]);
    assert_eq!(
        attr.into_float(),
        Err(AttributeError::Mismatch { wanted: AttType::Float, found: AttType::Ints })
    );
}

#[test]
fn attribute_each_accessor_rejects_the_other_kinds() {
    let int = || Attribute::from(3);
    let text = || Attribute::from("t");
    assert_eq!(
        text().into_int(),
        Err(AttributeError::Mismatch { wanted: AttType::Int, found: AttType::String })
    );
    assert_eq!(
        int().into_ints(),
        Err(AttributeError::Mismatch { wanted: AttType::Ints, found: AttType::Int })
    );
    assert_eq!(
        int().into_floats(),
        Err(AttributeError::Mismatch { wanted: AttType::Floats, found: AttType::Int })
    );
    assert_eq!(
        int().into_string(),
        Err(AttributeError::Mismatch { wanted: AttType::String, found: AttType::Int })
    );
    assert_eq!(
        int().into_strings(),
        Err(AttributeError::Mismatch { wanted: AttType::Strings, found: AttType::Int })
    );
    assert_eq!(
        Attribute::from(float(1.5)).into_int(),
        Err(AttributeError::Mismatch { wanted: AttType::Int, found: AttType::Float })
    );
}

#[test]
fn attribute_kinds() {
    assert_eq!(Attribute::from(1).kind(), AttType::Int);
    assert_eq!(Attribute::from(&[1_i64] as &[i64]).kind(), AttType::Ints);
    assert_eq!(Attribute::from(float(1.0)).kind(), AttType::Float);
    assert_eq!(Attribute::from(&[float(1.0)] as &[F32]).kind(), AttType::Floats);
    assert_eq!(Attribute::from("s").kind(), AttType::String);
    assert_eq!(Attribute::from(&[String::from("s")] as &[String]).kind(), AttType::Strings);
    assert_eq!(Attribute::from_vec_u8_as_string(vec![1]).kind(), AttType::String);
    assert_eq!(Attribute::from_vec_u8_as_strings(vec![vec![1]]).kind(), AttType::Strings);
}

#[test]
fn attribute_storage_is_little_endian() {
    let bytes = Attribute::from(0x0102030405060708_i64).into_data().try_into_own_data().unwrap();
    assert_eq!(bytes, vec![8, 7, 6, 5, 4, 3, 2, 1]);
    let bytes = Attribute::from(float(1.0)).into_data().try_into_own_data().unwrap();
    assert_eq!(bytes, 1.0f32.to_le_bytes().to_vec());
    let bytes =
        Attribute::from(&[1_i64, -1_i64] as &[i64]).into_data().try_into_own_data().unwrap();
    assert_eq!(bytes, vec![1, 0, 0, 0, 0, 0, 0, 0, 255, 255, 255, 255, 255, 255, 255, 255]);
}

#[test]
fn attribute_text_that_is_not_utf8() {
    let attr = Attribute::from_vec_u8_as_string(vec![0xff, 0xfe]);
    assert_eq!(attr.into_string(), Err(AttributeError::InvalidUtf8));
    let attr = Attribute::from_vec_u8_as_strings(vec![vec![b'a'], vec![0xc0]]);
    assert_eq!(attr.into_strings(), Err(AttributeError::InvalidUtf8));
}

#[test]
fn attribute_texts_keep_their_bounds() {
    let attr = Attribute::from_vec_u8_as_strings(vec![
        String::from("ab").into_bytes(),
        vec![],
        String::from("cde").into_bytes(),
    ]);
    assert_eq!(
        attr.into_strings().unwrap(),
        vec![String::from("ab"), String::new(), String::from("cde")]
    );
    let attr = Attribute::from_vec_u8_as_strings(vec![]);
    assert_eq!(attr.into_strings().unwrap(), Vec::<String>::new());
}

#[test]
fn attribute_text_beyond_ascii_round_trips() {
    let attr = Attribute::from("模型 é");
    assert_eq!(attr.into_string().unwrap(), "模型 é");
}

#[test]
fn attribute_clone_holds_the_same() {
    let attr = Attribute::from(&[5_i64, 6_i64] as &[i64]);
    let copy = attr.clone();
    assert_eq!(attr.into_ints().unwrap(), copy.into_ints().unwrap());
}

#[test]
fn att_type_codes() {
    assert_eq!(AttType::Undefined.get_code(), 0);
    assert_eq!(AttType::Float.get_code(), 1);
    assert_eq!(AttType::Int.get_code(), 2);
    assert_eq!(AttType::String.get_code(), 3);
    assert_eq!(AttType::Floats.get_code(), 4);
    assert_eq!(AttType::Ints.get_code(), 7);
    assert_eq!(AttType::Strings.get_code(), 8);
    for code in 0..10 {
        match AttType::try_from_code(code) {
            Some(kind) => {
                assert_eq!(kind.get_code(), code);
                assert_eq!(AttType::from_code(code), kind);
            }
            None => assert!(code == 5 || code == 6 || code == 9),
        }
    }
}

#[test]
fn att_type_names() {
    assert_eq!(AttType::from_type_name("f32"), AttType::Float);
    assert_eq!(AttType::from_type_name("&[f32]"), AttType::Floats);
    assert_eq!(AttType::from_type_name("i64"), AttType::Int);
    assert_eq!(AttType::from_type_name("&[i64]"), AttType::Ints);
    assert_eq!(AttType::from_type_name("alloc::string::String"), AttType::String);
    assert_eq!(AttType::from_type_name("&[alloc::string::String]"), AttType::Strings);
    assert_eq!(AttType::try_from_type_name("u8"), None);
    for kind in [
        AttType::Float,
        AttType::Floats,
        AttType::Int,
        AttType::Ints,
        AttType::String,
        AttType::Strings,
    ] {
        assert_eq!(AttType::from_type_name(kind.to_type_name()), kind);
    }
}
