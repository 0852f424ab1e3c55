use airuntime::model::tensor::{DType, Format, Shape, Tensor, Type};

#[test]
fn shape_works() {
    let shape = Shape::from(&[2, 2, 3]);
    assert_eq!(3, shape.dim());
    assert_eq!(&[2, 2, 3], shape.data());
    assert_eq!(shape.to_string(), "[2, 2, 3]");
    let shape = Shape::new();
    assert_eq!(0, shape.dim());
    assert_eq!(&[0; 0], shape.data());
    assert_eq!(shape.to_string(), "[]");
}

#[test]
fn tensor_works() {
    let mut tensor = Tensor::new("name", Format::CHWN, DType::Int32, Type::Constant);
    tensor.set_array1(&[1]);
    assert_eq!(1, tensor.shape().dim());

    let mut tensor = Tensor::new("name", Format::CHWN, DType::Int32, Type::Constant);
    tensor.set_array2(&[[1]]);
    assert_eq!(2, tensor.shape().dim());

    let mut tensor = Tensor::new("name", Format::CHWN, DType::Int32, Type::Constant);
    tensor.set_array3(&[[[1]]]);
    assert_eq!(3, tensor.shape().dim());

    let mut tensor = Tensor::new("name", Format::CHWN, DType::Int32, Type::Constant);
    tensor.set_array4(&[[[[1]]]]);
    assert_eq!(4, tensor.shape().dim());

    let mut tensor = Tensor::new("name", Format::CHWN, DType::Int32, Type::Constant);
    tensor.set_array5(&[[[[[1]]]]]);
    assert_eq!(5, tensor.shape().dim());

    let mut tensor =
        Tensor::new_with_shape("name", &[2, 2], Format::CHWN, DType::Int32, Type::Constant);
    tensor.set_vec(vec![1, 2, 3, 4]);
    assert_eq!(2, tensor.shape().dim());
}

#[test]
fn shape_len_is_the_product_of_the_sizes() {
    assert_eq!(Shape::new().len(), 0);
    assert_eq!(Shape::from(&[7]).len(), 7);
    assert_eq!(Shape::from(&[2, 2, 3]).len(), 12);
    assert_eq!(Shape::from(&[2, 0, 3]).len(), 0);
    assert_eq!(Shape::from(&[1, 1, 1, 1, 1, 1, 1, 1]).len(), 1);
    assert_eq!(Shape::from(&[2, 2, 3]).checked_len(), Some(12));
    assert_eq!(Shape::new().checked_len(), Some(0));
}

#[test]
fn shape_checked_len_tells_when_the_product_is_too_large() {
    let big = u32::MAX;
    assert_eq!(Shape::from(&[big, big, big, big, big]).checked_len(), None);
    assert_eq!(Shape::from(&[big, big, big, big, 0]).checked_len(), Some(0));
    assert_eq!(Shape::from(&[0, big, big, big, big]).checked_len(), Some(0));
    assert_eq!(
        Shape::from(&[65536, 65536]).checked_len(),
        65536usize.checked_mul(65536)
    );
}

#[test]
fn shape_set_data_replaces_the_sizes() {
    let mut shape = Shape::from(&[1, 2, 3, 4]);
    shape.set_data(&[9, 8]);
    assert_eq!(shape.dim(), 2);
    assert_eq!(shape.data(), &[9, 8]);
    assert_eq!(shape.to_string(), "[9, 8]");
    shape.set_data(&[]);
    assert_eq!(shape.dim(), 0);
    let copy = Shape::from(&[5]).clone();
    assert_eq!(copy.data(), &[5]);
    assert_eq!(Shape::from(&[4294967295]).to_string(), "[4294967295]");
}

#[test]
fn dtype_sizes_and_names() {
    let all = [
        (DType::Float16, 2, "f16"),
        (DType::Float32, 4, "f32"),
        (DType::Float64, 8, "f64"),
        (DType::Uint8, 1, "u8"),
        (DType::Uint16, 2, "u16"),
        (DType::Uint32, 4, "u32"),
        (DType::Uint64, 8, "u64"),
        (DType::Int8, 1, "i8"),
        (DType::Int16, 2, "i16"),
        (DType::Int32, 4, "i32"),
        (DType::Int64, 8, "i64"),
    ];
    for (dtype, size, name) in all {
        assert!(dtype.numeric());
        assert_eq!(dtype.size_of(), size);
        assert_eq!(dtype.to_type_name(), name);
    }
    for dtype in [
        DType::Undefined,
        DType::String,
        DType::Bool,
        DType::Complex64,
        DType::Complex128,
        DType::Bfloat16,
    ] {
        assert!(!dtype.numeric());
    }
}

#[test]
fn codes_round_trip() {
    for code in 0..20 {
        match DType::try_from_code(code) {
            Some(d) => {
                assert!(code <= 16);
                assert_eq!(d.get_code(), code);
                assert_eq!(DType::from_code(code), d);
            }
            None => assert!(code > 16),
        }
        match Format::try_from_code(code) {
            Some(f) => {
                assert!((1..=6).contains(&code));
                assert_eq!(f.get_code(), code);
                assert_eq!(Format::from_code(code), f);
            }
            None => assert!(code == 0 || code > 6),
        }
        match airuntime::model::tensor::Location::try_from_code(code) {
            Some(l) => {
                assert_eq!(l.get_code(), code);
                assert_eq!(airuntime::model::tensor::Location::from_code(code), l);
            }
            None => assert!(code > 1),
        }
        match Type::try_from_code(code) {
            Some(t) => {
                assert_eq!(t.get_code(), code);
                assert_eq!(Type::from_code(code), t);
            }
            None => assert!(code > 1),
        }
    }
    assert_eq!(DType::Float32.get_code(), 1);
    assert_eq!(DType::Int32.get_code(), 6);
    assert_eq!(DType::Bfloat16.get_code(), 16);
    assert_eq!(Format::NCHW.get_code(), 1);
    assert_eq!(Format::NCDHW.get_code(), 6);
    assert_eq!(Format::default(), Format::NCHW);
    assert_eq!(Type::Constant.get_code(), 1);
}

#[test]
fn tensor_new_has_no_shape_and_no_data() {
    let tensor = Tensor::new("name", Format::NHWC, DType::Float32, Type::Variable);
    assert_eq!(tensor.name(), "name");
    assert_eq!(tensor.shape().dim(), 0);
    assert_eq!(tensor.format(), Format::NHWC);
    assert_eq!(tensor.dtype(), DType::Float32);
    assert_eq!(tensor.kind(), Type::Variable);
    assert_eq!(tensor.data_len(), 0);
    assert_eq!(tensor.data_ptr(), 0);
    assert_eq!(tensor.location(), airuntime::model::tensor::Location::Host);
    assert!(tensor.data().owned_bytes().is_none());
    assert!(tensor.into_vec().is_none());
}

#[test]
fn tensor_set_arrays_give_shape_and_row_major_bytes() {
    let mut tensor = Tensor::new("name", Format::NCHW, DType::Uint8, Type::Constant);
    tensor.set_array2(&[[1u8, 2, 3], [4, 5, 6]]);
    assert_eq!(tensor.shape().data(), &[2, 3]);
    assert_eq!(tensor.clone().into_vec().unwrap(), vec![1, 2, 3, 4, 5, 6]);
    tensor.set_array3(&[[[1u8, 2], [3, 4]], [[5, 6], [7, 8]], [[9, 10], [11, 12]]]);
    assert_eq!(tensor.shape().data(), &[3, 2, 2]);
    assert_eq!(tensor.clone().into_vec().unwrap(), (1..=12).collect::<Vec<u8>>());
    tensor.set_array4(&[[[[1u8], [2]]]]);
    assert_eq!(tensor.shape().data(), &[1, 1, 2, 1]);
    tensor.set_array5(&[[[[[1u8, 2]]]], [[[[3, 4]]]]]);
    assert_eq!(tensor.shape().data(), &[2, 1, 1, 1, 2]);
    assert_eq!(tensor.data_len(), 4);
    assert_eq!(tensor.into_vec().unwrap(), vec![1, 2, 3, 4]);

    let mut tensor = Tensor::new("name", Format::NCHW, DType::Int16, Type::Constant);
    tensor.set_array2(&[[1i16, -1]]);
    assert_eq!(tensor.shape().data(), &[1, 2]);
    assert_eq!(tensor.into_vec().unwrap(), vec![1, 0, 255, 255]);
}

#[test]
fn tensor_set_vec_keeps_the_shape() {
    let mut tensor =
        Tensor::new_with_shape("name", &[2, 2], Format::CHWN, DType::Int32, Type::Constant);
    tensor.set_vec(vec![1, 2, 3, 4]);
    assert_eq!(tensor.shape().data(), &[2, 2]);
    assert_eq!(tensor.data_len(), 16);
    let mut tensor =
        Tensor::new_with_shape("name", &[3], Format::CHWN, DType::Uint8, Type::Constant);
    tensor.set_vec_u8(vec![7, 8, 9], DType::Uint8);
    assert_eq!(tensor.shape().data(), &[3]);
    assert_eq!(tensor.data().owned_bytes(), Some(&[7u8, 8, 9][..]));
}

#[test]
fn tensor_set_data_points_to_a_region() {
    let mut tensor =
        Tensor::new_with_shape("name", &[2, 2], Format::CHWN, DType::Int32, Type::Variable);
    tensor.set_data(0x2000, 16, airuntime::model::tensor::Location::Device);
    assert_eq!(tensor.data_ptr(), 0x2000);
    assert_eq!(tensor.data_len(), 16);
    assert_eq!(tensor.location(), airuntime::model::tensor::Location::Device);
    assert!(tensor.clone().into_vec().is_none());
    assert_eq!(tensor.clone().data_ptr(), 0x2000);
}

#[test]
fn tensor_type_match() {
    let tensor = Tensor::new("name", Format::CHWN, DType::Int32, Type::Constant);
    assert!(tensor.type_match::<i32>());
    assert!(!tensor.type_match::<u32>());
    assert!(!tensor.type_match::<i64>());
}

#[test]
#[should_panic]
fn shape_panic() {
    Shape::from(&[2, 2, 3, 2, 2, 3, 2, 2, 3]);
}
