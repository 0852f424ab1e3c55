use airuntime::model::table::Table;
use airuntime::model::tensor::{DType, Format, Location, Type};
use airuntime::nndevice::{
    output_tensor, parser_error, parser_error_from_code, rust_options, Error, RustTensor,
};

#[test]
fn nndevice_errors_of_return_codes() {
    assert_eq!(parser_error_from_code(0), None);
    assert_eq!(parser_error_from_code(-1), Some(Error::InvalidParam));
    assert_eq!(parser_error_from_code(-2), Some(Error::LoadSoErr));
    assert_eq!(parser_error_from_code(-3), Some(Error::SoNotExist));
    assert_eq!(parser_error_from_code(-201), Some(Error::NnDeviceDriverErr));
    assert_eq!(parser_error_from_code(-202), Some(Error::NnDeviceCloseErr));
    assert_eq!(parser_error_from_code(1), Some(Error::UnknowErr));
    assert_eq!(parser_error_from_code(-4), Some(Error::UnknowErr));
    assert_eq!(parser_error_from_code(i32::MIN), Some(Error::UnknowErr));
}

#[test]
fn nndevice_errors_of_exceptions() {
    assert_eq!(parser_error("0"), None);
    assert_eq!(parser_error("-1"), Some(Error::InvalidParam));
    assert_eq!(parser_error("-202"), Some(Error::NnDeviceCloseErr));
    assert_eq!(parser_error("7"), Some(Error::UnknowErr));
    assert_eq!(parser_error("bad alloc"), Some(Error::UnknowErr));
    assert_eq!(parser_error(""), Some(Error::UnknowErr));
    assert_eq!(parser_error("99999999999"), Some(Error::UnknowErr));
}

#[test]
fn nndevice_error_texts() {
    assert_eq!(Error::UnknowErr.to_string(), "未知错误");
    assert_eq!(Error::InvalidParam.to_string(), "参数错误");
    assert_eq!(Error::LoadSoErr.to_string(), "加载动态库错误");
    assert_eq!(Error::SoNotExist.to_string(), "动态库不存在");
    assert_eq!(Error::NnDeviceCloseErr.to_string(), "NnDevice关闭失败");
    assert_eq!(Error::NnDeviceDriverErr.to_string(), "后端调用错误");
}

#[test]
fn nndevice_options_in_the_order_of_the_table() {
    let mut opts: Table<String> = Table::new();
    opts.insert(String::from("key1"), String::from("value1"));
    opts.insert(String::from("key2"), String::from("value2"));
    opts.insert(String::from("key1"), String::from("value3"));
    let options = rust_options(&opts);
    assert_eq!(options.keys, vec![String::from("key1"), String::from("key2")]);
    assert_eq!(options.values, vec![String::from("value3"), String::from("value2")]);
    let none = rust_options(&Table::new());
    assert!(none.keys.is_empty() && none.values.is_empty());
}

fn description(dtype: u32, dims: &[u32], layout: u32, len: usize) -> RustTensor {
    RustTensor { name: String::from("out"), dtype, dims: dims.to_vec(), layout, data: 0x4000, len }
}

#[test]
fn nndevice_output_tensor() {
    let tensor = output_tensor(&description(6, &[2, 3], 2, 24)).unwrap();
    assert_eq!(tensor.name(), "out");
    assert_eq!(tensor.dtype(), DType::Int32);
    assert_eq!(tensor.format(), Format::NHWC);
    assert_eq!(tensor.kind(), Type::Variable);
    assert_eq!(tensor.shape().data(), &[2, 3]);
    assert_eq!(tensor.data_ptr(), 0x4000);
    assert_eq!(tensor.data_len(), 24);
    assert_eq!(tensor.location(), Location::Host);
    assert!(output_tensor(&description(6, &[], 1, 0)).is_some());
}

#[test]
fn nndevice_output_tensor_rejects_what_stands_for_nothing() {
    assert!(output_tensor(&description(6, &[2, 3], 2, 23)).is_none());
    assert!(output_tensor(&description(6, &[2, 3], 0, 24)).is_none());
    assert!(output_tensor(&description(6, &[2, 3], 7, 24)).is_none());
    assert!(output_tensor(&description(17, &[2, 3], 1, 24)).is_none());
    assert!(output_tensor(&description(8, &[2, 3], 1, 24)).is_none());
    assert!(output_tensor(&description(2, &[1, 1, 1, 1, 1, 1, 1, 1, 1], 1, 1)).is_none());
    let big = u32::MAX;
    assert!(output_tensor(&description(7, &[big, big, big, big], 1, 8)).is_none());
}
