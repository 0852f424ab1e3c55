use airuntime::model::attribute::{AttType, Attribute};
use airuntime::model::operator::Operator;
use airuntime::model::tensor::{DType, Format, Tensor, Type};

#[test]
fn operator_data_works() {
    let op = Operator::new("name", "Add")
        .add_input(
            "X1",
            Tensor::new_with_shape("add1", &[2, 3], Format::CHWN, DType::Int32, Type::Variable),
        )
        .unwrap()
        .add_input(
            "X2",
            Tensor::new_with_shape("add2", &[2, 3], Format::CHWN, DType::Int32, Type::Variable),
        )
        .unwrap()
        .add_output(
            "Y",
            Tensor::new_with_shape("sum", &[2, 3], Format::CHWN, DType::Int32, Type::Variable),
        )
        .unwrap()
        .add_attribute("B", Attribute::from("test"))
        .unwrap();

    println!("{:?}", op);
}

#[test]
fn operator_new_has_nothing() {
    let op = Operator::new("name", "Add");
    assert_eq!(op.name(), "name");
    assert_eq!(op.kind(), "Add");
    assert_eq!(op.inputs().len(), 0);
    assert_eq!(op.outputs().len(), 0);
    assert_eq!(op.attributes().len(), 0);
    assert!(op.get_input("X1").is_none());
    assert!(op.get_output("Y").is_none());
    assert!(op.get_attribute("B").is_none());
}

#[test]
fn operator_gets_by_tag() {
    let op = Operator::new("name", "Add")
        .add_input(
            "X1",
            Tensor::new_with_shape("add1", &[2, 3], Format::CHWN, DType::Int32, Type::Variable),
        )
        .unwrap()
        .add_output(
            "Y",
            Tensor::new_with_shape("sum", &[4], Format::NCHW, DType::Int64, Type::Variable),
        )
        .unwrap()
        .add_attribute("B", Attribute::from(7))
        .unwrap();
    assert_eq!(op.inputs().len(), 1);
    assert_eq!(op.get_input("X1").unwrap().name(), "add1");
    assert_eq!(op.get_input("X1").unwrap().shape().data(), &[2, 3]);
    assert!(op.get_input("Y").is_none());
    assert_eq!(op.get_output("Y").unwrap().name(), "sum");
    assert_eq!(op.get_output("Y").unwrap().dtype(), DType::Int64);
    assert_eq!(op.get_attribute("B").unwrap().kind(), AttType::Int);
    assert_eq!(op.get_attribute("B").unwrap().clone().into_int(), Ok(7));
    assert_eq!(op.outputs().get("Y").unwrap().name(), "sum");
    assert_eq!(op.attributes().name_at(0), "B");
}

#[test]
fn operator_tag_in_use_gets_the_new_tensor() {
    let op = Operator::new("name", "Add")
        .add_input("X", Tensor::new("first", Format::NCHW, DType::Int32, Type::Variable))
        .unwrap()
        .add_input("X", Tensor::new("second", Format::NCHW, DType::Int32, Type::Variable))
        .unwrap();
    assert_eq!(op.inputs().len(), 1);
    assert_eq!(op.get_input("X").unwrap().name(), "second");
}

#[test]
fn operator_setters_match_builders() {
    let mut op = Operator::new("name", "Add");
    op.set_input("0", Tensor::new("a", Format::NCHW, DType::Int32, Type::Variable));
    op.set_output("0", Tensor::new("b", Format::NCHW, DType::Int32, Type::Variable));
    op.set_attribute("k", Attribute::from("v"));
    assert_eq!(op.get_input("0").unwrap().name(), "a");
    assert_eq!(op.get_output("0").unwrap().name(), "b");
    assert_eq!(op.get_attribute("k").unwrap().clone().into_string().unwrap(), "v");
}
