use airuntime::model::attribute::Attribute;
use airuntime::model::graph::Graph;
use airuntime::model::operator::Operator;
use airuntime::model::tensor::{DType, Format, Tensor, Type};

fn add_operator(name: &str) -> Operator {
    Operator::new(name, "Add")
        .add_input(
            "X1",
            Tensor::new_with_shape("add1", &[2, 3], Format::CHWN, DType::Int32, Type::Variable),
        )
        .unwrap()
        .add_input(
            "X2",
            Tensor::new_with_shape("add2", &[2, 3], Format::CHWN, DType::Int32, Type::Variable),
        )
        .unwrap()
        .add_output(
            "Y",
            Tensor::new_with_shape("sum", &[2, 3], Format::CHWN, DType::Int32, Type::Variable),
        )
        .unwrap()
        .add_attribute("B", Attribute::from("test"))
        .unwrap()
}

#[test]
fn graph_data_works() {
    let graph = Graph::new("graph")
        .add_operator(
            Operator::new("name", "Add")
                .add_input(
                    "X1",
                    Tensor::new_with_shape(
                        "add1",
                        &[2, 3],
                        Format::CHWN,
                        DType::Int32,
                        Type::Variable,
                    ),
                )
                .unwrap()
                .add_input(
                    "X2",
                    Tensor::new_with_shape(
                        "add2",
                        &[2, 3],
                        Format::CHWN,
                        DType::Int32,
                        Type::Variable,
                    ),
                )
                .unwrap()
                .add_output(
                    "Y",
                    Tensor::new_with_shape(
                        "sum",
                        &[2, 3],
                        Format::CHWN,
                        DType::Int32,
                        Type::Variable,
                    ),
                )
                .unwrap()
                .add_attribute("B", Attribute::from("test"))
                .unwrap(),
        )
        .unwrap();

    println!("{:?}", graph);
}

#[test]
fn graph_new_is_empty() {
    let graph = Graph::new("g");
    assert_eq!(graph.name(), "g");
    assert_eq!(graph.len(), 0);
    assert!(graph.operators().is_empty());
    assert!(graph.get_operator("name").is_none());
}

#[test]
fn graph_finds_operator_by_name() {
    let graph = Graph::new("g")
        .add_operator(add_operator("a"))
        .unwrap()
        .add_operator(add_operator("b"))
        .unwrap();
    assert_eq!(graph.len(), 2);
    assert_eq!(graph.get_operator("a").unwrap().name(), "a");
    assert_eq!(graph.get_operator("b").unwrap().name(), "b");
    assert!(graph.get_operator("c").is_none());
    let mut names: Vec<String> = graph.operators().iter().map(|op| op.name().clone()).collect();
    names.sort();
    assert_eq!(names, vec![String::from("a"), String::from("b")]);
}

#[test]
fn graph_second_operator_of_a_name_replaces_the_first() {
    let first = Operator::new("same", "Add");
    let second = Operator::new("same", "Mul");
    let graph = Graph::new("g").add_operator(first).unwrap().add_operator(second).unwrap();
    assert_eq!(graph.len(), 1);
    assert_eq!(graph.operators().len(), 1);
    assert_eq!(graph.get_operator("same").unwrap().kind(), "Mul");
}

#[test]
fn graph_with_operator_is_add_operator() {
    let graph = Graph::new("g").with_operator(add_operator("a"));
    assert_eq!(graph.len(), 1);
    assert_eq!(graph.get_operator("a").unwrap().kind(), "Add");
}
