use airuntime::error::LoadError;
use airuntime::loader::transform::{build_op, trans_attr, trans_tensor, trans_valueinfo};
use airuntime::loader::{
    external_paths, load, opset_version, operator_name, parser, parser_model, ModelFile,
    ParsingContext,
};
use airuntime::model::attribute::AttType;
use airuntime::model::element::F32;
use airuntime::model::graph::Graph;
use airuntime::model::table::Table;
use airuntime::model::tensor::{DType, Format, Location, Tensor, Type};
use airuntime::pb::{
    AttributeProto, DataLocation, Dimension, DimensionValue, GraphProto, ModelProto, NodeProto,
    OperatorSetIdProto, StringStringEntryProto, TensorProto, TensorShapeProto, TensorTypeProto,
    TypeProto, TypeValue, ValueInfoProto,
};

const INT32: i32 = 6;
const INT64: i32 = 7;
const FLOAT32: i32 = 1;
const FLOAT16: i32 = 10;

fn no_files() -> Table<Vec<u8>> {
    Table::new()
}

fn value_info(name: &str, elem_type: i32, dims: &[i64]) -> ValueInfoProto {
    ValueInfoProto {
        name: String::from(name),
        value_type: Some(TypeProto {
            value: Some(TypeValue::TensorType(TensorTypeProto {
                elem_type,
                shape: Some(TensorShapeProto {
                    dim: dims
                        .iter()
                        .map(|d| Dimension { value: Some(DimensionValue::DimValue(*d)) })
                        .collect(),
                }),
            })),
        }),
    }
}

fn node(name: &str, op_type: &str, input: &[&str], output: &[&str]) -> NodeProto {
    NodeProto {
        name: String::from(name),
        op_type: String::from(op_type),
        input: input.iter().map(|s| String::from(*s)).collect(),
        output: output.iter().map(|s| String::from(*s)).collect(),
        attribute: vec![],
    }
}

fn raw_initializer(name: &str, data_type: i32, dims: &[i64], raw: &[u8]) -> TensorProto {
    TensorProto {
        name: String::from(name),
        data_type,
        dims: dims.to_vec(),
        raw_data: raw.to_vec(),
        ..Default::default()
    }
}

fn model(graph: GraphProto) -> ModelProto {
    ModelProto { opset_import: vec![], graph: Some(graph) }
}

fn build(graph: GraphProto) -> Result<Graph, LoadError> {
    parser(&model(graph), Some("dir"), &no_files())
}

fn add_graph() -> GraphProto {
    GraphProto {
        name: String::from("g"),
        node: vec![node("", "Add", &["a", "b"], &["c"])],
        input: vec![value_info("a", INT32, &[2, 2]), value_info("b", INT32, &[2, 2])],
        output: vec![value_info("c", INT32, &[2, 2])],
        ..Default::default()
    }
}

#[test]
fn loader_empty_graph_keeps_its_name() {
    let graph = build(GraphProto { name: String::from("g"), ..Default::default() }).unwrap();
    assert_eq!(graph.name(), "g");
    assert_eq!(graph.len(), 0);
    assert!(graph.operators().is_empty());
}

#[test]
fn loader_one_add_node() {
    let graph = build(add_graph()).unwrap();
    assert_eq!(graph.len(), 1);
    let op = graph.get_operator("c").unwrap();
    assert_eq!(op.kind(), "Add");
    assert_eq!(op.name(), "c");
    assert_eq!(op.inputs().len(), 2);
    assert_eq!(op.outputs().len(), 1);
    assert_eq!(op.attributes().len(), 0);
    let first = op.get_input("0").unwrap();
    let second = op.get_input("1").unwrap();
    assert_eq!(first.name(), "a");
    assert_eq!(second.name(), "b");
    for t in [first, second, op.get_output("0").unwrap()] {
        assert_eq!(t.shape().data(), &[2, 2]);
        assert_eq!(t.dtype(), DType::Int32);
        assert_eq!(t.kind(), Type::Variable);
        assert_eq!(t.format(), Format::NCHW);
        assert_eq!(t.data_len(), 0);
        assert_eq!(t.location(), Location::Host);
    }
    assert_eq!(op.get_output("0").unwrap().name(), "c");
    assert!(op.get_input("2").is_none());
}

#[test]
fn loader_scalar_initializer_has_shape_one() {
    let t = raw_initializer("s", INT32, &[], &[7, 0, 0, 0]);
    let tensor = trans_tensor(&t, None, &no_files()).unwrap();
    assert_eq!(tensor.shape().data(), &[1]);
    assert_eq!(tensor.shape().dim(), 1);
    assert_eq!(tensor.kind(), Type::Constant);
    assert_eq!(tensor.name(), "s");
    assert_eq!(tensor.into_vec().unwrap(), vec![7, 0, 0, 0]);
}

#[test]
fn loader_external_data_over_two_files() {
    let t = TensorProto {
        name: String::from("w"),
        data_type: FLOAT32,
        dims: vec![5],
        data_location: Some(DataLocation::External.get_code()),
        external_data: vec![
            StringStringEntryProto { key: String::from("location"), value: String::from("w.0") },
            StringStringEntryProto { key: String::from("location"), value: String::from("w.1") },
        ],
        ..Default::default()
    };
    let mut files: Table<Vec<u8>> = Table::new();
    files.insert(String::from("models/w.1"), vec![4, 5]);
    files.insert(String::from("models/w.0"), vec![1, 2, 3]);
    let tensor = trans_tensor(&t, Some("models"), &files).unwrap();
    assert_eq!(tensor.data_len(), 3 + 2);
    assert_eq!(tensor.dtype(), DType::Float32);
    assert_eq!(tensor.into_vec().unwrap(), vec![1, 2, 3, 4, 5]);
}

#[test]
fn loader_external_data_needs_a_directory() {
    let t = TensorProto {
        name: String::from("w"),
        data_type: FLOAT32,
        data_location: Some(1),
        external_data: vec![StringStringEntryProto {
            key: String::from("location"),
            value: String::from("w.0"),
        }],
        ..Default::default()
    };
    assert_eq!(
        trans_tensor(&t, None, &no_files()).unwrap_err(),
        LoadError::MissingExternalDataContext { tensor: String::from("w") }
    );
}

#[test]
fn loader_external_data_reports_the_first_file_that_is_missing() {
    let t = TensorProto {
        name: String::from("w"),
        data_type: FLOAT32,
        data_location: Some(1),
        external_data: vec![
            StringStringEntryProto { key: String::new(), value: String::from("a") },
            StringStringEntryProto { key: String::new(), value: String::from("b") },
            StringStringEntryProto { key: String::new(), value: String::from("c") },
        ],
        ..Default::default()
    };
    let mut files: Table<Vec<u8>> = Table::new();
    files.insert(String::from("d/a"), vec![1]);
    assert_eq!(
        trans_tensor(&t, Some("d"), &files).unwrap_err(),
        LoadError::FileNotFound { path: String::from("d/b") }
    );
}

#[test]
fn loader_raw_bytes_come_before_external_data() {
    let t = TensorProto {
        name: String::from("w"),
        data_type: INT32,
        dims: vec![1],
        raw_data: vec![9, 0, 0, 0],
        data_location: Some(1),
        external_data: vec![StringStringEntryProto {
            key: String::new(),
            value: String::from("nowhere"),
        }],
        int32_data: vec![5],
        ..Default::default()
    };
    let tensor = trans_tensor(&t, None, &no_files()).unwrap();
    assert_eq!(tensor.into_vec().unwrap(), vec![9, 0, 0, 0]);
}

#[test]
fn loader_typed_fields() {
    let t = TensorProto {
        name: String::from("i"),
        data_type: INT32,
        dims: vec![2],
        int32_data: vec![1, -1],
        int64_data: vec![99],
        ..Default::default()
    };
    let tensor = trans_tensor(&t, None, &no_files()).unwrap();
    assert_eq!(tensor.into_vec().unwrap(), vec![1, 0, 0, 0, 255, 255, 255, 255]);

    let t = TensorProto {
        name: String::from("l"),
        data_type: INT64,
        dims: vec![1],
        int64_data: vec![258],
        ..Default::default()
    };
    let tensor = trans_tensor(&t, None, &no_files()).unwrap();
    assert_eq!(tensor.dtype(), DType::Int64);
    assert_eq!(tensor.into_vec().unwrap(), vec![2, 1, 0, 0, 0, 0, 0, 0]);

    for code in [FLOAT32, FLOAT16] {
        let t = TensorProto {
            name: String::from("f"),
            data_type: code,
            dims: vec![2],
            float_data: vec![F32::from_bits(1.0f32.to_bits()), F32::from_bits(2.5f32.to_bits())],
            ..Default::default()
        };
        let tensor = trans_tensor(&t, None, &no_files()).unwrap();
        let mut expected = 1.0f32.to_le_bytes().to_vec();
        expected.extend_from_slice(&2.5f32.to_le_bytes());
        assert_eq!(tensor.into_vec().unwrap(), expected);
    }
}

#[test]
fn loader_unsupported_dtypes() {
    let t = TensorProto { name: String::from("x"), data_type: 17, ..Default::default() };
    assert_eq!(
        trans_tensor(&t, None, &no_files()).unwrap_err(),
        LoadError::UnsupportedDType { tensor: String::from("x"), code: 17 }
    );
    let t = TensorProto { name: String::from("x"), data_type: -1, ..Default::default() };
    assert_eq!(
        trans_tensor(&t, None, &no_files()).unwrap_err(),
        LoadError::UnsupportedDType { tensor: String::from("x"), code: -1 }
    );
    // A known type without a typed field that is read.
    let t = TensorProto { name: String::from("d"), data_type: 11, ..Default::default() };
    assert_eq!(
        trans_tensor(&t, None, &no_files()).unwrap_err(),
        LoadError::UnsupportedDType { tensor: String::from("d"), code: 11 }
    );
    // With raw bytes the same type is taken as it is.
    let t = raw_initializer("d", 11, &[1], &[0; 8]);
    assert_eq!(trans_tensor(&t, None, &no_files()).unwrap().dtype(), DType::Float64);
}

#[test]
fn loader_too_many_dimensions() {
    let t = raw_initializer("x", INT32, &[1, 1, 1, 1, 1, 1, 1, 1, 1], &[0, 0, 0, 0]);
    assert_eq!(
        trans_tensor(&t, None, &no_files()).unwrap_err(),
        LoadError::TooManyDimensions { tensor: String::from("x"), rank: 9 }
    );
    let v = value_info("v", INT32, &[1, 1, 1, 1, 1, 1, 1, 1, 1]);
    assert_eq!(
        trans_valueinfo(&v).unwrap_err(),
        LoadError::TooManyDimensions { tensor: String::from("v"), rank: 9 }
    );
    let t = raw_initializer("x", INT32, &[1, 1, 1, 1, 1, 1, 1, 1], &[0, 0, 0, 0]);
    assert_eq!(trans_tensor(&t, None, &no_files()).unwrap().shape().dim(), 8);
}

#[test]
fn loader_value_info() {
    let t = trans_valueinfo(&value_info("v", INT64, &[3, 4])).unwrap();
    assert_eq!(t.name(), "v");
    assert_eq!(t.shape().data(), &[3, 4]);
    assert_eq!(t.dtype(), DType::Int64);
    assert_eq!(t.kind(), Type::Variable);
    assert_eq!(t.format(), Format::NCHW);
    assert!(t.into_vec().is_none());

    let bare = ValueInfoProto { name: String::from("n"), value_type: None };
    let t = trans_valueinfo(&bare).unwrap();
    assert_eq!(t.dtype(), DType::Undefined);
    assert_eq!(t.shape().dim(), 0);

    let untyped = ValueInfoProto {
        name: String::from("n"),
        value_type: Some(TypeProto { value: None }),
    };
    assert_eq!(trans_valueinfo(&untyped).unwrap().dtype(), DType::Undefined);

    let shapeless = ValueInfoProto {
        name: String::from("n"),
        value_type: Some(TypeProto {
            value: Some(TypeValue::TensorType(TensorTypeProto { elem_type: INT32, shape: None })),
        }),
    };
    let t = trans_valueinfo(&shapeless).unwrap();
    assert_eq!(t.dtype(), DType::Int32);
    assert_eq!(t.shape().dim(), 0);

    let unknown = value_info("u", 99, &[1]);
    assert_eq!(
        trans_valueinfo(&unknown).unwrap_err(),
        LoadError::UnsupportedDType { tensor: String::from("u"), code: 99 }
    );
}

#[test]
fn loader_value_info_leaves_out_sizes_that_are_only_named() {
    let v = ValueInfoProto {
        name: String::from("v"),
        value_type: Some(TypeProto {
            value: Some(TypeValue::TensorType(TensorTypeProto {
                elem_type: FLOAT32,
                shape: Some(TensorShapeProto {
                    dim: vec![
                        Dimension { value: Some(DimensionValue::DimParam(String::from("N"))) },
                        Dimension { value: Some(DimensionValue::DimValue(3)) },
                        Dimension { value: None },
                        Dimension { value: Some(DimensionValue::DimValue(224)) },
                    ],
                }),
            })),
        }),
    };
    assert_eq!(trans_valueinfo(&v).unwrap().shape().data(), &[3, 224]);
}

#[test]
fn loader_sizes_are_cut_to_32_bits() {
    let v = value_info("v", INT32, &[(1_i64 << 32) + 5, -1]);
    assert_eq!(trans_valueinfo(&v).unwrap().shape().data(), &[5, u32::MAX]);
    let t = raw_initializer("t", INT32, &[(1_i64 << 32) + 5], &[1]);
    assert_eq!(trans_tensor(&t, None, &no_files()).unwrap().shape().data(), &[5]);
}

#[test]
fn loader_unresolved_input_names_operator_and_tensor() {
    let mut graph = add_graph();
    graph.node[0] = node("plus", "Add", &["a", "ghost"], &["c"]);
    assert_eq!(
        build(graph).unwrap_err(),
        LoadError::UnresolvedInput { operator: String::from("plus"), tensor: String::from("ghost") }
    );
}

#[test]
fn loader_unresolved_output_names_operator_and_tensor() {
    let mut graph = add_graph();
    graph.node[0] = node("plus", "Add", &["a", "b"], &["nowhere"]);
    assert_eq!(
        build(graph).unwrap_err(),
        LoadError::UnresolvedOutput {
            operator: String::from("plus"),
            tensor: String::from("nowhere")
        }
    );
}

#[test]
fn loader_missing_graph() {
    let proto = ModelProto { opset_import: vec![], graph: None };
    assert_eq!(parser(&proto, Some("dir"), &no_files()).unwrap_err(), LoadError::MissingGraph);
}

#[test]
fn loader_outcomes_of_reading_the_model_file() {
    let files = no_files();
    assert_eq!(
        load("m.onnx", &ModelFile::Missing, None, &files).unwrap_err(),
        LoadError::FileNotFound { path: String::from("m.onnx") }
    );
    assert_eq!(
        parser_model("m.onnx", &ModelFile::Malformed(String::from("bad tag")), None, &files)
            .unwrap_err(),
        LoadError::DecodeError { reason: String::from("bad tag") }
    );
    let graph = load("m.onnx", &ModelFile::Decoded(model(add_graph())), Some("."), &files).unwrap();
    assert_eq!(graph.name(), "g");
    assert_eq!(graph.len(), 1);
    assert_eq!(
        load("m.onnx", &ModelFile::Decoded(ModelProto::default()), None, &files).unwrap_err(),
        LoadError::MissingGraph
    );
}

#[test]
fn loader_initializer_goes_to_one_input() {
    let graph = GraphProto {
        name: String::from("g"),
        initializer: vec![raw_initializer("w", INT32, &[1], &[1, 0, 0, 0])],
        node: vec![node("first", "Relu", &["w"], &[]), node("second", "Relu", &["w"], &[])],
        ..Default::default()
    };
    assert_eq!(
        build(graph).unwrap_err(),
        LoadError::UnresolvedInput { operator: String::from("second"), tensor: String::from("w") }
    );
}

#[test]
fn loader_initializer_then_declared_value_of_the_same_name() {
    let graph = GraphProto {
        name: String::from("g"),
        initializer: vec![raw_initializer("w", INT32, &[1], &[1, 0, 0, 0])],
        input: vec![value_info("w", INT32, &[1])],
        node: vec![node("first", "Add", &["w", "w"], &[]), node("second", "Relu", &["w"], &[])],
        ..Default::default()
    };
    let graph = build(graph).unwrap();
    let first = graph.get_operator("first").unwrap();
    assert_eq!(first.get_input("0").unwrap().kind(), Type::Constant);
    assert_eq!(first.get_input("0").unwrap().data_len(), 4);
    assert_eq!(first.get_input("1").unwrap().kind(), Type::Variable);
    assert_eq!(first.get_input("1").unwrap().data_len(), 0);
    let second = graph.get_operator("second").unwrap();
    assert_eq!(second.get_input("0").unwrap().kind(), Type::Variable);
}

#[test]
fn loader_outputs_are_never_initializers() {
    let graph = GraphProto {
        name: String::from("g"),
        initializer: vec![raw_initializer("w", INT32, &[1], &[1, 0, 0, 0])],
        node: vec![node("n", "Relu", &[], &["w"])],
        ..Default::default()
    };
    assert_eq!(
        build(graph).unwrap_err(),
        LoadError::UnresolvedOutput { operator: String::from("n"), tensor: String::from("w") }
    );
}

#[test]
fn loader_later_declarations_overwrite_earlier_ones() {
    let graph = GraphProto {
        name: String::from("g"),
        value_info: vec![value_info("x", INT32, &[1]), value_info("y", INT32, &[1])],
        input: vec![value_info("x", INT64, &[2])],
        output: vec![value_info("y", FLOAT32, &[3]), value_info("x", FLOAT32, &[4])],
        node: vec![node("n", "Id", &["x"], &["y"])],
        ..Default::default()
    };
    let graph = build(graph).unwrap();
    let op = graph.get_operator("n").unwrap();
    assert_eq!(op.get_input("0").unwrap().dtype(), DType::Float32);
    assert_eq!(op.get_input("0").unwrap().shape().data(), &[4]);
    assert_eq!(op.get_output("0").unwrap().shape().data(), &[3]);
}

#[test]
fn loader_operator_names() {
    assert_eq!(operator_name(3, &node("named", "Add", &[], &["out"])), "named");
    assert_eq!(operator_name(3, &node("", "Add", &[], &["out", "other"])), "out");
    assert_eq!(operator_name(3, &node("", "Add", &[], &[""])), "3-Add");
    assert_eq!(operator_name(0, &node("", "Add", &[], &[])), "0-Add");
    assert_eq!(operator_name(120, &node("", "Conv", &[], &[])), "120-Conv");
}

#[test]
fn loader_one_operator_for_each_node() {
    let graph = GraphProto {
        name: String::from("g"),
        input: vec![value_info("x", INT32, &[1])],
        node: vec![
            node("", "A", &["x"], &[]),
            node("", "B", &["x"], &[]),
            node("named", "C", &["x"], &[]),
        ],
        ..Default::default()
    };
    let graph = build(graph).unwrap();
    assert_eq!(graph.len(), 3);
    assert_eq!(graph.get_operator("0-A").unwrap().kind(), "A");
    assert_eq!(graph.get_operator("1-B").unwrap().kind(), "B");
    assert_eq!(graph.get_operator("named").unwrap().kind(), "C");
}

#[test]
fn loader_last_node_of_a_name_wins() {
    let graph = GraphProto {
        name: String::from("g"),
        input: vec![value_info("x", INT32, &[1])],
        node: vec![node("n", "A", &["x"], &[]), node("n", "B", &["x"], &[])],
        ..Default::default()
    };
    let graph = build(graph).unwrap();
    assert_eq!(graph.len(), 1);
    assert_eq!(graph.get_operator("n").unwrap().kind(), "B");
}

#[test]
fn loader_tags_are_places_in_decimal() {
    let names: Vec<String> = (0..12).map(|i| format!("v{}", i)).collect();
    let refs: Vec<&str> = names.iter().map(|s| s.as_str()).collect();
    let graph = GraphProto {
        name: String::from("g"),
        input: names.iter().map(|n| value_info(n, INT32, &[1])).collect(),
        node: vec![node("concat", "Concat", &refs, &[])],
        ..Default::default()
    };
    let graph = build(graph).unwrap();
    let op = graph.get_operator("concat").unwrap();
    assert_eq!(op.inputs().len(), 12);
    assert_eq!(op.get_input("10").unwrap().name(), "v10");
    assert_eq!(op.get_input("11").unwrap().name(), "v11");
    assert!(op.get_input("12").is_none());
}

#[test]
fn loader_attributes() {
    let attr = |name: &str, kind: i32| AttributeProto {
        name: String::from(name),
        kind,
        f: F32::from_bits(0.5f32.to_bits()),
        i: 42,
        s: String::from("text").into_bytes(),
        floats: vec![F32::from_bits(1.0f32.to_bits())],
        ints: vec![1, 2, 3],
        strings: vec![String::from("a").into_bytes(), String::from("bc").into_bytes()],
    };
    assert_eq!(trans_attr(&attr("a", 2)).unwrap().into_int(), Ok(42));
    assert_eq!(trans_attr(&attr("a", 1)).unwrap().into_float().unwrap().to_bits(), 0.5f32.to_bits());
    assert_eq!(trans_attr(&attr("a", 3)).unwrap().into_string().unwrap(), "text");
    assert_eq!(trans_attr(&attr("a", 7)).unwrap().into_ints().unwrap(), vec![1, 2, 3]);
    assert_eq!(
        trans_attr(&attr("a", 4)).unwrap().into_floats().unwrap(),
        vec![F32::from_bits(1.0f32.to_bits())]
    );
    assert_eq!(
        trans_attr(&attr("a", 8)).unwrap().into_strings().unwrap(),
        vec![String::from("a"), String::from("bc")]
    );
    assert_eq!(trans_attr(&attr("a", 8)).unwrap().kind(), AttType::Strings);
    for code in [0, 5, 6, 9, -3] {
        assert_eq!(
            trans_attr(&attr("bad", code)).unwrap_err(),
            LoadError::UnsupportedAttributeType { attribute: String::from("bad"), code }
        );
    }
}

#[test]
fn loader_node_with_attributes() {
    let mut graph = add_graph();
    graph.node[0].attribute = vec![
        AttributeProto { name: String::from("axis"), kind: 2, i: 1, ..Default::default() },
        AttributeProto { name: String::from("axis"), kind: 2, i: 2, ..Default::default() },
        AttributeProto {
            name: String::from("mode"),
            kind: 3,
            s: String::from("same").into_bytes(),
            ..Default::default()
        },
    ];
    let built = build(graph.clone()).unwrap();
    let op = built.get_operator("c").unwrap();
    assert_eq!(op.attributes().len(), 2);
    assert_eq!(op.get_attribute("axis").unwrap().clone().into_int(), Ok(2));
    assert_eq!(op.get_attribute("mode").unwrap().clone().into_string().unwrap(), "same");

    graph.node[0].attribute.push(AttributeProto {
        name: String::from("body"),
        kind: 5,
        ..Default::default()
    });
    assert_eq!(
        build(graph).unwrap_err(),
        LoadError::UnsupportedAttributeType { attribute: String::from("body"), code: 5 }
    );
}

#[test]
fn loader_build_op_takes_initializers_out() {
    let mut initializers: Table<Tensor> = Table::new();
    let mut w = Tensor::new_with_shape("w", &[1], Format::NCHW, DType::Int32, Type::Constant);
    w.set_array1(&[5]);
    initializers.insert(String::from("w"), w);
    initializers.insert(
        String::from("unused"),
        Tensor::new("unused", Format::NCHW, DType::Int32, Type::Constant),
    );
    let mut value_infos: Table<Tensor> = Table::new();
    value_infos
        .insert(String::from("x"), Tensor::new("x", Format::NCHW, DType::Int32, Type::Variable));
    let op = build_op(
        String::from("mul"),
        &node("", "Mul", &["x", "w"], &["x"]),
        &mut initializers,
        &value_infos,
    )
    .unwrap();
    assert_eq!(op.name(), "mul");
    assert_eq!(op.kind(), "Mul");
    assert_eq!(op.get_input("1").unwrap().kind(), Type::Constant);
    assert_eq!(op.get_input("1").unwrap().clone().into_vec().unwrap(), vec![5, 0, 0, 0]);
    assert!(!initializers.contains_key("w"));
    assert!(initializers.contains_key("unused"));
    assert_eq!(value_infos.len(), 1);
}

#[test]
fn loader_opset_version() {
    let import = |domain: &str, version: i64| OperatorSetIdProto {
        domain: String::from(domain),
        version,
    };
    let with = |imports: Vec<OperatorSetIdProto>| ModelProto { opset_import: imports, graph: None };
    assert_eq!(opset_version(&with(vec![])), 0);
    assert_eq!(opset_version(&with(vec![import("com.microsoft", 1)])), 0);
    assert_eq!(opset_version(&with(vec![import("com.microsoft", 1), import("", 13)])), 13);
    assert_eq!(opset_version(&with(vec![import("ai.onnx", 17), import("", 13)])), 17);
    assert_eq!(opset_version(&with(vec![import("ai.onnx.ml", 3), import("ai.onnx", 9)])), 9);
}

#[test]
fn loader_external_paths() {
    let entry = |value: &str| StringStringEntryProto {
        key: String::from("location"),
        value: String::from(value),
    };
    let graph = GraphProto {
        initializer: vec![
            TensorProto {
                name: String::from("a"),
                data_location: Some(1),
                external_data: vec![entry("a.0"), entry("a.1")],
                ..Default::default()
            },
            TensorProto {
                name: String::from("inline"),
                raw_data: vec![1],
                data_location: Some(1),
                external_data: vec![entry("never")],
                ..Default::default()
            },
            TensorProto {
                name: String::from("typed"),
                data_location: Some(0),
                external_data: vec![entry("never")],
                ..Default::default()
            },
            TensorProto {
                name: String::from("b"),
                data_location: Some(1),
                external_data: vec![entry("sub/b")],
                ..Default::default()
            },
        ],
        ..Default::default()
    };
    assert_eq!(
        external_paths(&graph, "/models"),
        vec![
            String::from("/models/a.0"),
            String::from("/models/a.1"),
            String::from("/models/sub/b")
        ]
    );
}

#[test]
fn loader_parse_graph_with_external_initializer() {
    let graph = GraphProto {
        name: String::from("g"),
        initializer: vec![TensorProto {
            name: String::from("w"),
            data_type: INT32,
            dims: vec![1],
            data_location: Some(1),
            external_data: vec![StringStringEntryProto {
                key: String::from("location"),
                value: String::from("w.bin"),
            }],
            ..Default::default()
        }],
        node: vec![node("n", "Relu", &["w"], &[])],
        ..Default::default()
    };
    let mut files: Table<Vec<u8>> = Table::new();
    for path in external_paths(&graph, "m") {
        files.insert(path, vec![3, 0, 0, 0]);
    }
    let ctx = ParsingContext { onnx_operator_set_version: 0, model_path: Some("m"), files: &files };
    let built = ctx.parse_graph(&graph).unwrap();
    let op = built.get_operator("n").unwrap();
    assert_eq!(op.get_input("0").unwrap().clone().into_vec().unwrap(), vec![3, 0, 0, 0]);

    let ctx = ParsingContext { onnx_operator_set_version: 0, model_path: None, files: &files };
    assert_eq!(
        ctx.parse_graph(&graph).unwrap_err(),
        LoadError::MissingExternalDataContext { tensor: String::from("w") }
    );
}

#[test]
fn loader_first_failure_in_order_is_reported() {
    let graph = GraphProto {
        name: String::from("g"),
        initializer: vec![
            raw_initializer("ok", INT32, &[1], &[0, 0, 0, 0]),
            TensorProto { name: String::from("bad1"), data_type: 40, ..Default::default() },
            TensorProto { name: String::from("bad2"), data_type: 41, ..Default::default() },
        ],
        value_info: vec![value_info("v", 50, &[1])],
        node: vec![node("n", "Relu", &["ghost"], &[])],
        ..Default::default()
    };
    assert_eq!(
        build(graph).unwrap_err(),
        LoadError::UnsupportedDType { tensor: String::from("bad1"), code: 40 }
    );
}
