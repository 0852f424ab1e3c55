use airuntime::config::Config;
use airuntime::error::LoadError;
use airuntime::loader::ModelFile;
use airuntime::model::table::Table;
use airuntime::pb::{GraphProto, ModelProto};
use airuntime::pipline::load_model;

#[test]
fn config_new_and_options() {
    let mut config = Config::new("backend_id1", 3);
    assert_eq!(config.backend, "backend_id1");
    assert_eq!(config.device_id, 3);
    assert_eq!(config.model_dir, "");
    assert_eq!(config.ops.len(), 0);
    assert_eq!(config.get_option("key1"), None);
    config.add_option("key1", "value1");
    config.add_option("key2", "value2");
    assert_eq!(config.get_option("key1"), Some(&String::from("value1")));
    assert_eq!(config.get_option("key2"), Some(&String::from("value2")));
    config.add_option("key1", "value3");
    assert_eq!(config.get_option("key1"), Some(&String::from("value3")));
    assert_eq!(config.ops.len(), 2);
    assert_eq!(config.backend, "backend_id1");
    println!("{:?}", config);
}

#[test]
fn config_names_the_model_to_load() {
    let mut config = Config::new("cpu", 0);
    config.model_dir = String::from("models/net.onnx");
    let files: Table<Vec<u8>> = Table::new();
    assert_eq!(
        load_model(&config, &ModelFile::Missing, None, &files).unwrap_err(),
        LoadError::FileNotFound { path: String::from("models/net.onnx") }
    );
    let proto = ModelProto {
        opset_import: vec![],
        graph: Some(GraphProto { name: String::from("net"), ..Default::default() }),
    };
    let graph = load_model(&config, &ModelFile::Decoded(proto), Some("models"), &files).unwrap();
    assert_eq!(graph.name(), "net");
}

#[test]
fn config_default_is_empty() {
    let config = Config::default();
    assert_eq!(config.model_dir, "");
    assert_eq!(config.backend, "");
    assert_eq!(config.device_id, 0);
    assert_eq!(config.ops.len(), 0);
}
