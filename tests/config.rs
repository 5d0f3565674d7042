use ronf::{Codec, Config, File, FileFormat, Table, Value};

/// A JSON collaborator for the tests: objects become tables, in document
/// order; other formats are refused.
struct Json;

fn json_to_value(v: &serde_json::Value) -> Value {
    match v {
        serde_json::Value::Null => Value::Null,
        serde_json::Value::Bool(b) => Value::Bool(*b),
        serde_json::Value::Number(n) => match n.as_i64() {
            Some(i) => Value::Int(i),
            None => Value::Float(n.as_f64().unwrap_or(0.0).to_bits()),
        },
        serde_json::Value::String(s) => Value::String(s.clone()),
        serde_json::Value::Array(a) => Value::Array(a.iter().map(json_to_value).collect()),
        serde_json::Value::Object(o) => Value::Table(json_to_table(o)),
    }
}

fn json_to_table(o: &serde_json::Map<String, serde_json::Value>) -> Table {
    let mut t = Table::new();
    for (k, v) in o {
        t.insert(k.clone(), json_to_value(v));
    }
    t
}

fn value_to_json(v: &Value) -> serde_json::Value {
    match v {
        Value::Null => serde_json::Value::Null,
        Value::Bool(b) => serde_json::Value::Bool(*b),
        Value::Int(i) => serde_json::Value::from(*i),
        Value::Float(bits) => serde_json::Value::from(f64::from_bits(*bits)),
        Value::String(s) => serde_json::Value::String(s.clone()),
        Value::Array(a) => serde_json::Value::Array(a.iter().map(value_to_json).collect()),
        Value::Table(t) => table_to_json(t),
    }
}

fn table_to_json(t: &Table) -> serde_json::Value {
    let mut o = serde_json::Map::new();
    for i in 0..t.len() {
        let (k, v) = t.entry_at(i);
        o.insert(k.clone(), value_to_json(v));
    }
    serde_json::Value::Object(o)
}

impl Codec for Json {
    fn decode(&self, format: FileFormat, content: &String) -> Result<Table, String> {
        if format != FileFormat::Json {
            return Err(format!("{} format is not enabled", format.to_string()));
        }
        let v: serde_json::Value =
            serde_json::from_str(content).map_err(|e| format!("Failed to parse JSON: {}", e))?;
        Ok(match v.as_object() {
            Some(o) => json_to_table(o),
            None => Table::new(),
        })
    }

    fn encode(&self, format: FileFormat, table: &Table) -> Result<String, String> {
        if format != FileFormat::Json {
            return Err(format!("{} format is not enabled", format.to_string()));
        }
        Ok(serde_json::to_string(&table_to_json(table)).unwrap())
    }
}

fn json_file(content: &str) -> File {
    File::new_str("test_file", FileFormat::Json, content)
}

fn string(s: &str) -> Value {
    Value::String(s.to_string())
}

fn env(vars: &[(&str, &str)]) -> Vec<(String, String)> {
    vars.iter()
        .map(|(k, v)| (k.to_string(), v.to_string()))
        .collect()
}

#[test]
fn test_config_builder() {
    let _config = Config::builder();
}

#[test]
fn test_config_get() {
    let config = Config::builder()
        .add_file(json_file("{\"key1\": \"value\"}"))
        .build(&Json)
        .unwrap();
    assert_eq!(config.get("key1").unwrap(), &string("value"));
}

#[test]
fn test_config_set() {
    let mut config = Config::builder()
        .add_file(json_file("{\"key2\": \"value\"}"))
        .build(&Json)
        .unwrap();
    config.set("key2", string("new_value"));
    assert_eq!(config.get("key2").unwrap(), &string("new_value"));
}

#[test]
fn test_config_list() {
    let config = Config::builder()
        .add_file(json_file("{\"key3\": \"value\"}"))
        .build(&Json)
        .unwrap();
    assert_eq!(config.list(), vec!["key3".to_string()]);
}

#[test]
fn test_config_load() {
    let mut config = Config::builder()
        .add_file(json_file("{\"key4\": \"value\"}"))
        .build(&Json)
        .unwrap();
    config
        .load(
            json_file("{\"key4\": \"new_value\", \"key5\": \"another_value\"}"),
            &Json,
        )
        .unwrap();
    assert_eq!(config.get("key4").unwrap(), &string("new_value"));

    let mut config = Config::builder()
        .add_file(json_file("{\"key6\": \"value\"}"))
        .build(&Json)
        .unwrap();
    let result = config.load(json_file("{\"key6\": \"new_value}"), &Json);
    assert!(result.is_err());
    assert_eq!(config.get("key6").unwrap(), &string("value"));
}

#[test]
fn test_config_save() {
    let mut config = Config::builder()
        .add_file(json_file("{\"key7\": \"value\"}"))
        .build(&Json)
        .unwrap();
    config.set("key7", string("new_value"));
    let save = config.save(FileFormat::Json, &Json).unwrap();
    assert_eq!(save, "{\"key7\":\"new_value\"}");
}

#[test]
fn test_builder_failed_parse_file() {
    let config = Config::builder()
        .add_file(json_file("{\"key8\": \"value}"))
        .build(&Json);
    assert!(config.is_err());
}

#[test]
fn test_builder_load() {
    let config = Config::builder()
        .add_file(json_file("{\"key9\": \"value\"}"))
        .load(json_file("{\"key9\": \"new_value\"}"), &Json)
        .unwrap()
        .build(&Json)
        .unwrap();
    assert_eq!(config.get("key9").unwrap(), &string("new_value"));
}

#[test]
fn test_builder_load_failure() {
    let config = Config::builder()
        .add_file(json_file("{\"key10\": \"value\"}"))
        .load(json_file(""), &Json);
    assert!(config.is_err());
}

#[test]
fn test_builder_load_none() {
    let config = Config::builder()
        .add_file(json_file("{\"key11\": \"value\"}"))
        .load(json_file("{\"key12\": \"new_value\"}"), &Json)
        .unwrap()
        .build(&Json)
        .unwrap();
    assert_eq!(config.get("key11").unwrap(), &string("value"));
    assert!(config.get("key12").is_none());
}

#[test]
fn test_env_vars() {
    let config = Config::builder()
        .add_file(json_file("{\"key13\": \"value\"}"))
        .with_env(env(&[("KEY13", "overwrite")]))
        .build(&Json)
        .unwrap();
    assert_eq!(config.get("key13").unwrap(), &string("overwrite"));
}

#[test]
fn test_env_vars_table() {
    let config = Config::builder()
        .add_file(json_file("{\"key14\": {\"key15\": \"value\"}}"))
        .with_env(env(&[("KEY14", "overwrite")]))
        .build(&Json)
        .unwrap();
    let mut expected = Table::new();
    expected.insert("key15".to_string(), string("value"));
    assert_eq!(config.get("key14").unwrap(), &Value::Table(expected));
}

#[test]
fn scenario_json_source_is_read() {
    let config = Config::builder()
        .add_file(json_file("{\"key\": \"value\"}"))
        .build(&Json)
        .unwrap();
    assert_eq!(config.get("key"), Some(&string("value")));
}

#[test]
fn scenario_set_then_save() {
    let mut config = Config::builder()
        .add_file(json_file("{\"key\": \"value\"}"))
        .build(&Json)
        .unwrap();
    config.set("key", string("another value"));
    assert_eq!(config.get("key"), Some(&string("another value")));
    assert_eq!(
        config.save(FileFormat::Json, &Json).unwrap(),
        "{\"key\":\"another value\"}"
    );
}

#[test]
fn scenario_env_overwrites_scalar() {
    let config = Config::builder()
        .add_file(json_file("{\"key\": 5}"))
        .with_env(env(&[("KEY", "overwrite")]))
        .build(&Json)
        .unwrap();
    assert_eq!(config.get("key"), Some(&string("overwrite")));
}

#[test]
fn scenario_env_leaves_table() {
    let config = Config::builder()
        .add_file(json_file("{\"key14\": {\"key15\": \"value\"}}"))
        .with_env(env(&[("KEY14", "overwrite"), ("KEY14_KEY15", "deep")]))
        .build(&Json)
        .unwrap();
    let mut expected = Table::new();
    expected.insert("key15".to_string(), string("value"));
    assert_eq!(config.get("key14"), Some(&Value::Table(expected)));
}

#[test]
fn scenario_override_of_absent_key_is_ignored_but_saved() {
    let config = Config::builder()
        .add_file(json_file("{\"key\": \"value\"}"))
        .load(json_file("{\"other\": 1}"), &Json)
        .unwrap()
        .build(&Json)
        .unwrap();
    assert!(config.get("other").is_none());
    assert_eq!(config.list(), vec!["key".to_string()]);
    assert_eq!(config.save(FileFormat::Json, &Json).unwrap(), "{\"other\":1}");
}

#[test]
fn env_names_split_on_underscores() {
    let config = Config::builder()
        .add_file(json_file("{\"db\": \"x\", \"port\": 1, \"name\": \"n\"}"))
        .with_env(env(&[
            ("__DB__HOST", "h"),
            ("Port", "80"),
            ("___", "ignored"),
            ("", "ignored"),
            ("MISSING", "m"),
        ]))
        .build(&Json)
        .unwrap();
    assert_eq!(config.get("db"), Some(&string("h")));
    assert_eq!(config.get("port"), Some(&string("80")));
    assert_eq!(config.get("name"), Some(&string("n")));
    assert!(config.get("missing").is_none());
}

#[test]
fn later_sources_win_and_keep_first_place() {
    let config = Config::builder()
        .add_file(json_file("{\"a\": 1, \"b\": {\"x\": 1}}"))
        .add_file(json_file("{\"b\": {\"y\": 2}, \"c\": 3}"))
        .build(&Json)
        .unwrap();
    let mut expected = Table::new();
    expected.insert("y".to_string(), Value::Int(2));
    assert_eq!(config.get("b"), Some(&Value::Table(expected)));
    assert_eq!(config.get("a"), Some(&Value::Int(1)));
    assert_eq!(
        config.list(),
        vec!["a".to_string(), "b".to_string(), "c".to_string()]
    );
}

#[test]
fn disjoint_sources_give_union() {
    let config = Config::builder()
        .add_file(json_file("{\"a\": 1}"))
        .add_file(json_file("{\"b\": true}"))
        .add_file(json_file("{}"))
        .build(&Json)
        .unwrap();
    assert_eq!(config.get("a"), Some(&Value::Int(1)));
    assert_eq!(config.get("b"), Some(&Value::Bool(true)));
    assert_eq!(config.list().len(), 2);
}

#[test]
fn set_adds_new_keys() {
    let mut config = Config::builder().build(&Json).unwrap();
    assert!(config.list().is_empty());
    config.set("fresh", Value::Int(3));
    assert_eq!(config.get("fresh"), Some(&Value::Int(3)));
    assert_eq!(config.list(), vec!["fresh".to_string()]);
}

#[test]
fn save_round_trips_through_load() {
    let defaults = "{\"a\": 1, \"b\": \"x\"}";
    let mut config = Config::builder()
        .add_file(json_file(defaults))
        .build(&Json)
        .unwrap();
    config.set("b", string("y"));
    config.set("z", Value::Bool(true));
    let saved = config.save(FileFormat::Json, &Json).unwrap();
    let reloaded = Config::builder()
        .add_file(json_file(defaults))
        .load(json_file(&saved), &Json)
        .unwrap()
        .build(&Json)
        .unwrap();
    assert_eq!(reloaded.get("a"), Some(&Value::Int(1)));
    assert_eq!(reloaded.get("b"), Some(&string("y")));
    assert!(reloaded.get("z").is_none());
    assert_eq!(reloaded.save(FileFormat::Json, &Json).unwrap(), saved);
}

#[test]
fn failed_source_names_the_file() {
    let err = Config::builder()
        .add_file(json_file("{}"))
        .add_file(File::new_str("broken.yaml", FileFormat::Yaml, "a: b"))
        .build(&Json)
        .err()
        .unwrap();
    assert_eq!(err, "Failed to parse file broken.yaml: yaml format is not enabled");
}

#[test]
fn empty_override_document_is_refused() {
    let err = Config::builder()
        .load(File::new_str("save", FileFormat::Json, ""), &Json)
        .err()
        .unwrap();
    assert_eq!(err, "Empty content");
}

#[test]
fn resolve_applies_layers_in_order() {
    let mut a = Table::new();
    a.insert("k".to_string(), Value::Int(1));
    a.insert("t".to_string(), Value::Table(Table::new()));
    let mut changes = Table::new();
    changes.insert("k".to_string(), Value::Int(2));
    changes.insert("new".to_string(), Value::Int(9));
    let config = Config::resolve(vec![a], changes, Some(env(&[("K", "env")])));
    assert_eq!(config.get("k"), Some(&string("env")));
    assert!(config.get("new").is_none());
    let config_no_env = {
        let mut a = Table::new();
        a.insert("k".to_string(), Value::Int(1));
        let mut changes = Table::new();
        changes.insert("k".to_string(), Value::Int(2));
        Config::resolve(vec![a], changes, None)
    };
    assert_eq!(config_no_env.get("k"), Some(&Value::Int(2)));
}

#[test]
fn load_after_build_refuses_empty_content() {
    let mut config = Config::builder()
        .add_file(json_file("{\"a\": 1}"))
        .build(&Json)
        .unwrap();
    let err = config.load(json_file(""), &Json).err().unwrap();
    assert_eq!(err, "Empty content");
    assert_eq!(config.get("a"), Some(&Value::Int(1)));
}

#[test]
fn first_failing_source_is_reported() {
    let err = Config::builder()
        .add_file(json_file("{\"a\": 1}"))
        .add_file(File::new_str("first.ron", FileFormat::Ron, "(a: 1)"))
        .add_file(File::new_str("second.yaml", FileFormat::Yaml, "a: 1"))
        .build(&Json)
        .err()
        .unwrap();
    assert_eq!(err, "Failed to parse file first.ron: ron format is not enabled");
}

#[test]
fn file_parse_returns_the_decoded_table() {
    let table = json_file("{\"a\": [1, \"b\"]}").parse(&Json).unwrap();
    assert_eq!(table.len(), 1);
    assert_eq!(
        table.get("a"),
        Some(&Value::Array(vec![Value::Int(1), string("b")]))
    );
    assert!(json_file("{").parse(&Json).is_err());
}

#[test]
fn list_has_no_duplicates_after_overrides() {
    let mut config = Config::builder()
        .add_file(json_file("{\"a\": 1, \"b\": 2}"))
        .add_file(json_file("{\"b\": 3, \"a\": 4}"))
        .build(&Json)
        .unwrap();
    config.set("a", Value::Int(5));
    assert_eq!(config.list(), vec!["a".to_string(), "b".to_string()]);
}
