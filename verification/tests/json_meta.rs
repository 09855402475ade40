use pix::config::{AppConfig, LayerConfig};
use pix::cli::Mode;
use pix::json::{to_json_string, JsonValue};
use pix::metadata::{attributes_json, build_template, build_with_attributes, Attribute};
use pix::new_project::new_project_template;

fn attr(name: &str, value: &str) -> Attribute {
    Attribute { name: name.to_string(), value: value.to_string() }
}

fn layer(name: &str, display: Option<&str>) -> LayerConfig {
    LayerConfig {
        name: name.to_string(),
        display_name: display.map(|d| d.to_string()),
        none: None,
        exclude_if_sets: None,
        exclude_if_traits: None,
    }
}

fn config(name: &str, layers: Vec<LayerConfig>, extra: Option<Vec<(String, JsonValue)>>) -> AppConfig {
    AppConfig {
        policy_id: None,
        name: name.to_string(),
        display_name: None,
        mode: Mode::Simple,
        start_at_one: false,
        amount: 10,
        tolerance: 50,
        path: "images".to_string(),
        sets: None,
        layers,
        nft_maker: None,
        extra,
    }
}

#[test]
fn json_values_serialize_compactly() {
    let v = JsonValue::Obj(vec![
        ("a".to_string(), JsonValue::Int(1)),
        (
            "b".to_string(),
            JsonValue::Arr(vec![
                JsonValue::Bool(true),
                JsonValue::Null,
                JsonValue::Str("x\"y".to_string()),
            ]),
        ),
    ]);
    assert_eq!(to_json_string(&v), "{\"a\":1,\"b\":[true,null,\"x\\\"y\"]}");
}

#[test]
fn json_negative_and_extreme_integers() {
    assert_eq!(to_json_string(&JsonValue::Int(-42)), "-42");
    assert_eq!(to_json_string(&JsonValue::Int(i64::MIN)), "-9223372036854775808");
    assert_eq!(to_json_string(&JsonValue::Int(i64::MAX)), "9223372036854775807");
}

#[test]
fn json_escapes_quotes_backslashes_and_controls() {
    let v = JsonValue::Str("a\\b\"c\nd\u{01}".to_string());
    assert_eq!(to_json_string(&v), "\"a\\\\b\\\"c\\u000ad\\u0001\"");
}

#[test]
fn attribute_map_serializes_in_layer_order() {
    let attrs = vec![attr("Background", "Red"), attr("Hat", "None")];
    assert_eq!(attributes_json(&attrs), "{\"Background\":\"Red\",\"Hat\":\"None\"}");
}

#[test]
fn template_carries_placeholders_per_layer() {
    let cfg = config(
        "pix",
        vec![layer("background", None), layer("hat", Some("Hat"))],
        None,
    );
    let expected = "{\"721\":{\"<policy_id>\":{\"<asset_name>\":{\"name\":\"<display_name>\",\"image\":\"<ipfs_link>\",\"mediaType\":\"<mime_type>\",\"files\":[{\"name\":\"<display_name>\",\"mediaType\":\"<mime_type>\",\"src\":\"<ipfs_link>\"}],\"attributes\":{\"background\":\"<attribute0>\",\"Hat\":\"<attribute1>\"}}},\"version\":\"1.0\"}}";
    let out = build_template(&cfg);
    assert_eq!(out, expected);
    let doc: serde_json::Value = serde_json::from_str(&out).expect("the template must parse");
    assert_eq!(doc["721"]["version"], "1.0");
    assert_eq!(
        doc["721"]["<policy_id>"]["<asset_name>"]["attributes"]["Hat"],
        "<attribute1>"
    );
    assert_eq!(doc["721"]["<policy_id>"]["<asset_name>"]["name"], "<display_name>");
}

#[test]
fn template_appends_extra_fields() {
    let cfg = config(
        "pix",
        vec![layer("background", None)],
        Some(vec![("twitter".to_string(), JsonValue::Str("url".to_string()))]),
    );
    let out = build_template(&cfg);
    assert!(out.contains("\"attributes\":{\"background\":\"<attribute0>\"},\"twitter\":\"url\"}"));
    let doc: serde_json::Value = serde_json::from_str(&out).expect("the template must parse");
    assert_eq!(doc["721"]["<policy_id>"]["<asset_name>"]["twitter"], "url");
}

#[test]
fn metadata_document_of_one_output() {
    let attrs = vec![attr("Background", "Red")];
    let display = "Pix".to_string();
    let out = build_with_attributes(
        attrs,
        None,
        "pix".to_string(),
        Some(&display),
        Some(vec![("twitter".to_string(), JsonValue::Str("url".to_string()))]),
        3,
    );
    let expected = "{\"721\":{\"<policy_id>\":{\"pix3\":{\"name\":\"Pix #3\",\"image\":\"<ipfs_link>\",\"mediaType\":\"image/png\",\"files\":[{\"name\":\"Pix #3\",\"mediaType\":\"image/png\",\"src\":\"<ipfs_link>\"}],\"attributes\":{\"Background\":\"Red\"},\"twitter\":\"url\"}},\"version\":\"1.0\"}}";
    assert_eq!(out, expected);
    let doc: serde_json::Value = serde_json::from_str(&out).expect("the metadata must parse");
    assert_eq!(doc["721"]["version"], "1.0");
    assert_eq!(doc["721"]["<policy_id>"]["pix3"]["name"], "Pix #3");
    assert_eq!(doc["721"]["<policy_id>"]["pix3"]["attributes"]["Background"], "Red");
}

#[test]
fn metadata_document_uses_policy_and_falls_back_to_the_asset_name() {
    let out = build_with_attributes(
        vec![attr("Background", "Red")],
        Some("abc123".to_string()),
        "pix".to_string(),
        None,
        None,
        1,
    );
    let expected = "{\"721\":{\"abc123\":{\"pix1\":{\"name\":\"pix #1\",\"image\":\"<ipfs_link>\",\"mediaType\":\"image/png\",\"files\":[{\"name\":\"pix #1\",\"mediaType\":\"image/png\",\"src\":\"<ipfs_link>\"}],\"attributes\":{\"Background\":\"Red\"}}},\"version\":\"1.0\"}}";
    assert_eq!(out, expected);
}

#[test]
fn project_creation_document() {
    let cfg = config(
        "pix",
        vec![layer("background", None)],
        Some(vec![("website".to_string(), JsonValue::Str("https://example.org".to_string()))]),
    );
    let out = new_project_template(&cfg, "META".to_string(), "2022-02-20T00:00:00.988Z".to_string());
    let expected = "{\"projectname\":\"pix\",\"description\":null,\"projecturl\":\"https://example.org\",\"tokennamePrefix\":null,\"policyExpires\":true,\"policyLocksDateTime\":\"2022-02-20T00:00:00.988Z\",\"maxNftSupply\":1,\"policy\":null,\"metadata\":\"META\",\"addressExpiretime\":20}";
    assert_eq!(out, expected);
    let doc: serde_json::Value = serde_json::from_str(&out).expect("the request must parse");
    assert_eq!(doc["projectname"], "pix");
    assert_eq!(doc["maxNftSupply"], 1);
}

#[test]
fn project_creation_document_without_website() {
    let cfg = config("pix", vec![layer("background", None)], None);
    let out = new_project_template(&cfg, "M".to_string(), "T".to_string());
    assert!(out.contains("\"projecturl\":\"\""));
}
