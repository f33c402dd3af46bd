use configure_semantic_release_assets::json::json_eq;
use configure_semantic_release_assets::JsonValue;
use configure_semantic_release_assets::ModifiedFlag;
use configure_semantic_release_assets::SemanticReleaseManifest;

fn parse(text: &str) -> SemanticReleaseManifest {
    SemanticReleaseManifest::parse_from_string(text).unwrap()
}

fn whitelist(items: &[&str]) -> Vec<String> {
    items.iter().map(|s| (*s).to_owned()).collect()
}

const TARGET_MANIFEST: &'static str = r#"
{
  "branches": ["main"],
  "plugins": [
    [
      "@semantic-release/github",
      {
        "assets": [
          { "label": "x" },
          { "label": "y" },
          { "label": "z" }
        ]
      }
    ]
  ]
}
"#;

#[test]
fn round_trip_reparse_is_structurally_equal() {
    let first = parse(TARGET_MANIFEST);
    let second = parse(&first.to_string());
    assert!(first.structurally_equal(&second));
    assert_eq!(first.to_string(), second.to_string());
}

#[test]
fn round_trip_of_varied_document_is_structurally_equal() {
    let text = r#"{"n": 42, "big": 18446744073709551615, "neg": -7, "frac": -1.5,
                   "s": "a\"b\\c\nd", "bell": "\u0007", "plain": "caf\u00e9",
                   "t": true, "f": false, "nothing": null,
                   "empty_arr": [], "empty_obj": {}, "nested": [[1, 2], {"k": "v"}]}"#;
    let first = parse(text);
    let second = parse(&first.to_string());
    assert!(first.structurally_equal(&second));
    assert_eq!(first.to_string(), second.to_string());
}

#[test]
fn rendering_escapes_and_empties_exactly() {
    let text = r#"{"s": "a\"b\\c\nd", "bell": "\u0007", "empty_arr": [], "empty_obj": {}}"#;
    let manifest = parse(text);
    let expected = "{\n  \"s\": \"a\\\"b\\\\c\\nd\",\n  \"bell\": \"\\u0007\",\n  \"empty_arr\": [],\n  \"empty_obj\": {}\n}";
    assert_eq!(expected, manifest.to_string());
}

#[test]
fn scenario_whitelist_keeps_only_listed_label() {
    let mut manifest = parse(TARGET_MANIFEST);
    let flag = manifest.apply_whitelist(&whitelist(&["y"]));
    assert_eq!(flag, ModifiedFlag::Modified);
    let expected = parse(
        r#"
{
  "branches": ["main"],
  "plugins": [
    [
      "@semantic-release/github",
      { "assets": [ { "label": "y" } ] }
    ]
  ]
}
"#,
    );
    assert!(manifest.structurally_equal(&expected));
}

#[test]
fn scenario_full_whitelist_changes_nothing() {
    let mut manifest = parse(TARGET_MANIFEST);
    let flag = manifest.apply_whitelist(&whitelist(&["x", "y", "z"]));
    assert_eq!(flag, ModifiedFlag::Unmodified);
    assert!(manifest.structurally_equal(&parse(TARGET_MANIFEST)));
}

#[test]
fn order_of_retained_assets_follows_input_not_whitelist() {
    let text = r#"
{
  "plugins": [
    [
      "@semantic-release/github",
      { "assets": [ { "label": "a" }, { "label": "b" }, { "label": "c" } ] }
    ]
  ]
}
"#;
    let mut manifest = parse(text);
    let flag = manifest.apply_whitelist(&whitelist(&["b", "a"]));
    assert_eq!(flag, ModifiedFlag::Modified);
    let expected = parse(
        r#"
{
  "plugins": [
    [
      "@semantic-release/github",
      { "assets": [ { "label": "a" }, { "label": "b" } ] }
    ]
  ]
}
"#,
    );
    assert!(manifest.structurally_equal(&expected));
}

#[test]
fn empty_whitelist_strips_every_labelled_asset() {
    let mut manifest = parse(TARGET_MANIFEST);
    let flag = manifest.apply_whitelist(&whitelist(&[]));
    assert_eq!(flag, ModifiedFlag::Modified);
    let expected = parse(
        r#"
{
  "branches": ["main"],
  "plugins": [
    [
      "@semantic-release/github",
      { "assets": [] }
    ]
  ]
}
"#,
    );
    assert!(manifest.structurally_equal(&expected));
}

#[test]
fn non_target_plugin_with_asset_shaped_field_is_never_altered() {
    let text = r#"
{
  "plugins": [
    [
      "some-other-plugin",
      { "assets": [ { "path": "p" }, { "label": "x" }, "bare" ] }
    ],
    "@semantic-release/github"
  ]
}
"#;
    let mut manifest = parse(text);
    let flag = manifest.apply_whitelist(&whitelist(&[]));
    assert_eq!(flag, ModifiedFlag::Unmodified);
    assert!(manifest.structurally_equal(&parse(text)));
}

#[test]
fn unrecognized_asset_shapes_pass_through() {
    let text = r#"
{
  "plugins": [
    [
      "@semantic-release/github",
      { "assets": [ "CHANGELOG.md", { "path": "only-a-path" }, { "label": "x" }, 7 ] }
    ]
  ]
}
"#;
    let mut manifest = parse(text);
    let flag = manifest.apply_whitelist(&whitelist(&[]));
    assert_eq!(flag, ModifiedFlag::Modified);
    let expected = parse(
        r#"
{
  "plugins": [
    [
      "@semantic-release/github",
      { "assets": [ "CHANGELOG.md", { "path": "only-a-path" }, 7 ] }
    ]
  ]
}
"#,
    );
    assert!(manifest.structurally_equal(&expected));
}

#[test]
fn manifest_without_plugins_or_with_odd_plugins_is_untouched() {
    for text in [
        r#"{"name": "nothing here"}"#,
        r#"{"plugins": 5}"#,
        r#"{"plugins": {"not": "an array"}}"#,
        r#"{"plugins": [["@semantic-release/github"], [7, {"assets": [{"label": "x"}]}]]}"#,
    ] {
        let mut manifest = parse(text);
        let flag = manifest.apply_whitelist(&whitelist(&[]));
        assert_eq!(flag, ModifiedFlag::Unmodified);
        assert!(manifest.structurally_equal(&parse(text)));
    }
}

#[test]
fn parse_rejects_text_that_is_not_a_json_object() {
    assert!(SemanticReleaseManifest::parse_from_string("not json at all").is_err());
    assert!(SemanticReleaseManifest::parse_from_string("[1, 2]").is_err());
    assert!(SemanticReleaseManifest::parse_from_string("").is_err());
    assert!(SemanticReleaseManifest::parse_from_string("{\"unterminated\": ").is_err());
    let e = SemanticReleaseManifest::parse_from_string("{,}").unwrap_err();
    assert!(!e.message.is_empty());
}

#[test]
fn json_values_compare_structurally() {
    let a = JsonValue::Obj(vec![
        ("k".to_owned(), JsonValue::Arr(vec![JsonValue::Num("1".to_owned()), JsonValue::Null])),
        ("b".to_owned(), JsonValue::Bool(true)),
    ]);
    let b = JsonValue::Obj(vec![
        ("k".to_owned(), JsonValue::Arr(vec![JsonValue::Num("1".to_owned()), JsonValue::Null])),
        ("b".to_owned(), JsonValue::Bool(true)),
    ]);
    let c = JsonValue::Obj(vec![
        ("b".to_owned(), JsonValue::Bool(true)),
        ("k".to_owned(), JsonValue::Arr(vec![JsonValue::Num("1".to_owned()), JsonValue::Null])),
    ]);
    assert!(json_eq(&a, &b));
    assert!(!json_eq(&a, &c));
    assert!(!json_eq(&a, &JsonValue::Str("k".to_owned())));
}

#[test]
fn key_order_is_preserved_at_every_depth() {
    let text = r#"{"zeta": {"b": 1, "a": 2}, "alpha": 3, "middle": [{"z": 1, "y": 2}]}"#;
    let manifest = parse(text);
    let expected = "{\n  \"zeta\": {\n    \"b\": 1,\n    \"a\": 2\n  },\n  \"alpha\": 3,\n  \"middle\": [\n    {\n      \"z\": 1,\n      \"y\": 2\n    }\n  ]\n}";
    assert_eq!(expected, manifest.to_string());
}
