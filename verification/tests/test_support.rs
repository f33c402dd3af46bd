use configure_semantic_release_assets::error_chain_fmt;
use configure_semantic_release_assets::find_semantic_release_config;
use configure_semantic_release_assets::is_unsupported_file_extension;
use configure_semantic_release_assets::Error;
use configure_semantic_release_assets::SemanticReleaseConfiguration;

#[test]
fn only_json_extensions_are_supported() {
    assert!(!is_unsupported_file_extension(Some(&"json".to_owned())));
    assert!(is_unsupported_file_extension(Some(&"yaml".to_owned())));
    assert!(is_unsupported_file_extension(Some(&"JSON".to_owned())));
    assert!(!is_unsupported_file_extension(None));
}

#[test]
fn configuration_search_outcome_is_interpreted() {
    let dir = ".".to_owned();
    let found = find_semantic_release_config(&dir, Some(".releaserc.json".to_owned()));
    assert_eq!(found.unwrap(), ".releaserc.json");
    let missing = find_semantic_release_config(&"/tmp/elsewhere".to_owned(), None);
    assert_eq!(missing.unwrap_err().directory, "/tmp/elsewhere");
}

#[test]
fn error_chain_lists_each_cause_on_its_own_paragraph() {
    let chained = error_chain_fmt(
        &"boom".to_owned(),
        &vec!["first cause".to_owned(), "second cause".to_owned()],
    );
    assert_eq!(
        chained,
        "boom\n\nCaused by:\n\tfirst cause\nCaused by:\n\tsecond cause\n"
    );
    let alone = error_chain_fmt(&"boom".to_owned(), &Vec::new());
    assert_eq!(alone, "boom\n\n");
}

#[test]
fn error_texts_name_the_failing_file() {
    let e = Error::FileOpenError {
        message: "permission denied".to_owned(),
        path: "cfg/.releaserc.json".to_owned(),
    };
    assert_eq!(
        e.display_string(),
        "Unable to open file \"cfg/.releaserc.json\""
    );
    assert_eq!(e.source_message().unwrap(), "permission denied");
    assert_eq!(
        e.debug_string(),
        "Unable to open file \"cfg/.releaserc.json\"\n\nCaused by:\n\tpermission denied\n"
    );

    let missing = Error::ConfigurationFileNotFound {
        path: "/repo/.releaserc.json".to_owned(),
    };
    assert_eq!(
        missing.display_string(),
        "Expected configuration file does not exist \"/repo/.releaserc.json\""
    );
    assert!(missing.source_message().is_none());
    assert_eq!(
        missing.debug_string(),
        "Expected configuration file does not exist \"/repo/.releaserc.json\"\n\n"
    );
}

#[test]
fn error_paths_are_rendered_debug_quoted() {
    // The displayed path is quoted and escaped exactly as `{:?}` renders it.
    let awkward = "a\"b\\c\td";
    let e = Error::FileWriteError {
        message: "disk full".to_owned(),
        path: awkward.to_owned(),
    };
    assert_eq!(e.display_string(), format!("{:?}", awkward));
    assert_eq!(e.display_string(), "\"a\\\"b\\\\c\\td\"");

    let control = "x\u{1}y\u{7f}";
    let e = Error::FileParseError {
        message: "bad".to_owned(),
        path: control.to_owned(),
    };
    assert_eq!(
        e.display_string(),
        format!("Unable to parse file {:?}", control)
    );
    assert_eq!(e.display_string(), "Unable to parse file \"x\\u{1}y\\u{7f}\"");
}

#[test]
fn unmodified_configuration_yields_nothing_to_write() {
    let text = "{\n  \"plugins\": []\n}\n";
    let mut configuration =
        SemanticReleaseConfiguration::from_manifest_text(text, ".releaserc.json".to_owned())
            .unwrap();
    configuration.apply_whitelist(&Vec::new());
    assert!(configuration.render_if_modified().is_none());
    assert_eq!(configuration.manifest_path().as_str(), ".releaserc.json");
}

#[test]
fn modified_configuration_yields_text_with_one_trailing_newline() {
    let text = r#"
{
  "plugins": [
    ["@semantic-release/github", { "assets": [ { "label": "x" } ] }]
  ]
}
"#;
    let mut configuration =
        SemanticReleaseConfiguration::from_manifest_text(text, ".releaserc.json".to_owned())
            .unwrap();
    configuration.apply_whitelist(&Vec::new());
    let rendered = configuration.render_if_modified().unwrap();
    assert!(rendered.ends_with("}\n"));
    assert!(!rendered.ends_with("}\n\n"));
    let expected = "{\n  \"plugins\": [\n    [\n      \"@semantic-release/github\",\n      {\n        \"assets\": []\n      }\n    ]\n  ]\n}\n";
    assert_eq!(rendered, expected);

    // A second application drops nothing further, and the flag stays set.
    configuration.apply_whitelist(&Vec::new());
    assert!(configuration.render_if_modified().is_some());
}

#[test]
fn parse_failure_names_the_configuration_path() {
    let failed =
        SemanticReleaseConfiguration::from_manifest_text("nope", "/repo/.releaserc.json".to_owned());
    match failed {
        Err(Error::FileParseError { message, path }) => {
            assert!(!message.is_empty());
            assert_eq!(path, "/repo/.releaserc.json");
        }
        _ => panic!("expected a parse error"),
    }
}
