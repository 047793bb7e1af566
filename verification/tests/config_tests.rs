use layered_config::keymap;
use layered_config::{
    merge_keys, Config, ConfigLoadError, ConfigRaw, EditorConfig, IoFault, KeyTrie, KeyTrieNode,
    Keymap, LineNumber, ParseError, SourceFile,
};

fn load_test(file: &str) -> Config {
    let raw = ConfigRaw::parse(file).unwrap();
    Config::try_from(ConfigRaw::default().merge(raw, true)).unwrap()
}

fn leaf(chord: &str, cmd: &str) -> (String, KeyTrie) {
    (chord.to_string(), KeyTrie::Leaf(cmd.to_string()))
}

fn node(name: &str, map: Vec<(String, KeyTrie)>) -> KeyTrie {
    KeyTrie::Node(KeyTrieNode { name: name.to_string(), map })
}

#[test]
fn parsing_keymaps_config_file() {
    let sample_keymaps = r#"
            [keys.insert]
            y = "move_line_down"
            S-C-a = "delete_selection"

            [keys.normal]
            A-F12 = "move_next_word_end"
        "#;

    // The parser yields table entries in sorted key order.
    let overlay = Keymap {
        normal: Some(node("Normal mode", vec![leaf("A-F12", "move_next_word_end")])),
        insert: Some(node(
            "Insert mode",
            vec![leaf("S-C-a", "delete_selection"), leaf("y", "move_line_down")],
        )),
        select: None,
    };
    let keys = merge_keys(keymap::default(), overlay);

    assert_eq!(load_test(sample_keymaps), Config { keys, ..Default::default() });
}

#[test]
fn keys_resolve_to_correct_defaults() {
    // From an empty document
    let default_keys = load_test("").keys;
    assert_eq!(default_keys, keymap::default());

    // From the Default impl
    let default_keys = Config::default().keys;
    assert_eq!(default_keys, keymap::default());
}

#[test]
fn materializing_the_baseline_is_the_default_config() {
    assert_eq!(Config::try_from(ConfigRaw::default()).unwrap(), Config::default());
}

#[test]
fn workspace_cannot_disable_itself() {
    let global = SourceFile::Content("workspace-config = true".to_string());
    let workspace = SourceFile::Content("workspace-config = false".to_string());
    let config = Config::load(&global, &workspace).unwrap();
    assert!(config.workspace_config);
}

#[test]
fn workspace_cannot_enable_itself() {
    let global = SourceFile::Content("workspace-config = false".to_string());
    let workspace = SourceFile::Content("workspace-config = true".to_string());
    let config = Config::load(&global, &workspace).unwrap();
    assert!(!config.workspace_config);
}

#[test]
fn workspace_theme_overrides_global_theme() {
    let global = SourceFile::Content("workspace-config = true\ntheme = \"dark\"".to_string());
    let workspace = SourceFile::Content("theme = \"light\"".to_string());
    let config = Config::load(&global, &workspace).unwrap();
    assert_eq!(config.theme, Some("light".to_string()));
    assert!(config.workspace_config);
}

#[test]
fn missing_workspace_file_is_tolerated() {
    let text = "workspace-config = true\ntheme = \"dark\"";
    let global = SourceFile::Content(text.to_string());
    let loaded = Config::load(&global, &SourceFile::Missing).unwrap();
    let expected =
        Config::try_from(ConfigRaw::default().merge(ConfigRaw::parse(text).unwrap(), true))
            .unwrap();
    assert_eq!(loaded, expected);
}

#[test]
fn unknown_workspace_key_fails_the_load() {
    let global = SourceFile::Content("workspace-config = true".to_string());
    let workspace = SourceFile::Content("no-such-key = 1".to_string());
    match Config::load(&global, &workspace) {
        Err(ConfigLoadError::BadConfig(ParseError::UnknownKey(k))) => {
            assert_eq!(k, "no-such-key");
        },
        other => panic!("expected an unknown-key failure, got {:?}", other),
    }
}

#[test]
fn missing_global_file_is_fatal() {
    match Config::load(&SourceFile::Missing, &SourceFile::Missing) {
        Err(ConfigLoadError::Error(IoFault::NotFound)) => {},
        other => panic!("expected a not-found failure, got {:?}", other),
    }
}

#[test]
fn unreadable_global_file_is_fatal() {
    match Config::load(&SourceFile::Unreadable, &SourceFile::Missing) {
        Err(ConfigLoadError::Error(IoFault::Unreadable)) => {},
        other => panic!("expected an unreadable failure, got {:?}", other),
    }
}

#[test]
fn unreadable_workspace_file_is_fatal() {
    let global = SourceFile::Content("workspace-config = true".to_string());
    match Config::load(&global, &SourceFile::Unreadable) {
        Err(ConfigLoadError::Error(IoFault::Unreadable)) => {},
        other => panic!("expected an unreadable failure, got {:?}", other),
    }
}

#[test]
fn invalid_toml_is_a_bad_config() {
    let global = SourceFile::Content("theme = ".to_string());
    match Config::load(&global, &SourceFile::Missing) {
        Err(ConfigLoadError::BadConfig(ParseError::Syntax(_))) => {},
        other => panic!("expected a syntax failure, got {:?}", other),
    }
}

#[test]
fn editor_settings_validate_and_default() {
    let global = SourceFile::Content(
        "[editor]\nscrolloff = 7\nmouse = false\nline-number = \"relative\"".to_string(),
    );
    let config = Config::load(&global, &SourceFile::Missing).unwrap();
    assert_eq!(
        config.editor,
        EditorConfig {
            scrolloff: 7,
            mouse: false,
            middle_click_paste: true,
            line_number: LineNumber::Relative,
        }
    );
}

#[test]
fn unknown_editor_key_is_rejected() {
    let global = SourceFile::Content("[editor]\nanimation = true".to_string());
    match Config::load(&global, &SourceFile::Missing) {
        Err(ConfigLoadError::BadConfig(ParseError::UnknownKey(k))) => {
            assert_eq!(k, "animation");
        },
        other => panic!("expected an unknown-key failure, got {:?}", other),
    }
}

#[test]
fn wrongly_typed_editor_value_is_rejected() {
    let global = SourceFile::Content("[editor]\nscrolloff = \"big\"".to_string());
    match Config::load(&global, &SourceFile::Missing) {
        Err(ConfigLoadError::BadConfig(ParseError::WrongType(k))) => {
            assert_eq!(k, "scrolloff");
        },
        other => panic!("expected a wrong-type failure, got {:?}", other),
    }
}

#[test]
fn negative_scrolloff_is_rejected() {
    let global = SourceFile::Content("[editor]\nscrolloff = -1".to_string());
    match Config::load(&global, &SourceFile::Missing) {
        Err(ConfigLoadError::BadConfig(ParseError::WrongType(k))) => {
            assert_eq!(k, "scrolloff");
        },
        other => panic!("expected a wrong-type failure, got {:?}", other),
    }
}

#[test]
fn wrongly_typed_theme_is_rejected() {
    let global = SourceFile::Content("theme = 3".to_string());
    match Config::load(&global, &SourceFile::Missing) {
        Err(ConfigLoadError::BadConfig(ParseError::WrongType(k))) => {
            assert_eq!(k, "theme");
        },
        other => panic!("expected a wrong-type failure, got {:?}", other),
    }
}

#[test]
fn unknown_mode_is_rejected() {
    let global = SourceFile::Content("[keys.visual]\nx = \"yank\"".to_string());
    match Config::load(&global, &SourceFile::Missing) {
        Err(ConfigLoadError::BadConfig(ParseError::UnknownKey(k))) => {
            assert_eq!(k, "visual");
        },
        other => panic!("expected an unknown-key failure, got {:?}", other),
    }
}

#[test]
fn command_sequences_parse_as_sequences() {
    let sample = "[keys.normal]\nx = [\"yank\", \"paste_after\"]";
    let overlay = Keymap {
        normal: Some(node(
            "Normal mode",
            vec![(
                "x".to_string(),
                KeyTrie::Sequence(vec!["yank".to_string(), "paste_after".to_string()]),
            )],
        )),
        insert: None,
        select: None,
    };
    let keys = merge_keys(keymap::default(), overlay);
    assert_eq!(load_test(sample), Config { keys, ..Default::default() });
}

#[test]
fn placeholder_error_is_not_found() {
    match ConfigLoadError::default() {
        ConfigLoadError::Error(IoFault::NotFound) => {},
        other => panic!("expected the not-found placeholder, got {:?}", other),
    }
}

#[test]
fn error_messages_name_the_offending_key() {
    let err = ConfigLoadError::BadConfig(ParseError::UnknownKey("no-such-key".to_string()));
    assert_eq!(err.message(), "unknown configuration key: no-such-key");
    let err = ConfigLoadError::BadConfig(ParseError::WrongType("theme".to_string()));
    assert_eq!(err.message(), "wrong value type for key: theme");
    assert_eq!(
        ConfigLoadError::Error(IoFault::NotFound).message(),
        "configuration file not found"
    );
}
