use layered_config::{default_lang_config, user_lang_config, ValueTree};

fn get<'a>(t: &'a ValueTree, key: &str) -> Option<&'a ValueTree> {
    match t {
        ValueTree::Table(es) => es.iter().find(|(k, _)| k == key).map(|(_, v)| v),
        _ => None,
    }
}

#[test]
fn no_files_yield_the_compiled_in_defaults() {
    assert_eq!(user_lang_config(None, None).unwrap(), default_lang_config());
}

#[test]
fn default_lang_config_has_the_builtin_language() {
    let config = default_lang_config();
    assert_eq!(get(&config, "workspace-config"), Some(&ValueTree::Bool(false)));
    match get(&config, "language").unwrap() {
        ValueTree::Array(langs) => {
            assert_eq!(langs.len(), 1);
            assert_eq!(
                get(&langs[0], "name"),
                Some(&ValueTree::Str("rust".to_string()))
            );
        },
        other => panic!("expected an array of languages, got {:?}", other),
    }
}

#[test]
fn workspace_layer_is_ignored_while_disabled() {
    let merged = user_lang_config(Some("indent = 2"), Some("indent = 8")).unwrap();
    assert_eq!(get(&merged, "indent"), Some(&ValueTree::Int(2)));
}

#[test]
fn workspace_layer_merges_once_enabled() {
    let merged =
        user_lang_config(Some("workspace-config = true\nindent = 2"), Some("indent = 8"))
            .unwrap();
    assert_eq!(get(&merged, "indent"), Some(&ValueTree::Int(8)));
    // The compiled-in language list is still present.
    assert!(get(&merged, "language").is_some());
}

#[test]
fn unparsable_global_lang_config_fails() {
    assert!(user_lang_config(Some("= nonsense"), None).is_err());
}

#[test]
fn unparsable_workspace_lang_config_fails_once_enabled() {
    assert!(user_lang_config(Some("workspace-config = true"), Some("= nonsense")).is_err());
}
