use layered_config::keymap;
use layered_config::{merge_keys, merge_toml_values, KeyTrie, KeyTrieNode, Keymap, Mode, ValueTree};

fn tbl(pairs: Vec<(&str, ValueTree)>) -> ValueTree {
    ValueTree::Table(pairs.into_iter().map(|(k, v)| (k.to_string(), v)).collect())
}

fn s(v: &str) -> ValueTree {
    ValueTree::Str(v.to_string())
}

fn sample_base() -> ValueTree {
    tbl(vec![
        ("retain", ValueTree::Int(1)),
        ("indent", tbl(vec![("width", ValueTree::Int(4)), ("unit", s("sp"))])),
    ])
}

fn sample_overlay() -> ValueTree {
    tbl(vec![("indent", tbl(vec![("width", ValueTree::Int(2))])), ("theme", s("x"))])
}

#[test]
fn overlay_wins_at_depth_zero() {
    assert_eq!(merge_toml_values(sample_base(), sample_overlay(), 0), sample_overlay());
}

#[test]
fn arrays_replace_rather_than_merge() {
    let base = ValueTree::Array(vec![ValueTree::Int(1), ValueTree::Int(2)]);
    let overlay = ValueTree::Array(vec![ValueTree::Int(3)]);
    assert_eq!(merge_toml_values(base, overlay, 3), ValueTree::Array(vec![ValueTree::Int(3)]));
}

#[test]
fn mismatched_shapes_resolve_to_the_overlay() {
    assert_eq!(merge_toml_values(sample_base(), s("plain"), 3), s("plain"));
    assert_eq!(merge_toml_values(s("plain"), sample_overlay(), 3), sample_overlay());
}

#[test]
fn tables_merge_to_the_union_of_their_keys() {
    let merged = merge_toml_values(sample_base(), sample_overlay(), 3);
    let expected = tbl(vec![
        ("retain", ValueTree::Int(1)),
        ("indent", tbl(vec![("width", ValueTree::Int(2)), ("unit", s("sp"))])),
        ("theme", s("x")),
    ]);
    assert_eq!(merged, expected);
}

#[test]
fn exhausted_depth_replaces_subtables_wholesale() {
    let merged = merge_toml_values(sample_base(), sample_overlay(), 1);
    let expected = tbl(vec![
        ("retain", ValueTree::Int(1)),
        ("indent", tbl(vec![("width", ValueTree::Int(2))])),
        ("theme", s("x")),
    ]);
    assert_eq!(merged, expected);
}

#[test]
fn empty_overlay_keymap_changes_nothing() {
    let empty = Keymap { normal: None, insert: None, select: None };
    assert_eq!(merge_keys(keymap::default(), empty), keymap::default());
}

#[test]
fn overlay_keymap_keeps_unrelated_bindings() {
    let overlay = Keymap {
        normal: Some(KeyTrie::Node(KeyTrieNode {
            name: String::new(),
            map: vec![("q".to_string(), KeyTrie::Leaf("record_macro".to_string()))],
        })),
        insert: None,
        select: None,
    };
    let merged = merge_keys(keymap::default(), overlay);
    let default = keymap::default();
    // The insert- and select-mode tries are untouched.
    assert_eq!(merged.insert, default.insert);
    assert_eq!(merged.select, default.select);
    // Every default normal-mode binding is still there, and "q" was added.
    match (merged.normal.unwrap(), default.normal.unwrap()) {
        (KeyTrie::Node(m), KeyTrie::Node(d)) => {
            assert_eq!(m.name, d.name);
            for (chord, trie) in &d.map {
                assert!(m.map.iter().any(|(c, t)| c == chord && t == trie));
            }
            assert!(
                m.map
                    .iter()
                    .any(|(c, t)| c == "q" && *t == KeyTrie::Leaf("record_macro".to_string()))
            );
        },
        _ => panic!("expected nodes at the root of both tries"),
    }
}

#[test]
fn overlay_leaf_replaces_a_whole_subtree() {
    let overlay = Keymap {
        normal: Some(KeyTrie::Node(KeyTrieNode {
            name: String::new(),
            map: vec![("g".to_string(), KeyTrie::Leaf("goto_line_start".to_string()))],
        })),
        insert: None,
        select: None,
    };
    let merged = merge_keys(keymap::default(), overlay);
    match merged.normal.unwrap() {
        KeyTrie::Node(m) => {
            let g = m.map.iter().find(|(c, _)| c == "g").unwrap();
            assert_eq!(g.1, KeyTrie::Leaf("goto_line_start".to_string()));
        },
        _ => panic!("expected a node at the root of the normal-mode trie"),
    }
}

#[test]
fn overlay_nodes_merge_chord_by_chord() {
    let overlay = Keymap {
        normal: Some(KeyTrie::Node(KeyTrieNode {
            name: String::new(),
            map: vec![(
                "g".to_string(),
                KeyTrie::Node(KeyTrieNode {
                    name: String::new(),
                    map: vec![("w".to_string(), KeyTrie::Leaf("goto_word".to_string()))],
                }),
            )],
        })),
        insert: None,
        select: None,
    };
    let merged = merge_keys(keymap::default(), overlay);
    match merged.normal.unwrap() {
        KeyTrie::Node(m) => match &m.map.iter().find(|(c, _)| c == "g").unwrap().1 {
            KeyTrie::Node(g) => {
                // The default goto bindings survive, the new one is added.
                assert!(g.map.iter().any(|(c, t)| c == "g"
                    && *t == KeyTrie::Leaf("goto_file_start".to_string())));
                assert!(g.map.iter().any(|(c, t)| c == "e"
                    && *t == KeyTrie::Leaf("goto_last_line".to_string())));
                assert!(g.map.iter().any(|(c, t)| c == "w"
                    && *t == KeyTrie::Leaf("goto_word".to_string())));
            },
            _ => panic!("expected the goto subtree to stay a node"),
        },
        _ => panic!("expected a node at the root of the normal-mode trie"),
    }
}

#[test]
fn every_mode_is_reachable_by_key() {
    let km = keymap::default();
    assert!(km.get(Mode::Normal).is_some());
    assert!(km.get(Mode::Insert).is_some());
    assert!(km.get(Mode::Select).is_some());
    let empty = Keymap { normal: None, insert: None, select: None };
    assert!(empty.get(Mode::Normal).is_none());
}
