//! Layered configuration loading: built-in defaults, a global file and an
//! optional, trust-gated workspace file, merged structurally into one
//! validated configuration.
use vstd::prelude::*;

pub mod config;
pub mod editor;
pub mod fault;
pub mod keymap;
pub mod lang;
pub mod parse;
pub mod value;

pub use config::{Config, ConfigLoadError, ConfigRaw, IoFault, SourceFile, MERGE_DEPTH};
pub use editor::{EditorConfig, LineNumber};
pub use fault::ParseError;
pub use keymap::{merge_keys, KeyTrie, KeyTrieNode, Keymap, Mode};
pub use lang::{default_lang_config, user_lang_config};
pub use value::{merge_toml_values, ValueTree};

verus! {

} // verus!
