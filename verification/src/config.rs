//! The layered configuration: raw per-file snapshots, their trust-gated
//! merge, and the materialized final configuration.
use vstd::prelude::*;

use crate::editor::{default_editor_model, spec_decode_editor, EditorConfig};
use crate::fault::{str_is, ParseErrModel, ParseError};
use crate::keymap;
use crate::keymap::{
    merge_keymap, merge_keys, KeyTrie, KeyTrieNode, Keymap, KeymapModel, TrieModel,
    default_keymap_model, lemma_trie_entries_model, lemma_trie_entries_model_push,
    trie_entries_model,
};
use crate::parse::{parse_document, parsed_document};
use crate::value::{elems_model, entries_model, lemma_elems_model, lemma_entries_model,
    merge_tree, merge_toml_values, TreeModel, ValueTree};

verus! {

broadcast use vstd::std_specs::vec::group_vec_axioms;

/// The table depth at which the generic settings merge recurses.
pub const MERGE_DEPTH: usize = 3;

/// Decoding of a command list: every element must be a string.
pub open spec fn spec_decode_cmds(es: Seq<TreeModel>) -> Result<Seq<Seq<char>>, ParseErrModel>
    decreases es,
{
    if es.len() == 0 {
        Ok(Seq::empty())
    } else {
        match es[0] {
            TreeModel::Str(c) => match spec_decode_cmds(es.drop_first()) {
                Ok(rest) => Ok(seq![c] + rest),
                Err(e) => Err(e),
            },
            _ => Err(ParseErrModel::WrongType("keys"@)),
        }
    }
}

/// Decoding of one binding: a string is a command leaf, an array a command
/// sequence, a table a node of further bindings (with no display name).
pub open spec fn spec_decode_trie(t: TreeModel) -> Result<TrieModel, ParseErrModel>
    decreases t,
{
    match t {
        TreeModel::Str(c) => Ok(TrieModel::Leaf(c)),
        TreeModel::Array(es) => match spec_decode_cmds(es) {
            Ok(cs) => Ok(TrieModel::Sequence(cs)),
            Err(e) => Err(e),
        },
        TreeModel::Table(es) => match spec_decode_trie_entries(es) {
            Ok(m) => Ok(TrieModel::Node(Seq::empty(), m)),
            Err(e) => Err(e),
        },
        _ => Err(ParseErrModel::WrongType("keys"@)),
    }
}

/// Decoding of a node's entry list, chord by chord.
pub open spec fn spec_decode_trie_entries(es: Seq<(Seq<char>, TreeModel)>) -> Result<
    Seq<(Seq<char>, TrieModel)>,
    ParseErrModel,
>
    decreases es,
{
    if es.len() == 0 {
        Ok(Seq::empty())
    } else {
        match spec_decode_trie(es[0].1) {
            Ok(child) => match spec_decode_trie_entries(es.drop_first()) {
                Ok(rest) => Ok(seq![(es[0].0, child)] + rest),
                Err(e) => Err(e),
            },
            Err(e) => Err(e),
        }
    }
}

/// Decoding of the `keys` table: each entry names a mode.
pub open spec fn spec_decode_keymap_entries(
    es: Seq<(Seq<char>, TreeModel)>,
    acc: KeymapModel,
) -> Result<KeymapModel, ParseErrModel>
    decreases es,
{
    if es.len() == 0 {
        Ok(acc)
    } else {
        let k = es[0].0;
        if k == "normal"@ {
            match spec_decode_trie(es[0].1) {
                Ok(t) => spec_decode_keymap_entries(
                    es.drop_first(),
                    KeymapModel { normal: Some(t), ..acc },
                ),
                Err(e) => Err(e),
            }
        } else if k == "insert"@ {
            match spec_decode_trie(es[0].1) {
                Ok(t) => spec_decode_keymap_entries(
                    es.drop_first(),
                    KeymapModel { insert: Some(t), ..acc },
                ),
                Err(e) => Err(e),
            }
        } else if k == "select"@ {
            match spec_decode_trie(es[0].1) {
                Ok(t) => spec_decode_keymap_entries(
                    es.drop_first(),
                    KeymapModel { select: Some(t), ..acc },
                ),
                Err(e) => Err(e),
            }
        } else {
            Err(ParseErrModel::UnknownKey(k))
        }
    }
}

/// Decoding of the whole `keys` value: it must be a table of modes.
pub open spec fn spec_decode_keymap(t: TreeModel) -> Result<KeymapModel, ParseErrModel> {
    match t {
        TreeModel::Table(es) => spec_decode_keymap_entries(es, KeymapModel::empty()),
        _ => Err(ParseErrModel::WrongType("keys"@)),
    }
}

#[verifier::loop_isolation(false)]
fn decode_cmds(es: &Vec<ValueTree>) -> (r: Result<Vec<String>, ParseError>)
    ensures
        match r {
            Ok(cs) => spec_decode_cmds(elems_model(es@)) == Ok::<_, ParseErrModel>(
                keymap::cmds_model(cs@),
            ),
            Err(e) => spec_decode_cmds(elems_model(es@)) == Err::<Seq<Seq<char>>, _>(e@),
        },
{
    let ghost em = elems_model(es@);
    proof {
        lemma_elems_model(es@);
    }
    let mut out: Vec<String> = Vec::new();
    proof {
        assert(em.skip(0) =~= em);
        let g0 = spec_decode_cmds(em);
        if g0 is Ok {
            assert(keymap::cmds_model(out@) + g0->Ok_0 =~= g0->Ok_0);
        }
    }
    let mut i: usize = 0;
    while i < es.len()
        invariant
            i <= es@.len(),
            out@.len() == i,
            spec_decode_cmds(em) == (match spec_decode_cmds(em.skip(i as int)) {
                Ok(rest) => Ok::<_, ParseErrModel>(keymap::cmds_model(out@) + rest),
                Err(e) => Err(e),
            }),
        decreases es@.len() - i,
    {
        proof {
            assert(em.skip(i as int)[0] == em[i as int]);
            assert(em.skip(i as int).drop_first() =~= em.skip(i + 1));
        }
        match &es[i] {
            ValueTree::Str(c) => {
                let ghost before = out@;
                out.push(c.clone());
                proof {
                    assert(keymap::cmds_model(out@) =~= keymap::cmds_model(before).push(
                        c@,
                    ));
                    let gnext = spec_decode_cmds(em.skip(i + 1));
                    if gnext is Ok {
                        assert(keymap::cmds_model(before).push(c@) + gnext->Ok_0
                            =~= keymap::cmds_model(before) + (seq![c@] + gnext->Ok_0));
                    }
                }
            },
            _ => {
                return Err(ParseError::WrongType(String::from_str("keys")));
            },
        }
        i += 1;
    }
    proof {
        assert(em.skip(es@.len() as int) =~= Seq::empty());
        assert(keymap::cmds_model(out@) + Seq::empty() =~= keymap::cmds_model(out@));
    }
    Ok(out)
}

/// Decode one binding from a generic value.
#[verifier::loop_isolation(false)]
fn decode_trie(t: &ValueTree) -> (r: Result<KeyTrie, ParseError>)
    ensures
        match r {
            Ok(kt) => spec_decode_trie(t@) == Ok::<TrieModel, ParseErrModel>(kt@),
            Err(e) => spec_decode_trie(t@) == Err::<TrieModel, ParseErrModel>(e@),
        },
    decreases *t,
{
    match t {
        ValueTree::Str(c) => Ok(KeyTrie::Leaf(c.clone())),
        ValueTree::Array(es) => match decode_cmds(es) {
            Ok(cs) => Ok(KeyTrie::Sequence(cs)),
            Err(e) => Err(e),
        },
        ValueTree::Table(es) => {
            let ghost em = entries_model(es@);
            let mut out: Vec<(String, KeyTrie)> = Vec::new();
            proof {
                lemma_entries_model(es@);
                assert(em.skip(0) =~= em);
                let g0 = spec_decode_trie_entries(em);
                if g0 is Ok {
                    assert(trie_entries_model(out@) + g0->Ok_0 =~= g0->Ok_0);
                }
            }
            let mut i: usize = 0;
            while i < es.len()
                invariant
                    i <= es@.len(),
                    out@.len() == i,
                    spec_decode_trie_entries(em) == (match spec_decode_trie_entries(
                        em.skip(i as int),
                    ) {
                        Ok(rest) => Ok::<_, ParseErrModel>(trie_entries_model(out@) + rest),
                        Err(e) => Err(e),
                    }),
                decreases es@.len() - i,
            {
                proof {
                    assert(em.skip(i as int)[0] == em[i as int]);
                    assert(em.skip(i as int).drop_first() =~= em.skip(i + 1));
                }
                let ghost t0 = *t;
                proof {
                    assert(decreases_to!(t0 => t0->Table_0[i as int].1)) by {
                        assert(decreases_to!(t0 => t0->Table_0));
                        assert(decreases_to!(t0->Table_0 => t0->Table_0[i as int]));
                        assert(t0->Table_0 == *es);
                    }
                }
                let child = match decode_trie(&es[i].1) {
                    Ok(c) => c,
                    Err(e) => {
                        return Err(e);
                    },
                };
                let ghost before = out@;
                let ghost childm = child@;
                out.push((es[i].0.clone(), child));
                proof {
                    lemma_trie_entries_model_push(before, out@[i as int]);
                    assert(trie_entries_model(out@) =~= trie_entries_model(before).push(
                        (em[i as int].0, childm),
                    ));
                    let gnext = spec_decode_trie_entries(em.skip(i + 1));
                    if gnext is Ok {
                        assert(trie_entries_model(before).push((em[i as int].0, childm))
                            + gnext->Ok_0 =~= trie_entries_model(before) + (seq![
                            (em[i as int].0, childm),
                        ] + gnext->Ok_0));
                    }
                }
                i += 1;
            }
            proof {
                assert(em.skip(es@.len() as int) =~= Seq::empty());
                assert(trie_entries_model(out@) + Seq::empty() =~= trie_entries_model(out@));
            }
            Ok(KeyTrie::Node(KeyTrieNode { name: String::new(), map: out }))
        },
        _ => Err(ParseError::WrongType(String::from_str("keys"))),
    }
}

/// Decode the `keys` table: one optional trie per mode, unknown mode names
/// rejected.
#[verifier::loop_isolation(false)]
fn decode_keymap(t: &ValueTree) -> (r: Result<Keymap, ParseError>)
    ensures
        match r {
            Ok(km) => spec_decode_keymap(t@) == Ok::<KeymapModel, ParseErrModel>(km@),
            Err(e) => spec_decode_keymap(t@) == Err::<KeymapModel, ParseErrModel>(e@),
        },
{
    let es = match t {
        ValueTree::Table(es) => es,
        _ => {
            return Err(ParseError::WrongType(String::from_str("keys")));
        },
    };
    let ghost em = entries_model(es@);
    let mut acc = Keymap { normal: None, insert: None, select: None };
    proof {
        lemma_entries_model(es@);
        assert(em.skip(0) =~= em);
        assert(acc@ =~= KeymapModel::empty());
    }
    let mut i: usize = 0;
    while i < es.len()
        invariant
            i <= es@.len(),
            spec_decode_keymap_entries(em, KeymapModel::empty()) == spec_decode_keymap_entries(
                em.skip(i as int),
                acc@,
            ),
        decreases es@.len() - i,
    {
        proof {
            assert(em.skip(i as int)[0] == em[i as int]);
            assert(em.skip(i as int).drop_first() =~= em.skip(i + 1));
        }
        let k = &es[i].0;
        if str_is(k, "normal") {
            match decode_trie(&es[i].1) {
                Ok(trie) => {
                    acc = Keymap { normal: Some(trie), ..acc };
                },
                Err(e) => {
                    return Err(e);
                },
            }
        } else if str_is(k, "insert") {
            match decode_trie(&es[i].1) {
                Ok(trie) => {
                    acc = Keymap { insert: Some(trie), ..acc };
                },
                Err(e) => {
                    return Err(e);
                },
            }
        } else if str_is(k, "select") {
            match decode_trie(&es[i].1) {
                Ok(trie) => {
                    acc = Keymap { select: Some(trie), ..acc };
                },
                Err(e) => {
                    return Err(e);
                },
            }
        } else {
            return Err(ParseError::UnknownKey(k.clone()));
        }
        i += 1;
    }
    proof {
        assert(em.skip(es@.len() as int) =~= Seq::empty());
    }
    Ok(acc)
}

/// One attempt to read a configuration file, as the surrounding program
/// reports it: the file's text, or why there is none.
#[derive(Debug, Clone, PartialEq)]
pub enum SourceFile {
    Content(String),
    Missing,
    Unreadable,
}

/// The model of a `SourceFile`.
#[verifier::ext_equal]
pub enum SourceModel {
    Content(Seq<char>),
    Missing,
    Unreadable,
}

impl View for SourceFile {
    type V = SourceModel;

    open spec fn view(&self) -> SourceModel {
        match self {
            SourceFile::Content(s) => SourceModel::Content(s@),
            SourceFile::Missing => SourceModel::Missing,
            SourceFile::Unreadable => SourceModel::Unreadable,
        }
    }
}

/// Why a configuration file could not be read.
#[derive(PartialEq, Eq, Structural, Clone, Copy, Debug)]
pub enum IoFault {
    NotFound,
    Unreadable,
}

/// A configuration loading failure: a document that does not parse or
/// validate, or a file that could not be read.
#[derive(Debug)]
pub enum ConfigLoadError {
    BadConfig(ParseError),
    Error(IoFault),
}

/// The model of a `ConfigLoadError`.
#[verifier::ext_equal]
pub enum LoadErrModel {
    BadConfig(ParseErrModel),
    Error(IoFault),
}

impl View for ConfigLoadError {
    type V = LoadErrModel;

    open spec fn view(&self) -> LoadErrModel {
        match self {
            ConfigLoadError::BadConfig(e) => LoadErrModel::BadConfig(e@),
            ConfigLoadError::Error(f) => LoadErrModel::Error(*f),
        }
    }
}

impl Default for ConfigLoadError {
    /// The placeholder failure: a file that was not found.
    fn default() -> (r: ConfigLoadError)
        ensures
            r@ == LoadErrModel::Error(IoFault::NotFound),
    {
        ConfigLoadError::Error(IoFault::NotFound)
    }
}

impl ConfigLoadError {
    /// A short description of the failure, as the inner fault gives it.
    pub fn message(&self) -> (r: String)
        ensures
            self matches ConfigLoadError::BadConfig(ParseError::Syntax(m)) ==> r@ == m@,
    {
        match self {
            ConfigLoadError::BadConfig(e) => e.message(),
            ConfigLoadError::Error(IoFault::NotFound) => String::from_str(
                "configuration file not found",
            ),
            ConfigLoadError::Error(IoFault::Unreadable) => String::from_str(
                "configuration file could not be read",
            ),
        }
    }
}

/// A partially-specified configuration snapshot, as read from one file.
/// Absent fields inherit from the layer beneath.
#[derive(Debug, PartialEq)]
pub struct ConfigRaw {
    pub workspace_config: Option<bool>,
    pub theme: Option<String>,
    pub keys: Option<Keymap>,
    pub editor: Option<ValueTree>,
}

/// The model of a `ConfigRaw`.
#[verifier::ext_equal]
pub struct RawModel {
    pub workspace_config: Option<bool>,
    pub theme: Option<Seq<char>>,
    pub keys: Option<KeymapModel>,
    pub editor: Option<TreeModel>,
}

impl RawModel {
    /// The snapshot that specifies nothing.
    pub open spec fn empty() -> RawModel {
        RawModel { workspace_config: None, theme: None, keys: None, editor: None }
    }
}

impl View for ConfigRaw {
    type V = RawModel;

    open spec fn view(&self) -> RawModel {
        RawModel {
            workspace_config: self.workspace_config,
            theme: match self.theme {
                Some(t) => Some(t@),
                None => None,
            },
            keys: match self.keys {
                Some(k) => Some(k.model()),
                None => None,
            },
            editor: match self.editor {
                Some(e) => Some(e.model()),
                None => None,
            },
        }
    }
}

/// The compiled-in baseline layer: workspace overrides disabled, no theme,
/// the default keymap, default editor settings.
pub open spec fn default_raw_model() -> RawModel {
    RawModel {
        workspace_config: Some(false),
        theme: None,
        keys: Some(default_keymap_model()),
        editor: None,
    }
}

impl Default for ConfigRaw {
    /// The compiled-in baseline layer.
    fn default() -> (r: ConfigRaw)
        ensures
            r@ == default_raw_model(),
    {
        let r = ConfigRaw {
            workspace_config: Some(false),
            theme: None,
            keys: Some(keymap::default()),
            editor: None,
        };
        proof {
            assert(r@ =~= default_raw_model());
        }
        r
    }
}

/// Decoding of a raw snapshot's top-level entries: only the four known
/// keys are accepted, each with its own value shape.
pub open spec fn spec_decode_raw_entries(
    es: Seq<(Seq<char>, TreeModel)>,
    acc: RawModel,
) -> Result<RawModel, ParseErrModel>
    decreases es,
{
    if es.len() == 0 {
        Ok(acc)
    } else {
        let k = es[0].0;
        let v = es[0].1;
        if k == "workspace-config"@ {
            match v {
                TreeModel::Bool(b) => spec_decode_raw_entries(
                    es.drop_first(),
                    RawModel { workspace_config: Some(b), ..acc },
                ),
                _ => Err(ParseErrModel::WrongType(k)),
            }
        } else if k == "theme"@ {
            match v {
                TreeModel::Str(s) => spec_decode_raw_entries(
                    es.drop_first(),
                    RawModel { theme: Some(s), ..acc },
                ),
                _ => Err(ParseErrModel::WrongType(k)),
            }
        } else if k == "keys"@ {
            match spec_decode_keymap(v) {
                Ok(km) => spec_decode_raw_entries(
                    es.drop_first(),
                    RawModel { keys: Some(km), ..acc },
                ),
                Err(e) => Err(e),
            }
        } else if k == "editor"@ {
            spec_decode_raw_entries(es.drop_first(), RawModel { editor: Some(v), ..acc })
        } else {
            Err(ParseErrModel::UnknownKey(k))
        }
    }
}

/// Decoding of a whole raw snapshot: the document must be a table.
pub open spec fn spec_decode_raw(t: TreeModel) -> Result<RawModel, ParseErrModel> {
    match t {
        TreeModel::Table(es) => spec_decode_raw_entries(es, RawModel::empty()),
        _ => Err(ParseErrModel::WrongType("config"@)),
    }
}

/// Parsing then decoding of one configuration document.
pub open spec fn spec_parse_raw(s: Seq<char>) -> Result<RawModel, ParseErrModel> {
    match parsed_document(s) {
        Some(t) => spec_decode_raw(t),
        None => Err(ParseErrModel::Syntax),
    }
}

/// Decode a parsed document into a raw snapshot, strictly: any unknown
/// top-level key is rejected.
#[verifier::loop_isolation(false)]
fn decode_raw(t: &ValueTree) -> (r: Result<ConfigRaw, ParseError>)
    ensures
        match r {
            Ok(raw) => spec_decode_raw(t@) == Ok::<RawModel, ParseErrModel>(raw@),
            Err(e) => spec_decode_raw(t@) == Err::<RawModel, ParseErrModel>(e@),
        },
{
    let es = match t {
        ValueTree::Table(es) => es,
        _ => {
            return Err(ParseError::WrongType(String::from_str("config")));
        },
    };
    let ghost em = entries_model(es@);
    let mut acc = ConfigRaw { workspace_config: None, theme: None, keys: None, editor: None };
    proof {
        lemma_entries_model(es@);
        assert(em.skip(0) =~= em);
        assert(acc@ =~= RawModel::empty());
    }
    let mut i: usize = 0;
    while i < es.len()
        invariant
            i <= es@.len(),
            spec_decode_raw_entries(em, RawModel::empty()) == spec_decode_raw_entries(
                em.skip(i as int),
                acc@,
            ),
        decreases es@.len() - i,
    {
        proof {
            assert(em.skip(i as int)[0] == em[i as int]);
            assert(em.skip(i as int).drop_first() =~= em.skip(i + 1));
        }
        let k = &es[i].0;
        let v = &es[i].1;
        if str_is(k, "workspace-config") {
            match v {
                ValueTree::Bool(b) => {
                    acc = ConfigRaw { workspace_config: Some(*b), ..acc };
                },
                _ => {
                    return Err(ParseError::WrongType(k.clone()));
                },
            }
        } else if str_is(k, "theme") {
            match v {
                ValueTree::Str(s) => {
                    acc = ConfigRaw { theme: Some(s.clone()), ..acc };
                },
                _ => {
                    return Err(ParseError::WrongType(k.clone()));
                },
            }
        } else if str_is(k, "keys") {
            match decode_keymap(v) {
                Ok(km) => {
                    acc = ConfigRaw { keys: Some(km), ..acc };
                },
                Err(e) => {
                    return Err(e);
                },
            }
        } else if str_is(k, "editor") {
            acc = ConfigRaw { editor: Some(v.duplicate()), ..acc };
        } else {
            return Err(ParseError::UnknownKey(k.clone()));
        }
        i += 1;
    }
    proof {
        assert(em.skip(es@.len() as int) =~= Seq::empty());
    }
    Ok(acc)
}

impl ConfigRaw {
    /// Parse one configuration document and decode it strictly.
    pub fn parse(source: &str) -> (r: Result<ConfigRaw, ParseError>)
        ensures
            match r {
                Ok(raw) => spec_parse_raw(source@) == Ok::<RawModel, ParseErrModel>(raw@),
                Err(e) => spec_parse_raw(source@) == Err::<RawModel, ParseErrModel>(e@),
            },
    {
        match parse_document(source) {
            Ok(tree) => decode_raw(&tree),
            Err(m) => Err(ParseError::Syntax(m)),
        }
    }

    /// Turn one file-read outcome into a raw snapshot: missing or
    /// unreadable files are I/O failures, unparsable text a bad config.
    pub fn load(source: &SourceFile) -> (r: Result<ConfigRaw, ConfigLoadError>)
        ensures
            match r {
                Ok(raw) => spec_load_raw(source@) == Ok::<RawModel, LoadErrModel>(raw@),
                Err(e) => spec_load_raw(source@) == Err::<RawModel, LoadErrModel>(e@),
            },
    {
        match source {
            SourceFile::Content(text) => match ConfigRaw::parse(text.as_str()) {
                Ok(raw) => Ok(raw),
                Err(e) => Err(ConfigLoadError::BadConfig(e)),
            },
            SourceFile::Missing => Err(ConfigLoadError::Error(IoFault::NotFound)),
            SourceFile::Unreadable => Err(ConfigLoadError::Error(IoFault::Unreadable)),
        }
    }
}

/// Loading of one layer from a file-read outcome.
pub open spec fn spec_load_raw(s: SourceModel) -> Result<RawModel, LoadErrModel> {
    match s {
        SourceModel::Content(text) => match spec_parse_raw(text) {
            Ok(r) => Ok(r),
            Err(e) => Err(LoadErrModel::BadConfig(e)),
        },
        SourceModel::Missing => Err(LoadErrModel::Error(IoFault::NotFound)),
        SourceModel::Unreadable => Err(LoadErrModel::Error(IoFault::Unreadable)),
    }
}

/// The trust-gated merge of two raw layers. `theme`, `keys` and `editor`
/// are inherited or merged; `workspace_config` follows the overlay only
/// when the base layer trusts it, and is pinned to the base's value
/// otherwise.
pub open spec fn spec_merge_raw(b: RawModel, o: RawModel, trust: bool) -> RawModel {
    RawModel {
        workspace_config: if trust && o.workspace_config is Some {
            o.workspace_config
        } else {
            b.workspace_config
        },
        theme: if o.theme is Some {
            o.theme
        } else {
            b.theme
        },
        keys: match (b.keys, o.keys) {
            (Some(bk), Some(ok)) => Some(merge_keymap(bk, ok)),
            (Some(bk), None) => Some(bk),
            (None, ok) => ok,
        },
        editor: match (b.editor, o.editor) {
            (Some(be), Some(oe)) => Some(merge_tree(be, oe, MERGE_DEPTH as nat)),
            (Some(be), None) => Some(be),
            (None, oe) => oe,
        },
    }
}

impl ConfigRaw {
    /// Merge another raw layer over this one, trusting it with the
    /// workspace gate only when `trust` holds.
    pub fn merge(self, other: ConfigRaw, trust: bool) -> (r: ConfigRaw)
        ensures
            r@ == spec_merge_raw(self@, other@, trust),
    {
        let workspace_config = if trust {
            match other.workspace_config {
                Some(b) => Some(b),
                None => self.workspace_config,
            }
        } else {
            self.workspace_config
        };
        let theme = match other.theme {
            Some(t) => Some(t),
            None => self.theme,
        };
        let keys = match (self.keys, other.keys) {
            (Some(bk), Some(ok)) => Some(merge_keys(bk, ok)),
            (Some(bk), None) => Some(bk),
            (None, ok) => ok,
        };
        let editor = match (self.editor, other.editor) {
            (Some(be), Some(oe)) => Some(merge_toml_values(be, oe, MERGE_DEPTH)),
            (Some(be), None) => Some(be),
            (None, oe) => oe,
        };
        let r = ConfigRaw { workspace_config, theme, keys, editor };
        proof {
            assert(r@ =~= spec_merge_raw(self@, other@, trust));
        }
        r
    }
}

/// The final, fully-specified configuration.
#[derive(Debug, PartialEq)]
pub struct Config {
    pub workspace_config: bool,
    pub theme: Option<String>,
    pub keys: Keymap,
    pub editor: EditorConfig,
}

/// The model of a `Config`.
#[verifier::ext_equal]
pub struct ConfigModel {
    pub workspace_config: bool,
    pub theme: Option<Seq<char>>,
    pub keys: KeymapModel,
    pub editor: EditorConfig,
}

impl View for Config {
    type V = ConfigModel;

    open spec fn view(&self) -> ConfigModel {
        ConfigModel {
            workspace_config: self.workspace_config,
            theme: match self.theme {
                Some(t) => Some(t@),
                None => None,
            },
            keys: self.keys.model(),
            editor: self.editor,
        }
    }
}

/// The compiled-in default configuration.
pub open spec fn default_config_model() -> ConfigModel {
    ConfigModel {
        workspace_config: false,
        theme: None,
        keys: default_keymap_model(),
        editor: default_editor_model(),
    }
}

impl Default for Config {
    /// The compiled-in default configuration.
    fn default() -> (r: Config)
        ensures
            r@ == default_config_model(),
    {
        let r = Config {
            workspace_config: false,
            theme: None,
            keys: keymap::default(),
            editor: EditorConfig::default(),
        };
        proof {
            assert(r@ =~= default_config_model());
        }
        r
    }
}

/// Materialization of a merged raw snapshot: every unset field falls back
/// to its compiled-in default, and a present `editor` tree must validate
/// against the schema — the single error path.
pub open spec fn spec_materialize(r: RawModel) -> Result<ConfigModel, ParseErrModel> {
    let ed = match r.editor {
        Some(t) => spec_decode_editor(t),
        None => Ok(default_editor_model()),
    };
    match ed {
        Ok(e) => Ok(
            ConfigModel {
                workspace_config: r.workspace_config == Some(true),
                theme: r.theme,
                keys: match r.keys {
                    Some(k) => k,
                    None => default_keymap_model(),
                },
                editor: e,
            },
        ),
        Err(e) => Err(e),
    }
}

impl Config {
    /// Materialize a merged raw snapshot into the final configuration.
    pub fn try_from(config: ConfigRaw) -> (r: Result<Config, ConfigLoadError>)
        ensures
            match r {
                Ok(c) => spec_materialize(config@) == Ok::<ConfigModel, ParseErrModel>(c@),
                Err(e) => spec_materialize(config@) is Err && e@ == LoadErrModel::BadConfig(
                    spec_materialize(config@)->Err_0,
                ),
            },
    {
        let ghost rm = config@;
        let editor = match config.editor {
            Some(t) => match EditorConfig::from_tree(&t) {
                Ok(e) => e,
                Err(pe) => {
                    return Err(ConfigLoadError::BadConfig(pe));
                },
            },
            None => EditorConfig::default(),
        };
        let keys = match config.keys {
            Some(k) => k,
            None => keymap::default(),
        };
        let workspace_config = match config.workspace_config {
            Some(b) => b,
            None => false,
        };
        let c = Config { workspace_config, theme: config.theme, keys, editor };
        proof {
            assert(spec_materialize(rm) is Ok);
            assert(c@ =~= spec_materialize(rm)->Ok_0);
        }
        Ok(c)
    }
}

/// The whole layered load: the mandatory global layer over the compiled-in
/// baseline, then — only when the merged global layer enables it — the
/// workspace layer, whose absence is tolerated and which cannot flip the
/// gate; finally the materialization.
pub open spec fn spec_load(global: SourceModel, workspace: SourceModel) -> Result<
    ConfigModel,
    LoadErrModel,
> {
    match spec_load_raw(global) {
        Err(e) => Err(e),
        Ok(g) => {
            let gm = spec_merge_raw(default_raw_model(), g, true);
            let fin = if gm.workspace_config == Some(true) {
                match spec_load_raw(workspace) {
                    Ok(w) => Ok(spec_merge_raw(gm, w, false)),
                    Err(LoadErrModel::Error(IoFault::NotFound)) => Ok(gm),
                    Err(e) => Err(e),
                }
            } else {
                Ok(gm)
            };
            match fin {
                Ok(fr) => match spec_materialize(fr) {
                    Ok(c) => Ok(c),
                    Err(pe) => Err(LoadErrModel::BadConfig(pe)),
                },
                Err(e) => Err(e),
            }
        },
    }
}

impl Config {
    /// Load the layered configuration from the two file-read outcomes.
    pub fn load(global: &SourceFile, workspace: &SourceFile) -> (r: Result<
        Config,
        ConfigLoadError,
    >)
        ensures
            match r {
                Ok(c) => spec_load(global@, workspace@) == Ok::<ConfigModel, LoadErrModel>(c@),
                Err(e) => spec_load(global@, workspace@) == Err::<ConfigModel, LoadErrModel>(e@),
            },
    {
        let base = ConfigRaw::default();
        let global_raw = match ConfigRaw::load(global) {
            Ok(g) => g,
            Err(e) => {
                return Err(e);
            },
        };
        let global_merged = base.merge(global_raw, true);
        let enabled = match &global_merged.workspace_config {
            Some(b) => *b,
            None => false,
        };
        let final_raw = if enabled {
            match ConfigRaw::load(workspace) {
                Ok(w) => global_merged.merge(w, false),
                Err(ConfigLoadError::Error(IoFault::NotFound)) => global_merged,
                Err(e) => {
                    return Err(e);
                },
            }
        } else {
            global_merged
        };
        Config::try_from(final_raw)
    }
}

/// Law: the workspace gate belongs to the trusted layers alone. However the
/// untrusted workspace layer sets the flag, the merged value is the one the
/// default-and-global merge established; in particular a workspace file can
/// neither disable itself after the global layer enabled it, nor enable
/// itself after the global layer declined.
pub proof fn lemma_trust_gate(global: RawModel, workspace: RawModel)
    ensures
        ({
            let gm = spec_merge_raw(default_raw_model(), global, true);
            let fin = spec_merge_raw(gm, workspace, false);
            &&& fin.workspace_config == gm.workspace_config
            &&& global.workspace_config == Some(true) ==> fin.workspace_config == Some(true)
            &&& global.workspace_config == Some(false) ==> fin.workspace_config == Some(false)
            &&& global.workspace_config is None ==> fin.workspace_config == Some(false)
            &&& spec_materialize(fin) matches Ok(c) ==> c.workspace_config == (
            global.workspace_config == Some(true))
        }),
{
}

/// Law: materializing the compiled-in baseline, with no overlay at all,
/// yields exactly the compiled-in default configuration.
pub proof fn lemma_default_round_trip()
    ensures
        spec_materialize(default_raw_model()) == Ok::<ConfigModel, ParseErrModel>(
            default_config_model(),
        ),
{
    assert(spec_materialize(default_raw_model()) is Ok);
    assert(spec_materialize(default_raw_model())->Ok_0 =~= default_config_model());
}

} // verus!
