//! The compiled-in language defaults and their layered, gated merge.
use vstd::prelude::*;

use crate::fault::{ParseErrModel, ParseError};
use crate::parse::{parse_document, parsed_document};
use crate::value::{
    entries_model, elems_model, find_key, lemma_elems_model, lemma_entries_model,
    lemma_lookup_entry_at, lemma_lookup_entry_none, lookup_entry, merge_tree, merge_trees,
    TreeModel, ValueTree,
};

verus! {

broadcast use vstd::std_specs::vec::group_vec_axioms;

/// The compiled-in language defaults: workspace overrides disabled, one
/// built-in language entry.
pub open spec fn default_lang_model() -> TreeModel {
    TreeModel::Table(
        seq![
            ("workspace-config"@, TreeModel::Bool(false)),
            (
                "language"@,
                TreeModel::Array(
                    seq![
                        TreeModel::Table(
                            seq![
                                ("name"@, TreeModel::Str("rust"@)),
                                ("scope"@, TreeModel::Str("source.rust"@)),
                            ],
                        ),
                    ],
                ),
            ),
        ],
    )
}

/// The compiled-in language defaults, decoded once per call.
pub fn default_lang_config() -> (r: ValueTree)
    ensures
        r@ == default_lang_model(),
{
    let mut lang: Vec<(String, ValueTree)> = Vec::new();
    lang.push((String::from_str("name"), ValueTree::Str(String::from_str("rust"))));
    lang.push((String::from_str("scope"), ValueTree::Str(String::from_str("source.rust"))));
    let ghost lm = lang@;
    let mut langs: Vec<ValueTree> = Vec::new();
    langs.push(ValueTree::Table(lang));
    let ghost lsm = langs@;
    let mut top: Vec<(String, ValueTree)> = Vec::new();
    top.push((String::from_str("workspace-config"), ValueTree::Bool(false)));
    top.push((String::from_str("language"), ValueTree::Array(langs)));
    proof {
        lemma_entries_model(lm);
        assert(entries_model(lm) =~= seq![
            ("name"@, TreeModel::Str("rust"@)),
            ("scope"@, TreeModel::Str("source.rust"@)),
        ]);
        lemma_elems_model(lsm);
        assert(elems_model(lsm) =~= seq![TreeModel::Table(entries_model(lm))]);
        lemma_entries_model(top@);
        assert(entries_model(top@) =~= default_lang_model()->Table_0);
    }
    ValueTree::Table(top)
}

/// Whether a merged language table enables workspace overrides: its
/// `workspace-config` entry exists and holds `true`.
pub open spec fn spec_lang_gate(t: TreeModel) -> bool {
    match t {
        TreeModel::Table(es) => match lookup_entry(es, "workspace-config"@) {
            Some(TreeModel::Bool(b)) => b,
            _ => false,
        },
        _ => false,
    }
}

fn lang_gate_enabled(t: &ValueTree) -> (r: bool)
    ensures
        r == spec_lang_gate(t@),
{
    match t {
        ValueTree::Table(es) => {
            proof {
                lemma_entries_model(es@);
            }
            match find_key(es, &String::from_str("workspace-config")) {
                Some(j) => {
                    proof {
                        lemma_lookup_entry_at(
                            entries_model(es@),
                            "workspace-config"@,
                            j as int,
                        );
                    }
                    match &es[j].1 {
                        ValueTree::Bool(b) => *b,
                        _ => false,
                    }
                },
                None => {
                    proof {
                        lemma_lookup_entry_none(entries_model(es@), "workspace-config"@);
                    }
                    false
                },
            }
        },
        _ => false,
    }
}

/// One language layer over a base tree: an absent file leaves the base
/// unchanged, an unparsable one fails, a parsed one is merged at the
/// standard depth.
pub open spec fn spec_merge_lang(l: TreeModel, s: Option<Seq<char>>) -> Result<
    TreeModel,
    ParseErrModel,
> {
    match s {
        None => Ok(l),
        Some(text) => match parsed_document(text) {
            Some(t) => Ok(merge_tree(l, t, crate::config::MERGE_DEPTH as nat)),
            None => Err(ParseErrModel::Syntax),
        },
    }
}

fn merge_language_config(left: ValueTree, source: Option<&str>) -> (r: Result<
    ValueTree,
    ParseError,
>)
    ensures
        match r {
            Ok(t) => spec_merge_lang(left@, match source {
                Some(s) => Some(s@),
                None => None,
            }) == Ok::<TreeModel, ParseErrModel>(t@),
            Err(e) => spec_merge_lang(left@, match source {
                Some(s) => Some(s@),
                None => None,
            }) == Err::<TreeModel, ParseErrModel>(e@),
        },
{
    match source {
        None => Ok(left),
        Some(text) => match parse_document(text) {
            Ok(t) => Ok(merge_trees(&left, &t, crate::config::MERGE_DEPTH)),
            Err(m) => Err(ParseError::Syntax(m)),
        },
    }
}

/// The layered language configuration: the global layer over the
/// compiled-in defaults, then — only when the merged global layer enables
/// workspace overrides — the workspace layer. A missing file is an absent
/// layer; an unparsable one fails the whole load.
pub open spec fn spec_user_lang(g: Option<Seq<char>>, w: Option<Seq<char>>) -> Result<
    TreeModel,
    ParseErrModel,
> {
    match spec_merge_lang(default_lang_model(), g) {
        Err(e) => Err(e),
        Ok(gm) => if spec_lang_gate(gm) {
            spec_merge_lang(gm, w)
        } else {
            Ok(gm)
        },
    }
}

/// The merged language configuration from the two optional file texts.
pub fn user_lang_config(global: Option<&str>, workspace: Option<&str>) -> (r: Result<
    ValueTree,
    ParseError,
>)
    ensures
        match r {
            Ok(t) => spec_user_lang(
                match global {
                    Some(s) => Some(s@),
                    None => None,
                },
                match workspace {
                    Some(s) => Some(s@),
                    None => None,
                },
            ) == Ok::<TreeModel, ParseErrModel>(t@),
            Err(e) => spec_user_lang(
                match global {
                    Some(s) => Some(s@),
                    None => None,
                },
                match workspace {
                    Some(s) => Some(s@),
                    None => None,
                },
            ) == Err::<TreeModel, ParseErrModel>(e@),
        },
{
    let merged_global = match merge_language_config(default_lang_config(), global) {
        Ok(t) => t,
        Err(e) => {
            return Err(e);
        },
    };
    if lang_gate_enabled(&merged_global) {
        merge_language_config(merged_global, workspace)
    } else {
        Ok(merged_global)
    }
}

} // verus!
