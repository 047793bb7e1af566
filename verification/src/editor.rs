//! The strongly-typed editor settings and their strict validation from a
//! generic value tree.
use vstd::prelude::*;

use crate::fault::{str_is, ParseErrModel, ParseError};
use crate::value::{entries_model, lemma_entries_model, TreeModel, ValueTree};

verus! {

broadcast use vstd::std_specs::vec::group_vec_axioms;

/// How the line-number column is rendered.
#[derive(PartialEq, Eq, Structural, Clone, Copy, Debug)]
pub enum LineNumber {
    Absolute,
    Relative,
}

/// The fully-specified editor settings.
#[derive(PartialEq, Eq, Structural, Clone, Copy, Debug)]
pub struct EditorConfig {
    pub scrolloff: u64,
    pub mouse: bool,
    pub middle_click_paste: bool,
    pub line_number: LineNumber,
}

/// The compiled-in default editor settings.
pub open spec fn default_editor_model() -> EditorConfig {
    EditorConfig { scrolloff: 5, mouse: true, middle_click_paste: true, line_number: LineNumber::Absolute }
}

impl Default for EditorConfig {
    /// The compiled-in default editor settings.
    fn default() -> (r: EditorConfig)
        ensures
            r == default_editor_model(),
    {
        EditorConfig { scrolloff: 5, mouse: true, middle_click_paste: true, line_number: LineNumber::Absolute }
    }
}

/// Strict validation of one editor-settings entry list, folded left to
/// right over `acc`: unknown keys and wrongly-typed values are rejected.
pub open spec fn spec_decode_editor_entries(
    es: Seq<(Seq<char>, TreeModel)>,
    acc: EditorConfig,
) -> Result<EditorConfig, ParseErrModel>
    decreases es,
{
    if es.len() == 0 {
        Ok(acc)
    } else {
        let k = es[0].0;
        let v = es[0].1;
        if k == "scrolloff"@ {
            match v {
                TreeModel::Int(i) => if 0 <= i && i <= u64::MAX {
                    spec_decode_editor_entries(
                        es.drop_first(),
                        EditorConfig { scrolloff: i as u64, ..acc },
                    )
                } else {
                    Err(ParseErrModel::WrongType(k))
                },
                _ => Err(ParseErrModel::WrongType(k)),
            }
        } else if k == "mouse"@ {
            match v {
                TreeModel::Bool(b) => spec_decode_editor_entries(
                    es.drop_first(),
                    EditorConfig { mouse: b, ..acc },
                ),
                _ => Err(ParseErrModel::WrongType(k)),
            }
        } else if k == "middle-click-paste"@ {
            match v {
                TreeModel::Bool(b) => spec_decode_editor_entries(
                    es.drop_first(),
                    EditorConfig { middle_click_paste: b, ..acc },
                ),
                _ => Err(ParseErrModel::WrongType(k)),
            }
        } else if k == "line-number"@ {
            match v {
                TreeModel::Str(s) => if s == "absolute"@ {
                    spec_decode_editor_entries(
                        es.drop_first(),
                        EditorConfig { line_number: LineNumber::Absolute, ..acc },
                    )
                } else if s == "relative"@ {
                    spec_decode_editor_entries(
                        es.drop_first(),
                        EditorConfig { line_number: LineNumber::Relative, ..acc },
                    )
                } else {
                    Err(ParseErrModel::WrongType(k))
                },
                _ => Err(ParseErrModel::WrongType(k)),
            }
        } else {
            Err(ParseErrModel::UnknownKey(k))
        }
    }
}

/// Strict validation of a whole editor-settings tree: it must be a table,
/// and every entry must match the schema.
pub open spec fn spec_decode_editor(t: TreeModel) -> Result<EditorConfig, ParseErrModel> {
    match t {
        TreeModel::Table(es) => spec_decode_editor_entries(es, default_editor_model()),
        _ => Err(ParseErrModel::WrongType("editor"@)),
    }
}

impl EditorConfig {
    /// Validate a generic editor-settings tree against the schema,
    /// strictly: unknown fields and wrongly-typed fields are rejected.
    #[verifier::loop_isolation(false)]
    pub fn from_tree(t: &ValueTree) -> (r: Result<EditorConfig, ParseError>)
        ensures
            match r {
                Ok(c) => spec_decode_editor(t@) == Ok::<EditorConfig, ParseErrModel>(c),
                Err(e) => spec_decode_editor(t@) == Err::<EditorConfig, ParseErrModel>(e@),
            },
    {
        let es = match t {
            ValueTree::Table(es) => es,
            _ => {
                return Err(ParseError::WrongType(String::from_str("editor")));
            },
        };
        let ghost em = entries_model(es@);
        proof {
            lemma_entries_model(es@);
            assert(em.skip(0) =~= em);
        }
        let mut acc = EditorConfig::default();
        let mut i: usize = 0;
        while i < es.len()
            invariant
                i <= es@.len(),
                spec_decode_editor_entries(em, default_editor_model())
                    == spec_decode_editor_entries(em.skip(i as int), acc),
            decreases es@.len() - i,
        {
            proof {
                assert(em.skip(i as int)[0] == em[i as int]);
                assert(em.skip(i as int).drop_first() =~= em.skip(i + 1));
            }
            let k = &es[i].0;
            let v = &es[i].1;
            if str_is(k, "scrolloff") {
                match v {
                    ValueTree::Int(n) => {
                        if *n >= 0 {
                            acc = EditorConfig { scrolloff: *n as u64, ..acc };
                        } else {
                            return Err(ParseError::WrongType(k.clone()));
                        }
                    },
                    _ => {
                        return Err(ParseError::WrongType(k.clone()));
                    },
                }
            } else if str_is(k, "mouse") {
                match v {
                    ValueTree::Bool(b) => {
                        acc = EditorConfig { mouse: *b, ..acc };
                    },
                    _ => {
                        return Err(ParseError::WrongType(k.clone()));
                    },
                }
            } else if str_is(k, "middle-click-paste") {
                match v {
                    ValueTree::Bool(b) => {
                        acc = EditorConfig { middle_click_paste: *b, ..acc };
                    },
                    _ => {
                        return Err(ParseError::WrongType(k.clone()));
                    },
                }
            } else if str_is(k, "line-number") {
                match v {
                    ValueTree::Str(s) => {
                        if str_is(s, "absolute") {
                            acc = EditorConfig { line_number: LineNumber::Absolute, ..acc };
                        } else if str_is(s, "relative") {
                            acc = EditorConfig { line_number: LineNumber::Relative, ..acc };
                        } else {
                            return Err(ParseError::WrongType(k.clone()));
                        }
                    },
                    _ => {
                        return Err(ParseError::WrongType(k.clone()));
                    },
                }
            } else {
                return Err(ParseError::UnknownKey(k.clone()));
            }
            i += 1;
        }
        proof {
            assert(em.skip(es@.len() as int) =~= Seq::empty());
        }
        Ok(acc)
    }
}

} // verus!
