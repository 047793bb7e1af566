//! Keybinding tries, one per editing mode, and their overlay merge.
use vstd::prelude::*;

use crate::value::{
    extra_entries, find_key, has_key, lemma_extra_entries_lookup, lemma_extra_entries_push,
    lemma_lookup_entry_at, lemma_lookup_entry_none, lemma_lookup_in_concat, lookup_entry,
};

verus! {

broadcast use vstd::std_specs::vec::group_vec_axioms;

/// An editing mode, the top-level key of a keymap.
#[derive(PartialEq, Eq, Structural, Clone, Copy, Debug, Hash)]
pub enum Mode {
    Normal,
    Select,
    Insert,
}

/// One mode's bindings: a chord is bound to a command, to a sequence of
/// commands, or to a named node of further bindings.
#[derive(Debug, PartialEq)]
pub enum KeyTrie {
    Leaf(String),
    Sequence(Vec<String>),
    Node(KeyTrieNode),
}

/// An inner node of a keybinding trie: a display name and an ordered map
/// from key chord to sub-trie.
#[derive(Debug, PartialEq)]
pub struct KeyTrieNode {
    pub name: String,
    pub map: Vec<(String, KeyTrie)>,
}

/// The mathematical model of a `KeyTrie`.
#[verifier::ext_equal]
pub enum TrieModel {
    Leaf(Seq<char>),
    Sequence(Seq<Seq<char>>),
    Node(Seq<char>, Seq<(Seq<char>, TrieModel)>),
}

/// Model of a command list.
pub open spec fn cmds_model(cs: Seq<String>) -> Seq<Seq<char>> {
    Seq::new(cs.len(), |i: int| cs[i]@)
}

/// Model of a node's chord-to-subtrie entry list.
pub open spec fn trie_entries_model(es: Seq<(String, KeyTrie)>) -> Seq<(Seq<char>, TrieModel)>
    decreases es,
{
    if es.len() == 0 {
        Seq::empty()
    } else {
        seq![(es[0].0@, es[0].1.model())] + trie_entries_model(es.drop_first())
    }
}

impl KeyTrie {
    pub open spec fn model(self) -> TrieModel
        decreases self,
    {
        match self {
            KeyTrie::Leaf(c) => TrieModel::Leaf(c@),
            KeyTrie::Sequence(cs) => TrieModel::Sequence(cmds_model(cs@)),
            KeyTrie::Node(n) => TrieModel::Node(n.name@, trie_entries_model(n.map@)),
        }
    }
}

impl View for KeyTrie {
    type V = TrieModel;

    open spec fn view(&self) -> TrieModel {
        self.model()
    }
}

pub proof fn lemma_trie_entries_model(es: Seq<(String, KeyTrie)>)
    ensures
        trie_entries_model(es).len() == es.len(),
        forall|i: int|
            0 <= i < es.len() ==> #[trigger] trie_entries_model(es)[i] == (
                es[i].0@,
                es[i].1.model(),
            ),
    decreases es,
{
    if es.len() > 0 {
        lemma_trie_entries_model(es.drop_first());
    }
}

pub proof fn lemma_trie_entries_model_push(es: Seq<(String, KeyTrie)>, e: (String, KeyTrie))
    ensures
        trie_entries_model(es.push(e)) == trie_entries_model(es).push((e.0@, e.1.model())),
{
    lemma_trie_entries_model(es.push(e));
    lemma_trie_entries_model(es);
    assert(trie_entries_model(es.push(e)) =~= trie_entries_model(es).push((e.0@, e.1.model())));
}

/// The merged display name: the base's name is kept unless the overlay
/// supplies one.
pub open spec fn merge_name(bn: Seq<char>, on: Seq<char>) -> Seq<char> {
    if on.len() == 0 {
        bn
    } else {
        on
    }
}

/// The base side of two merged trie nodes: every chord of `bm` in order,
/// its sub-trie merged with the overlay's sub-trie at the same chord when
/// there is one.
pub open spec fn trie_merge_base(
    bm: Seq<(Seq<char>, TrieModel)>,
    om: Seq<(Seq<char>, TrieModel)>,
) -> Seq<(Seq<char>, TrieModel)>
    decreases bm,
{
    if bm.len() == 0 {
        Seq::empty()
    } else {
        let merged_head = match lookup_entry(om, bm[0].0) {
            Some(ov) => (bm[0].0, merge_trie(bm[0].1, ov)),
            None => bm[0],
        };
        seq![merged_head] + trie_merge_base(bm.drop_first(), om)
    }
}

/// The merge of one mode's tries. Two nodes merge chord by chord; in every
/// other case — the overlay being a single binding, or the base not being a
/// node — the overlay replaces the base outright.
pub open spec fn merge_trie(base: TrieModel, over: TrieModel) -> TrieModel
    decreases base,
{
    match (base, over) {
        (TrieModel::Node(bn, bm), TrieModel::Node(on, om)) => TrieModel::Node(
            merge_name(bn, on),
            trie_merge_base(bm, om) + extra_entries(om, bm),
        ),
        _ => over,
    }
}

pub proof fn lemma_trie_merge_base(
    bm: Seq<(Seq<char>, TrieModel)>,
    om: Seq<(Seq<char>, TrieModel)>,
)
    ensures
        trie_merge_base(bm, om).len() == bm.len(),
        forall|i: int|
            0 <= i < bm.len() ==> #[trigger] trie_merge_base(bm, om)[i] == (match lookup_entry(
                om,
                bm[i].0,
            ) {
                Some(ov) => (bm[i].0, merge_trie(bm[i].1, ov)),
                None => bm[i],
            }),
    decreases bm,
{
    if bm.len() > 0 {
        lemma_trie_merge_base(bm.drop_first(), om);
    }
}

proof fn lemma_trie_merge_base_lookup(
    bm: Seq<(Seq<char>, TrieModel)>,
    om: Seq<(Seq<char>, TrieModel)>,
    c: Seq<char>,
)
    ensures
        lookup_entry(trie_merge_base(bm, om), c) == (match lookup_entry(bm, c) {
            Some(bv) => match lookup_entry(om, c) {
                Some(ov) => Some(merge_trie(bv, ov)),
                None => Some(bv),
            },
            None => None::<TrieModel>,
        }),
    decreases bm,
{
    if bm.len() > 0 {
        lemma_trie_merge_base_lookup(bm.drop_first(), om, c);
        assert(trie_merge_base(bm, om).drop_first() =~= trie_merge_base(bm.drop_first(), om));
    }
}

/// Law: a chord the base node binds keeps its binding unless the overlay
/// node binds that exact chord; a chord both bind is bound to the merge of
/// the two sub-tries, so an overlay leaf replaces a whole base sub-trie; a
/// chord only the overlay binds is inserted as the overlay has it.
pub proof fn lemma_merge_trie_bindings(b: TrieModel, o: TrieModel, c: Seq<char>)
    requires
        b is Node,
        o is Node,
    ensures
        merge_trie(b, o) is Node,
        ({
            let mm = merge_trie(b, o)->Node_1;
            let bm = b->Node_1;
            let om = o->Node_1;
            &&& (!has_key(om, c) ==> lookup_entry(mm, c) == lookup_entry(bm, c))
            &&& (has_key(bm, c) && has_key(om, c) ==> lookup_entry(mm, c) == Some(
                merge_trie(lookup_entry(bm, c)->Some_0, lookup_entry(om, c)->Some_0),
            ))
            &&& (!has_key(bm, c) ==> lookup_entry(mm, c) == lookup_entry(om, c))
            &&& (has_key(mm, c) <==> has_key(bm, c) || has_key(om, c))
        }),
{
    let bm = b->Node_1;
    let om = o->Node_1;
    lemma_trie_merge_base(bm, om);
    lemma_trie_merge_base_lookup(bm, om, c);
    lemma_extra_entries_lookup(om, bm, c);
    lemma_lookup_in_concat(trie_merge_base(bm, om), extra_entries(om, bm), c);
}

impl KeyTrie {
    /// A structurally identical copy of the trie.
    #[verifier::loop_isolation(false)]
    #[verifier::spinoff_prover]
    pub fn duplicate(&self) -> (r: KeyTrie)
        ensures
            r@ == self@,
        decreases *self,
    {
        match self {
            KeyTrie::Leaf(c) => KeyTrie::Leaf(c.clone()),
            KeyTrie::Sequence(cs) => {
                let mut out: Vec<String> = Vec::new();
                let mut i: usize = 0;
                while i < cs.len()
                    invariant
                        i <= cs@.len(),
                        out@.len() == i,
                        forall|t: int| 0 <= t < i ==> #[trigger] out@[t]@ == cs@[t]@,
                    decreases cs@.len() - i,
                {
                    out.push(cs[i].clone());
                    i += 1;
                }
                proof {
                    assert(cmds_model(out@) =~= cmds_model(cs@));
                }
                KeyTrie::Sequence(out)
            },
            KeyTrie::Node(n) => {
                let mut out: Vec<(String, KeyTrie)> = Vec::new();
                let mut i: usize = 0;
                while i < n.map.len()
                    invariant
                        i <= n.map@.len(),
                        out@.len() == i,
                        forall|t: int|
                            0 <= t < i ==> #[trigger] out@[t].0@ == n.map@[t].0@
                                && out@[t].1.model() == n.map@[t].1.model(),
                    decreases n.map@.len() - i,
                {
                    let k = n.map[i].0.clone();
                    let ghost t0 = *self;
                    proof {
                        assert(decreases_to!(t0 => t0->Node_0.map[i as int].1)) by {
                            assert(decreases_to!(t0 => t0->Node_0));
                            assert(decreases_to!(t0->Node_0 => t0->Node_0.map));
                            assert(decreases_to!(t0->Node_0.map => t0->Node_0.map[i as int]));
                            assert(t0->Node_0.map == n.map);
                        }
                    }
                    let v = n.map[i].1.duplicate();
                    out.push((k, v));
                    proof {
                        assert(out@[i as int].0@ == n.map@[i as int].0@);
                        assert(out@[i as int].1.model() == n.map@[i as int].1.model());
                    }
                    i += 1;
                }
                proof {
                    lemma_trie_entries_model(out@);
                    lemma_trie_entries_model(n.map@);
                    assert(trie_entries_model(out@) =~= trie_entries_model(n.map@));
                }
                KeyTrie::Node(KeyTrieNode { name: n.name.clone(), map: out })
            },
        }
    }
}

/// Merge one mode's overlay trie over its base trie.
#[verifier::loop_isolation(false)]
#[verifier::spinoff_prover]
pub fn merge_keytries(base: &KeyTrie, over: &KeyTrie) -> (r: KeyTrie)
    ensures
        r@ == merge_trie(base@, over@),
    decreases *base,
{
    match (base, over) {
        (KeyTrie::Node(bn), KeyTrie::Node(on)) => {
            let ghost bm = trie_entries_model(bn.map@);
            let ghost om = trie_entries_model(on.map@);
            proof {
                lemma_trie_entries_model(bn.map@);
                lemma_trie_entries_model(on.map@);
                lemma_trie_merge_base(bm, om);
            }
            let mut out: Vec<(String, KeyTrie)> = Vec::new();
            let mut i: usize = 0;
            while i < bn.map.len()
                invariant
                    i <= bn.map@.len(),
                    out@.len() == i,
                    forall|t: int|
                        0 <= t < i ==> (#[trigger] out@[t].0@, out@[t].1.model())
                            == trie_merge_base(bm, om)[t],
                decreases bn.map@.len() - i,
            {
                let ghost t0 = *base;
                proof {
                    assert(decreases_to!(t0 => t0->Node_0.map[i as int].1)) by {
                        assert(decreases_to!(t0 => t0->Node_0));
                        assert(decreases_to!(t0->Node_0 => t0->Node_0.map));
                        assert(decreases_to!(t0->Node_0.map => t0->Node_0.map[i as int]));
                        assert(t0->Node_0.map == bn.map);
                    }
                }
                let fk = find_key(&on.map, &bn.map[i].0);
                proof {
                    match fk {
                        Some(j) => lemma_lookup_entry_at(om, bn.map@[i as int].0@, j as int),
                        None => lemma_lookup_entry_none(om, bn.map@[i as int].0@),
                    }
                }
                let merged_v = match fk {
                    Some(j) => merge_keytries(&bn.map[i].1, &on.map[j].1),
                    None => bn.map[i].1.duplicate(),
                };
                out.push((bn.map[i].0.clone(), merged_v));
                proof {
                    assert((out@[i as int].0@, out@[i as int].1.model()) == trie_merge_base(
                        bm,
                        om,
                    )[i as int]);
                }
                i += 1;
            }
            let ghost base_part = trie_merge_base(bm, om);
            proof {
                lemma_trie_entries_model(out@);
                assert(trie_entries_model(out@) =~= base_part);
            }
            let mut j: usize = 0;
            while j < on.map.len()
                invariant
                    j <= on.map@.len(),
                    trie_entries_model(out@) == base_part + extra_entries(
                        om.take(j as int),
                        bm,
                    ),
                decreases on.map@.len() - j,
            {
                let ghost before = out@;
                let ghost taken = om.take(j as int);
                let present = find_key(&bn.map, &on.map[j].0);
                proof {
                    match present {
                        Some(t) => lemma_lookup_entry_at(bm, on.map@[j as int].0@, t as int),
                        None => lemma_lookup_entry_none(bm, on.map@[j as int].0@),
                    }
                }
                if present.is_none() {
                    let e = (on.map[j].0.clone(), on.map[j].1.duplicate());
                    proof {
                        lemma_trie_entries_model_push(before, e);
                    }
                    out.push(e);
                }
                proof {
                    assert(om.take(j + 1) =~= taken.push(om[j as int]));
                    lemma_extra_entries_push(taken, om[j as int], bm);
                    assert(trie_entries_model(out@) =~= base_part + extra_entries(
                        om.take(j + 1),
                        bm,
                    ));
                }
                j += 1;
            }
            proof {
                assert(om.take(on.map@.len() as int) =~= om);
            }
            let name = if on.name.as_str().unicode_len() == 0 {
                bn.name.clone()
            } else {
                on.name.clone()
            };
            KeyTrie::Node(KeyTrieNode { name, map: out })
        },
        _ => over.duplicate(),
    }
}

/// A keymap: for each editing mode, optionally one keybinding trie.
#[derive(Debug, PartialEq)]
pub struct Keymap {
    pub normal: Option<KeyTrie>,
    pub insert: Option<KeyTrie>,
    pub select: Option<KeyTrie>,
}

/// The mathematical model of a `Keymap`.
#[verifier::ext_equal]
pub struct KeymapModel {
    pub normal: Option<TrieModel>,
    pub insert: Option<TrieModel>,
    pub select: Option<TrieModel>,
}

pub open spec fn mode_model(t: Option<KeyTrie>) -> Option<TrieModel> {
    match t {
        Some(trie) => Some(trie.model()),
        None => None,
    }
}

impl Keymap {
    pub open spec fn model(self) -> KeymapModel {
        KeymapModel {
            normal: mode_model(self.normal),
            insert: mode_model(self.insert),
            select: mode_model(self.select),
        }
    }
}

impl View for Keymap {
    type V = KeymapModel;

    open spec fn view(&self) -> KeymapModel {
        self.model()
    }
}

impl KeymapModel {
    /// The keymap that binds nothing in any mode.
    pub open spec fn empty() -> KeymapModel {
        KeymapModel { normal: None, insert: None, select: None }
    }

    /// Whether every mode has a trie.
    pub open spec fn complete(self) -> bool {
        self.normal is Some && self.insert is Some && self.select is Some
    }
}

impl KeymapModel {
    /// The trie bound to one mode.
    pub open spec fn mode(self, m: Mode) -> Option<TrieModel> {
        match m {
            Mode::Normal => self.normal,
            Mode::Select => self.select,
            Mode::Insert => self.insert,
        }
    }
}

impl Keymap {
    /// The trie bound to one mode.
    pub fn get(&self, mode: Mode) -> (r: &Option<KeyTrie>)
        ensures
            mode_model(*r) == self@.mode(mode),
    {
        match mode {
            Mode::Normal => &self.normal,
            Mode::Select => &self.select,
            Mode::Insert => &self.insert,
        }
    }
}

/// The merge of one mode's optional tries: absent sides are inherited.
pub open spec fn merge_mode(b: Option<TrieModel>, o: Option<TrieModel>) -> Option<TrieModel> {
    match (b, o) {
        (Some(bt), Some(ot)) => Some(merge_trie(bt, ot)),
        (Some(bt), None) => Some(bt),
        (None, ot) => ot,
    }
}

/// The merge of two keymaps, mode by mode.
pub open spec fn merge_keymap(b: KeymapModel, o: KeymapModel) -> KeymapModel {
    KeymapModel {
        normal: merge_mode(b.normal, o.normal),
        insert: merge_mode(b.insert, o.insert),
        select: merge_mode(b.select, o.select),
    }
}

fn merge_mode_tries(b: Option<KeyTrie>, o: Option<KeyTrie>) -> (r: Option<KeyTrie>)
    ensures
        mode_model(r) == merge_mode(mode_model(b), mode_model(o)),
{
    match (b, o) {
        (Some(bt), Some(ot)) => Some(merge_keytries(&bt, &ot)),
        (Some(bt), None) => Some(bt),
        (None, ot) => ot,
    }
}

/// Merge an overlay keymap over a base keymap: every mode either side
/// binds is present, and a mode both bind carries the merged trie.
pub fn merge_keys(base: Keymap, overlay: Keymap) -> (r: Keymap)
    ensures
        r@ == merge_keymap(base@, overlay@),
{
    Keymap {
        normal: merge_mode_tries(base.normal, overlay.normal),
        insert: merge_mode_tries(base.insert, overlay.insert),
        select: merge_mode_tries(base.select, overlay.select),
    }
}

/// Law: merging an empty overlay changes nothing, in any mode.
pub proof fn lemma_merge_keymap_empty(m: KeymapModel)
    ensures
        merge_keymap(m, KeymapModel::empty()) == m,
{
    assert(merge_keymap(m, KeymapModel::empty()) =~= m);
}

/// Law: the keymap merge acts mode by mode, so the result binds every
/// mode that either side binds.
pub proof fn lemma_merge_keymap_mode(b: KeymapModel, o: KeymapModel, m: Mode)
    ensures
        merge_keymap(b, o).mode(m) == merge_mode(b.mode(m), o.mode(m)),
{
}

/// Law: a mode the overlay leaves out keeps the base's trie unchanged.
pub proof fn lemma_merge_keymap_keeps_modes(b: KeymapModel, o: KeymapModel)
    ensures
        o.normal is None ==> merge_keymap(b, o).normal == b.normal,
        o.insert is None ==> merge_keymap(b, o).insert == b.insert,
        o.select is None ==> merge_keymap(b, o).select == b.select,
        b.complete() ==> merge_keymap(b, o).complete(),
{
}

/// The compiled-in default bindings for normal mode.
pub open spec fn default_normal_model() -> TrieModel {
    TrieModel::Node(
        "Normal mode"@,
        seq![
            ("h"@, TrieModel::Leaf("move_char_left"@)),
            ("j"@, TrieModel::Leaf("move_line_down"@)),
            ("k"@, TrieModel::Leaf("move_line_up"@)),
            ("l"@, TrieModel::Leaf("move_char_right"@)),
            (
                "g"@,
                TrieModel::Node(
                    "Goto"@,
                    seq![
                        ("g"@, TrieModel::Leaf("goto_file_start"@)),
                        ("e"@, TrieModel::Leaf("goto_last_line"@)),
                    ],
                ),
            ),
        ],
    )
}

/// The compiled-in default bindings for insert mode.
pub open spec fn default_insert_model() -> TrieModel {
    TrieModel::Node("Insert mode"@, seq![("esc"@, TrieModel::Leaf("normal_mode"@))])
}

/// The compiled-in default bindings for select mode.
pub open spec fn default_select_model() -> TrieModel {
    TrieModel::Node("Select mode"@, seq![("h"@, TrieModel::Leaf("extend_char_left"@))])
}

/// The compiled-in default keymap: every mode bound.
pub open spec fn default_keymap_model() -> KeymapModel {
    KeymapModel {
        normal: Some(default_normal_model()),
        insert: Some(default_insert_model()),
        select: Some(default_select_model()),
    }
}

fn bind_leaf(chord: &str, cmd: &str) -> (e: (String, KeyTrie))
    ensures
        e.0@ == chord@,
        e.1@ == TrieModel::Leaf(cmd@),
{
    (String::from_str(chord), KeyTrie::Leaf(String::from_str(cmd)))
}

fn node(name: &str, map: Vec<(String, KeyTrie)>) -> (t: KeyTrie)
    ensures
        t@ == TrieModel::Node(name@, trie_entries_model(map@)),
{
    KeyTrie::Node(KeyTrieNode { name: String::from_str(name), map })
}

/// The compiled-in default keymap, the merge base of every layer.
pub fn default() -> (r: Keymap)
    ensures
        r@ == default_keymap_model(),
        r@.complete(),
{
    let mut goto: Vec<(String, KeyTrie)> = Vec::new();
    goto.push(bind_leaf("g", "goto_file_start"));
    goto.push(bind_leaf("e", "goto_last_line"));
    let ghost gm = goto@;
    let goto_trie = node("Goto", goto);
    proof {
        lemma_trie_entries_model(gm);
        assert(trie_entries_model(gm) =~= seq![
            ("g"@, TrieModel::Leaf("goto_file_start"@)),
            ("e"@, TrieModel::Leaf("goto_last_line"@)),
        ]);
    }
    let mut normal: Vec<(String, KeyTrie)> = Vec::new();
    normal.push(bind_leaf("h", "move_char_left"));
    normal.push(bind_leaf("j", "move_line_down"));
    normal.push(bind_leaf("k", "move_line_up"));
    normal.push(bind_leaf("l", "move_char_right"));
    normal.push((String::from_str("g"), goto_trie));
    let ghost nm = normal@;
    let normal_trie = node("Normal mode", normal);
    proof {
        lemma_trie_entries_model(nm);
        assert(trie_entries_model(nm) =~= default_normal_model()->Node_1);
    }
    let mut insert: Vec<(String, KeyTrie)> = Vec::new();
    insert.push(bind_leaf("esc", "normal_mode"));
    let ghost im = insert@;
    let insert_trie = node("Insert mode", insert);
    proof {
        lemma_trie_entries_model(im);
        assert(trie_entries_model(im) =~= default_insert_model()->Node_1);
    }
    let mut select: Vec<(String, KeyTrie)> = Vec::new();
    select.push(bind_leaf("h", "extend_char_left"));
    let ghost sm = select@;
    let select_trie = node("Select mode", select);
    proof {
        lemma_trie_entries_model(sm);
        assert(trie_entries_model(sm) =~= default_select_model()->Node_1);
    }
    Keymap { normal: Some(normal_trie), insert: Some(insert_trie), select: Some(select_trie) }
}

} // verus!
