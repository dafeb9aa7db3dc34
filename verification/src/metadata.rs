//! The metadata file of a desktop layout: a KDL document whose `name` nodes
//! carry the layout's display name per locale and whose `id` node carries the
//! number by which layouts are ordered.

use vstd::prelude::*;
use crate::text::same_text;

verus! {

/// The value of a KDL entry, as far as layout metadata reads it.
#[derive(Debug)]
pub enum MetaValue {
    Text(String),
    Integer(i128),
    /// A float, a boolean or `null`.
    Other,
}

/// One entry of a KDL node: a named property or, without a name, an argument.
#[derive(Debug)]
pub struct MetaEntry {
    pub name: Option<String>,
    pub value: MetaValue,
}

/// One top-level node of a KDL document.
#[derive(Debug)]
pub struct MetaNode {
    pub name: String,
    pub entries: Vec<MetaEntry>,
}

pub enum MetaValueView {
    Text(Seq<char>),
    Integer(i128),
    Other,
}

pub struct MetaEntryView {
    pub name: Option<Seq<char>>,
    pub value: MetaValueView,
}

pub struct MetaNodeView {
    pub name: Seq<char>,
    pub entries: Seq<MetaEntryView>,
}

impl View for MetaValue {
    type V = MetaValueView;

    open spec fn view(&self) -> MetaValueView {
        match self {
            MetaValue::Text(t) => MetaValueView::Text(t@),
            MetaValue::Integer(i) => MetaValueView::Integer(*i),
            MetaValue::Other => MetaValueView::Other,
        }
    }
}

impl View for MetaEntry {
    type V = MetaEntryView;

    open spec fn view(&self) -> MetaEntryView {
        MetaEntryView {
            name: match self.name {
                Some(n) => Some(n@),
                None => None,
            },
            value: self.value@,
        }
    }
}

impl View for MetaNode {
    type V = MetaNodeView;

    open spec fn view(&self) -> MetaNodeView {
        MetaNodeView { name: self.name@, entries: entries_view(self.entries@) }
    }
}

pub open spec fn entries_view(entries: Seq<MetaEntry>) -> Seq<MetaEntryView> {
    entries.map_values(|e: MetaEntry| e@)
}

pub open spec fn nodes_view(nodes: Seq<MetaNode>) -> Seq<MetaNodeView> {
    nodes.map_values(|n: MetaNode| n@)
}

/// The top-level nodes of the KDL document that `text` holds, or `None` when
/// `text` is not a KDL document.
pub uninterp spec fn kdl_document_nodes(text: Seq<char>) -> Option<Seq<MetaNodeView>>;

/// Parses `text` with `kdl::KdlDocument::from_str` (the `str::parse` of the
/// crate's document type) and copies the top-level nodes into plain values:
/// each node's name, and each entry's name and value, telling strings and
/// integers apart from the other kinds of value. The contract claims only
/// that the outcome is a function of `text`, named `kdl_document_nodes`.
#[verifier::external_body]
fn parse_kdl_nodes(text: &str) -> (res: Option<Vec<MetaNode>>)
    ensures
        res matches Some(nodes) ==> kdl_document_nodes(text@) == Some(nodes_view(nodes@)),
        res is None ==> kdl_document_nodes(text@) is None,
{
    let doc = text.parse::<kdl::KdlDocument>().ok()?;
    Some(doc.nodes().iter().map(|node| MetaNode {
        name: node.name().value().to_owned(),
        entries: node.entries().iter().map(|entry| MetaEntry {
            name: entry.name().map(|ident| ident.value().to_owned()),
            value: match entry.value() {
                kdl::KdlValue::String(s) => MetaValue::Text(s.clone()),
                kdl::KdlValue::Integer(i) => MetaValue::Integer(*i),
                _ => MetaValue::Other,
            },
        }).collect(),
    }).collect())
}

// ---------------------------------------------------------------------------
// The names table

/// What a sequence of `(locale, name)` pairs maps each locale to: the name of
/// the last pair with that locale.
pub open spec fn pairs_map(pairs: Seq<(String, String)>) -> Map<Seq<char>, Seq<char>>
    decreases pairs.len(),
{
    if pairs.len() == 0 {
        Map::empty()
    } else {
        pairs_map(pairs.drop_last()).insert(pairs.last().0@, pairs.last().1@)
    }
}

proof fn lemma_pairs_map_found(pairs: Seq<(String, String)>, key: Seq<char>, i: int)
    requires
        0 <= i < pairs.len(),
        pairs[i].0@ == key,
        forall|j: int| i < j < pairs.len() ==> pairs[j].0@ != key,
    ensures
        pairs_map(pairs).contains_key(key),
        pairs_map(pairs)[key] == pairs[i].1@,
    decreases pairs.len(),
{
    if i < pairs.len() - 1 {
        lemma_pairs_map_found(pairs.drop_last(), key, i);
    }
}

proof fn lemma_pairs_map_absent(pairs: Seq<(String, String)>, key: Seq<char>)
    requires
        forall|j: int| 0 <= j < pairs.len() ==> pairs[j].0@ != key,
    ensures
        !pairs_map(pairs).contains_key(key),
    decreases pairs.len(),
{
    if pairs.len() > 0 {
        lemma_pairs_map_absent(pairs.drop_last(), key);
    }
}

/// A layout's display names, keyed by locale; a later entry for a locale
/// replaces an earlier one.
#[derive(Debug)]
pub struct LayoutNames {
    pairs: Vec<(String, String)>,
}

impl View for LayoutNames {
    type V = Map<Seq<char>, Seq<char>>;

    closed spec fn view(&self) -> Map<Seq<char>, Seq<char>> {
        pairs_map(self.pairs@)
    }
}

impl LayoutNames {
    /// A table without names.
    pub fn new() -> (res: Self)
        ensures
            res@ == Map::<Seq<char>, Seq<char>>::empty(),
    {
        LayoutNames { pairs: Vec::new() }
    }

    /// Records `name` as the display name for `locale`.
    pub fn insert(&mut self, locale: String, name: String)
        ensures
            final(self)@ == old(self)@.insert(locale@, name@),
    {
        self.pairs.push((locale, name));
        assert(self.pairs@.drop_last() =~= old(self).pairs@);
    }

    /// The display name recorded for `locale`, if any.
    pub fn get(&self, locale: &str) -> (res: Option<&String>)
        ensures
            res is Some <==> self@.contains_key(locale@),
            res matches Some(name) ==> name@ == self@[locale@],
    {
        let mut i = self.pairs.len();
        while i > 0
            invariant
                i <= self.pairs@.len(),
                forall|j: int| i <= j < self.pairs@.len() ==> self.pairs@[j].0@ != locale@,
            decreases i,
        {
            i = i - 1;
            let pair = &self.pairs[i];
            if same_text(pair.0.as_str(), locale) {
                proof {
                    lemma_pairs_map_found(self.pairs@, locale@, i as int);
                }
                return Some(&pair.1);
            }
        }
        proof {
            lemma_pairs_map_absent(self.pairs@, locale@);
        }
        None
    }
}

// ---------------------------------------------------------------------------
// What a layout's metadata says

/// The locale an entry of a `name` node is for: its property name, or `en`
/// for an argument.
pub open spec fn entry_locale(e: MetaEntryView) -> Seq<char> {
    match e.name {
        Some(n) => n,
        None => "en"@,
    }
}

/// `names` after recording, in order, every string entry of a `name` node.
pub open spec fn with_entry_names(
    names: Map<Seq<char>, Seq<char>>,
    entries: Seq<MetaEntryView>,
) -> Map<Seq<char>, Seq<char>>
    decreases entries.len(),
{
    if entries.len() == 0 {
        names
    } else {
        let before = with_entry_names(names, entries.drop_last());
        match entries.last().value {
            MetaValueView::Text(t) => before.insert(entry_locale(entries.last()), t),
            _ => before,
        }
    }
}

/// The display names that the `name` nodes of a metadata document give, the
/// later entries replacing earlier ones for the same locale.
pub open spec fn layout_names(nodes: Seq<MetaNodeView>) -> Map<Seq<char>, Seq<char>>
    decreases nodes.len(),
{
    if nodes.len() == 0 {
        Map::empty()
    } else {
        let before = layout_names(nodes.drop_last());
        if nodes.last().name == "name"@ {
            with_entry_names(before, nodes.last().entries)
        } else {
            before
        }
    }
}

/// The value of the first argument (entry without a name) of a node.
pub open spec fn first_argument(entries: Seq<MetaEntryView>) -> Option<MetaValueView>
    decreases entries.len(),
{
    if entries.len() == 0 {
        None
    } else if entries[0].name is None {
        Some(entries[0].value)
    } else {
        first_argument(entries.drop_first())
    }
}

/// The layout number of a metadata document: the first argument, cut to 32
/// bits, of the last `id` node whose first argument is an integer; `-1` when
/// there is none.
pub open spec fn layout_id(nodes: Seq<MetaNodeView>) -> i32
    decreases nodes.len(),
{
    if nodes.len() == 0 {
        -1i32
    } else {
        match first_argument(nodes.last().entries) {
            Some(MetaValueView::Integer(v)) if nodes.last().name == "id"@ => v as i32,
            _ => layout_id(nodes.drop_last()),
        }
    }
}

proof fn lemma_first_argument_skip(entries: Seq<MetaEntryView>, i: int)
    requires
        0 <= i <= entries.len(),
        forall|j: int| 0 <= j < i ==> entries[j].name is Some,
    ensures
        first_argument(entries) == first_argument(entries.skip(i)),
    decreases i,
{
    if i > 0 {
        lemma_first_argument_skip(entries.drop_first(), i - 1);
        assert(entries.skip(i) =~= entries.drop_first().skip(i - 1));
    } else {
        assert(entries.skip(0) =~= entries);
    }
}

/// The value of the first argument of a node, as `kdl::KdlNode::get(0)`
/// gives it.
fn first_argument_of(entries: &Vec<MetaEntry>) -> (res: Option<&MetaValue>)
    ensures
        res matches Some(v) ==> first_argument(entries_view(entries@)) == Some(
            v@,
        ),
        res is None ==> first_argument(entries_view(entries@)) is None,
{
    let ghost view = entries_view(entries@);
    let mut i: usize = 0;
    while i < entries.len()
        invariant
            i <= entries@.len(),
            view == entries_view(entries@),
            forall|j: int| 0 <= j < i ==> view[j].name is Some,
        decreases entries@.len() - i,
    {
        if entries[i].name.is_none() {
            proof {
                lemma_first_argument_skip(view, i as int);
            }
            return Some(&entries[i].value);
        }
        i = i + 1;
    }
    proof {
        lemma_first_argument_skip(view, i as int);
    }
    None
}

/// Reads the display names and the layout number out of the nodes of a
/// metadata document.
pub fn layout_metadata(nodes: &Vec<MetaNode>) -> (res: (LayoutNames, i32))
    ensures
        res.0@ == layout_names(nodes_view(nodes@)),
        res.1 == layout_id(nodes_view(nodes@)),
{
    let ghost view = nodes_view(nodes@);
    let mut names = LayoutNames::new();
    let mut id: i32 = -1;
    let mut i: usize = 0;
    proof {
        reveal_strlit("name");
        reveal_strlit("id");
        reveal_strlit("en");
        assert(view.take(0) =~= Seq::<MetaNodeView>::empty());
    }
    while i < nodes.len()
        invariant
            i <= nodes@.len(),
            view == nodes_view(nodes@),
            names@ == layout_names(view.take(i as int)),
            id == layout_id(view.take(i as int)),
        decreases nodes@.len() - i,
    {
        let node = &nodes[i];
        proof {
            reveal_strlit("name");
            reveal_strlit("id");
            reveal_strlit("en");
        }
        let ghost before = view.take(i as int);
        let ghost node_view = view[i as int];
        assert(view.take(i + 1).drop_last() =~= before);
        assert(view.take(i + 1).last() == node_view);
        if same_text(node.name.as_str(), "name") {
            let ghost ev = node_view.entries;
            let mut j: usize = 0;
            assert(ev.take(0) =~= Seq::<MetaEntryView>::empty());
            while j < node.entries.len()
                invariant
                    j <= node.entries@.len(),
                    ev == entries_view(node.entries@),
                    names@ == with_entry_names(layout_names(before), ev.take(j as int)),
                decreases node.entries@.len() - j,
            {
                let entry = &node.entries[j];
                assert(ev.take(j + 1).drop_last() =~= ev.take(j as int));
                assert(ev.take(j + 1).last() == entry@);
                let locale: &str = match &entry.name {
                    Some(n) => n.as_str(),
                    None => "en",
                };
                match &entry.value {
                    MetaValue::Text(t) => {
                        names.insert(locale.to_owned(), t.clone());
                    },
                    _ => {},
                }
                j = j + 1;
            }
            assert(ev.take(j as int) =~= ev);
            assert("name"@.len() != "id"@.len());
        } else if same_text(node.name.as_str(), "id") {
            match first_argument_of(&node.entries) {
                Some(MetaValue::Integer(v)) => {
                    id = #[verifier::truncate] (*v as i32);
                },
                _ => {
                    assert(!(first_argument(node_view.entries) matches Some(MetaValueView::Integer(_))));
                },
            }
        }
        i = i + 1;
    }
    assert(view.take(i as int) =~= view);
    (names, id)
}

/// Reads the display names and the layout number out of the text of a
/// metadata file; `None` when the text is not a KDL document.
pub fn read_layout_metadata(text: &str) -> (res: Option<(LayoutNames, i32)>)
    ensures
        res is Some <==> kdl_document_nodes(text@) is Some,
        res matches Some(meta) ==> meta.0@ == layout_names(kdl_document_nodes(text@)->0)
            && meta.1 == layout_id(kdl_document_nodes(text@)->0),
{
    match parse_kdl_nodes(text) {
        Some(nodes) => Some(layout_metadata(&nodes)),
        None => None,
    }
}

} // verus!
