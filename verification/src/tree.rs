//! The attribute tree: the nested document that the backing key-value store
//! keeps for each item. A node is a string, a list of nodes, or a map from
//! field names to nodes. The store knows further kinds of values (numbers,
//! sets and so on); a record holds none of them, and all of them are the one
//! node `Other`.

use vstd::prelude::*;

verus! {

/// A node of an attribute tree.
///
/// A map node holds its fields as a list of entries. Where a name occurs more
/// than once, the last entry with that name is the field: the list reads like
/// a series of insertions into a map. Two trees are equal (`==`) when they
/// have the same view, in whatever order their maps list the fields.
#[derive(Debug)]
pub enum AttributeTree {
    /// A string.
    S(String),
    /// A list of nodes.
    L(Vec<AttributeTree>),
    /// A map, as entries of a field's name and the node below it.
    M(Vec<(String, AttributeTree)>),
    /// A value of any other kind. Nothing of it is read, so nothing of it is
    /// kept: one such node is like another.
    Other,
}

/// The value of an [`AttributeTree`]: the same tree over `Seq` and `Map`.
pub enum TreeView {
    S(Seq<char>),
    L(Seq<TreeView>),
    M(Map<Seq<char>, TreeView>),
    Other,
}

impl TreeView {
    /// The node below the field `name`, if `self` is a map that has this field.
    pub open spec fn field(self, name: Seq<char>) -> Option<TreeView> {
        match self {
            TreeView::M(fields) => if fields.contains_key(name) {
                Some(fields[name])
            } else {
                None
            },
            _ => None,
        }
    }
}

/// The map that a list of entries stands for: each entry is inserted in turn,
/// so a later entry replaces an earlier one of the same name.
pub open spec fn fields_view(fields: Seq<(String, AttributeTree)>) -> Map<Seq<char>, TreeView>
    decreases fields, 1int,
{
    if fields.len() == 0 {
        Map::empty()
    } else {
        fields_view(fields.drop_last()).insert(fields.last().0@, tree_view(fields.last().1))
    }
}

/// The values of a list of nodes, in the same order.
pub open spec fn items_view(items: Seq<AttributeTree>) -> Seq<TreeView>
    decreases items, 1int,
{
    if items.len() == 0 {
        Seq::empty()
    } else {
        items_view(items.drop_last()).push(tree_view(items.last()))
    }
}

/// The value of a node.
pub open spec fn tree_view(tree: AttributeTree) -> TreeView
    decreases tree, 0int,
{
    match tree {
        AttributeTree::S(s) => TreeView::S(s@),
        AttributeTree::L(items) => TreeView::L(items_view(items@)),
        AttributeTree::M(fields) => TreeView::M(fields_view(fields@)),
        AttributeTree::Other => TreeView::Other,
    }
}

impl View for AttributeTree {
    type V = TreeView;

    open spec fn view(&self) -> TreeView {
        tree_view(*self)
    }
}

/// No name occurs twice among `fields`.
pub open spec fn distinct_names(fields: Seq<(String, AttributeTree)>) -> bool {
    forall|i: int, j: int|
        0 <= i < j < fields.len() ==> (#[trigger] fields[i]).0@ != (#[trigger] fields[j]).0@
}

/// `tree` is made of strings, lists and maps alone, and none of its maps holds
/// a name twice.
pub open spec fn tree_wf(tree: AttributeTree) -> bool
    decreases tree,
{
    match tree {
        AttributeTree::S(_) => true,
        AttributeTree::L(items) => forall|i: int|
            0 <= i < items@.len() ==> tree_wf(#[trigger] items@[i]),
        AttributeTree::M(fields) => distinct_names(fields@) && forall|i: int|
            0 <= i < fields@.len() ==> tree_wf((#[trigger] fields@[i]).1),
        AttributeTree::Other => false,
    }
}

/// The value of an optional node.
pub open spec fn option_view(tree: Option<&AttributeTree>) -> Option<TreeView> {
    match tree {
        Some(t) => Some(t@),
        None => None,
    }
}

/// `items_view` keeps the length and maps each node to its value.
pub proof fn lemma_items_view(items: Seq<AttributeTree>)
    ensures
        items_view(items).len() == items.len(),
        forall|i: int| 0 <= i < items.len() ==> (#[trigger] items_view(items)[i]) == items[i]@,
    decreases items.len(),
{
    if items.len() > 0 {
        lemma_items_view(items.drop_last());
    }
}

/// Pushing a node onto a list pushes its value onto the list's value.
pub proof fn lemma_items_view_push(items: Seq<AttributeTree>, item: AttributeTree)
    ensures
        items_view(items.push(item)) == items_view(items).push(item@),
{
    assert(items.push(item).drop_last() =~= items);
}

/// Adding an entry to a list of entries inserts its value into the map.
pub proof fn lemma_fields_view_push(
    fields: Seq<(String, AttributeTree)>,
    name: String,
    tree: AttributeTree,
)
    ensures
        fields_view(fields.push((name, tree))) == fields_view(fields).insert(name@, tree@),
{
    assert(fields.push((name, tree)).drop_last() =~= fields);
}

/// The entry at `i` is the last of its name.
pub open spec fn is_last_of_name(fields: Seq<(String, AttributeTree)>, i: int) -> bool {
    &&& 0 <= i < fields.len()
    &&& forall|j: int| i < j < fields.len() ==> (#[trigger] fields[j]).0@ != fields[i].0@
}

/// The last entry of a name is the field of that name.
pub proof fn lemma_last_entry_counts(fields: Seq<(String, AttributeTree)>, i: int)
    requires
        is_last_of_name(fields, i),
    ensures
        fields_view(fields).contains_key(fields[i].0@),
        fields_view(fields)[fields[i].0@] == fields[i].1@,
    decreases fields.len(),
{
    if i < fields.len() - 1 {
        let front = fields.drop_last();
        lemma_last_entry_counts(front, i);
    }
}

/// The name of every entry is a field.
pub proof fn lemma_entry_names_field(fields: Seq<(String, AttributeTree)>, i: int)
    requires
        0 <= i < fields.len(),
    ensures
        fields_view(fields).contains_key(fields[i].0@),
    decreases fields.len(),
{
    if i < fields.len() - 1 {
        lemma_entry_names_field(fields.drop_last(), i);
    }
}

/// A name that no entry has is no field.
pub proof fn lemma_absent_name(fields: Seq<(String, AttributeTree)>, name: Seq<char>)
    requires
        forall|j: int| 0 <= j < fields.len() ==> (#[trigger] fields[j]).0@ != name,
    ensures
        !fields_view(fields).contains_key(name),
    decreases fields.len(),
{
    if fields.len() > 0 {
        let front = fields.drop_last();
        lemma_absent_name(front, name);
    }
}

/// Every field has a last entry of its name.
pub proof fn lemma_field_has_last_entry(fields: Seq<(String, AttributeTree)>, name: Seq<char>)
    requires
        fields_view(fields).contains_key(name),
    ensures
        exists|i: int| #[trigger] is_last_of_name(fields, i) && fields[i].0@ == name,
    decreases fields.len(),
{
    let front = fields.drop_last();
    let end = fields.len() - 1;
    if fields[end].0@ == name {
        assert(is_last_of_name(fields, end));
    } else {
        lemma_field_has_last_entry(front, name);
        let i = choose|i: int| #[trigger] is_last_of_name(front, i) && front[i].0@ == name;
        assert forall|j: int| i < j < fields.len() implies (#[trigger] fields[j]).0@
            != fields[i].0@ by {
            if j < end {
                assert(front[j].0@ != front[i].0@);
            }
        }
        assert(is_last_of_name(fields, i));
    }
}

/// The place of the last entry of the name `name`, if there is one.
fn last_entry(fields: &Vec<(String, AttributeTree)>, name: &String) -> (at: Option<usize>)
    ensures
        match at {
            Some(i) => {
                &&& is_last_of_name(fields@, i as int)
                &&& fields[i as int].0@ == name@
                &&& fields_view(fields@).contains_key(name@)
                &&& fields_view(fields@)[name@] == fields[i as int].1@
            },
            None => !fields_view(fields@).contains_key(name@),
        },
{
    let mut i: usize = fields.len();
    while i > 0
        invariant
            i <= fields.len(),
            forall|j: int| i <= j < fields.len() ==> (#[trigger] fields[j]).0@ != name@,
        decreases i,
    {
        i -= 1;
        if fields[i].0 == *name {
            proof {
                lemma_last_entry_counts(fields@, i as int);
            }
            return Some(i);
        }
    }
    proof {
        lemma_absent_name(fields@, name@);
    }
    None
}

/// Whether every name of the map of `ours` is a name of the map of `theirs`.
fn names_within(
    ours: &Vec<(String, AttributeTree)>,
    theirs: &Vec<(String, AttributeTree)>,
) -> (within: bool)
    ensures
        within == forall|name: Seq<char>| #[trigger]
            fields_view(ours@).contains_key(name) ==> fields_view(theirs@).contains_key(name),
{
    let mut i: usize = 0;
    while i < ours.len()
        invariant
            i <= ours.len(),
            forall|k: int|
                0 <= k < i ==> fields_view(theirs@).contains_key((#[trigger] ours[k]).0@),
        decreases ours.len() - i,
    {
        if last_entry(theirs, &ours[i].0).is_none() {
            proof {
                lemma_entry_names_field(ours@, i as int);
            }
            return false;
        }
        i += 1;
    }
    proof {
        assert forall|name: Seq<char>| #[trigger]
            fields_view(ours@).contains_key(name) implies fields_view(theirs@).contains_key(
            name,
        ) by {
            lemma_field_has_last_entry(ours@, name);
        }
    }
    true
}

/// Whether every field of the map of `ours` is a field of the map of `theirs`
/// and holds the same there.
fn fields_within(
    ours: &Vec<(String, AttributeTree)>,
    theirs: &Vec<(String, AttributeTree)>,
) -> (within: bool)
    ensures
        within == forall|name: Seq<char>| #[trigger]
            fields_view(ours@).contains_key(name) ==> {
                &&& fields_view(theirs@).contains_key(name)
                &&& fields_view(ours@)[name] == fields_view(theirs@)[name]
            },
    decreases ours,
{
    let mut i: usize = 0;
    while i < ours.len()
        invariant
            i <= ours.len(),
            forall|k: int|
                0 <= k < i && #[trigger] is_last_of_name(ours@, k) ==> {
                    &&& fields_view(theirs@).contains_key(ours[k].0@)
                    &&& fields_view(ours@)[ours[k].0@] == fields_view(theirs@)[ours[k].0@]
                },
        decreases ours.len() - i,
    {
        let name = &ours[i].0;
        let counts = match last_entry(ours, name) {
            Some(here) => here == i,
            None => false,
        };
        if counts {
            let same = match last_entry(theirs, name) {
                Some(there) => same_tree(&ours[i].1, &theirs[there].1),
                None => false,
            };
            if !same {
                return false;
            }
        } else {
            assert(!is_last_of_name(ours@, i as int)) by {
                if is_last_of_name(ours@, i as int) {
                    lemma_last_entry_counts(ours@, i as int);
                }
            }
        }
        i += 1;
    }
    proof {
        assert forall|name: Seq<char>| #[trigger]
            fields_view(ours@).contains_key(name) implies {
            &&& fields_view(theirs@).contains_key(name)
            &&& fields_view(ours@)[name] == fields_view(theirs@)[name]
        } by {
            lemma_field_has_last_entry(ours@, name);
            let k = choose|k: int| #[trigger] is_last_of_name(ours@, k) && ours@[k].0@ == name;
            lemma_last_entry_counts(ours@, k);
        }
    }
    true
}

/// Whether two lists hold trees of the same views, place by place.
fn same_items(ours: &Vec<AttributeTree>, theirs: &Vec<AttributeTree>) -> (same: bool)
    ensures
        same == (items_view(ours@) == items_view(theirs@)),
    decreases ours,
{
    proof {
        lemma_items_view(ours@);
        lemma_items_view(theirs@);
    }
    if ours.len() != theirs.len() {
        return false;
    }
    let mut i: usize = 0;
    while i < ours.len()
        invariant
            i <= ours.len(),
            ours.len() == theirs.len(),
            items_view(ours@).len() == ours.len(),
            items_view(theirs@).len() == theirs.len(),
            forall|k: int| 0 <= k < ours.len() ==> (#[trigger] items_view(ours@)[k]) == ours[k]@,
            forall|k: int|
                0 <= k < theirs.len() ==> (#[trigger] items_view(theirs@)[k]) == theirs[k]@,
            forall|k: int| 0 <= k < i ==> (#[trigger] ours[k])@ == theirs[k]@,
        decreases ours.len() - i,
    {
        if !same_tree(&ours[i], &theirs[i]) {
            assert(items_view(ours@)[i as int] != items_view(theirs@)[i as int]);
            return false;
        }
        i += 1;
    }
    assert(items_view(ours@) =~= items_view(theirs@));
    true
}

/// Whether two trees have the same view.
fn same_tree(ours: &AttributeTree, theirs: &AttributeTree) -> (same: bool)
    ensures
        same == (ours@ == theirs@),
    decreases ours,
{
    match (ours, theirs) {
        (AttributeTree::S(a), AttributeTree::S(b)) => *a == *b,
        (AttributeTree::L(a), AttributeTree::L(b)) => same_items(a, b),
        (AttributeTree::M(a), AttributeTree::M(b)) => {
            let same = fields_within(a, b) && names_within(b, a);
            proof {
                if same {
                    assert(fields_view(a@) =~= fields_view(b@));
                }
            }
            same
        },
        (AttributeTree::Other, AttributeTree::Other) => true,
        _ => false,
    }
}

impl PartialEq for AttributeTree {
    fn eq(&self, other: &Self) -> (same: bool) {
        same_tree(self, other)
    }
}

impl vstd::std_specs::cmp::PartialEqSpecImpl for AttributeTree {
    open spec fn obeys_eq_spec() -> bool {
        true
    }

    /// Two trees are equal when they have the same view.
    open spec fn eq_spec(&self, other: &Self) -> bool {
        self@ == other@
    }
}

impl AttributeTree {
    /// The tree is one that this library writes: it is made of strings, lists
    /// and maps alone, and in each of its maps every name stands once. The
    /// library reads any tree: of two entries of one name the last counts, and
    /// a node of another kind is of the wrong type wherever a record has one.
    pub open spec fn wf(&self) -> bool {
        tree_wf(*self)
    }

    /// The node below the field `name` of a map node. `None` where the map has
    /// no such field, and where `self` is no map.
    pub fn get(&self, name: &str) -> (found: Option<&AttributeTree>)
        ensures
            option_view(found) == self@.field(name@),
    {
        match self {
            AttributeTree::M(fields) => {
                let wanted = name.to_string();
                match last_entry(fields, &wanted) {
                    Some(at) => Some(&fields[at].1),
                    None => None,
                }
            },
            _ => None,
        }
    }
}

} // verus!
