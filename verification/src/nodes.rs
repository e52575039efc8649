//! The display-node builder.
//!
//! Flattens the entity tree into an ordered list of display nodes for the
//! consuming layer: work items appear depth-first under their parents,
//! grouped by epic where a level holds more than one epic, with group
//! header nodes interleaved.  A filter can hide closed entities, but an
//! entity with any visible descendant stays visible so the path to that
//! descendant is never lost.

use vstd::prelude::*;
use vstd::string::StringExecFns;

use crate::apply::Originals;
use crate::fields::spec_option_id;
use crate::fields::Fields;
use crate::ids::clone_opt_option_id;
use crate::ids::opt_option_id_eq;
use crate::ids::opt_option_id_view;
use crate::ids::FieldOptionId;
use crate::ids::WorkItemId;
use crate::work_item::WorkItem;
use crate::work_item::WorkItemData;
use crate::work_item::WorkItemView;
use crate::work_items::WorkItems;

verus! {

#[derive(Debug)]
pub struct Node {
    pub level: u32,
    pub id: String,
    pub data: NodeData,
    pub has_children: bool,
    pub is_modified: bool,
}

#[derive(Debug)]
pub enum NodeData {
    WorkItem,
    Group { name: String },
}

/// The display filter: whether entities whose status is "Closed" are
/// hidden.
#[derive(Debug, Clone, Copy, PartialEq, Eq, Structural)]
pub struct Filters {
    pub hide_closed: bool,
}

impl Default for Filters {
    /// The default filter hides nothing.
    fn default() -> (r: Self)
        ensures
            r.hide_closed == false,
    {
        Filters { hide_closed: false }
    }
}

/// Whether the filter keeps the entity itself: everything, unless closed
/// entities are hidden and its status is the catalog's "Closed" option.
pub open spec fn filter_keeps(f: Filters, fields: crate::fields::FieldsView, w: WorkItemView) -> bool {
    !f.hide_closed || w.project_item.status != spec_option_id(fields.status.options, "Closed"@)
}

impl Filters {
    /// Whether the filter keeps the entity itself, its descendants aside.
    pub fn should_include(&self, fields: &Fields, work_item: &WorkItem) -> (r: bool)
        ensures
            r == filter_keeps(*self, fields@, work_item@),
    {
        if !self.hide_closed {
            return true;
        }
        let closed: Option<FieldOptionId> = match fields.status.option_id(Some("Closed")) {
            Some(x) => Some(x.clone()),
            None => None,
        };
        !opt_option_id_eq(&work_item.project_item.status, &closed)
    }
}

/// Whether the entity is visible: it is stored, and either it passes the
/// filter itself or some descendant within the walk budget does.
pub open spec fn visible(
    m: Map<Seq<char>, WorkItemView>,
    f: Filters,
    fields: crate::fields::FieldsView,
    id: Seq<char>,
    fuel: nat,
) -> bool
    decreases fuel, 0int,
{
    if fuel == 0 {
        false
    } else if !m.contains_key(id) {
        false
    } else {
        filter_keeps(f, fields, m[id]) || (m[id].data is Issue && any_visible(
            m,
            f,
            fields,
            m[id].data->Issue_0.sub_issues,
            (fuel - 1) as nat,
        ))
    }
}

/// Whether any id of the list is visible.
pub open spec fn any_visible(
    m: Map<Seq<char>, WorkItemView>,
    f: Filters,
    fields: crate::fields::FieldsView,
    ids: Seq<Seq<char>>,
    fuel: nat,
) -> bool
    decreases fuel, ids.len() + 1,
{
    if ids.len() == 0 {
        false
    } else {
        visible(m, f, fields, ids[0], fuel) || any_visible(m, f, fields, ids.drop_first(), fuel)
    }
}

/// Every work-item node of `new` past the `old` prefix names a stored
/// entity, and the `old` prefix is kept unchanged.
pub open spec fn nodes_extended(
    old_nodes: Seq<Node>,
    new_nodes: Seq<Node>,
    m: Map<Seq<char>, WorkItemView>,
) -> bool {
    &&& new_nodes.len() >= old_nodes.len()
    &&& forall|j: int| 0 <= j < old_nodes.len() ==> #[trigger] new_nodes[j] == old_nodes[j]
    &&& forall|j: int|
        old_nodes.len() <= j < new_nodes.len() && (#[trigger] new_nodes[j]).data is WorkItem
            ==> m.contains_key(new_nodes[j].id@)
}

pub struct NodeBuilder<'a> {
    fields: &'a Fields,
    work_items: &'a WorkItems,
    filters: &'a Filters,
    original_work_items: &'a Originals,
    nodes: Vec<Node>,
}

impl<'a> NodeBuilder<'a> {
    pub closed spec fn node_seq(self) -> Seq<Node> {
        self.nodes@
    }

    pub closed spec fn store(self) -> WorkItems {
        *self.work_items
    }

    /// A builder over the given catalog, store, filter and set of modified
    /// entities, with no nodes emitted yet.
    pub fn new(
        fields: &'a Fields,
        work_items: &'a WorkItems,
        filters: &'a Filters,
        original_work_items: &'a Originals,
    ) -> (r: NodeBuilder<'a>)
        ensures
            r.node_seq() == Seq::<Node>::empty(),
            r.store() == *work_items,
    {
        NodeBuilder { fields, work_items, filters, original_work_items, nodes: Vec::new() }
    }

    /// Whether the entity is visible: it passes the filter itself, or some
    /// descendant within the walk budget does, so the path to that
    /// descendant is kept.
    fn should_include(&self, work_item_id: &WorkItemId, fuel: usize) -> (r: bool)
        ensures
            r == visible(self.store()@.map, *self.filters, self.fields@, work_item_id@, fuel as nat),
        decreases fuel, 0int,
    {
        if fuel == 0 {
            return false;
        }
        let work_item = match self.work_items.get(work_item_id) {
            Some(w) => w,
            None => {
                return false;
            },
        };
        if let WorkItemData::Issue(issue) = &work_item.data {
            let ghost m = self.store()@.map;
            let ghost subs = m[work_item_id@].data->Issue_0.sub_issues;
            let mut j: usize = 0;
            while j < issue.sub_issues.len()
                invariant
                    m == self.store()@.map,
                    m.contains_key(work_item_id@),
                    m[work_item_id@].data is Issue,
                    subs == m[work_item_id@].data->Issue_0.sub_issues,
                    j <= issue.sub_issues.len(),
                    subs.len() == issue.sub_issues.len(),
                    forall|x: int| 0 <= x < subs.len() ==> subs[x] == issue.sub_issues@[x]@,
                    fuel >= 1,
                    !any_visible(m, *self.filters, self.fields@, subs.take(j as int), (fuel - 1) as nat),
                decreases issue.sub_issues.len() - j,
            {
                if self.should_include(&issue.sub_issues[j], fuel - 1) {
                    // A visible descendant keeps this entity visible.
                    proof {
                        lemma_any_visible_at(m, *self.filters, self.fields@, subs, j as int, (fuel - 1) as nat);
                    }
                    return true;
                }
                proof {
                    lemma_any_visible_snoc(m, *self.filters, self.fields@, subs.take(j as int), subs[j as int], (fuel - 1) as nat);
                    assert(subs.take(j + 1 as int) =~= subs.take(j as int).push(subs[j as int]));
                }
                j += 1;
            }
            proof {
                assert(subs.take(issue.sub_issues.len() as int) =~= subs);
            }
        }
        self.filters.should_include(self.fields, work_item)
    }

    /// The ids of `work_items` that are visible, in the given order.
    fn apply_filters(&self, work_items: &Vec<WorkItemId>, fuel: usize) -> (r: Vec<WorkItemId>)
        ensures
            forall|x: int|
                0 <= x < r@.len() ==> visible(
                    self.store()@.map,
                    *self.filters,
                    self.fields@,
                    (#[trigger] r@[x])@,
                    fuel as nat,
                ),
    {
        let mut r: Vec<WorkItemId> = Vec::new();
        let mut i: usize = 0;
        while i < work_items.len()
            invariant
                i <= work_items.len(),
                forall|x: int|
                    0 <= x < r@.len() ==> visible(
                        self.store()@.map,
                        *self.filters,
                        self.fields@,
                        (#[trigger] r@[x])@,
                        fuel as nat,
                    ),
            decreases work_items.len() - i,
        {
            if self.should_include(&work_items[i], fuel) {
                r.push(work_items[i].clone());
            }
            i += 1;
        }
        r
    }

    /// The epic key of a stored entity.
    fn group_key(&self, id: &WorkItemId) -> (r: Option<FieldOptionId>)
        ensures
            self.store()@.map.contains_key(id@) ==> opt_option_id_view(r) == self.store()@.map[
                id@
            ].project_item.epic,
    {
        match self.work_items.get(id) {
            Some(item) => clone_opt_option_id(&item.project_item.epic),
            None => None,
        }
    }

    /// Emits nodes for the visible entities of one level: grouped by epic
    /// when the level spans more than one epic, each group in order of its
    /// first appearance, each entity followed by its children one level
    /// deeper.  Nodes already emitted stay untouched; every work-item node
    /// emitted names a stored entity.
    fn add_nodes(&mut self, items: &Vec<WorkItemId>, level: u32, path: &str, fuel: usize)
        ensures
            final(self).fields == old(self).fields,
            final(self).work_items == old(self).work_items,
            final(self).filters == old(self).filters,
            final(self).original_work_items == old(self).original_work_items,
            nodes_extended(old(self).node_seq(), final(self).node_seq(), old(self).store()@.map),
        decreases fuel, 1int,
    {
        if fuel == 0 {
            return ;
        }
        let included = self.apply_filters(items, fuel);

        // Does this level span more than one epic?
        let mut has_multiple_groups = false;
        if included.len() > 0 {
            let first_key = self.group_key(&included[0]);
            let mut i: usize = 1;
            while i < included.len()
                invariant
                    i <= included.len(),
                decreases included.len() - i,
            {
                let ki = self.group_key(&included[i]);
                if !opt_option_id_eq(&ki, &first_key) {
                    has_multiple_groups = true;
                }
                i += 1;
            }
        }

        let ghost m = self.store()@.map;
        let ghost base = self.node_seq();
        let mut i: usize = 0;
        while i < included.len()
            invariant
                m == self.store()@.map,
                *self.fields == *old(self).fields,
                self.work_items == old(self).work_items,
                self.filters == old(self).filters,
                self.original_work_items == old(self).original_work_items,
                i <= included.len(),
                forall|x: int|
                    0 <= x < included@.len() ==> visible(
                        m,
                        *self.filters,
                        self.fields@,
                        (#[trigger] included@[x])@,
                        fuel as nat,
                    ),
                nodes_extended(base, self.node_seq(), m),
                base == old(self).node_seq(),
                fuel >= 1,
            decreases included.len() - i,
        {
            // Skip ids whose epic group was already emitted.
            let key = self.group_key(&included[i]);
            let mut seen = false;
            let mut j: usize = 0;
            while j < i
                invariant
                    j <= i,
                    i < included.len(),
                decreases i - j,
            {
                let kj = self.group_key(&included[j]);
                if opt_option_id_eq(&kj, &key) {
                    seen = true;
                }
                j += 1;
            }
            if !seen {
                let mut current_path: String = path.to_owned();
                if has_multiple_groups {
                    let name: String = match self.fields.epic.option_name(key.as_ref()) {
                        Some(n) => n.to_owned(),
                        None => String::from_str("None"),
                    };
                    let group_id = path.to_owned().concat(name.as_str());
                    current_path = group_id.clone().concat("/");
                    let ghost before = self.node_seq();
                    self.push_node(
                        Node {
                            level,
                            id: group_id,
                            data: NodeData::Group { name },
                            has_children: true,
                            is_modified: false,
                        },
                    );
                    proof {
                        lemma_nodes_extended_push(base, before, self.node_seq(), m);
                    }
                }
                let item_level: u32 = if has_multiple_groups {
                    if level < u32::MAX {
                        level + 1
                    } else {
                        level
                    }
                } else {
                    level
                };
                // Emit every member of this epic group, in order.
                let mut k: usize = i;
                while k < included.len()
                    invariant
                        m == self.store()@.map,
                        *self.fields == *old(self).fields,
                        self.work_items == old(self).work_items,
                        self.filters == old(self).filters,
                        self.original_work_items == old(self).original_work_items,
                        k <= included.len(),
                        forall|x: int|
                            0 <= x < included@.len() ==> visible(
                                m,
                                *self.filters,
                                self.fields@,
                                (#[trigger] included@[x])@,
                                fuel as nat,
                            ),
                        nodes_extended(base, self.node_seq(), m),
                        fuel >= 1,
                    decreases included.len() - k,
                {
                    let kk = self.group_key(&included[k]);
                    if opt_option_id_eq(&kk, &key) {
                        let ghost before = self.node_seq();
                        self.add_node(&included[k], item_level, current_path.as_str(), fuel);
                        proof {
                            lemma_nodes_extended_trans(base, before, self.node_seq(), m);
                        }
                    }
                    k += 1;
                }
            }
            i += 1;
        }
    }

    /// Emits the node of one stored entity and, below it, the nodes of its
    /// children one level deeper.  The entity's own node carries the given
    /// level, the entity's id, whether it has children, and whether a
    /// pre-change snapshot of it is held; an unknown entity emits nothing.
    fn add_node(&mut self, id: &WorkItemId, level: u32, path: &str, fuel: usize)
        ensures
            final(self).fields == old(self).fields,
            final(self).work_items == old(self).work_items,
            final(self).filters == old(self).filters,
            final(self).original_work_items == old(self).original_work_items,
            nodes_extended(old(self).node_seq(), final(self).node_seq(), old(self).store()@.map),
            fuel > 0 && old(self).store()@.map.contains_key(id@) ==> ({
                let n = final(self).node_seq()[old(self).node_seq().len() as int];
                let w = old(self).store()@.map[id@];
                &&& final(self).node_seq().len() > old(self).node_seq().len()
                &&& n.level == level
                &&& n.id@ == id@
                &&& n.data is WorkItem
                &&& n.has_children == (w.data is Issue && w.data->Issue_0.sub_issues.len() > 0)
                &&& n.is_modified == old(self).original_work_items@.contains_key(id@)
            }),
            fuel == 0 || !old(self).store()@.map.contains_key(id@) ==> final(self).node_seq()
                == old(self).node_seq(),
        decreases fuel, 0int,
    {
        if fuel == 0 {
            return ;
        }
        let ghost m = self.store()@.map;
        let ghost base = self.node_seq();
        let (children, is_modified): (Vec<WorkItemId>, bool) = match self.work_items.get(id) {
            Some(item) => {
                let children = match &item.data {
                    // The sub-issue order defines the display hierarchy, so
                    // it is kept as fetched.
                    WorkItemData::Issue(issue) => crate::ids::clone_ids(&issue.sub_issues),
                    _ => Vec::new(),
                };
                let is_modified = match self.original_work_items.get(id) {
                    Some(_) => true,
                    None => false,
                };
                (children, is_modified)
            },
            None => {
                return ;
            },
        };
        let has_children = children.len() > 0;
        proof {
            let w = m[id@];
            assert(crate::ids::ids_view(children@).len() == (if w.data is Issue {
                w.data->Issue_0.sub_issues.len()
            } else {
                0
            }));
        }
        let ghost before = self.node_seq();
        self.push_node(
            Node {
                level,
                id: id.0.clone(),
                data: NodeData::WorkItem,
                has_children,
                is_modified,
            },
        );
        proof {
            assert(m.contains_key(id@));
            lemma_nodes_extended_push(base, before, self.node_seq(), m);
        }
        let child_level: u32 = if level < u32::MAX {
            level + 1
        } else {
            level
        };
        let child_path = path.to_owned().concat(id.0.as_str()).concat("/");
        let ghost mid = self.node_seq();
        self.add_nodes(&children, child_level, child_path.as_str(), fuel - 1);
        proof {
            lemma_nodes_extended_trans(base, mid, self.node_seq(), m);
        }
    }

    fn push_node(&mut self, node: Node)
        ensures
            final(self).fields == old(self).fields,
            final(self).work_items == old(self).work_items,
            final(self).filters == old(self).filters,
            final(self).original_work_items == old(self).original_work_items,
            final(self).node_seq() == old(self).node_seq().push(node),
    {
        self.nodes.push(node);
    }

    /// Flattens the store into display nodes: the roots' visible subtrees
    /// in order, grouped by epic where a level spans several.  Every
    /// work-item node names a stored entity.
    pub fn build(&mut self) -> (r: Vec<Node>)
        ensures
            nodes_extended(old(self).node_seq(), r@, old(self).store()@.map),
    {
        let roots = self.work_items.get_roots();
        let fuel = if self.work_items.items().len() < usize::MAX {
            self.work_items.items().len() + 1
        } else {
            usize::MAX
        };
        let ghost base = self.node_seq();
        self.add_nodes(&roots, 0, "", fuel);
        let mut out: Vec<Node> = Vec::new();
        core::mem::swap(&mut out, &mut self.nodes);
        proof {
            assert(nodes_extended(base, out@, old(self).store()@.map));
        }
        out
    }
}

proof fn lemma_nodes_extended_push(
    base: Seq<Node>,
    before: Seq<Node>,
    after: Seq<Node>,
    m: Map<Seq<char>, WorkItemView>,
)
    requires
        nodes_extended(base, before, m),
        after == before.push(after[after.len() - 1]),
        after[after.len() - 1].data is WorkItem ==> m.contains_key(after[after.len() - 1].id@),
    ensures
        nodes_extended(base, after, m),
{
    assert(forall|j: int| 0 <= j < before.len() ==> after[j] == before[j]);
}

proof fn lemma_nodes_extended_trans(
    base: Seq<Node>,
    mid: Seq<Node>,
    after: Seq<Node>,
    m: Map<Seq<char>, WorkItemView>,
)
    requires
        nodes_extended(base, mid, m),
        nodes_extended(mid, after, m),
    ensures
        nodes_extended(base, after, m),
{
}

proof fn lemma_any_visible_at(
    m: Map<Seq<char>, WorkItemView>,
    f: Filters,
    fields: crate::fields::FieldsView,
    ids: Seq<Seq<char>>,
    i: int,
    fuel: nat,
)
    requires
        0 <= i < ids.len(),
        visible(m, f, fields, ids[i], fuel),
    ensures
        any_visible(m, f, fields, ids, fuel),
    decreases i,
{
    if i > 0 {
        lemma_any_visible_at(m, f, fields, ids.drop_first(), i - 1, fuel);
    }
}

proof fn lemma_any_visible_snoc(
    m: Map<Seq<char>, WorkItemView>,
    f: Filters,
    fields: crate::fields::FieldsView,
    ids: Seq<Seq<char>>,
    x: Seq<char>,
    fuel: nat,
)
    ensures
        any_visible(m, f, fields, ids.push(x), fuel) == (any_visible(m, f, fields, ids, fuel)
            || visible(m, f, fields, x, fuel)),
    decreases ids.len(),
{
    if ids.len() == 0 {
        assert(ids.push(x)[0] == x);
        assert(ids.push(x).drop_first() =~= Seq::<Seq<char>>::empty());
        assert(any_visible(m, f, fields, ids.push(x), fuel) == (visible(m, f, fields, x, fuel)
            || any_visible(m, f, fields, ids.push(x).drop_first(), fuel)));
        assert(!any_visible(m, f, fields, ids, fuel));
    } else {
        assert(ids.push(x)[0] == ids[0]);
        assert(ids.push(x).drop_first() =~= ids.drop_first().push(x));
        assert(any_visible(m, f, fields, ids.push(x), fuel) == (visible(m, f, fields, ids[0], fuel)
            || any_visible(m, f, fields, ids.drop_first().push(x), fuel)));
        assert(any_visible(m, f, fields, ids, fuel) == (visible(m, f, fields, ids[0], fuel)
            || any_visible(m, f, fields, ids.drop_first(), fuel)));
        lemma_any_visible_snoc(m, f, fields, ids.drop_first(), x, fuel);
    }
}

} // verus!
