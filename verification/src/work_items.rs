//! The entity store: all fetched work items, indexed by identity, with an
//! ordered list preserving fetch order.
//!
//! Roots are a derived view, never stored: an id is a root when it is listed
//! in the fetch order and no stored issue lists it among its sub-issues.
//! Root computation depends only on the fetch order and the sub-issue
//! edges; a reference cycle or an edge to an unknown id simply has no
//! effect on it (no cycle detection is performed, by design).

use vstd::prelude::*;

use crate::ids::ids_view;
use crate::ids::ids_eq;
use crate::ids::ids_contain_exec;
use crate::ids::WorkItemId;
use crate::work_item::WorkItem;
use crate::work_item::WorkItemData;
use crate::work_item::WorkItemView;

verus! {

/// The map derived from a sequence of stored items: later entries win.
pub open spec fn items_map(vs: Seq<WorkItemView>) -> Map<Seq<char>, WorkItemView>
    decreases vs.len(),
{
    if vs.len() == 0 {
        Map::empty()
    } else {
        items_map(vs.drop_last()).insert(vs.last().id, vs.last())
    }
}

/// Whether a sequence of stored items has pairwise distinct ids.
pub open spec fn distinct_ids(vs: Seq<WorkItemView>) -> bool {
    forall|i: int, j: int|
        0 <= i < vs.len() && 0 <= j < vs.len() && i != j ==> vs[i].id != vs[j].id
}

/// The mathematical view of the store: the fetch order and the id-indexed
/// map of entities.
#[verifier::ext_equal]
pub struct WorkItemsView {
    pub order: Seq<Seq<char>>,
    pub map: Map<Seq<char>, WorkItemView>,
}

#[derive(Debug)]
pub struct WorkItems {
    ordered_items: Vec<WorkItemId>,
    store: Vec<WorkItem>,
}

impl WorkItems {
    /// The stored items' views, in storage order.
    pub closed spec fn store_views(self) -> Seq<WorkItemView> {
        self.store@.map_values(|w: WorkItem| w@)
    }

    #[verifier::type_invariant]
    spec fn wf(self) -> bool {
        distinct_ids(self.store_views())
    }
}

impl View for WorkItems {
    type V = WorkItemsView;

    closed spec fn view(&self) -> WorkItemsView {
        WorkItemsView {
            order: ids_view(self.ordered_items@),
            map: items_map(self.store_views()),
        }
    }
}

// ---------------------------------------------------------------------------
// Facts about the derived map
// ---------------------------------------------------------------------------

pub proof fn lemma_items_map_contains_at(vs: Seq<WorkItemView>, i: int)
    requires
        distinct_ids(vs),
        0 <= i < vs.len(),
    ensures
        items_map(vs).contains_key(vs[i].id),
        items_map(vs)[vs[i].id] == vs[i],
    decreases vs.len(),
{
    if i < vs.len() - 1 {
        lemma_distinct_ids_drop_last(vs);
        lemma_items_map_contains_at(vs.drop_last(), i);
        assert(vs[i].id != vs.last().id);
    }
}

pub proof fn lemma_items_map_missing(vs: Seq<WorkItemView>, k: Seq<char>)
    requires
        forall|i: int| 0 <= i < vs.len() ==> vs[i].id != k,
    ensures
        !items_map(vs).contains_key(k),
    decreases vs.len(),
{
    if vs.len() > 0 {
        lemma_items_map_missing(vs.drop_last(), k);
    }
}

/// Every value of the derived map is one of the stored items.
pub proof fn lemma_items_map_value_exists(vs: Seq<WorkItemView>, k: Seq<char>)
    requires
        items_map(vs).contains_key(k),
    ensures
        exists|i: int| 0 <= i < vs.len() && vs[i] == items_map(vs)[k],
    decreases vs.len(),
{
    if vs.len() > 0 {
        if k != vs.last().id {
            lemma_items_map_value_exists(vs.drop_last(), k);
            let i = choose|i: int|
                0 <= i < vs.drop_last().len() && vs.drop_last()[i] == items_map(vs.drop_last())[k];
            assert(vs[i] == items_map(vs)[k]);
        } else {
            assert(vs[vs.len() - 1] == items_map(vs)[k]);
        }
    }
}

/// Every key of the derived map comes from some stored item.
pub proof fn lemma_items_map_dom(vs: Seq<WorkItemView>, k: Seq<char>)
    requires
        items_map(vs).contains_key(k),
    ensures
        exists|i: int| 0 <= i < vs.len() && vs[i].id == k,
    decreases vs.len(),
{
    if vs.len() > 0 {
        if k != vs.last().id {
            lemma_items_map_dom(vs.drop_last(), k);
            let i = choose|i: int| 0 <= i < vs.drop_last().len() && vs.drop_last()[i].id == k;
            assert(vs[i].id == k);
        } else {
            assert(vs[vs.len() - 1].id == k);
        }
    }
}

proof fn lemma_distinct_ids_drop_last(vs: Seq<WorkItemView>)
    requires
        distinct_ids(vs),
        vs.len() > 0,
    ensures
        distinct_ids(vs.drop_last()),
{
    assert(forall|x: int| 0 <= x < vs.len() - 1 ==> vs.drop_last()[x] == vs[x]);
}

proof fn lemma_items_map_update(vs: Seq<WorkItemView>, i: int, w: WorkItemView)
    requires
        distinct_ids(vs),
        0 <= i < vs.len(),
        vs[i].id == w.id,
    ensures
        items_map(vs.update(i, w)) =~= items_map(vs).insert(w.id, w),
    decreases vs.len(),
{
    if i == vs.len() - 1 {
        assert(vs.update(i, w).drop_last() =~= vs.drop_last());
        assert(vs.update(i, w).last() == w);
    } else {
        lemma_distinct_ids_drop_last(vs);
        lemma_items_map_update(vs.drop_last(), i, w);
        assert(vs.update(i, w).drop_last() =~= vs.drop_last().update(i, w));
        assert(vs.update(i, w).last() == vs.last());
        assert(vs.last().id != w.id);
    }
}

// ---------------------------------------------------------------------------
// Roots
// ---------------------------------------------------------------------------

/// Whether some stored issue lists `k` among its sub-issues.
pub open spec fn referenced(m: Map<Seq<char>, WorkItemView>, k: Seq<char>) -> bool {
    exists|id: Seq<char>|
        #[trigger] m.dom().contains(id) && m[id].data is Issue
            && m[id].data->Issue_0.sub_issues.contains(k)
}

/// The root ids derived from a fetch order: the ids whose last occurrence
/// this is and which no stored issue references, in fetch order.
pub open spec fn roots_rec(order: Seq<Seq<char>>, m: Map<Seq<char>, WorkItemView>) -> Seq<
    Seq<char>,
>
    decreases order.len(),
{
    if order.len() == 0 {
        Seq::empty()
    } else {
        let rest = order.drop_first();
        if !rest.contains(order[0]) && !referenced(m, order[0]) {
            seq![order[0]] + roots_rec(rest, m)
        } else {
            roots_rec(rest, m)
        }
    }
}

/// The store's root ids.
pub open spec fn spec_roots(v: WorkItemsView) -> Seq<Seq<char>> {
    roots_rec(v.order, v.map)
}

/// A root is exactly a listed id that no stored issue references.
pub proof fn lemma_roots_membership(order: Seq<Seq<char>>, m: Map<Seq<char>, WorkItemView>, k: Seq<char>)
    ensures
        roots_rec(order, m).contains(k) <==> (order.contains(k) && !referenced(m, k)),
    decreases order.len(),
{
    if order.len() > 0 {
        let rest = order.drop_first();
        lemma_roots_membership(rest, m, k);
        assert(order.contains(k) <==> (order[0] == k || rest.contains(k))) by {
            if order.contains(k) {
                let i = choose|i: int| 0 <= i < order.len() && order[i] == k;
                if i > 0 {
                    assert(rest[i - 1] == k);
                }
            }
            if rest.contains(k) {
                let i = choose|i: int| 0 <= i < rest.len() && rest[i] == k;
                assert(order[i + 1] == k);
            }
        }
        if !rest.contains(order[0]) && !referenced(m, order[0]) {
            let r = seq![order[0]] + roots_rec(rest, m);
            assert(r.contains(k) <==> (order[0] == k || roots_rec(rest, m).contains(k))) by {
                if r.contains(k) {
                    let i = choose|i: int| 0 <= i < r.len() && r[i] == k;
                    if i > 0 {
                        assert(roots_rec(rest, m)[i - 1] == k);
                    }
                }
                if roots_rec(rest, m).contains(k) {
                    let i = choose|i: int|
                        0 <= i < roots_rec(rest, m).len() && roots_rec(rest, m)[i] == k;
                    assert(r[i + 1] == k);
                }
                assert(r[0] == order[0]);
            }
        }
    }
}

/// Each root id appears once: an id is taken only at its last occurrence
/// in the fetch order.
pub proof fn lemma_roots_distinct(order: Seq<Seq<char>>, m: Map<Seq<char>, WorkItemView>)
    ensures
        forall|i: int, j: int|
            0 <= i < roots_rec(order, m).len() && 0 <= j < roots_rec(order, m).len() && i != j
                ==> roots_rec(order, m)[i] != roots_rec(order, m)[j],
    decreases order.len(),
{
    if order.len() > 0 {
        let rest = order.drop_first();
        lemma_roots_distinct(rest, m);
        if !rest.contains(order[0]) && !referenced(m, order[0]) {
            let r = seq![order[0]] + roots_rec(rest, m);
            lemma_roots_membership(rest, m, order[0]);
            assert(!roots_rec(rest, m).contains(order[0]));
            assert forall|i: int, j: int|
                0 <= i < r.len() && 0 <= j < r.len() && i != j implies r[i] != r[j] by {
                if i == 0 {
                    assert(r[j] == roots_rec(rest, m)[j - 1]);
                    if r[0] == r[j] {
                        assert(roots_rec(rest, m).contains(order[0]));
                    }
                } else if j == 0 {
                    assert(r[i] == roots_rec(rest, m)[i - 1]);
                    if r[0] == r[i] {
                        assert(roots_rec(rest, m).contains(order[0]));
                    }
                } else {
                    assert(r[i] == roots_rec(rest, m)[i - 1]);
                    assert(r[j] == roots_rec(rest, m)[j - 1]);
                }
            }
        }
    }
}

/// Root computation reads only the fetch order, which ids are issues, and
/// their sub-issue edges: two stores that agree on those have the same
/// roots, whatever their other fields (tracked issues included) hold.
pub proof fn lemma_roots_depend_only_on_hierarchy(
    order: Seq<Seq<char>>,
    m1: Map<Seq<char>, WorkItemView>,
    m2: Map<Seq<char>, WorkItemView>,
)
    requires
        m1.dom() == m2.dom(),
        forall|id: Seq<char>| #[trigger]
            m1.dom().contains(id) ==> (m1[id].data is Issue <==> m2[id].data is Issue),
        forall|id: Seq<char>| #[trigger]
            m1.dom().contains(id) && m1[id].data is Issue ==> m1[id].data->Issue_0.sub_issues
                == m2[id].data->Issue_0.sub_issues,
    ensures
        roots_rec(order, m1) == roots_rec(order, m2),
    decreases order.len(),
{
    assert forall|k: Seq<char>| referenced(m1, k) <==> referenced(m2, k) by {
        if referenced(m1, k) {
            let id = choose|id: Seq<char>|
                #[trigger] m1.dom().contains(id) && m1[id].data is Issue
                    && m1[id].data->Issue_0.sub_issues.contains(k);
            assert(m2.dom().contains(id) && m2[id].data is Issue
                && m2[id].data->Issue_0.sub_issues.contains(k));
        }
        if referenced(m2, k) {
            let id = choose|id: Seq<char>|
                #[trigger] m2.dom().contains(id) && m2[id].data is Issue
                    && m2[id].data->Issue_0.sub_issues.contains(k);
            assert(m1.dom().contains(id) && m1[id].data is Issue
                && m1[id].data->Issue_0.sub_issues.contains(k));
        }
    }
    if order.len() > 0 {
        lemma_roots_depend_only_on_hierarchy(order.drop_first(), m1, m2);
    }
}

// ---------------------------------------------------------------------------
// Operations
// ---------------------------------------------------------------------------

impl WorkItems {
    /// An empty store.
    pub fn new() -> (r: WorkItems)
        ensures
            r@.order == Seq::<Seq<char>>::empty(),
            r@.map == Map::<Seq<char>, WorkItemView>::empty(),
    {
        let r = WorkItems { ordered_items: Vec::new(), store: Vec::new() };
        proof {
            assert(ids_view(r.ordered_items@) =~= Seq::<Seq<char>>::empty());
        }
        r
    }

    /// The position of the stored item with the given id, if any.
    fn find_index(&self, id: &WorkItemId) -> (r: Option<usize>)
        ensures
            match r {
                Some(i) => i < self.store_views().len() && self.store_views()[i as int].id == id@,
                None => forall|j: int|
                    0 <= j < self.store_views().len() ==> self.store_views()[j].id != id@,
            },
    {
        let mut i: usize = 0;
        while i < self.store.len()
            invariant
                i <= self.store.len(),
                forall|j: int| 0 <= j < i ==> self.store_views()[j].id != id@,
            decreases self.store.len() - i,
        {
            if self.store[i].id == *id {
                assert(self.store_views()[i as int].id == id@);
                return Some(i);
            }
            assert(self.store_views()[i as int].id != id@);
            i += 1;
        }
        None
    }

    /// Appends the item to the fetch order and stores it under its id; a
    /// later `add` under the same id overwrites the stored entity.
    pub fn add(&mut self, item: WorkItem)
        ensures
            final(self)@.order == old(self)@.order.push(item@.id),
            final(self)@.map == old(self)@.map.insert(item@.id, item@),
    {
        proof {
            use_type_invariant(&*self);
        }
        let ghost vs = self.store_views();
        let ghost iv = item@;
        let idx = self.find_index(&item.id);
        let id = item.id.clone();
        let mut store: Vec<WorkItem> = Vec::new();
        core::mem::swap(&mut store, &mut self.store);
        match idx {
            Some(i) => {
                store.set(i, item);
                proof {
                    let vs2 = store@.map_values(|w: WorkItem| w@);
                    assert(vs2 =~= vs.update(i as int, iv));
                    lemma_items_map_update(vs, i as int, iv);
                    assert forall|x: int, y: int|
                        0 <= x < vs2.len() && 0 <= y < vs2.len() && x != y implies vs2[x].id
                        != vs2[y].id by {
                        if x != i && y != i {
                            assert(vs2[x] == vs[x] && vs2[y] == vs[y]);
                        } else if x == i {
                            assert(vs2[y] == vs[y] && vs2[x].id == vs[x].id);
                        } else {
                            assert(vs2[x] == vs[x] && vs2[y].id == vs[y].id);
                        }
                    }
                }
            },
            None => {
                store.push(item);
                proof {
                    let vs2 = store@.map_values(|w: WorkItem| w@);
                    assert(vs2.drop_last() =~= vs);
                    assert(vs2.last() == iv);
                    assert forall|x: int, y: int|
                        0 <= x < vs2.len() && 0 <= y < vs2.len() && x != y implies vs2[x].id
                        != vs2[y].id by {
                        if x < vs.len() && y < vs.len() {
                            assert(vs2[x] == vs[x] && vs2[y] == vs[y]);
                        } else if x < vs.len() {
                            assert(vs2[x] == vs[x] && vs2[y] == iv);
                        } else {
                            assert(vs2[x] == iv && vs2[y] == vs[y]);
                        }
                    }
                }
            },
        }
        core::mem::swap(&mut store, &mut self.store);
        let mut ordered: Vec<WorkItemId> = Vec::new();
        core::mem::swap(&mut ordered, &mut self.ordered_items);
        ordered.push(id);
        core::mem::swap(&mut ordered, &mut self.ordered_items);
        proof {
            assert(ids_view(self.ordered_items@) =~= ids_view(old(self).ordered_items@).push(iv.id));
        }
    }

    /// Stores the item under its id without touching the fetch order,
    /// handing back the previously stored entity, if any.
    pub fn upsert(&mut self, item: WorkItem) -> (r: Option<WorkItem>)
        ensures
            final(self)@.order == old(self)@.order,
            final(self)@.map == old(self)@.map.insert(item@.id, item@),
            match r {
                Some(o) => old(self)@.map.contains_key(item@.id) && o@ == old(self)@.map[item@.id],
                None => !old(self)@.map.contains_key(item@.id),
            },
    {
        proof {
            use_type_invariant(&*self);
        }
        let ghost vs = self.store_views();
        let ghost iv = item@;
        let idx = self.find_index(&item.id);
        let mut store: Vec<WorkItem> = Vec::new();
        core::mem::swap(&mut store, &mut self.store);
        let r = match idx {
            Some(i) => {
                let old_item = store[i].clone();
                proof {
                    lemma_items_map_contains_at(vs, i as int);
                }
                store.set(i, item);
                proof {
                    let vs2 = store@.map_values(|w: WorkItem| w@);
                    assert(vs2 =~= vs.update(i as int, iv));
                    lemma_items_map_update(vs, i as int, iv);
                    assert forall|x: int, y: int|
                        0 <= x < vs2.len() && 0 <= y < vs2.len() && x != y implies vs2[x].id
                        != vs2[y].id by {
                        if x != i && y != i {
                            assert(vs2[x] == vs[x] && vs2[y] == vs[y]);
                        } else if x == i {
                            assert(vs2[y] == vs[y] && vs2[x].id == vs[x].id);
                        } else {
                            assert(vs2[x] == vs[x] && vs2[y].id == vs[y].id);
                        }
                    }
                }
                Some(old_item)
            },
            None => {
                proof {
                    lemma_items_map_missing(vs, iv.id);
                }
                store.push(item);
                proof {
                    let vs2 = store@.map_values(|w: WorkItem| w@);
                    assert(vs2.drop_last() =~= vs);
                    assert(vs2.last() == iv);
                    assert forall|x: int, y: int|
                        0 <= x < vs2.len() && 0 <= y < vs2.len() && x != y implies vs2[x].id
                        != vs2[y].id by {
                        if x < vs.len() && y < vs.len() {
                            assert(vs2[x] == vs[x] && vs2[y] == vs[y]);
                        } else if x < vs.len() {
                            assert(vs2[x] == vs[x] && vs2[y] == iv);
                        } else {
                            assert(vs2[x] == iv && vs2[y] == vs[y]);
                        }
                    }
                }
                None
            },
        };
        core::mem::swap(&mut store, &mut self.store);
        r
    }

    /// The stored entity with the given id, if any.
    pub fn get(&self, id: &WorkItemId) -> (r: Option<&WorkItem>)
        ensures
            match r {
                Some(w) => self@.map.contains_key(id@) && w@ == self@.map[id@],
                None => !self@.map.contains_key(id@),
            },
    {
        proof {
            use_type_invariant(&*self);
        }
        match self.find_index(id) {
            Some(i) => {
                proof {
                    lemma_items_map_contains_at(self.store_views(), i as int);
                }
                Some(&self.store[i])
            },
            None => {
                proof {
                    lemma_items_map_missing(self.store_views(), id@);
                }
                None
            },
        }
    }

    /// The fetch order: every listed id, oldest first.
    pub fn iter(&self) -> (r: &Vec<WorkItemId>)
        ensures
            ids_view(r@) == self@.order,
    {
        &self.ordered_items
    }

    /// The stored entities; their ids are pairwise distinct and the store
    /// map holds exactly their views.
    pub fn items(&self) -> (r: &Vec<WorkItem>)
        ensures
            r@.map_values(|w: WorkItem| w@) == self.store_views(),
            distinct_ids(self.store_views()),
            self@.map == items_map(self.store_views()),
    {
        proof {
            use_type_invariant(&*self);
        }
        &self.store
    }

    /// Whether any stored issue lists `id` among its sub-issues.
    fn is_referenced(&self, id: &WorkItemId) -> (r: bool)
        ensures
            r == referenced(self@.map, id@),
    {
        proof {
            use_type_invariant(&*self);
        }
        let ghost vs = self.store_views();
        let mut i: usize = 0;
        while i < self.store.len()
            invariant
                i <= self.store.len(),
                vs == self.store_views(),
                distinct_ids(vs),
                forall|j: int|
                    0 <= j < i ==> !(vs[j].data is Issue && vs[j].data->Issue_0.sub_issues.contains(
                        id@,
                    )),
            decreases self.store.len() - i,
        {
            if let WorkItemData::Issue(issue) = &self.store[i].data {
                if ids_contain_exec(&issue.sub_issues, id) {
                    proof {
                        lemma_items_map_contains_at(vs, i as int);
                        assert(self@.map.dom().contains(vs[i as int].id));
                    }
                    return true;
                }
            }
            assert(!(vs[i as int].data is Issue && vs[i as int].data->Issue_0.sub_issues.contains(
                id@,
            )));
            i += 1;
        }
        proof {
            if referenced(self@.map, id@) {
                let k = choose|k: Seq<char>|
                    #[trigger] self@.map.dom().contains(k) && self@.map[k].data is Issue
                        && self@.map[k].data->Issue_0.sub_issues.contains(id@);
                lemma_items_map_dom(vs, k);
                let j = choose|j: int| 0 <= j < vs.len() && vs[j].id == k;
                lemma_items_map_contains_at(vs, j);
                assert(vs[j] == self@.map[k]);
                assert(false);
            }
        }
        false
    }

    /// Whether the same id occurs again in the fetch order after `i`.
    fn occurs_after(&self, i: usize) -> (r: bool)
        requires
            i < self@.order.len(),
        ensures
            r == self@.order.skip(i + 1 as int).contains(self@.order[i as int]),
    {
        let ghost order = self@.order;
        let n = self.ordered_items.len();
        let mut j: usize = i + 1;
        while j < n
            invariant
                order == self@.order,
                n == self.ordered_items.len(),
                i < j,
                j <= n,
                forall|x: int| i < x < j ==> order[x] != order[i as int],
            decreases n - j,
        {
            if self.ordered_items[j] == self.ordered_items[i] {
                assert(order[j as int] == order[i as int]);
                assert(order.skip(i + 1 as int)[j - i - 1] == order[j as int]);
                return true;
            }
            assert(order[j as int] != order[i as int]);
            j += 1;
        }
        proof {
            if order.skip(i + 1 as int).contains(order[i as int]) {
                let tail = order.skip(i + 1 as int);
                let x = choose|x: int| 0 <= x < tail.len() && #[trigger] tail[x] == order[i as int];
                assert(order[x + i + 1] == order[i as int]);
                assert(false);
            }
        }
        false
    }

    /// The root ids: the ids in fetch order (each counted at its last
    /// occurrence) that no stored issue lists among its sub-issues.
    pub fn get_roots(&self) -> (r: Vec<WorkItemId>)
        ensures
            ids_view(r@) == spec_roots(self@),
    {
        let ghost order = self@.order;
        let ghost m = self@.map;
        let mut result: Vec<WorkItemId> = Vec::new();
        let mut i: usize = 0;
        proof {
            assert(order.skip(0) =~= order);
            assert(ids_view(result@) + roots_rec(order, m) =~= spec_roots(self@));
        }
        while i < self.ordered_items.len()
            invariant
                order == self@.order,
                m == self@.map,
                self.ordered_items.len() == order.len(),
                i <= order.len(),
                ids_view(result@) + roots_rec(order.skip(i as int), m) == spec_roots(self@),
            decreases self.ordered_items.len() - i,
        {
            let ghost tail = order.skip(i as int);
            proof {
                assert(tail.len() > 0);
                assert(tail[0] == order[i as int]);
                assert(tail.drop_first() =~= order.skip(i + 1 as int));
            }
            let is_dup = self.occurs_after(i);
            if !is_dup {
                let id = &self.ordered_items[i];
                assert(id@ == order[i as int]);
                if !self.is_referenced(id) {
                    let ghost before = result@;
                    result.push(id.clone());
                    proof {
                        assert(roots_rec(tail, m) == seq![tail[0]] + roots_rec(
                            tail.drop_first(),
                            m,
                        ));
                        assert(ids_view(result@) =~= ids_view(before).push(order[i as int]));
                        assert(ids_view(result@) + roots_rec(order.skip(i + 1 as int), m)
                            =~= ids_view(before) + roots_rec(tail, m));
                    }
                } else {
                    proof {
                        assert(roots_rec(tail, m) == roots_rec(tail.drop_first(), m));
                    }
                }
            } else {
                proof {
                    assert(roots_rec(tail, m) == roots_rec(tail.drop_first(), m));
                }
            }
            i += 1;
        }
        proof {
            assert(order.skip(order.len() as int) =~= Seq::<Seq<char>>::empty());
            assert(ids_view(result@) + roots_rec(order.skip(order.len() as int), m) =~= ids_view(
                result@,
            ));
        }
        result
    }
}

impl Default for WorkItems {
    /// An empty store.
    fn default() -> (r: Self)
        ensures
            r@.order == Seq::<Seq<char>>::empty(),
            r@.map == Map::<Seq<char>, WorkItemView>::empty(),
    {
        WorkItems::new()
    }
}

impl Clone for WorkItems {
    fn clone(&self) -> (r: Self)
        ensures
            r@ == self@,
    {
        proof {
            use_type_invariant(&*self);
        }
        let mut store: Vec<WorkItem> = Vec::new();
        let mut i: usize = 0;
        while i < self.store.len()
            invariant
                i <= self.store.len(),
                store.len() == i,
                forall|j: int|
                    0 <= j < i ==> store@.map_values(|w: WorkItem| w@)[j] == self.store_views()[j],
            decreases self.store.len() - i,
        {
            store.push(self.store[i].clone());
            i += 1;
        }
        proof {
            assert(store@.map_values(|w: WorkItem| w@) =~= self.store_views());
        }
        let r = WorkItems { ordered_items: crate::ids::clone_ids(&self.ordered_items), store };
        proof {
            assert(r@ =~= self@);
        }
        r
    }
}

impl PartialEq for WorkItems {
    fn eq(&self, other: &Self) -> (r: bool) {
        proof {
            use_type_invariant(&*self);
            use_type_invariant(&*other);
        }
        if !ids_eq(&self.ordered_items, &other.ordered_items) {
            assert(self@.order != other@.order);
            return false;
        }
        if self.store.len() != other.store.len() {
            proof {
                lemma_items_map_len(self.store_views());
                lemma_items_map_len(other.store_views());
                assert(self@.map.dom().len() != other@.map.dom().len());
                assert(self@.map != other@.map);
            }
            return false;
        }
        let ghost s = self.store_views();
        let ghost o = other.store_views();
        let mut i: usize = 0;
        while i < self.store.len()
            invariant
                i <= self.store.len(),
                s == self.store_views(),
                o == other.store_views(),
                distinct_ids(s),
                distinct_ids(o),
                self.store.len() == other.store.len(),
                forall|j: int|
                    0 <= j < i ==> items_map(o).contains_key(s[j].id) && items_map(o)[s[j].id]
                        == s[j],
            decreases self.store.len() - i,
        {
            match other.find_index(&self.store[i].id) {
                Some(k) => {
                    if !(self.store[i] == other.store[k]) {
                        proof {
                            lemma_items_map_contains_at(o, k as int);
                            lemma_items_map_contains_at(s, i as int);
                            assert(o[k as int].id == s[i as int].id);
                            assert(o[k as int] != s[i as int]);
                            assert(self@.map[s[i as int].id] == s[i as int]);
                            assert(other@.map[s[i as int].id] == o[k as int]);
                        }
                        return false;
                    }
                    proof {
                        lemma_items_map_contains_at(o, k as int);
                    }
                },
                None => {
                    proof {
                        lemma_items_map_missing(o, s[i as int].id);
                        lemma_items_map_contains_at(s, i as int);
                    }
                    return false;
                },
            }
            i += 1;
        }
        proof {
            assert forall|k: Seq<char>| #[trigger]
                self@.map.contains_key(k) implies other@.map.contains_key(k) && other@.map[k]
                == self@.map[k] by {
                lemma_items_map_dom(s, k);
                let j = choose|j: int| 0 <= j < s.len() && s[j].id == k;
                lemma_items_map_contains_at(s, j);
            }
            lemma_items_map_len(s);
            lemma_items_map_len(o);
            assert(self@.map.dom().subset_of(other@.map.dom()));
            vstd::set_lib::lemma_subset_equality(self@.map.dom(), other@.map.dom());
            assert(self@.map =~= other@.map);
            assert(self@ =~= other@);
        }
        true
    }
}

impl vstd::std_specs::cmp::PartialEqSpecImpl for WorkItems {
    open spec fn obeys_eq_spec() -> bool {
        true
    }

    open spec fn eq_spec(&self, other: &Self) -> bool {
        self@ == other@
    }
}

/// The derived map stores every entity under its own id.
pub proof fn lemma_items_map_coherent(vs: Seq<WorkItemView>)
    ensures
        forall|k: Seq<char>| #[trigger] items_map(vs).contains_key(k) ==> items_map(vs)[k].id == k,
    decreases vs.len(),
{
    if vs.len() > 0 {
        lemma_items_map_coherent(vs.drop_last());
    }
}

impl WorkItems {
    /// The store map holds every entity under its own id.
    pub proof fn lemma_coherent(&self)
        ensures
            forall|k: Seq<char>| #[trigger] self@.map.contains_key(k) ==> self@.map[k].id == k,
    {
        lemma_items_map_coherent(self.store_views());
    }
}

/// With distinct ids, the derived map has exactly one entry per item.
pub proof fn lemma_items_map_len(vs: Seq<WorkItemView>)
    requires
        distinct_ids(vs),
    ensures
        items_map(vs).dom().finite(),
        items_map(vs).dom().len() == vs.len(),
    decreases vs.len(),
{
    if vs.len() == 0 {
        assert(items_map(vs).dom() =~= Set::empty());
    } else {
        lemma_distinct_ids_drop_last(vs);
        lemma_items_map_len(vs.drop_last());
        lemma_items_map_missing(vs.drop_last(), vs.last().id);
        broadcast use vstd::set::axiom_set_insert_len;

        assert(items_map(vs).dom() =~= items_map(vs.drop_last()).dom().insert(vs.last().id));
    }
}

} // verus!
