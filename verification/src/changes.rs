//! The pending-change ledger.
//!
//! A `Change` is one pending local edit to a single field or relationship of
//! one entity.  `Changes` keys them by `(entity id, kind of edit)`: adding a
//! second change of the same kind for the same entity overwrites the first
//! (last-writer-wins); duplicates never accumulate.  The ledger's
//! mathematical view is a map from that key to the change.

use vstd::prelude::*;

use crate::ids::FieldOptionId;
use crate::ids::WorkItemId;
use crate::work_item::opt_string_view;
use crate::ids::opt_option_id_view;
use crate::ids::clone_opt_option_id;
use crate::work_item::opt_string_eq;
use crate::ids::opt_option_id_eq;

verus! {

/// The kind of edit a change carries: one per editable field or
/// relationship.
#[derive(Debug, Clone, Copy, PartialEq, Eq, Structural)]
pub enum ChangeKind {
    IssueType,
    Status,
    Blocked,
    Epic,
    Iteration,
    Kind,
    Workstream,
    Estimate,
    Priority,
    SetParent,
    AddToProject,
}

#[derive(Debug)]
pub enum ChangeData {
    IssueType(Option<String>),
    Status(Option<FieldOptionId>),
    Blocked(Option<FieldOptionId>),
    Epic(Option<FieldOptionId>),
    Iteration(Option<FieldOptionId>),
    Kind(Option<FieldOptionId>),
    Workstream(Option<FieldOptionId>),
    Estimate(Option<FieldOptionId>),
    Priority(Option<FieldOptionId>),
    SetParent(WorkItemId),
    AddToProject,
}

#[derive(Debug)]
pub struct Change {
    pub work_item_id: WorkItemId,
    pub data: ChangeData,
}

#[derive(Debug)]
pub struct ChangeKey {
    pub work_item_id: WorkItemId,
    pub data_type: ChangeKind,
}

// ---------------------------------------------------------------------------
// Views
// ---------------------------------------------------------------------------

#[verifier::ext_equal]
pub enum ChangeDataView {
    IssueType(Option<Seq<char>>),
    Status(Option<Seq<char>>),
    Blocked(Option<Seq<char>>),
    Epic(Option<Seq<char>>),
    Iteration(Option<Seq<char>>),
    Kind(Option<Seq<char>>),
    Workstream(Option<Seq<char>>),
    Estimate(Option<Seq<char>>),
    Priority(Option<Seq<char>>),
    SetParent(Seq<char>),
    AddToProject,
}

#[verifier::ext_equal]
pub struct ChangeView {
    pub work_item_id: Seq<char>,
    pub data: ChangeDataView,
}

impl View for ChangeData {
    type V = ChangeDataView;

    open spec fn view(&self) -> ChangeDataView {
        match self {
            ChangeData::IssueType(v) => ChangeDataView::IssueType(opt_string_view(*v)),
            ChangeData::Status(v) => ChangeDataView::Status(opt_option_id_view(*v)),
            ChangeData::Blocked(v) => ChangeDataView::Blocked(opt_option_id_view(*v)),
            ChangeData::Epic(v) => ChangeDataView::Epic(opt_option_id_view(*v)),
            ChangeData::Iteration(v) => ChangeDataView::Iteration(opt_option_id_view(*v)),
            ChangeData::Kind(v) => ChangeDataView::Kind(opt_option_id_view(*v)),
            ChangeData::Workstream(v) => ChangeDataView::Workstream(opt_option_id_view(*v)),
            ChangeData::Estimate(v) => ChangeDataView::Estimate(opt_option_id_view(*v)),
            ChangeData::Priority(v) => ChangeDataView::Priority(opt_option_id_view(*v)),
            ChangeData::SetParent(id) => ChangeDataView::SetParent(id@),
            ChangeData::AddToProject => ChangeDataView::AddToProject,
        }
    }
}

impl View for Change {
    type V = ChangeView;

    open spec fn view(&self) -> ChangeView {
        ChangeView { work_item_id: self.work_item_id@, data: self.data@ }
    }
}

impl View for ChangeKey {
    type V = (Seq<char>, ChangeKind);

    open spec fn view(&self) -> (Seq<char>, ChangeKind) {
        (self.work_item_id@, self.data_type)
    }
}

/// The kind of a change payload.
pub open spec fn kind_of(d: ChangeDataView) -> ChangeKind {
    match d {
        ChangeDataView::IssueType(_) => ChangeKind::IssueType,
        ChangeDataView::Status(_) => ChangeKind::Status,
        ChangeDataView::Blocked(_) => ChangeKind::Blocked,
        ChangeDataView::Epic(_) => ChangeKind::Epic,
        ChangeDataView::Iteration(_) => ChangeKind::Iteration,
        ChangeDataView::Kind(_) => ChangeKind::Kind,
        ChangeDataView::Workstream(_) => ChangeKind::Workstream,
        ChangeDataView::Estimate(_) => ChangeKind::Estimate,
        ChangeDataView::Priority(_) => ChangeKind::Priority,
        ChangeDataView::SetParent(_) => ChangeKind::SetParent,
        ChangeDataView::AddToProject => ChangeKind::AddToProject,
    }
}

/// The ledger key of a change: its target entity and its kind.
pub open spec fn spec_key(c: ChangeView) -> (Seq<char>, ChangeKind) {
    (c.work_item_id, kind_of(c.data))
}

// ---------------------------------------------------------------------------
// Clone / equality for single changes
// ---------------------------------------------------------------------------

fn clone_opt_string_local(o: &Option<String>) -> (r: Option<String>)
    ensures
        opt_string_view(r) == opt_string_view(*o),
{
    match o {
        Some(s) => Some(s.clone()),
        None => None,
    }
}

impl Clone for ChangeData {
    fn clone(&self) -> (r: Self)
        ensures
            r@ == self@,
    {
        match self {
            ChangeData::IssueType(v) => ChangeData::IssueType(clone_opt_string_local(v)),
            ChangeData::Status(v) => ChangeData::Status(clone_opt_option_id(v)),
            ChangeData::Blocked(v) => ChangeData::Blocked(clone_opt_option_id(v)),
            ChangeData::Epic(v) => ChangeData::Epic(clone_opt_option_id(v)),
            ChangeData::Iteration(v) => ChangeData::Iteration(clone_opt_option_id(v)),
            ChangeData::Kind(v) => ChangeData::Kind(clone_opt_option_id(v)),
            ChangeData::Workstream(v) => ChangeData::Workstream(clone_opt_option_id(v)),
            ChangeData::Estimate(v) => ChangeData::Estimate(clone_opt_option_id(v)),
            ChangeData::Priority(v) => ChangeData::Priority(clone_opt_option_id(v)),
            ChangeData::SetParent(id) => ChangeData::SetParent(id.clone()),
            ChangeData::AddToProject => ChangeData::AddToProject,
        }
    }
}

impl Clone for Change {
    fn clone(&self) -> (r: Self)
        ensures
            r@ == self@,
    {
        Change { work_item_id: self.work_item_id.clone(), data: self.data.clone() }
    }
}

impl Clone for ChangeKey {
    fn clone(&self) -> (r: Self)
        ensures
            r@ == self@,
    {
        ChangeKey { work_item_id: self.work_item_id.clone(), data_type: self.data_type }
    }
}

impl PartialEq for ChangeData {
    fn eq(&self, other: &Self) -> (r: bool) {
        match (self, other) {
            (ChangeData::IssueType(a), ChangeData::IssueType(b)) => opt_string_eq(a, b),
            (ChangeData::Status(a), ChangeData::Status(b)) => opt_option_id_eq(a, b),
            (ChangeData::Blocked(a), ChangeData::Blocked(b)) => opt_option_id_eq(a, b),
            (ChangeData::Epic(a), ChangeData::Epic(b)) => opt_option_id_eq(a, b),
            (ChangeData::Iteration(a), ChangeData::Iteration(b)) => opt_option_id_eq(a, b),
            (ChangeData::Kind(a), ChangeData::Kind(b)) => opt_option_id_eq(a, b),
            (ChangeData::Workstream(a), ChangeData::Workstream(b)) => opt_option_id_eq(a, b),
            (ChangeData::Estimate(a), ChangeData::Estimate(b)) => opt_option_id_eq(a, b),
            (ChangeData::Priority(a), ChangeData::Priority(b)) => opt_option_id_eq(a, b),
            (ChangeData::SetParent(a), ChangeData::SetParent(b)) => *a == *b,
            (ChangeData::AddToProject, ChangeData::AddToProject) => true,
            _ => false,
        }
    }
}

impl vstd::std_specs::cmp::PartialEqSpecImpl for ChangeData {
    open spec fn obeys_eq_spec() -> bool {
        true
    }

    open spec fn eq_spec(&self, other: &Self) -> bool {
        self@ == other@
    }
}

impl PartialEq for Change {
    fn eq(&self, other: &Self) -> (r: bool) {
        self.work_item_id == other.work_item_id && self.data == other.data
    }
}

impl vstd::std_specs::cmp::PartialEqSpecImpl for Change {
    open spec fn obeys_eq_spec() -> bool {
        true
    }

    open spec fn eq_spec(&self, other: &Self) -> bool {
        self@ == other@
    }
}

impl Change {
    /// The ledger key: the target entity and the kind of the edit.
    pub fn key(&self) -> (r: ChangeKey)
        ensures
            r@ == spec_key(self@),
    {
        let data_type = match &self.data {
            ChangeData::IssueType(_) => ChangeKind::IssueType,
            ChangeData::Status(_) => ChangeKind::Status,
            ChangeData::Blocked(_) => ChangeKind::Blocked,
            ChangeData::Epic(_) => ChangeKind::Epic,
            ChangeData::Iteration(_) => ChangeKind::Iteration,
            ChangeData::Kind(_) => ChangeKind::Kind,
            ChangeData::Workstream(_) => ChangeKind::Workstream,
            ChangeData::Estimate(_) => ChangeKind::Estimate,
            ChangeData::Priority(_) => ChangeKind::Priority,
            ChangeData::SetParent(_) => ChangeKind::SetParent,
            ChangeData::AddToProject => ChangeKind::AddToProject,
        };
        ChangeKey { work_item_id: self.work_item_id.clone(), data_type }
    }
}

// ---------------------------------------------------------------------------
// The ledger
// ---------------------------------------------------------------------------

/// The map derived from a sequence of changes: later entries win.
pub open spec fn changes_map(s: Seq<ChangeView>) -> Map<(Seq<char>, ChangeKind), ChangeView>
    decreases s.len(),
{
    if s.len() == 0 {
        Map::empty()
    } else {
        changes_map(s.drop_last()).insert(spec_key(s.last()), s.last())
    }
}

/// Whether a sequence of changes has pairwise distinct ledger keys.
pub open spec fn distinct_keys(s: Seq<ChangeView>) -> bool {
    forall|i: int, j: int|
        0 <= i < s.len() && 0 <= j < s.len() && i != j ==> spec_key(s[i]) != spec_key(s[j])
}

#[derive(Debug)]
pub struct Changes {
    data: Vec<Change>,
}

impl Changes {
    /// The pending changes in ledger order.
    pub closed spec fn change_seq(self) -> Seq<ChangeView> {
        self.data@.map_values(|c: Change| c@)
    }

    #[verifier::type_invariant]
    spec fn wf(self) -> bool {
        distinct_keys(self.change_seq())
    }
}

impl View for Changes {
    type V = Map<(Seq<char>, ChangeKind), ChangeView>;

    open spec fn view(&self) -> Map<(Seq<char>, ChangeKind), ChangeView> {
        changes_map(self.change_seq())
    }
}

// ---------------------------------------------------------------------------
// Facts about the derived map
// ---------------------------------------------------------------------------

pub proof fn lemma_changes_map_contains_at(s: Seq<ChangeView>, i: int)
    requires
        distinct_keys(s),
        0 <= i < s.len(),
    ensures
        changes_map(s).contains_key(spec_key(s[i])),
        changes_map(s)[spec_key(s[i])] == s[i],
    decreases s.len(),
{
    if i < s.len() - 1 {
        assert(distinct_keys(s.drop_last())) by {
            assert(forall|x: int, y: int|
                0 <= x < s.len() - 1 && 0 <= y < s.len() - 1 && x != y ==> spec_key(
                    s.drop_last()[x],
                ) == spec_key(s[x]) && spec_key(s.drop_last()[y]) == spec_key(s[y]));
        }
        lemma_changes_map_contains_at(s.drop_last(), i);
        assert(spec_key(s[i]) != spec_key(s.last()));
    }
}

pub proof fn lemma_changes_map_missing(s: Seq<ChangeView>, k: (Seq<char>, ChangeKind))
    requires
        forall|i: int| 0 <= i < s.len() ==> spec_key(s[i]) != k,
    ensures
        !changes_map(s).contains_key(k),
    decreases s.len(),
{
    if s.len() > 0 {
        lemma_changes_map_missing(s.drop_last(), k);
    }
}

/// Every key of the derived map comes from some entry.
pub proof fn lemma_changes_map_dom(s: Seq<ChangeView>, k: (Seq<char>, ChangeKind))
    requires
        changes_map(s).contains_key(k),
    ensures
        exists|i: int| 0 <= i < s.len() && spec_key(s[i]) == k,
    decreases s.len(),
{
    if s.len() > 0 {
        if k != spec_key(s.last()) {
            lemma_changes_map_dom(s.drop_last(), k);
            let i = choose|i: int| 0 <= i < s.drop_last().len() && spec_key(s.drop_last()[i]) == k;
            assert(spec_key(s[i]) == k);
        } else {
            assert(spec_key(s[s.len() - 1]) == k);
        }
    }
}

proof fn lemma_distinct_drop_last(s: Seq<ChangeView>)
    requires
        distinct_keys(s),
        s.len() > 0,
    ensures
        distinct_keys(s.drop_last()),
{
    assert(forall|x: int|
        0 <= x < s.len() - 1 ==> s.drop_last()[x] == s[x]);
}

/// With distinct keys, the derived map has exactly one entry per change.
pub proof fn lemma_changes_map_len(s: Seq<ChangeView>)
    requires
        distinct_keys(s),
    ensures
        changes_map(s).dom().finite(),
        changes_map(s).dom().len() == s.len(),
    decreases s.len(),
{
    if s.len() == 0 {
        assert(changes_map(s).dom() =~= Set::empty());
    } else {
        lemma_distinct_drop_last(s);
        lemma_changes_map_len(s.drop_last());
        lemma_changes_map_missing(s.drop_last(), spec_key(s.last()));
        broadcast use vstd::set::axiom_set_insert_len;

        assert(changes_map(s).dom() =~= changes_map(s.drop_last()).dom().insert(
            spec_key(s.last()),
        ));
    }
}

proof fn lemma_changes_map_update(s: Seq<ChangeView>, i: int, c: ChangeView)
    requires
        distinct_keys(s),
        0 <= i < s.len(),
        spec_key(s[i]) == spec_key(c),
    ensures
        changes_map(s.update(i, c)) =~= changes_map(s).insert(spec_key(c), c),
    decreases s.len(),
{
    if i == s.len() - 1 {
        assert(s.update(i, c).drop_last() =~= s.drop_last());
        assert(s.update(i, c).last() == c);
    } else {
        lemma_distinct_drop_last(s);
        lemma_changes_map_update(s.drop_last(), i, c);
        assert(s.update(i, c).drop_last() =~= s.drop_last().update(i, c));
        assert(s.update(i, c).last() == s.last());
        assert(spec_key(s.last()) != spec_key(c));
    }
}

proof fn lemma_changes_map_remove(s: Seq<ChangeView>, i: int)
    requires
        distinct_keys(s),
        0 <= i < s.len(),
    ensures
        changes_map(s.remove(i)) =~= changes_map(s).remove(spec_key(s[i])),
        distinct_keys(s.remove(i)),
    decreases s.len(),
{
    assert(forall|x: int|
        0 <= x < s.len() - 1 ==> s.remove(i)[x] == (if x < i {
            s[x]
        } else {
            s[x + 1]
        }));
    if i == s.len() - 1 {
        assert(s.remove(i) =~= s.drop_last());
        lemma_distinct_drop_last(s);
        lemma_changes_map_missing(s.drop_last(), spec_key(s[i]));
        assert(changes_map(s.remove(i)) =~= changes_map(s).remove(spec_key(s[i])));
    } else {
        lemma_distinct_drop_last(s);
        lemma_changes_map_remove(s.drop_last(), i);
        assert(s.remove(i).drop_last() =~= s.drop_last().remove(i));
        assert(s.remove(i).last() == s.last());
        assert(spec_key(s.last()) != spec_key(s[i]));
        assert(changes_map(s.remove(i)) =~= changes_map(s).remove(spec_key(s[i])));
    }
}

// ---------------------------------------------------------------------------
// Ledger operations
// ---------------------------------------------------------------------------

impl Changes {
    /// An empty ledger.
    pub fn new() -> (r: Changes)
        ensures
            r@ == Map::<(Seq<char>, ChangeKind), ChangeView>::empty(),
    {
        Changes { data: Vec::new() }
    }

    /// The position of the pending change with the given key, if any.
    fn find_key(&self, key: &ChangeKey) -> (r: Option<usize>)
        ensures
            match r {
                Some(i) => i < self.data.len() && spec_key(self.change_seq()[i as int]) == key@,
                None => forall|j: int|
                    0 <= j < self.change_seq().len() ==> spec_key(self.change_seq()[j]) != key@,
            },
    {
        let mut i: usize = 0;
        while i < self.data.len()
            invariant
                i <= self.data.len(),
                forall|j: int| 0 <= j < i ==> spec_key(self.change_seq()[j]) != key@,
            decreases self.data.len() - i,
        {
            let k = self.data[i].key();
            if k.work_item_id == key.work_item_id && k.data_type == key.data_type {
                assert(spec_key(self.change_seq()[i as int]) == key@);
                return Some(i);
            }
            assert(spec_key(self.change_seq()[i as int]) != key@);
            i += 1;
        }
        None
    }

    /// Upserts the change under its `(entity, kind)` key: a later insertion
    /// under an existing key overwrites the earlier change.
    pub fn add(&mut self, change: Change)
        ensures
            final(self)@ == old(self)@.insert(spec_key(change@), change@),
    {
        proof {
            use_type_invariant(&*self);
        }
        let key = change.key();
        let found = self.find_key(&key);
        let ghost s = self.change_seq();
        let mut data: Vec<Change> = Vec::new();
        core::mem::swap(&mut data, &mut self.data);
        let ghost cv = change@;
        match found {
            Some(i) => {
                data.set(i, change);
                proof {
                    let s2 = data@.map_values(|c: Change| c@);
                    assert(s2 =~= s.update(i as int, cv));
                    lemma_changes_map_update(s, i as int, cv);
                    assert forall|x: int| 0 <= x < s2.len() implies spec_key(s2[x]) == spec_key(
                        s[x],
                    ) by {
                        if x != i {
                            assert(s2[x] == s[x]);
                        }
                    }
                    assert forall|x: int, y: int|
                        0 <= x < s2.len() && 0 <= y < s2.len() && x != y implies spec_key(s2[x])
                        != spec_key(s2[y]) by {
                        assert(spec_key(s2[x]) == spec_key(s[x]));
                        assert(spec_key(s2[y]) == spec_key(s[y]));
                    }
                }
            },
            None => {
                data.push(change);
                proof {
                    let s2 = data@.map_values(|c: Change| c@);
                    assert(s2.drop_last() =~= s);
                    assert(s2.last() == cv);
                    assert forall|x: int, y: int|
                        0 <= x < s2.len() && 0 <= y < s2.len() && x != y implies spec_key(s2[x])
                        != spec_key(s2[y]) by {
                        if x < s.len() && y < s.len() {
                            assert(s2[x] == s[x] && s2[y] == s[y]);
                        } else if x < s.len() {
                            assert(s2[x] == s[x] && s2[y] == cv);
                            assert(spec_key(s[x]) != spec_key(cv));
                        } else {
                            assert(s2[x] == cv && s2[y] == s[y]);
                            assert(spec_key(s[y]) != spec_key(cv));
                        }
                    }
                }
            },
        }
        core::mem::swap(&mut data, &mut self.data);
    }

    /// Deletes the pending change with the same `(entity, kind)` key, if
    /// one is pending.
    pub fn remove(&mut self, change: Change)
        ensures
            final(self)@ == old(self)@.remove(spec_key(change@)),
    {
        proof {
            use_type_invariant(&*self);
        }
        let key = change.key();
        let found = self.find_key(&key);
        let ghost s = self.change_seq();
        let mut data: Vec<Change> = Vec::new();
        core::mem::swap(&mut data, &mut self.data);
        match found {
            Some(i) => {
                data.remove(i);
                proof {
                    lemma_changes_map_remove(s, i as int);
                    assert(data@.map_values(|c: Change| c@) =~= s.remove(i as int));
                }
            },
            None => {
                proof {
                    lemma_changes_map_missing(s, spec_key(change@));
                    assert(changes_map(s).remove(spec_key(change@)) =~= changes_map(s));
                }
            },
        }
        core::mem::swap(&mut data, &mut self.data);
    }

    /// Merges another ledger in, change by change; on key collisions the
    /// other ledger's change wins.
    pub fn add_changes(&mut self, changes: Changes)
        ensures
            final(self)@ == old(self)@.union_prefer_right(changes@),
    {
        proof {
            use_type_invariant(&changes);
        }
        let ghost other = changes.change_seq();
        let Changes { data: mut items } = changes;
        let ghost orig = self@;
        let mut i: usize = 0;
        proof {
            assert(other.take(0 as int) =~= Seq::<ChangeView>::empty());
            assert(orig.union_prefer_right(changes_map(other.take(0 as int))) =~= orig);
        }
        while i < items.len()
            invariant
                i <= items.len(),
                other == items@.map_values(|c: Change| c@),
                distinct_keys(other),
                self@ == orig.union_prefer_right(changes_map(other.take(i as int))),
            decreases items.len() - i,
        {
            let c = items[i].clone();
            assert(c@ == other[i as int]);
            self.add(c);
            proof {
                let t1 = other.take(i as int);
                let t2 = other.take(i + 1 as int);
                assert(t2.drop_last() =~= t1);
                assert(t2.last() == other[i as int]);
                assert(changes_map(t2) == changes_map(t1).insert(
                    spec_key(other[i as int]),
                    other[i as int],
                ));
                assert(orig.union_prefer_right(changes_map(t2)) =~= orig.union_prefer_right(
                    changes_map(t1),
                ).insert(spec_key(other[i as int]), other[i as int]));
            }
            i += 1;
        }
        proof {
            assert(other.take(items.len() as int) =~= other);
        }
    }

    /// The number of pending changes.
    pub fn len(&self) -> (r: usize)
        ensures
            r == self@.dom().len(),
    {
        proof {
            use_type_invariant(&*self);
            lemma_changes_map_len(self.change_seq());
        }
        self.data.len()
    }

    /// Whether no change is pending.
    pub fn is_empty(&self) -> (r: bool)
        ensures
            r == (self@ == Map::<(Seq<char>, ChangeKind), ChangeView>::empty()),
    {
        proof {
            use_type_invariant(&*self);
            lemma_changes_map_len(self.change_seq());
            if self.data@.len() == 0 {
                assert(self@ =~= Map::<(Seq<char>, ChangeKind), ChangeView>::empty());
            } else {
                vstd::set_lib::lemma_set_empty_equivalency_len(self@.dom());
                assert(self@.dom().len() != 0);
                assert(!(self@ =~= Map::<(Seq<char>, ChangeKind), ChangeView>::empty()));
            }
        }
        self.data.len() == 0
    }

    /// The pending changes, in ledger order.
    pub fn pending(&self) -> (r: Vec<Change>)
        ensures
            r@.map_values(|c: Change| c@) == self.change_seq(),
            distinct_keys(self.change_seq()),
    {
        proof {
            use_type_invariant(&*self);
        }
        let mut r: Vec<Change> = Vec::new();
        let mut i: usize = 0;
        while i < self.data.len()
            invariant
                i <= self.data.len(),
                r.len() == i,
                forall|j: int|
                    0 <= j < i ==> r@.map_values(|c: Change| c@)[j] == self.change_seq()[j],
            decreases self.data.len() - i,
        {
            r.push(self.data[i].clone());
            i += 1;
        }
        assert(r@.map_values(|c: Change| c@) =~= self.change_seq());
        r
    }
}

impl Default for Changes {
    /// An empty ledger.
    fn default() -> (r: Self)
        ensures
            r@ == Map::<(Seq<char>, ChangeKind), ChangeView>::empty(),
    {
        Changes { data: Vec::new() }
    }
}

impl PartialEq for Changes {
    fn eq(&self, other: &Self) -> (r: bool) {
        proof {
            use_type_invariant(&*self);
            use_type_invariant(&*other);
        }
        if self.data.len() != other.data.len() {
            proof {
                lemma_changes_map_len(self.change_seq());
                lemma_changes_map_len(other.change_seq());
                assert(self@.dom().len() != other@.dom().len());
                assert(self@ != other@);
            }
            return false;
        }
        let ghost s = self.change_seq();
        let ghost o = other.change_seq();
        let mut i: usize = 0;
        while i < self.data.len()
            invariant
                i <= self.data.len(),
                s == self.change_seq(),
                o == other.change_seq(),
                distinct_keys(s),
                distinct_keys(o),
                self.data.len() == other.data.len(),
                forall|j: int|
                    0 <= j < i ==> changes_map(o).contains_key(spec_key(s[j])) && changes_map(o)[
                        spec_key(s[j])] == s[j],
            decreases self.data.len() - i,
        {
            let key = self.data[i].key();
            match other.find_key(&key) {
                Some(k) => {
                    if !(self.data[i] == other.data[k]) {
                        proof {
                            lemma_changes_map_contains_at(o, k as int);
                            lemma_changes_map_contains_at(s, i as int);
                            assert(spec_key(o[k as int]) == spec_key(s[i as int]));
                            assert(o[k as int] != s[i as int]);
                            assert(self@[spec_key(s[i as int])] == s[i as int]);
                            assert(other@[spec_key(s[i as int])] == o[k as int]);
                        }
                        return false;
                    }
                    proof {
                        lemma_changes_map_contains_at(o, k as int);
                        assert(changes_map(o)[spec_key(s[i as int])] == s[i as int]);
                    }
                },
                None => {
                    proof {
                        lemma_changes_map_missing(o, spec_key(s[i as int]));
                        lemma_changes_map_contains_at(s, i as int);
                        assert(self@.contains_key(spec_key(s[i as int])));
                        assert(!other@.contains_key(spec_key(s[i as int])));
                    }
                    return false;
                },
            }
            i += 1;
        }
        proof {
            assert forall|k: (Seq<char>, ChangeKind)| #[trigger]
                self@.contains_key(k) implies other@.contains_key(k) && other@[k] == self@[k] by {
                lemma_changes_map_dom(s, k);
                let j = choose|j: int| 0 <= j < s.len() && spec_key(s[j]) == k;
                lemma_changes_map_contains_at(s, j);
            }
            lemma_changes_map_len(s);
            lemma_changes_map_len(o);
            assert(self@.dom().subset_of(other@.dom()));
            vstd::set_lib::lemma_subset_equality(self@.dom(), other@.dom());
            assert forall|k: (Seq<char>, ChangeKind)| #[trigger]
                other@.contains_key(k) implies self@.contains_key(k) by {}
            assert(self@ =~= other@);
        }
        true
    }
}

impl vstd::std_specs::cmp::PartialEqSpecImpl for Changes {
    open spec fn obeys_eq_spec() -> bool {
        true
    }

    open spec fn eq_spec(&self, other: &Self) -> bool {
        self@ == other@
    }
}

// ---------------------------------------------------------------------------
// Laws of the ledger
// ---------------------------------------------------------------------------

/// Adding the same change twice leaves the ledger exactly as adding it
/// once: insertion is idempotent.
pub proof fn lemma_add_idempotent(m: Map<(Seq<char>, ChangeKind), ChangeView>, c: ChangeView)
    ensures
        m.insert(spec_key(c), c).insert(spec_key(c), c) == m.insert(spec_key(c), c),
{
    assert(m.insert(spec_key(c), c).insert(spec_key(c), c) =~= m.insert(spec_key(c), c));
}

/// Adding two different changes with the same `(entity, kind)` key leaves
/// only the later one: the last writer wins.
pub proof fn lemma_add_last_writer_wins(
    m: Map<(Seq<char>, ChangeKind), ChangeView>,
    c1: ChangeView,
    c2: ChangeView,
)
    requires
        spec_key(c1) == spec_key(c2),
    ensures
        m.insert(spec_key(c1), c1).insert(spec_key(c2), c2) == m.insert(spec_key(c2), c2),
{
    assert(m.insert(spec_key(c1), c1).insert(spec_key(c2), c2) =~= m.insert(spec_key(c2), c2));
}

} // verus!
