//! Committing the ledger: planning the remote mutations.
//!
//! Saving is split between this library and the transport.  The library
//! decides, per pending change, which remote mutation to issue and which
//! entities it touches (`plan_change`); the transport performs the call
//! and reports back.  A failed change is simply re-inserted into the
//! ledger with `add`, so the next save retries it: at most one attempt per
//! change per save call, and failures stay local to their change.

use vstd::prelude::*;
use vstd::string::StringExecFns;

use crate::changes::distinct_keys;
use crate::changes::Change;
use crate::changes::ChangeData;
use crate::changes::ChangeDataView;
use crate::changes::ChangeKind;
use crate::changes::ChangeView;
use crate::changes::Changes;
use crate::fields::spec_option_name;
use crate::fields::Field;
use crate::fields::Fields;
use crate::fields::SingleSelect;
use crate::ids::FieldId;
use crate::ids::FieldOptionId;
use crate::ids::ProjectItemId;
use crate::ids::WorkItemId;
use crate::work_item::has_slash;
use crate::work_item::WorkItemView;
use crate::work_items::WorkItems;

verus! {

/// How a save call treats the ledger: a dry run only drains it; a commit
/// issues one remote mutation per change.
#[derive(Debug, Clone, Copy, PartialEq, Eq, Structural)]
pub enum SaveMode {
    DryRun,
    Commit,
}

/// One remote mutation, as plain values: what the transport must send to
/// commit one pending change.  `Nothing` means the change needs no call
/// (its target is unknown, or lacks what the call needs).
#[derive(Debug)]
pub enum SaveAction {
    SetSingleSelectField {
        project_id: String,
        item_id: ProjectItemId,
        field_id: FieldId,
        option_id: FieldOptionId,
    },
    SetIterationField {
        project_id: String,
        item_id: ProjectItemId,
        field_id: FieldId,
        option_id: FieldOptionId,
    },
    ClearField { project_id: String, item_id: ProjectItemId, field_id: FieldId },
    AddSubIssue { parent_id: WorkItemId, child_id: WorkItemId },
    AddToProject { project_id: String, content_id: WorkItemId },
    ResolveAndSetIssueType {
        owner: String,
        repo: String,
        issue_id: WorkItemId,
        issue_type: Option<String>,
    },
    Nothing,
}

/// The catalog field a scalar change kind is stored in (single-select
/// kinds only; the iteration kind has its own field).
pub open spec fn spec_field_id_for(f: crate::fields::FieldsView, k: ChangeKind) -> Seq<char> {
    match k {
        ChangeKind::Status => f.status.id,
        ChangeKind::Blocked => f.blocked.id,
        ChangeKind::Epic => f.epic.id,
        ChangeKind::Iteration => f.iteration.id,
        ChangeKind::Kind => f.kind.id,
        ChangeKind::Workstream => f.workstream.id,
        ChangeKind::Estimate => f.estimate.id,
        ChangeKind::Priority => f.priority.id,
        _ => f.status.id,
    }
}

/// The scalar payload of a field change, if the change is one.
pub open spec fn scalar_value(d: ChangeDataView) -> Option<Option<Seq<char>>> {
    match d {
        ChangeDataView::Status(v) => Some(v),
        ChangeDataView::Blocked(v) => Some(v),
        ChangeDataView::Epic(v) => Some(v),
        ChangeDataView::Iteration(v) => Some(v),
        ChangeDataView::Kind(v) => Some(v),
        ChangeDataView::Workstream(v) => Some(v),
        ChangeDataView::Estimate(v) => Some(v),
        ChangeDataView::Priority(v) => Some(v),
        _ => None,
    }
}

impl Change {
    /// Plans the remote mutation that commits this change, and names the
    /// entities the commit touches (for re-fetching): the target itself,
    /// and for a re-parenting also the prior and the new parent.  A scalar
    /// field change sets or clears the catalog field on the target's
    /// project row; a change whose target is unknown needs no call.
    pub fn plan(&self, fields: &Fields, work_items: &WorkItems) -> (r: (SaveAction, Vec<
        WorkItemId,
    >))
        ensures
            plan_action_ok(self@, fields@, work_items@.map, r.0),
            crate::ids::ids_view(r.1@) == spec_changed_ids(self@, work_items@.map),
    {
        let ghost m = work_items@.map;
        let mut changed: Vec<WorkItemId> = Vec::new();
        changed.push(self.work_item_id.clone());
        let action = match &self.data {
            ChangeData::SetParent(new_parent) => {
                if let Some(item) = work_items.get(&self.work_item_id) {
                    if let Some(old_parent) = item.get_parent() {
                        changed.push(old_parent.clone());
                    }
                }
                changed.push(new_parent.clone());
                proof {
                    assert(crate::ids::ids_view(changed@) =~= spec_changed_ids(self@, m));
                }
                SaveAction::AddSubIssue {
                    parent_id: new_parent.clone(),
                    child_id: self.work_item_id.clone(),
                }
            },
            ChangeData::AddToProject => SaveAction::AddToProject {
                project_id: fields.project_id.clone(),
                content_id: self.work_item_id.clone(),
            },
            ChangeData::IssueType(value) => {
                match work_items.get(&self.work_item_id) {
                    Some(item) => match item.get_repository_info() {
                        Some(pair) => {
                            proof {
                                let s = m[self@.work_item_id].repo_name_with_owner->0;
                                assert(s == pair.0@ + seq!['/'] + pair.1@);
                                assert(s[pair.0@.len() as int] == '/');
                                assert(has_slash(s));
                            }
                            SaveAction::ResolveAndSetIssueType {
                                owner: pair.0,
                                repo: pair.1,
                                issue_id: self.work_item_id.clone(),
                                issue_type: match value {
                                    Some(v) => Some(v.clone()),
                                    None => None,
                                },
                            }
                        },
                        None => SaveAction::Nothing,
                    },
                    None => SaveAction::Nothing,
                }
            },
            ChangeData::Status(v) => self.plan_scalar(&fields.project_id, &fields.status, v, work_items),
            ChangeData::Blocked(v) => self.plan_scalar(
                &fields.project_id,
                &fields.blocked,
                v,
                work_items,
            ),
            ChangeData::Epic(v) => self.plan_scalar(&fields.project_id, &fields.epic, v, work_items),
            ChangeData::Iteration(v) => {
                // The iteration field takes the iteration-typed mutation.
                match work_items.get(&self.work_item_id) {
                    Some(item) => match v {
                        Some(option_id) => SaveAction::SetIterationField {
                            project_id: fields.project_id.clone(),
                            item_id: item.project_item.id.clone(),
                            field_id: fields.iteration.id.clone(),
                            option_id: option_id.clone(),
                        },
                        None => SaveAction::ClearField {
                            project_id: fields.project_id.clone(),
                            item_id: item.project_item.id.clone(),
                            field_id: fields.iteration.id.clone(),
                        },
                    },
                    None => SaveAction::Nothing,
                }
            },
            ChangeData::Kind(v) => self.plan_scalar(&fields.project_id, &fields.kind, v, work_items),
            ChangeData::Workstream(v) => self.plan_scalar(
                &fields.project_id,
                &fields.workstream,
                v,
                work_items,
            ),
            ChangeData::Estimate(v) => self.plan_scalar(
                &fields.project_id,
                &fields.estimate,
                v,
                work_items,
            ),
            ChangeData::Priority(v) => self.plan_scalar(
                &fields.project_id,
                &fields.priority,
                v,
                work_items,
            ),
        };
        proof {
            assert(crate::ids::ids_view(changed@) =~= spec_changed_ids(self@, m));
        }
        (action, changed)
    }

    /// Plans the mutation for one single-select field change.
    fn plan_scalar(
        &self,
        project_id: &String,
        field: &Field<SingleSelect>,
        value: &Option<FieldOptionId>,
        work_items: &WorkItems,
    ) -> (r: SaveAction)
        ensures
            match r {
                SaveAction::SetSingleSelectField { project_id: p, item_id, field_id, option_id } => {
                    &&& work_items@.map.contains_key(self@.work_item_id)
                    &&& value is Some
                    &&& p@ == project_id@
                    &&& item_id@ == work_items@.map[self@.work_item_id].project_item.id
                    &&& field_id@ == field@.id
                    &&& option_id@ == value->0@
                },
                SaveAction::ClearField { project_id: p, item_id, field_id } => {
                    &&& work_items@.map.contains_key(self@.work_item_id)
                    &&& value is None
                    &&& p@ == project_id@
                    &&& item_id@ == work_items@.map[self@.work_item_id].project_item.id
                    &&& field_id@ == field@.id
                },
                SaveAction::Nothing => !work_items@.map.contains_key(self@.work_item_id),
                _ => false,
            },
    {
        match work_items.get(&self.work_item_id) {
            Some(item) => match value {
                Some(option_id) => SaveAction::SetSingleSelectField {
                    project_id: project_id.clone(),
                    item_id: item.project_item.id.clone(),
                    field_id: field.id.clone(),
                    option_id: option_id.clone(),
                },
                None => SaveAction::ClearField {
                    project_id: project_id.clone(),
                    item_id: item.project_item.id.clone(),
                    field_id: field.id.clone(),
                },
            },
            None => SaveAction::Nothing,
        }
    }
}

/// The entities a committed change touches and the consumer should
/// re-fetch: the target, and for a re-parenting also the prior parent (if
/// the target is a stored issue with one) and the new parent.
pub open spec fn spec_changed_ids(c: ChangeView, m: Map<Seq<char>, WorkItemView>) -> Seq<
    Seq<char>,
> {
    let base = seq![c.work_item_id];
    match c.data {
        ChangeDataView::SetParent(p) => {
            let with_old = if m.contains_key(c.work_item_id) && m[c.work_item_id].data is Issue
                && m[c.work_item_id].data->Issue_0.parent_id is Some {
                base.push(m[c.work_item_id].data->Issue_0.parent_id->0)
            } else {
                base
            };
            with_old.push(p)
        },
        _ => base,
    }
}

/// Whether the planned action is the one the change calls for.
pub open spec fn plan_action_ok(
    c: ChangeView,
    f: crate::fields::FieldsView,
    m: Map<Seq<char>, WorkItemView>,
    a: SaveAction,
) -> bool {
    match c.data {
        ChangeDataView::SetParent(p) => a matches SaveAction::AddSubIssue {
            parent_id,
            child_id,
        } && parent_id@ == p && child_id@ == c.work_item_id,
        ChangeDataView::AddToProject => a matches SaveAction::AddToProject {
            project_id,
            content_id,
        } && project_id@ == f.project_id && content_id@ == c.work_item_id,
        ChangeDataView::IssueType(v) => {
            if m.contains_key(c.work_item_id) && m[c.work_item_id].repo_name_with_owner is Some
                && has_slash(m[c.work_item_id].repo_name_with_owner->0) {
                a matches SaveAction::ResolveAndSetIssueType { owner, repo, issue_id, issue_type }
                    && m[c.work_item_id].repo_name_with_owner->0 == owner@ + seq!['/'] + repo@
                    && !has_slash(owner@) && issue_id@ == c.work_item_id
                    && crate::work_item::opt_string_view(issue_type) == v
            } else {
                a is Nothing
            }
        },
        ChangeDataView::Iteration(v) => {
            if m.contains_key(c.work_item_id) {
                match v {
                    Some(o) => a matches SaveAction::SetIterationField {
                        project_id,
                        item_id,
                        field_id,
                        option_id,
                    } && project_id@ == f.project_id && item_id@ == m[
                        c.work_item_id
                    ].project_item.id && field_id@ == f.iteration.id && option_id@ == o,
                    None => a matches SaveAction::ClearField { project_id, item_id, field_id }
                        && project_id@ == f.project_id && item_id@ == m[
                        c.work_item_id
                    ].project_item.id && field_id@ == f.iteration.id,
                }
            } else {
                a is Nothing
            }
        },
        _ => {
            let v = scalar_value(c.data)->0;
            if m.contains_key(c.work_item_id) {
                match v {
                    Some(o) => a matches SaveAction::SetSingleSelectField {
                        project_id,
                        item_id,
                        field_id,
                        option_id,
                    } && project_id@ == f.project_id && item_id@ == m[
                        c.work_item_id
                    ].project_item.id && field_id@ == spec_field_id_for(f, crate::changes::kind_of(c.data))
                        && option_id@ == o,
                    None => a matches SaveAction::ClearField { project_id, item_id, field_id }
                        && project_id@ == f.project_id && item_id@ == m[
                        c.work_item_id
                    ].project_item.id && field_id@ == spec_field_id_for(f, crate::changes::kind_of(c.data)),
                }
            } else {
                a is Nothing
            }
        },
    }
}

impl Changes {
    /// Drains the ledger for a save attempt and hands the pending changes
    /// out in ledger order.  A change whose remote call fails is put back
    /// with `add`, so the next save retries it; the others are gone for
    /// good.
    pub fn begin_save(&mut self) -> (r: Vec<Change>)
        ensures
            final(self)@ == Map::<(Seq<char>, ChangeKind), ChangeView>::empty(),
            r@.map_values(|c: Change| c@) == old(self).change_seq(),
            distinct_keys(old(self).change_seq()),
    {
        let r = self.pending();
        let mut empty = Changes::new();
        core::mem::swap(&mut empty, self);
        r
    }
}

// ---------------------------------------------------------------------------
// Issue-type catalogs
// ---------------------------------------------------------------------------

#[derive(Debug)]
pub struct IssueTypeId(pub String);

impl View for IssueTypeId {
    type V = Seq<char>;

    open spec fn view(&self) -> Seq<char> {
        self.0@
    }
}

impl Clone for IssueTypeId {
    fn clone(&self) -> (r: Self)
        ensures
            r@ == self@,
    {
        IssueTypeId(self.0.clone())
    }
}

/// One issue type of a repository's catalog, as it arrives.
#[derive(Debug)]
pub struct RawIssueType {
    pub id: String,
    pub name: String,
}

/// A repository's issue-type catalog: name and id pairs, as fetched.
#[derive(Debug)]
pub struct IssueTypes {
    pub entries: Vec<RawIssueType>,
}

/// The id of the last catalog entry with the given name, if any: a later
/// entry under the same name wins.
pub open spec fn spec_issue_type_id(entries: Seq<RawIssueType>, name: Seq<char>) -> Option<
    Seq<char>,
>
    decreases entries.len(),
{
    if entries.len() == 0 {
        None
    } else if entries.last().name@ == name {
        Some(entries.last().id@)
    } else {
        spec_issue_type_id(entries.drop_last(), name)
    }
}

impl IssueTypes {
    /// Builds the catalog from the raw nodes, dropping absent ones.
    pub fn from_nodes(nodes: Vec<Option<RawIssueType>>) -> (r: IssueTypes) {
        let mut entries: Vec<RawIssueType> = Vec::new();
        let mut i: usize = 0;
        while i < nodes.len()
            decreases nodes.len() - i,
        {
            if let Some(n) = &nodes[i] {
                entries.push(RawIssueType { id: n.id.clone(), name: n.name.clone() });
            }
            i += 1;
        }
        IssueTypes { entries }
    }

    /// The id of the named issue type, if the catalog holds it; a later
    /// entry under the same name wins.
    pub fn name_to_id(&self, name: &str) -> (r: Option<IssueTypeId>)
        ensures
            match r {
                Some(id) => spec_issue_type_id(self.entries@, name@) == Some(id@),
                None => spec_issue_type_id(self.entries@, name@) is None,
            },
    {
        let ghost es = self.entries@;
        let mut i: usize = self.entries.len();
        proof {
            assert(es.take(self.entries.len() as int) =~= es);
        }
        while i > 0
            invariant
                i <= self.entries.len(),
                es == self.entries@,
                spec_issue_type_id(es, name@) == spec_issue_type_id(es.take(i as int), name@),
            decreases i,
        {
            i -= 1;
            let ghost t = es.take(i + 1 as int);
            proof {
                assert(t.drop_last() =~= es.take(i as int));
                assert(t.last() == es[i as int]);
            }
            if crate::fields::str_eq_string(name, &self.entries[i].name) {
                assert(spec_issue_type_id(t, name@) == Some(es[i as int].id@));
                return Some(IssueTypeId(self.entries[i].id.clone()));
            }
            assert(spec_issue_type_id(t, name@) == spec_issue_type_id(es.take(i as int), name@));
        }
        proof {
            assert(es.take(0) =~= Seq::<RawIssueType>::empty());
        }
        None
    }

    /// The issue-type id to send for the desired type name: none when no
    /// name is desired or the catalog lacks it (the remote call then
    /// clears the type).
    pub fn resolve(&self, value: &Option<String>) -> (r: Option<IssueTypeId>)
        ensures
            match *value {
                None => r is None,
                Some(n) => match r {
                    Some(id) => spec_issue_type_id(self.entries@, n@) == Some(id@),
                    None => spec_issue_type_id(self.entries@, n@) is None,
                },
            },
    {
        match value {
            Some(n) => self.name_to_id(n.as_str()),
            None => None,
        }
    }
}

// ---------------------------------------------------------------------------
// Describing a change
// ---------------------------------------------------------------------------

/// An option name, or the placeholder for an unknown or absent value.
pub open spec fn name_or_placeholder(n: Option<Seq<char>>) -> Seq<char> {
    match n {
        Some(x) => x,
        None => "<>"@,
    }
}

/// The catalog name of a field value.
pub open spec fn spec_value_name<V>(
    opts: Seq<crate::fields::FieldOptionView<V>>,
    v: Option<Seq<char>>,
) -> Seq<char> {
    match v {
        Some(id) => name_or_placeholder(spec_option_name(opts, id)),
        None => "<>"@,
    }
}

impl Field<SingleSelect> {
    /// The display name of an option id: the option's name, or the
    /// placeholder when the id is absent or unknown.
    fn value_name(&self, v: &Option<FieldOptionId>) -> (r: String)
        ensures
            r@ == spec_value_name(self@.options, crate::ids::opt_option_id_view(*v)),
    {
        match self.option_name(v.as_ref()) {
            Some(n) => n.to_owned(),
            None => String::from_str("<>"),
        }
    }
}

/// The display name of a change's kind.
pub open spec fn spec_kind_name(k: ChangeKind) -> Seq<char> {
    match k {
        ChangeKind::IssueType => "IssueType"@,
        ChangeKind::Status => "Status"@,
        ChangeKind::Blocked => "Blocked"@,
        ChangeKind::Epic => "Epic"@,
        ChangeKind::Iteration => "Iteration"@,
        ChangeKind::Kind => "Kind"@,
        ChangeKind::Workstream => "Workstream"@,
        ChangeKind::Estimate => "Estimate"@,
        ChangeKind::Priority => "Priority"@,
        ChangeKind::SetParent => "SetParent"@,
        ChangeKind::AddToProject => "AddToProject"@,
    }
}

impl Change {
    /// A short human-readable description of the change: its kind and its
    /// new value.
    pub fn describe(&self, fields: &Fields) -> (r: String)
        ensures
            r@ == spec_kind_name(crate::changes::kind_of(self@.data)) + "("@ + spec_new_value_name(
                self@.data,
                fields@,
            ) + ")"@,
    {
        let kind_name = match &self.data {
            ChangeData::IssueType(_) => String::from_str("IssueType"),
            ChangeData::Status(_) => String::from_str("Status"),
            ChangeData::Blocked(_) => String::from_str("Blocked"),
            ChangeData::Epic(_) => String::from_str("Epic"),
            ChangeData::Iteration(_) => String::from_str("Iteration"),
            ChangeData::Kind(_) => String::from_str("Kind"),
            ChangeData::Workstream(_) => String::from_str("Workstream"),
            ChangeData::Estimate(_) => String::from_str("Estimate"),
            ChangeData::Priority(_) => String::from_str("Priority"),
            ChangeData::SetParent(_) => String::from_str("SetParent"),
            ChangeData::AddToProject => String::from_str("AddToProject"),
        };
        let new_value = match &self.data {
            ChangeData::IssueType(v) => match v {
                Some(t) => t.clone(),
                None => String::from_str("<>"),
            },
            ChangeData::Status(v) => fields.status.value_name(v),
            ChangeData::Blocked(v) => fields.blocked.value_name(v),
            ChangeData::Epic(v) => fields.epic.value_name(v),
            ChangeData::Iteration(v) => match v {
                Some(id) => id.0.clone(),
                None => String::from_str("<>"),
            },
            ChangeData::Kind(v) => fields.kind.value_name(v),
            ChangeData::Workstream(v) => fields.workstream.value_name(v),
            ChangeData::Estimate(v) => fields.estimate.value_name(v),
            ChangeData::Priority(v) => fields.priority.value_name(v),
            ChangeData::SetParent(p) => p.0.clone(),
            ChangeData::AddToProject => String::from_str("<>"),
        };
        kind_name.concat("(").concat(new_value.as_str()).concat(")")
    }
}

/// The display name of a change's new value: a catalog name for
/// single-select fields, the raw value elsewhere, the placeholder where
/// there is none.
pub open spec fn spec_new_value_name(d: ChangeDataView, f: crate::fields::FieldsView) -> Seq<
    char,
> {
    match d {
        ChangeDataView::IssueType(v) => name_or_placeholder(v),
        ChangeDataView::Status(v) => spec_value_name(f.status.options, v),
        ChangeDataView::Blocked(v) => spec_value_name(f.blocked.options, v),
        ChangeDataView::Epic(v) => spec_value_name(f.epic.options, v),
        ChangeDataView::Iteration(v) => name_or_placeholder(v),
        ChangeDataView::Kind(v) => spec_value_name(f.kind.options, v),
        ChangeDataView::Workstream(v) => spec_value_name(f.workstream.options, v),
        ChangeDataView::Estimate(v) => spec_value_name(f.estimate.options, v),
        ChangeDataView::Priority(v) => spec_value_name(f.priority.options, v),
        ChangeDataView::SetParent(p) => p,
        ChangeDataView::AddToProject => "<>"@,
    }
}

} // verus!
