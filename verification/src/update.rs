//! The update classifier.
//!
//! Given the cached and the freshly fetched snapshot of one entity, it
//! decides whether the change is invisible, a cheap single-node patch, or
//! one that forces the consumer to recompute the displayed hierarchy.  The
//! severity order is total: `NoUpdate < SimpleChange < ChangesHierarchy`,
//! and a batch's severity is the maximum over its entities.

use vstd::prelude::*;

use crate::ids::ids_eq;
use crate::ids::opt_id_eq;
use crate::ids::opt_option_id_eq;
use crate::ids::strings_eq;
use crate::delay_load::DelayLoad;
use crate::work_item::field_value_eq;
use crate::work_item::opt_string_eq;
use crate::work_item::Issue;
use crate::work_item::IssueView;
use crate::work_item::ProjectItem;
use crate::work_item::ProjectItemView;
use crate::work_item::PullRequest;
use crate::work_item::PullRequestView;
use crate::work_item::WorkItem;
use crate::work_item::WorkItemData;
use crate::work_item::WorkItemDataView;
use crate::work_item::WorkItemView;
use crate::work_items::WorkItems;

verus! {

#[derive(Debug, Clone, Copy, PartialEq, Eq, Structural)]
pub enum UpdateType {
    NoUpdate,
    SimpleChange,
    ChangesHierarchy,
}

/// The severity rank of an update class.
pub open spec fn rank(u: UpdateType) -> int {
    match u {
        UpdateType::NoUpdate => 0,
        UpdateType::SimpleChange => 1,
        UpdateType::ChangesHierarchy => 2,
    }
}

/// The more severe of two update classes.
pub open spec fn spec_max_update(a: UpdateType, b: UpdateType) -> UpdateType {
    if rank(a) >= rank(b) {
        a
    } else {
        b
    }
}

impl UpdateType {
    /// The more severe of two update classes.
    pub fn max_update(self, other: UpdateType) -> (r: UpdateType)
        ensures
            r == spec_max_update(self, other),
    {
        match (self, other) {
            (UpdateType::ChangesHierarchy, _) => UpdateType::ChangesHierarchy,
            (_, UpdateType::ChangesHierarchy) => UpdateType::ChangesHierarchy,
            (UpdateType::SimpleChange, _) => UpdateType::SimpleChange,
            (_, UpdateType::SimpleChange) => UpdateType::SimpleChange,
            _ => UpdateType::NoUpdate,
        }
    }
}

// ---------------------------------------------------------------------------
// Classification
// ---------------------------------------------------------------------------

/// Severity of a project-item change: its id and timestamp are cosmetic;
/// every custom-field value may be used for grouping or filtering, so a
/// change there forces a hierarchy refresh.
pub open spec fn classify_project_item(o: ProjectItemView, n: ProjectItemView) -> UpdateType {
    if o.database_id != n.database_id || o.status != n.status || o.iteration != n.iteration
        || o.blocked != n.blocked || o.kind != n.kind || o.epic != n.epic || o.workstream
        != n.workstream || o.project_milestone != n.project_milestone || o.estimate != n.estimate
        || o.priority != n.priority {
        UpdateType::ChangesHierarchy
    } else if o.id != n.id || o.updated_at != n.updated_at {
        UpdateType::SimpleChange
    } else {
        UpdateType::NoUpdate
    }
}

/// Severity of an issue change: only the tracked-issues list is cosmetic
/// (it does not affect the displayed tree); parent, state, type,
/// sub-issues and assignees shape the hierarchy.
pub open spec fn classify_issue(o: IssueView, n: IssueView) -> UpdateType {
    if o.parent_id != n.parent_id || o.issue_type != n.issue_type || o.state != n.state
        || o.sub_issues != n.sub_issues || o.assignees != n.assignees {
        UpdateType::ChangesHierarchy
    } else if o.tracked_issues != n.tracked_issues {
        UpdateType::SimpleChange
    } else {
        UpdateType::NoUpdate
    }
}

/// Severity of a pull-request change.
pub open spec fn classify_pull_request(o: PullRequestView, n: PullRequestView) -> UpdateType {
    if o.state != n.state || o.assignees != n.assignees {
        UpdateType::ChangesHierarchy
    } else {
        UpdateType::NoUpdate
    }
}

/// Severity of an entity-body change; changing the kind of entity always
/// forces a hierarchy refresh.
pub open spec fn classify_data(o: WorkItemDataView, n: WorkItemDataView) -> UpdateType {
    match (o, n) {
        (WorkItemDataView::DraftIssue, WorkItemDataView::DraftIssue) => UpdateType::NoUpdate,
        (WorkItemDataView::Issue(oi), WorkItemDataView::Issue(ni)) => classify_issue(oi, ni),
        (WorkItemDataView::PullRequest(op), WorkItemDataView::PullRequest(np)) => (
        classify_pull_request(op, np)),
        _ => UpdateType::ChangesHierarchy,
    }
}

/// Severity of a whole-entity change: the maximum severity over all
/// changed fields.
pub open spec fn classify_item(o: WorkItemView, n: WorkItemView) -> UpdateType {
    let cosmetic = if o.id != n.id || o.title != n.title || o.updated_at != n.updated_at
        || o.resource_path != n.resource_path {
        UpdateType::SimpleChange
    } else {
        UpdateType::NoUpdate
    };
    let repo = if o.repo_name_with_owner != n.repo_name_with_owner {
        UpdateType::ChangesHierarchy
    } else {
        UpdateType::NoUpdate
    };
    spec_max_update(
        spec_max_update(spec_max_update(cosmetic, repo), classify_data(o.data, n.data)),
        classify_project_item(o.project_item, n.project_item),
    )
}

/// Classifies a project-item snapshot pair.
pub fn get_project_item_update_type(o: &ProjectItem, n: &ProjectItem) -> (r: UpdateType)
    ensures
        r == classify_project_item(o@, n@),
{
    if !opt_string_eq(&o.database_id, &n.database_id) || !opt_option_id_eq(&o.status, &n.status)
        || !field_value_eq(&o.iteration, &n.iteration) || !field_value_eq(&o.blocked, &n.blocked)
        || !field_value_eq(&o.kind, &n.kind) || !opt_option_id_eq(&o.epic, &n.epic)
        || !field_value_eq(&o.workstream, &n.workstream) || !field_value_eq(
        &o.project_milestone,
        &n.project_milestone,
    ) || !opt_option_id_eq(&o.estimate, &n.estimate) || !opt_option_id_eq(&o.priority, &n.priority) {
        UpdateType::ChangesHierarchy
    } else if !(o.id == n.id) || !(o.updated_at == n.updated_at) {
        UpdateType::SimpleChange
    } else {
        UpdateType::NoUpdate
    }
}

/// Classifies an issue snapshot pair.
pub fn get_issue_update_type(o: &Issue, n: &Issue) -> (r: UpdateType)
    ensures
        r == classify_issue(o@, n@),
{
    let tracked_same = match (&o.tracked_issues, &n.tracked_issues) {
        (DelayLoad::NotLoaded, DelayLoad::NotLoaded) => true,
        (DelayLoad::Loaded(a), DelayLoad::Loaded(b)) => ids_eq(a, b),
        _ => false,
    };
    let type_same = match (&o.issue_type, &n.issue_type) {
        (DelayLoad::NotLoaded, DelayLoad::NotLoaded) => true,
        (DelayLoad::Loaded(a), DelayLoad::Loaded(b)) => opt_string_eq(a, b),
        _ => false,
    };
    let state_same = match (&o.state, &n.state) {
        (DelayLoad::NotLoaded, DelayLoad::NotLoaded) => true,
        (DelayLoad::Loaded(a), DelayLoad::Loaded(b)) => *a == *b,
        _ => false,
    };
    if !opt_id_eq(&o.parent_id, &n.parent_id) || !type_same || !state_same || !ids_eq(
        &o.sub_issues,
        &n.sub_issues,
    ) || !strings_eq(&o.assignees, &n.assignees) {
        UpdateType::ChangesHierarchy
    } else if !tracked_same {
        UpdateType::SimpleChange
    } else {
        UpdateType::NoUpdate
    }
}

/// Classifies a pull-request snapshot pair.
pub fn get_pull_request_update_type(o: &PullRequest, n: &PullRequest) -> (r: UpdateType)
    ensures
        r == classify_pull_request(o@, n@),
{
    let state_same = match (&o.state, &n.state) {
        (DelayLoad::NotLoaded, DelayLoad::NotLoaded) => true,
        (DelayLoad::Loaded(a), DelayLoad::Loaded(b)) => *a == *b,
        _ => false,
    };
    if !state_same || !strings_eq(&o.assignees, &n.assignees) {
        UpdateType::ChangesHierarchy
    } else {
        UpdateType::NoUpdate
    }
}

/// Classifies an entity-body snapshot pair.
pub fn get_work_item_data_update_type(o: &WorkItemData, n: &WorkItemData) -> (r: UpdateType)
    ensures
        r == classify_data(o@, n@),
{
    match (o, n) {
        (WorkItemData::DraftIssue, WorkItemData::DraftIssue) => UpdateType::NoUpdate,
        (WorkItemData::Issue(oi), WorkItemData::Issue(ni)) => get_issue_update_type(oi, ni),
        (WorkItemData::PullRequest(op), WorkItemData::PullRequest(np)) => (
        get_pull_request_update_type(op, np)),
        _ => UpdateType::ChangesHierarchy,
    }
}

/// Classifies a whole-entity snapshot pair: the maximum severity over all
/// changed fields.
pub fn get_work_item_update_type(o: &WorkItem, n: &WorkItem) -> (r: UpdateType)
    ensures
        r == classify_item(o@, n@),
{
    let cosmetic = if !(o.id == n.id) || !(o.title == n.title) || !(o.updated_at == n.updated_at)
        || !opt_string_eq(&o.resource_path, &n.resource_path) {
        UpdateType::SimpleChange
    } else {
        UpdateType::NoUpdate
    };
    let repo = if !opt_string_eq(&o.repo_name_with_owner, &n.repo_name_with_owner) {
        UpdateType::ChangesHierarchy
    } else {
        UpdateType::NoUpdate
    };
    cosmetic.max_update(repo).max_update(get_work_item_data_update_type(&o.data, &n.data))
        .max_update(get_project_item_update_type(&o.project_item, &n.project_item))
}

impl WorkItems {
    /// Overwrites the stored snapshot of one entity in place and classifies
    /// the change against the previous snapshot.  A brand-new entity (no
    /// prior snapshot) unconditionally forces a hierarchy refresh.
    pub fn update(&mut self, item: WorkItem) -> (r: UpdateType)
        ensures
            final(self)@.order == old(self)@.order,
            final(self)@.map == old(self)@.map.insert(item@.id, item@),
            r == if old(self)@.map.contains_key(item@.id) {
                classify_item(old(self)@.map[item@.id], item@)
            } else {
                UpdateType::ChangesHierarchy
            },
    {
        let new_item = item.clone();
        let old_item = self.upsert(item);
        match old_item {
            Some(o) => get_work_item_update_type(&o, &new_item),
            None => UpdateType::ChangesHierarchy,
        }
    }
}

// ---------------------------------------------------------------------------
// Laws of classification
// ---------------------------------------------------------------------------

/// An unchanged snapshot classifies as no update.
pub proof fn lemma_classify_equal(o: WorkItemView, n: WorkItemView)
    requires
        o == n,
    ensures
        classify_item(o, n) == UpdateType::NoUpdate,
{
}

/// A change to the tracked-issues list alone is a simple change: it does
/// not affect the displayed tree.
pub proof fn lemma_classify_tracked_only(
    o: WorkItemView,
    t: crate::delay_load::DelayLoadView<Seq<Seq<char>>>,
)
    requires
        o.data is Issue,
        t != o.data->Issue_0.tracked_issues,
    ensures
        classify_item(
            o,
            WorkItemView {
                data: WorkItemDataView::Issue(IssueView { tracked_issues: t, ..o.data->Issue_0 }),
                ..o
            },
        ) == UpdateType::SimpleChange,
{
}

/// A change to the sub-issue list forces a hierarchy refresh.
pub proof fn lemma_classify_sub_issues(o: WorkItemView, n: WorkItemView)
    requires
        o.data is Issue,
        n.data is Issue,
        o.data->Issue_0.sub_issues != n.data->Issue_0.sub_issues,
    ensures
        classify_item(o, n) == UpdateType::ChangesHierarchy,
{
}

/// A change to the parent edge forces a hierarchy refresh.
pub proof fn lemma_classify_parent(o: WorkItemView, n: WorkItemView)
    requires
        o.data is Issue,
        n.data is Issue,
        o.data->Issue_0.parent_id != n.data->Issue_0.parent_id,
    ensures
        classify_item(o, n) == UpdateType::ChangesHierarchy,
{
}

/// A change to the issue state forces a hierarchy refresh.
pub proof fn lemma_classify_state(o: WorkItemView, n: WorkItemView)
    requires
        o.data is Issue,
        n.data is Issue,
        o.data->Issue_0.state != n.data->Issue_0.state,
    ensures
        classify_item(o, n) == UpdateType::ChangesHierarchy,
{
}

} // verus!
