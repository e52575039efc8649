//! The wire-shape model: plain-value snapshots of what the remote graph
//! API returns, and their conversion into the entity model and the field
//! catalog.
//!
//! The transport layer decodes responses into these types and hands them
//! over; everything from here on is verified.  A raw custom-field value
//! mirrors the three shapes a field value arrives in; a raw content body
//! mirrors the three kinds of entity.

use vstd::prelude::*;
use vstd::string::StringExecFns;

use crate::delay_load::DelayLoad;
use crate::delay_load::DelayLoadView;
use crate::fields::Field;
use crate::fields::FieldOption;
use crate::fields::FieldOptionView;
use crate::fields::Iteration;
use crate::fields::IterationView;
use crate::fields::SingleSelect;
use crate::ids::ids_view;
use crate::ids::opt_option_id_view;
use crate::ids::FieldId;
use crate::ids::FieldOptionId;
use crate::ids::ProjectItemId;
use crate::ids::WorkItemId;
use crate::work_item::opt_string_view;
use crate::work_item::Issue;
use crate::work_item::IssueState;
use crate::work_item::IssueStateView;
use crate::work_item::ProjectItem;
use crate::work_item::PullRequest;
use crate::work_item::PullRequestState;
use crate::work_item::PullRequestStateView;
use crate::work_item::WorkItem;
use crate::work_item::WorkItemData;
use crate::work_item::WorkItemView;
use crate::work_items::items_map;
use crate::work_items::WorkItems;

verus! {

/// A custom-field value as it arrives: an iteration value, a single-select
/// value (possibly cleared), or some other field type this client does not
/// interpret.
#[derive(Debug)]
pub enum RawCustomField {
    IterationValue { iteration_id: String },
    SingleSelectValue { option_id: Option<String> },
    Other,
}

/// The option id carried by a raw custom-field value, if any.
pub open spec fn spec_field_option_id(f: Option<RawCustomField>) -> Option<Seq<char>> {
    match f {
        Some(RawCustomField::IterationValue { iteration_id }) => Some(iteration_id@),
        Some(RawCustomField::SingleSelectValue { option_id }) => opt_string_view(option_id),
        _ => None,
    }
}

/// Extracts the option id carried by a raw custom-field value.
pub fn get_field_option_id(field: &Option<RawCustomField>) -> (r: Option<FieldOptionId>)
    ensures
        opt_option_id_view(r) == spec_field_option_id(*field),
{
    match field {
        Some(RawCustomField::IterationValue { iteration_id }) => Some(
            FieldOptionId(iteration_id.clone()),
        ),
        Some(RawCustomField::SingleSelectValue { option_id }) => match option_id {
            Some(id) => Some(FieldOptionId(id.clone())),
            None => None,
        },
        _ => None,
    }
}

#[derive(Debug)]
pub enum RawIssueState {
    Open,
    Closed,
    Other(String),
}

#[derive(Debug)]
pub enum RawPullRequestState {
    Open,
    Closed,
    Merged,
    Other(String),
}

/// An entity body as it arrives.
#[derive(Debug)]
#[allow(inconsistent_fields)]
pub enum RawContent {
    DraftIssue { id: String, title: String, updated_at: String },
    Issue {
        id: String,
        title: String,
        updated_at: String,
        resource_path: String,
        repo_name_with_owner: String,
        parent_id: Option<String>,
        issue_type: Option<String>,
        state: RawIssueState,
        sub_issues: Vec<String>,
        tracked_issues: Vec<String>,
        assignees: Vec<String>,
    },
    PullRequest {
        id: String,
        title: String,
        updated_at: String,
        resource_path: String,
        repo_name_with_owner: String,
        state: RawPullRequestState,
        assignees: Vec<String>,
    },
}

/// A project row as it arrives: its row id, timestamps, custom-field
/// values, and possibly its content body.
#[derive(Debug)]
pub struct RawProjectItem {
    pub id: String,
    pub updated_at: String,
    pub status: Option<RawCustomField>,
    pub iteration: Option<RawCustomField>,
    pub blocked: Option<RawCustomField>,
    pub kind: Option<RawCustomField>,
    pub epic: Option<RawCustomField>,
    pub workstream: Option<RawCustomField>,
    pub project_milestone: Option<RawCustomField>,
    pub estimate: Option<RawCustomField>,
    pub priority: Option<RawCustomField>,
    pub content: Option<RawContent>,
}

/// A conversion failure: the shape arrived without the parts the model
/// needs.
#[derive(Debug, Clone, Copy, PartialEq, Eq, Structural)]
pub enum RawError {
    MissingContent,
}

impl RawError {
    /// A short description of the failure.
    pub fn message(&self) -> (r: String)
        ensures
            r@ == "project item without content"@,
    {
        String::from_str("project item without content")
    }
}

pub open spec fn raw_issue_state_view(s: RawIssueState) -> IssueStateView {
    match s {
        RawIssueState::Open => IssueStateView::Open,
        RawIssueState::Closed => IssueStateView::Closed,
        RawIssueState::Other(x) => IssueStateView::Other(x@),
    }
}

pub open spec fn raw_pr_state_view(s: RawPullRequestState) -> PullRequestStateView {
    match s {
        RawPullRequestState::Open => PullRequestStateView::Open,
        RawPullRequestState::Closed => PullRequestStateView::Closed,
        RawPullRequestState::Merged => PullRequestStateView::Merged,
        RawPullRequestState::Other(x) => PullRequestStateView::Other(x@),
    }
}

pub open spec fn strings_seq_view(s: Seq<String>) -> Seq<Seq<char>> {
    s.map_values(|x: String| x@)
}

/// The entity view a raw content body builds, with a blank project item.
pub open spec fn raw_content_view(c: RawContent) -> WorkItemView {
    match c {
        RawContent::DraftIssue { id, title, updated_at } => WorkItemView {
            id: id@,
            title: title@,
            updated_at: updated_at@,
            resource_path: None,
            repo_name_with_owner: None,
            data: crate::work_item::WorkItemDataView::DraftIssue,
            project_item: crate::work_item::blank_project_item_view(),
        },
        RawContent::Issue {
            id,
            title,
            updated_at,
            resource_path,
            repo_name_with_owner,
            parent_id,
            issue_type,
            state,
            sub_issues,
            tracked_issues,
            assignees,
        } => WorkItemView {
            id: id@,
            title: title@,
            updated_at: updated_at@,
            resource_path: Some(resource_path@),
            repo_name_with_owner: Some(repo_name_with_owner@),
            data: crate::work_item::WorkItemDataView::Issue(
                crate::work_item::IssueView {
                    parent_id: opt_string_view(parent_id),
                    issue_type: DelayLoadView::Loaded(opt_string_view(issue_type)),
                    state: DelayLoadView::Loaded(raw_issue_state_view(state)),
                    sub_issues: strings_seq_view(sub_issues@),
                    tracked_issues: DelayLoadView::Loaded(strings_seq_view(tracked_issues@)),
                    assignees: strings_seq_view(assignees@),
                },
            ),
            project_item: crate::work_item::blank_project_item_view(),
        },
        RawContent::PullRequest {
            id,
            title,
            updated_at,
            resource_path,
            repo_name_with_owner,
            state,
            assignees,
        } => WorkItemView {
            id: id@,
            title: title@,
            updated_at: updated_at@,
            resource_path: Some(resource_path@),
            repo_name_with_owner: Some(repo_name_with_owner@),
            data: crate::work_item::WorkItemDataView::PullRequest(
                crate::work_item::PullRequestView {
                    state: DelayLoadView::Loaded(raw_pr_state_view(state)),
                    assignees: strings_seq_view(assignees@),
                },
            ),
            project_item: crate::work_item::blank_project_item_view(),
        },
    }
}

/// Turns a list of raw ids into work-item ids, order kept.
fn build_ids_from_strings(ids: &Vec<String>) -> (r: Vec<WorkItemId>)
    ensures
        ids_view(r@) == strings_seq_view(ids@),
{
    let mut r: Vec<WorkItemId> = Vec::new();
    let mut i: usize = 0;
    while i < ids.len()
        invariant
            i <= ids.len(),
            r.len() == i,
            forall|j: int| 0 <= j < i ==> ids_view(r@)[j] == strings_seq_view(ids@)[j],
        decreases ids.len() - i,
    {
        r.push(WorkItemId(ids[i].clone()));
        i += 1;
    }
    assert(ids_view(r@) =~= strings_seq_view(ids@));
    r
}

/// Builds the entity body from raw content; the shape must hold content.
pub fn build_work_item(content: Option<RawContent>) -> (r: Result<WorkItem, RawError>)
    ensures
        match r {
            Ok(w) => content is Some && w@ == raw_content_view(content->0),
            Err(e) => content is None && e == RawError::MissingContent,
        },
{
    let content = match content {
        Some(c) => c,
        None => {
            return Err(RawError::MissingContent);
        },
    };
    let ghost cg = content;
    match content {
        RawContent::DraftIssue { id, title, updated_at } => {
            let r = WorkItem {
                id: WorkItemId(id),
                title,
                updated_at,
                resource_path: None,
                repo_name_with_owner: None,
                data: WorkItemData::DraftIssue,
                project_item: ProjectItem::default(),
            };
            proof {
                assert(r@ =~= raw_content_view(cg));
            }
            Ok(r)
        },
        RawContent::Issue {
            id,
            title,
            updated_at,
            resource_path,
            repo_name_with_owner,
            parent_id,
            issue_type,
            state,
            sub_issues,
            tracked_issues,
            assignees,
        } => {
            let r = WorkItem {
                id: WorkItemId(id),
                title,
                updated_at,
                resource_path: Some(resource_path),
                repo_name_with_owner: Some(repo_name_with_owner),
                data: WorkItemData::Issue(
                    Issue {
                        parent_id: match parent_id {
                            Some(p) => Some(WorkItemId(p)),
                            None => None,
                        },
                        issue_type: DelayLoad::Loaded(issue_type),
                        state: DelayLoad::Loaded(
                            match state {
                                RawIssueState::Open => IssueState::OPEN,
                                RawIssueState::Closed => IssueState::CLOSED,
                                RawIssueState::Other(x) => IssueState::Other(x),
                            },
                        ),
                        sub_issues: build_ids_from_strings(&sub_issues),
                        tracked_issues: DelayLoad::Loaded(build_ids_from_strings(&tracked_issues)),
                        assignees,
                    },
                ),
                project_item: ProjectItem::default(),
            };
            proof {
                assert(r@ =~= raw_content_view(cg));
            }
            Ok(r)
        },
        RawContent::PullRequest {
            id,
            title,
            updated_at,
            resource_path,
            repo_name_with_owner,
            state,
            assignees,
        } => {
            let r = WorkItem {
                id: WorkItemId(id),
                title,
                updated_at,
                resource_path: Some(resource_path),
                repo_name_with_owner: Some(repo_name_with_owner),
                data: WorkItemData::PullRequest(
                    PullRequest {
                        state: DelayLoad::Loaded(
                            match state {
                                RawPullRequestState::Open => PullRequestState::OPEN,
                                RawPullRequestState::Closed => PullRequestState::CLOSED,
                                RawPullRequestState::Merged => PullRequestState::MERGED,
                                RawPullRequestState::Other(x) => PullRequestState::Other(x),
                            },
                        ),
                        assignees,
                    },
                ),
                project_item: ProjectItem::default(),
            };
            proof {
                assert(r@ =~= raw_content_view(cg));
            }
            Ok(r)
        },
    }
}

/// The project item a raw row carries.
pub open spec fn raw_project_item_view(item: RawProjectItem) -> crate::work_item::ProjectItemView {
    crate::work_item::ProjectItemView {
        id: item.id@,
        database_id: None,
        updated_at: item.updated_at@,
        status: spec_field_option_id(item.status),
        iteration: DelayLoadView::Loaded(spec_field_option_id(item.iteration)),
        blocked: DelayLoadView::Loaded(spec_field_option_id(item.blocked)),
        kind: DelayLoadView::Loaded(spec_field_option_id(item.kind)),
        epic: spec_field_option_id(item.epic),
        workstream: DelayLoadView::Loaded(spec_field_option_id(item.workstream)),
        project_milestone: DelayLoadView::Loaded(spec_field_option_id(item.project_milestone)),
        estimate: spec_field_option_id(item.estimate),
        priority: spec_field_option_id(item.priority),
    }
}

/// The full entity view a raw row builds.
pub open spec fn raw_item_view(item: RawProjectItem) -> WorkItemView {
    WorkItemView { project_item: raw_project_item_view(item), ..raw_content_view(item.content->0) }
}

impl WorkItems {
    /// Builds the store from raw rows, in arrival order.  Succeeds exactly
    /// when every row holds content; the store then lists the rows' entity
    /// ids in order and maps each id to its built entity.
    pub fn from_graphql(items: Vec<RawProjectItem>) -> (r: Result<WorkItems, RawError>)
        ensures
            match r {
                Ok(w) => {
                    &&& forall|i: int| 0 <= i < items@.len() ==> (#[trigger] items@[i]).content is Some
                    &&& w@.order == items@.map_values(|it: RawProjectItem| raw_item_view(it).id)
                    &&& w@.map == items_map(items@.map_values(|it: RawProjectItem| raw_item_view(it)))
                },
                Err(e) => {
                    &&& exists|i: int| 0 <= i < items@.len() && (#[trigger] items@[i]).content is None
                    &&& e == RawError::MissingContent
                },
            },
    {
        let ghost ivs = items@.map_values(|it: RawProjectItem| raw_item_view(it));
        let mut work_items = WorkItems::new();
        let mut idx: usize = 0;
        proof {
            assert(ivs.take(0) =~= Seq::<WorkItemView>::empty());
            assert(work_items@.order =~= ivs.take(0).map_values(|w: WorkItemView| w.id));
        }
        while idx < items.len()
            invariant
                idx <= items.len(),
                ivs == items@.map_values(|it: RawProjectItem| raw_item_view(it)),
                forall|i: int| 0 <= i < idx ==> (#[trigger] items@[i]).content is Some,
                work_items@.order == ivs.take(idx as int).map_values(|w: WorkItemView| w.id),
                work_items@.map == items_map(ivs.take(idx as int)),
            decreases items.len() - idx,
        {
            let item = &items[idx];
            let status = get_field_option_id(&item.status);
            let iteration = get_field_option_id(&item.iteration);
            let blocked = get_field_option_id(&item.blocked);
            let kind = get_field_option_id(&item.kind);
            let epic = get_field_option_id(&item.epic);
            let workstream = get_field_option_id(&item.workstream);
            let project_milestone = get_field_option_id(&item.project_milestone);
            let estimate = get_field_option_id(&item.estimate);
            let priority = get_field_option_id(&item.priority);

            let project_item = ProjectItem {
                id: ProjectItemId(item.id.clone()),
                database_id: None,
                updated_at: item.updated_at.clone(),
                status,
                iteration: DelayLoad::Loaded(iteration),
                blocked: DelayLoad::Loaded(blocked),
                kind: DelayLoad::Loaded(kind),
                epic,
                workstream: DelayLoad::Loaded(workstream),
                project_milestone: DelayLoad::Loaded(project_milestone),
                estimate,
                priority,
            };

            let content = clone_content(&item.content);
            let mut built = match build_work_item(content) {
                Ok(w) => w,
                Err(e) => {
                    assert(items@[idx as int].content is None);
                    return Err(e);
                },
            };
            built.project_item = project_item;
            proof {
                assert(built@ =~= raw_item_view(items@[idx as int]));
                assert(built@ == ivs[idx as int]);
            }
            work_items.add(built);
            proof {
                assert(ivs.take(idx + 1 as int).drop_last() =~= ivs.take(idx as int));
                assert(ivs.take(idx + 1 as int).last() == ivs[idx as int]);
                assert(work_items@.order =~= ivs.take(idx + 1 as int).map_values(
                    |w: WorkItemView| w.id,
                ));
            }
            idx += 1;
        }
        proof {
            assert(ivs.take(items.len() as int) =~= ivs);
        }
        Ok(work_items)
    }
}

/// A store built from raw rows is ready for the sanitizer: every entity
/// arrives with its state fetched, and every issue with its kind and
/// issue type fetched.
pub proof fn lemma_from_graphql_sanitize_ready(items: Seq<RawProjectItem>)
    requires
        forall|i: int| 0 <= i < items.len() ==> (#[trigger] items[i]).content is Some,
    ensures
        crate::sanitize::sanitize_ready(
            items_map(items.map_values(|it: RawProjectItem| raw_item_view(it))),
        ),
{
    let vs = items.map_values(|it: RawProjectItem| raw_item_view(it));
    let m = items_map(vs);
    assert forall|k: Seq<char>| #[trigger]
        m.contains_key(k) implies crate::work_item::closed_state(m[k].data) is Loaded && (
    m[k].data is Issue ==> m[k].project_item.kind is Loaded
        && m[k].data->Issue_0.issue_type is Loaded) by {
        crate::work_items::lemma_items_map_value_exists(vs, k);
        let i = choose|i: int| 0 <= i < vs.len() && vs[i] == m[k];
        assert(vs[i] == raw_item_view(items[i]));
    }
}

fn clone_strings_local(v: &Vec<String>) -> (r: Vec<String>)
    ensures
        strings_seq_view(r@) == strings_seq_view(v@),
{
    crate::ids::clone_strings(v)
}

/// Clones a raw content body, preserving its view.
fn clone_content(c: &Option<RawContent>) -> (r: Option<RawContent>)
    ensures
        r is Some <==> *c is Some,
        r is Some ==> raw_content_view(r->0) == raw_content_view(c->0),
{
    match c {
        None => None,
        Some(RawContent::DraftIssue { id, title, updated_at }) => {
            let r = RawContent::DraftIssue {
                id: id.clone(),
                title: title.clone(),
                updated_at: updated_at.clone(),
            };
            proof {
                assert(raw_content_view(r) =~= raw_content_view(c->0));
            }
            Some(r)
        },
        Some(
            RawContent::Issue {
                id,
                title,
                updated_at,
                resource_path,
                repo_name_with_owner,
                parent_id,
                issue_type,
                state,
                sub_issues,
                tracked_issues,
                assignees,
            },
        ) => {
            let r = RawContent::Issue {
                id: id.clone(),
                title: title.clone(),
                updated_at: updated_at.clone(),
                resource_path: resource_path.clone(),
                repo_name_with_owner: repo_name_with_owner.clone(),
                parent_id: match parent_id {
                    Some(p) => Some(p.clone()),
                    None => None,
                },
                issue_type: match issue_type {
                    Some(t) => Some(t.clone()),
                    None => None,
                },
                state: match state {
                    RawIssueState::Open => RawIssueState::Open,
                    RawIssueState::Closed => RawIssueState::Closed,
                    RawIssueState::Other(x) => RawIssueState::Other(x.clone()),
                },
                sub_issues: clone_strings_local(sub_issues),
                tracked_issues: clone_strings_local(tracked_issues),
                assignees: clone_strings_local(assignees),
            };
            proof {
                assert(raw_content_view(r) =~= raw_content_view(c->0));
            }
            Some(r)
        },
        Some(
            RawContent::PullRequest {
                id,
                title,
                updated_at,
                resource_path,
                repo_name_with_owner,
                state,
                assignees,
            },
        ) => {
            let r = RawContent::PullRequest {
                id: id.clone(),
                title: title.clone(),
                updated_at: updated_at.clone(),
                resource_path: resource_path.clone(),
                repo_name_with_owner: repo_name_with_owner.clone(),
                state: match state {
                    RawPullRequestState::Open => RawPullRequestState::Open,
                    RawPullRequestState::Closed => RawPullRequestState::Closed,
                    RawPullRequestState::Merged => RawPullRequestState::Merged,
                    RawPullRequestState::Other(x) => RawPullRequestState::Other(x.clone()),
                },
                assignees: clone_strings_local(assignees),
            };
            proof {
                assert(raw_content_view(r) =~= raw_content_view(c->0));
            }
            Some(r)
        },
    }
}

/// A node carrying an entity id.
pub trait HasContentId {
    /// The carried id.
    spec fn spec_id(&self) -> Seq<char>;

    /// Hands the carried id out as a work-item id.
    fn id(&self) -> (r: WorkItemId)
        ensures
            r@ == self.spec_id(),
    ;
}

/// A raw node that holds nothing but an entity id.
#[derive(Debug)]
pub struct RawIdNode {
    pub id: String,
}

impl HasContentId for RawIdNode {
    open spec fn spec_id(&self) -> Seq<char> {
        self.id@
    }

    fn id(&self) -> (r: WorkItemId) {
        WorkItemId(self.id.clone())
    }
}

/// The ids carried by the present nodes, in order.
pub open spec fn spec_id_vector<T: HasContentId>(nodes: Option<Seq<Option<T>>>) -> Seq<Seq<char>> {
    match nodes {
        None => Seq::empty(),
        Some(ns) => ns.filter(|n: Option<T>| n is Some).map_values(
            |n: Option<T>| n->0.spec_id(),
        ),
    }
}

/// Collects the ids of the present nodes, in order; an absent list yields
/// no ids.
pub fn build_issue_id_vector<T: HasContentId>(nodes: Option<Vec<Option<T>>>) -> (r: Vec<
    WorkItemId,
>)
    ensures
        ids_view(r@) == spec_id_vector(
            match nodes {
                Some(ns) => Some(ns@),
                None => None,
            },
        ),
{
    let ghost pred = |n: Option<T>| n is Some;
    match nodes {
        None => {
            let r: Vec<WorkItemId> = Vec::new();
            assert(ids_view(r@) =~= spec_id_vector(None::<Seq<Option<T>>>));
            r
        },
        Some(ns) => {
            let mut r: Vec<WorkItemId> = Vec::new();
            let mut i: usize = 0;
            proof {
                assert(ns@.take(0) =~= Seq::<Option<T>>::empty());
                assert(ids_view(r@) =~= ns@.take(0).filter(pred).map_values(
                    |n: Option<T>| n->0.spec_id(),
                ));
            }
            while i < ns.len()
                invariant
                    i <= ns.len(),
                    pred == (|n: Option<T>| n is Some),
                    ids_view(r@) == ns@.take(i as int).filter(pred).map_values(
                        |n: Option<T>| n->0.spec_id(),
                    ),
                decreases ns.len() - i,
            {
                let ghost t1 = ns@.take(i as int);
                let ghost t2 = ns@.take(i + 1 as int);
                proof {
                    assert(t2.drop_last() =~= t1);
                    assert(t2.last() == ns@[i as int]);
                    reveal_with_fuel(Seq::filter, 2);
                }
                match &ns[i] {
                    Some(n) => {
                        let ghost before = ids_view(r@);
                        let nid = n.id();
                        r.push(nid);
                        proof {
                            assert(pred(t2.last()));
                            assert(t2.filter(pred) =~= t1.filter(pred).push(t2.last()));
                            assert(ids_view(r@) =~= before.push(t2.last()->0.spec_id()));
                            assert(t1.filter(pred).push(t2.last()).map_values(
                                |n: Option<T>| n->0.spec_id(),
                            ) =~= t1.filter(pred).map_values(|n: Option<T>| n->0.spec_id()).push(
                                t2.last()->0.spec_id(),
                            ));
                            assert(ids_view(r@) =~= t2.filter(pred).map_values(
                                |n: Option<T>| n->0.spec_id(),
                            ));
                        }
                    },
                    None => {
                        proof {
                            assert(!pred(t2.last()));
                            assert(t2.filter(pred) =~= t1.filter(pred));
                        }
                    },
                }
                i += 1;
            }
            proof {
                assert(ns@.take(ns.len() as int) =~= ns@);
            }
            r
        },
    }
}

// ---------------------------------------------------------------------------
// Field catalog conversion
// ---------------------------------------------------------------------------

/// One iteration of an iteration field's configuration, as it arrives.
#[derive(Debug)]
pub struct RawIterationCfg {
    pub id: String,
    pub title: String,
    pub start_date: String,
    pub duration: i64,
}

/// One option of a single-select field, as it arrives.
#[derive(Debug)]
pub struct RawSelectOption {
    pub id: String,
    pub name: String,
}

/// A field's configuration as it arrives: a plain field (which this client
/// does not use), an iteration field, or a single-select field.
#[derive(Debug)]
pub enum RawFieldConfig {
    Field,
    IterationField {
        id: String,
        name: String,
        iterations: Vec<RawIterationCfg>,
        completed_iterations: Vec<RawIterationCfg>,
    },
    SingleSelectField { id: String, name: String, options: Vec<RawSelectOption> },
}

/// A field-catalog conversion failure.
#[derive(Debug, Clone, Copy, PartialEq, Eq, Structural)]
pub enum FieldConfigError {
    Missing,
    WrongKind,
}

impl FieldConfigError {
    /// A short description of the failure.
    pub fn message(&self) -> (r: String)
        ensures
            (*self is Missing ==> r@ == "field missing"@) && (*self is WrongKind ==> r@
                == "field has an unexpected type"@),
    {
        match self {
            FieldConfigError::Missing => String::from_str("field missing"),
            FieldConfigError::WrongKind => String::from_str("field has an unexpected type"),
        }
    }
}

pub open spec fn select_options_view(opts: Seq<RawSelectOption>) -> Seq<
    FieldOptionView<SingleSelect>,
> {
    opts.map_values(
        |o: RawSelectOption|
            FieldOptionView { id: o.id@, value: o.name@, data: SingleSelect {  } },
    )
}

impl Field<SingleSelect> {
    /// Builds a single-select catalog field from its raw configuration;
    /// any other configuration kind is refused.
    pub fn from_raw_single_select(config: Option<RawFieldConfig>) -> (r: Result<
        Field<SingleSelect>,
        FieldConfigError,
    >)
        ensures
            match r {
                Ok(f) => {
                    &&& config is Some
                    &&& config->0 is SingleSelectField
                    &&& f@.id == config->0->SingleSelectField_id@
                    &&& f@.name == config->0->SingleSelectField_name@
                    &&& f@.options == select_options_view(config->0->SingleSelectField_options@)
                },
                Err(e) => {
                    &&& (config is None <==> e == FieldConfigError::Missing)
                    &&& (config is Some ==> !(config->0 is SingleSelectField) && e
                        == FieldConfigError::WrongKind)
                },
            },
    {
        let config = match config {
            Some(c) => c,
            None => {
                return Err(FieldConfigError::Missing);
            },
        };
        match config {
            RawFieldConfig::SingleSelectField { id, name, options } => {
                let ghost og = options@;
                let mut opts: Vec<FieldOption<SingleSelect>> = Vec::new();
                let mut i: usize = 0;
                while i < options.len()
                    invariant
                        i <= options.len(),
                        opts.len() == i,
                        og == options@,
                        forall|j: int|
                            0 <= j < i ==> (#[trigger] opts@[j])@ == select_options_view(og)[j],
                    decreases options.len() - i,
                {
                    opts.push(
                        FieldOption {
                            id: FieldOptionId(options[i].id.clone()),
                            value: options[i].name.clone(),
                            data: SingleSelect,
                        },
                    );
                    i += 1;
                }
                let f = Field { id: FieldId(id), name, options: opts };
                proof {
                    assert(f@.options =~= select_options_view(og));
                }
                Ok(f)
            },
            _ => Err(FieldConfigError::WrongKind),
        }
    }
}

pub open spec fn iteration_option_view(o: RawIterationCfg) -> FieldOptionView<IterationView> {
    FieldOptionView {
        id: o.id@,
        value: o.title@,
        data: IterationView { start_date: o.start_date@, duration: o.duration },
    }
}

pub open spec fn iteration_options_view(opts: Seq<RawIterationCfg>) -> Seq<
    FieldOptionView<IterationView>,
> {
    opts.map_values(|o: RawIterationCfg| iteration_option_view(o))
}

/// Whether byte sequence `a` sorts at or before `b`, bytewise.
pub open spec fn bytes_leq(a: Seq<u8>, b: Seq<u8>) -> bool
    decreases a.len(),
{
    if a.len() == 0 {
        true
    } else if b.len() == 0 {
        false
    } else if a[0] < b[0] {
        true
    } else if a[0] > b[0] {
        false
    } else {
        bytes_leq(a.drop_first(), b.drop_first())
    }
}

/// Whether `a` sorts at or before `b` by title bytes.
fn title_leq(a: &FieldOption<Iteration>, b: &FieldOption<Iteration>) -> (r: bool)
    ensures
        r == bytes_leq(vstd::utf8::encode_utf8(a.value@), vstd::utf8::encode_utf8(b.value@)),
{
    let ab = a.value.as_str().as_bytes();
    let bb = b.value.as_str().as_bytes();
    let ghost ag = ab@;
    let ghost bg = bb@;
    proof {
        assert(ag == vstd::utf8::encode_utf8(a.value@));
        assert(bg == vstd::utf8::encode_utf8(b.value@));
        assert(ag.skip(0) =~= ag);
        assert(bg.skip(0) =~= bg);
    }
    let mut i: usize = 0;
    while i < ab.len() && i < bb.len()
        invariant
            i <= ab@.len(),
            i <= bb@.len(),
            ab@ == ag,
            bb@ == bg,
            ag == vstd::utf8::encode_utf8(a.value@),
            bg == vstd::utf8::encode_utf8(b.value@),
            bytes_leq(ag, bg) == bytes_leq(ag.skip(i as int), bg.skip(i as int)),
            forall|j: int| 0 <= j < i ==> ag[j] == bg[j],
        decreases ab@.len() - i,
    {
        let x = ab[i];
        let y = bb[i];
        let ghost sa = ag.skip(i as int);
        let ghost sb = bg.skip(i as int);
        proof {
            assert(sa.len() > 0 && sb.len() > 0);
            assert(sa[0] == ag[i as int] && sb[0] == bg[i as int]);
            assert(sa.drop_first() =~= ag.skip(i + 1 as int));
            assert(sb.drop_first() =~= bg.skip(i + 1 as int));
        }
        if x < y {
            return true;
        }
        if x > y {
            return false;
        }
        i += 1;
    }
    proof {
        let sa = ag.skip(i as int);
        let sb = bg.skip(i as int);
        assert(sa.len() == 0 || sb.len() == 0);
    }
    if i >= ab.len() {
        assert(ag.skip(i as int).len() == 0);
        true
    } else {
        assert(bg.skip(i as int).len() == 0 && ag.skip(i as int).len() > 0);
        false
    }
}

/// Merges the current and the completed iterations of an iteration field
/// into one option list, ordered by title; the result holds exactly the
/// iterations of both lists.
pub fn to_iteration_field_options(
    iterations: &Vec<RawIterationCfg>,
    completed_iterations: &Vec<RawIterationCfg>,
) -> (r: Vec<FieldOption<Iteration>>)
    ensures
        r@.map_values(|o: FieldOption<Iteration>| o@).to_multiset() == (iteration_options_view(
            iterations@,
        ) + iteration_options_view(completed_iterations@)).to_multiset(),
{
    broadcast use vstd::seq_lib::group_to_multiset_ensures;

    let ghost goal = iteration_options_view(iterations@) + iteration_options_view(
        completed_iterations@,
    );
    let mut pending: Vec<FieldOption<Iteration>> = Vec::new();
    let mut i: usize = 0;
    while i < iterations.len()
        invariant
            i <= iterations.len(),
            pending.len() == i,
            forall|j: int|
                0 <= j < i ==> (#[trigger] pending@[j])@ == iteration_options_view(iterations@)[j],
        decreases iterations.len() - i,
    {
        pending.push(
            FieldOption {
                id: FieldOptionId(iterations[i].id.clone()),
                value: iterations[i].title.clone(),
                data: Iteration {
                    start_date: iterations[i].start_date.clone(),
                    duration: iterations[i].duration,
                },
            },
        );
        i += 1;
    }
    let mut k: usize = 0;
    while k < completed_iterations.len()
        invariant
            k <= completed_iterations.len(),
            pending.len() == iterations.len() + k,
            forall|j: int|
                0 <= j < iterations@.len() ==> (#[trigger] pending@[j])@ == iteration_options_view(
                    iterations@,
                )[j],
            forall|j: int|
                iterations@.len() <= j < pending@.len() ==> (#[trigger] pending@[j])@
                    == iteration_options_view(completed_iterations@)[j - iterations@.len()],
        decreases completed_iterations.len() - k,
    {
        pending.push(
            FieldOption {
                id: FieldOptionId(completed_iterations[k].id.clone()),
                value: completed_iterations[k].title.clone(),
                data: Iteration {
                    start_date: completed_iterations[k].start_date.clone(),
                    duration: completed_iterations[k].duration,
                },
            },
        );
        k += 1;
    }
    proof {
        assert(pending@.map_values(|o: FieldOption<Iteration>| o@) =~= goal);
    }

    // Selection sort by title: repeatedly move the least remaining title.
    let mut out: Vec<FieldOption<Iteration>> = Vec::new();
    while pending.len() > 0
        invariant
            out@.map_values(|o: FieldOption<Iteration>| o@).to_multiset().add(
                pending@.map_values(|o: FieldOption<Iteration>| o@).to_multiset(),
            ) == goal.to_multiset(),
        decreases pending.len(),
    {
        let mut best: usize = 0;
        let mut j: usize = 1;
        while j < pending.len()
            invariant
                best < pending.len(),
                j <= pending.len(),
            decreases pending.len() - j,
        {
            if title_leq(&pending[j], &pending[best]) {
                best = j;
            }
            j += 1;
        }
        let ghost pv = pending@.map_values(|o: FieldOption<Iteration>| o@);
        let ghost ov = out@.map_values(|o: FieldOption<Iteration>| o@);
        let picked = pending.remove(best);
        out.push(picked);
        proof {
            let pv2 = pending@.map_values(|o: FieldOption<Iteration>| o@);
            let ov2 = out@.map_values(|o: FieldOption<Iteration>| o@);
            assert(pv2 =~= pv.remove(best as int));
            assert(ov2 =~= ov.push(pv[best as int]));
            vstd::seq_lib::to_multiset_remove(pv, best as int);
            vstd::seq_lib::to_multiset_build(ov, pv[best as int]);
            assert(ov2 == ov.push(pv[best as int]));
            assert(ov2.to_multiset() =~= ov.to_multiset().insert(pv[best as int]));
            assert(pv2.to_multiset() =~= pv.to_multiset().remove(pv[best as int]));
            assert(pv.contains(pv[best as int]));
            vstd::seq_lib::to_multiset_contains(pv, pv[best as int]);
            assert(pv.to_multiset().count(pv[best as int]) > 0);
            assert(pv.to_multiset() =~= pv2.to_multiset().insert(pv[best as int]));
            assert(ov2.to_multiset().add(pv2.to_multiset()) =~= ov.to_multiset().add(
                pv.to_multiset(),
            ));
        }
    }
    proof {
        assert(pending@.map_values(|o: FieldOption<Iteration>| o@) =~= Seq::<
            FieldOptionView<IterationView>,
        >::empty());
        assert(out@.map_values(|o: FieldOption<Iteration>| o@).to_multiset() =~= goal.to_multiset());
    }
    out
}

impl Field<Iteration> {
    /// Builds an iteration catalog field from its raw configuration; any
    /// other configuration kind is refused.  The options merge the current
    /// and the completed iterations.
    pub fn from_raw_iteration(config: Option<RawFieldConfig>) -> (r: Result<
        Field<Iteration>,
        FieldConfigError,
    >)
        ensures
            match r {
                Ok(f) => {
                    &&& config is Some
                    &&& config->0 is IterationField
                    &&& f@.id == config->0->IterationField_id@
                    &&& f@.name == config->0->IterationField_name@
                    &&& f@.options.to_multiset() == (iteration_options_view(
                        config->0->IterationField_iterations@,
                    ) + iteration_options_view(
                        config->0->IterationField_completed_iterations@,
                    )).to_multiset()
                },
                Err(e) => {
                    &&& (config is None <==> e == FieldConfigError::Missing)
                    &&& (config is Some ==> !(config->0 is IterationField) && e
                        == FieldConfigError::WrongKind)
                },
            },
    {
        let config = match config {
            Some(c) => c,
            None => {
                return Err(FieldConfigError::Missing);
            },
        };
        match config {
            RawFieldConfig::IterationField { id, name, iterations, completed_iterations } => {
                let opts = to_iteration_field_options(&iterations, &completed_iterations);
                let f = Field { id: FieldId(id), name, options: opts };
                proof {
                    assert(f@.options =~= opts@.map_values(|o: FieldOption<Iteration>| o@));
                }
                Ok(f)
            },
            _ => Err(FieldConfigError::WrongKind),
        }
    }
}

} // verus!
