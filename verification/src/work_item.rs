//! The work-item entity model.
//!
//! A `WorkItem` is the cached snapshot of one remote entity: a draft issue,
//! an issue, or a pull request, together with its per-project custom-field
//! values (`ProjectItem`).  The tree is encoded by id-valued edges
//! (`sub_issues`, `parent_id`), never by pointers.
//!
//! Every type has a mathematical view in which all strings are character
//! sequences; contracts throughout the library speak of these views.

use vstd::prelude::*;
use vstd::string::StrSliceExecFns;
use vstd::string::StringExecFns;

use crate::delay_load::DelayLoad;
use crate::delay_load::DelayLoadView;
use crate::ids::clone_ids;
use crate::ids::clone_opt_id;
use crate::ids::clone_opt_option_id;
use crate::ids::clone_strings;
use crate::ids::ids_view;
use crate::ids::opt_id_view;
use crate::ids::opt_option_id_view;
use crate::ids::strings_view;
use crate::ids::FieldOptionId;
use crate::ids::ProjectItemId;
use crate::ids::WorkItemId;

verus! {

#[derive(Debug)]
pub struct WorkItem {
    pub id: WorkItemId,
    pub title: String,
    pub updated_at: String,
    pub resource_path: Option<String>,
    pub repo_name_with_owner: Option<String>,
    pub data: WorkItemData,
    pub project_item: ProjectItem,
}

#[derive(Debug)]
pub enum WorkItemData {
    DraftIssue,
    Issue(Issue),
    PullRequest(PullRequest),
}

#[derive(Debug)]
pub struct Issue {
    pub parent_id: Option<WorkItemId>,
    pub issue_type: DelayLoad<Option<String>>,
    pub state: DelayLoad<IssueState>,
    pub sub_issues: Vec<WorkItemId>,
    pub tracked_issues: DelayLoad<Vec<WorkItemId>>,
    pub assignees: Vec<String>,
}

#[derive(Debug)]
pub enum IssueState {
    CLOSED,
    OPEN,
    Other(String),
}

#[derive(Debug)]
pub struct PullRequest {
    pub state: DelayLoad<PullRequestState>,
    pub assignees: Vec<String>,
}

#[derive(Debug)]
pub enum PullRequestState {
    CLOSED,
    MERGED,
    OPEN,
    Other(String),
}

/// A custom-field value: resolved, or cleared, or not yet fetched.
pub type FieldValue = DelayLoad<Option<FieldOptionId>>;

#[derive(Debug)]
pub struct ProjectItem {
    pub id: ProjectItemId,
    pub database_id: Option<String>,
    pub updated_at: String,
    pub status: Option<FieldOptionId>,
    pub iteration: FieldValue,
    pub blocked: FieldValue,
    pub kind: FieldValue,
    pub epic: Option<FieldOptionId>,
    pub workstream: FieldValue,
    pub project_milestone: FieldValue,
    pub estimate: Option<FieldOptionId>,
    pub priority: Option<FieldOptionId>,
}

// ---------------------------------------------------------------------------
// Views
// ---------------------------------------------------------------------------

#[verifier::ext_equal]
pub struct WorkItemView {
    pub id: Seq<char>,
    pub title: Seq<char>,
    pub updated_at: Seq<char>,
    pub resource_path: Option<Seq<char>>,
    pub repo_name_with_owner: Option<Seq<char>>,
    pub data: WorkItemDataView,
    pub project_item: ProjectItemView,
}

#[verifier::ext_equal]
pub enum WorkItemDataView {
    DraftIssue,
    Issue(IssueView),
    PullRequest(PullRequestView),
}

#[verifier::ext_equal]
pub struct IssueView {
    pub parent_id: Option<Seq<char>>,
    pub issue_type: DelayLoadView<Option<Seq<char>>>,
    pub state: DelayLoadView<IssueStateView>,
    pub sub_issues: Seq<Seq<char>>,
    pub tracked_issues: DelayLoadView<Seq<Seq<char>>>,
    pub assignees: Seq<Seq<char>>,
}

#[verifier::ext_equal]
pub enum IssueStateView {
    Closed,
    Open,
    Other(Seq<char>),
}

#[verifier::ext_equal]
pub struct PullRequestView {
    pub state: DelayLoadView<PullRequestStateView>,
    pub assignees: Seq<Seq<char>>,
}

#[verifier::ext_equal]
pub enum PullRequestStateView {
    Closed,
    Merged,
    Open,
    Other(Seq<char>),
}

#[verifier::ext_equal]
pub struct ProjectItemView {
    pub id: Seq<char>,
    pub database_id: Option<Seq<char>>,
    pub updated_at: Seq<char>,
    pub status: Option<Seq<char>>,
    pub iteration: DelayLoadView<Option<Seq<char>>>,
    pub blocked: DelayLoadView<Option<Seq<char>>>,
    pub kind: DelayLoadView<Option<Seq<char>>>,
    pub epic: Option<Seq<char>>,
    pub workstream: DelayLoadView<Option<Seq<char>>>,
    pub project_milestone: DelayLoadView<Option<Seq<char>>>,
    pub estimate: Option<Seq<char>>,
    pub priority: Option<Seq<char>>,
}

pub open spec fn opt_string_view(o: Option<String>) -> Option<Seq<char>> {
    match o {
        Some(s) => Some(s@),
        None => None,
    }
}

/// The view of a lazily fetched optional field-option id.
pub open spec fn field_value_view(d: FieldValue) -> DelayLoadView<Option<Seq<char>>> {
    match d {
        DelayLoad::NotLoaded => DelayLoadView::NotLoaded,
        DelayLoad::Loaded(o) => DelayLoadView::Loaded(opt_option_id_view(o)),
    }
}

/// The view of a lazily fetched optional string.
pub open spec fn dl_opt_string_view(d: DelayLoad<Option<String>>) -> DelayLoadView<
    Option<Seq<char>>,
> {
    match d {
        DelayLoad::NotLoaded => DelayLoadView::NotLoaded,
        DelayLoad::Loaded(o) => DelayLoadView::Loaded(opt_string_view(o)),
    }
}

/// The view of a lazily fetched id list.
pub open spec fn dl_ids_view(d: DelayLoad<Vec<WorkItemId>>) -> DelayLoadView<Seq<Seq<char>>> {
    match d {
        DelayLoad::NotLoaded => DelayLoadView::NotLoaded,
        DelayLoad::Loaded(v) => DelayLoadView::Loaded(ids_view(v@)),
    }
}

impl View for IssueState {
    type V = IssueStateView;

    open spec fn view(&self) -> IssueStateView {
        match self {
            IssueState::CLOSED => IssueStateView::Closed,
            IssueState::OPEN => IssueStateView::Open,
            IssueState::Other(s) => IssueStateView::Other(s@),
        }
    }
}

impl View for PullRequestState {
    type V = PullRequestStateView;

    open spec fn view(&self) -> PullRequestStateView {
        match self {
            PullRequestState::CLOSED => PullRequestStateView::Closed,
            PullRequestState::MERGED => PullRequestStateView::Merged,
            PullRequestState::OPEN => PullRequestStateView::Open,
            PullRequestState::Other(s) => PullRequestStateView::Other(s@),
        }
    }
}

/// The view of a lazily fetched issue state.
pub open spec fn dl_issue_state_view(d: DelayLoad<IssueState>) -> DelayLoadView<IssueStateView> {
    match d {
        DelayLoad::NotLoaded => DelayLoadView::NotLoaded,
        DelayLoad::Loaded(s) => DelayLoadView::Loaded(s@),
    }
}

/// The view of a lazily fetched pull-request state.
pub open spec fn dl_pr_state_view(d: DelayLoad<PullRequestState>) -> DelayLoadView<
    PullRequestStateView,
> {
    match d {
        DelayLoad::NotLoaded => DelayLoadView::NotLoaded,
        DelayLoad::Loaded(s) => DelayLoadView::Loaded(s@),
    }
}

impl View for Issue {
    type V = IssueView;

    open spec fn view(&self) -> IssueView {
        IssueView {
            parent_id: opt_id_view(self.parent_id),
            issue_type: dl_opt_string_view(self.issue_type),
            state: dl_issue_state_view(self.state),
            sub_issues: ids_view(self.sub_issues@),
            tracked_issues: dl_ids_view(self.tracked_issues),
            assignees: strings_view(self.assignees@),
        }
    }
}

impl View for PullRequest {
    type V = PullRequestView;

    open spec fn view(&self) -> PullRequestView {
        PullRequestView {
            state: dl_pr_state_view(self.state),
            assignees: strings_view(self.assignees@),
        }
    }
}

impl View for WorkItemData {
    type V = WorkItemDataView;

    open spec fn view(&self) -> WorkItemDataView {
        match self {
            WorkItemData::DraftIssue => WorkItemDataView::DraftIssue,
            WorkItemData::Issue(i) => WorkItemDataView::Issue(i@),
            WorkItemData::PullRequest(p) => WorkItemDataView::PullRequest(p@),
        }
    }
}

impl View for ProjectItem {
    type V = ProjectItemView;

    open spec fn view(&self) -> ProjectItemView {
        ProjectItemView {
            id: self.id@,
            database_id: opt_string_view(self.database_id),
            updated_at: self.updated_at@,
            status: opt_option_id_view(self.status),
            iteration: field_value_view(self.iteration),
            blocked: field_value_view(self.blocked),
            kind: field_value_view(self.kind),
            epic: opt_option_id_view(self.epic),
            workstream: field_value_view(self.workstream),
            project_milestone: field_value_view(self.project_milestone),
            estimate: opt_option_id_view(self.estimate),
            priority: opt_option_id_view(self.priority),
        }
    }
}

impl View for WorkItem {
    type V = WorkItemView;

    open spec fn view(&self) -> WorkItemView {
        WorkItemView {
            id: self.id@,
            title: self.title@,
            updated_at: self.updated_at@,
            resource_path: opt_string_view(self.resource_path),
            repo_name_with_owner: opt_string_view(self.repo_name_with_owner),
            data: self.data@,
            project_item: self.project_item@,
        }
    }
}

// ---------------------------------------------------------------------------
// Clones (each preserves the view exactly)
// ---------------------------------------------------------------------------

fn clone_opt_string(o: &Option<String>) -> (r: Option<String>)
    ensures
        opt_string_view(r) == opt_string_view(*o),
{
    match o {
        Some(s) => Some(s.clone()),
        None => None,
    }
}

fn clone_field_value(d: &FieldValue) -> (r: FieldValue)
    ensures
        field_value_view(r) == field_value_view(*d),
{
    match d {
        DelayLoad::NotLoaded => DelayLoad::NotLoaded,
        DelayLoad::Loaded(o) => DelayLoad::Loaded(clone_opt_option_id(o)),
    }
}

impl Clone for IssueState {
    fn clone(&self) -> (r: Self)
        ensures
            r@ == self@,
    {
        match self {
            IssueState::CLOSED => IssueState::CLOSED,
            IssueState::OPEN => IssueState::OPEN,
            IssueState::Other(s) => IssueState::Other(s.clone()),
        }
    }
}

impl Clone for PullRequestState {
    fn clone(&self) -> (r: Self)
        ensures
            r@ == self@,
    {
        match self {
            PullRequestState::CLOSED => PullRequestState::CLOSED,
            PullRequestState::MERGED => PullRequestState::MERGED,
            PullRequestState::OPEN => PullRequestState::OPEN,
            PullRequestState::Other(s) => PullRequestState::Other(s.clone()),
        }
    }
}

impl Clone for Issue {
    fn clone(&self) -> (r: Self)
        ensures
            r@ == self@,
    {
        Issue {
            parent_id: clone_opt_id(&self.parent_id),
            issue_type: match &self.issue_type {
                DelayLoad::NotLoaded => DelayLoad::NotLoaded,
                DelayLoad::Loaded(o) => DelayLoad::Loaded(clone_opt_string(o)),
            },
            state: match &self.state {
                DelayLoad::NotLoaded => DelayLoad::NotLoaded,
                DelayLoad::Loaded(s) => DelayLoad::Loaded(s.clone()),
            },
            sub_issues: clone_ids(&self.sub_issues),
            tracked_issues: match &self.tracked_issues {
                DelayLoad::NotLoaded => DelayLoad::NotLoaded,
                DelayLoad::Loaded(v) => DelayLoad::Loaded(clone_ids(v)),
            },
            assignees: clone_strings(&self.assignees),
        }
    }
}

impl Clone for PullRequest {
    fn clone(&self) -> (r: Self)
        ensures
            r@ == self@,
    {
        PullRequest {
            state: match &self.state {
                DelayLoad::NotLoaded => DelayLoad::NotLoaded,
                DelayLoad::Loaded(s) => DelayLoad::Loaded(s.clone()),
            },
            assignees: clone_strings(&self.assignees),
        }
    }
}

impl Clone for WorkItemData {
    fn clone(&self) -> (r: Self)
        ensures
            r@ == self@,
    {
        match self {
            WorkItemData::DraftIssue => WorkItemData::DraftIssue,
            WorkItemData::Issue(i) => WorkItemData::Issue(i.clone()),
            WorkItemData::PullRequest(p) => WorkItemData::PullRequest(p.clone()),
        }
    }
}

impl Clone for ProjectItem {
    fn clone(&self) -> (r: Self)
        ensures
            r@ == self@,
    {
        ProjectItem {
            id: self.id.clone(),
            database_id: clone_opt_string(&self.database_id),
            updated_at: self.updated_at.clone(),
            status: clone_opt_option_id(&self.status),
            iteration: clone_field_value(&self.iteration),
            blocked: clone_field_value(&self.blocked),
            kind: clone_field_value(&self.kind),
            epic: clone_opt_option_id(&self.epic),
            workstream: clone_field_value(&self.workstream),
            project_milestone: clone_field_value(&self.project_milestone),
            estimate: clone_opt_option_id(&self.estimate),
            priority: clone_opt_option_id(&self.priority),
        }
    }
}

impl Clone for WorkItem {
    fn clone(&self) -> (r: Self)
        ensures
            r@ == self@,
    {
        WorkItem {
            id: self.id.clone(),
            title: self.title.clone(),
            updated_at: self.updated_at.clone(),
            resource_path: clone_opt_string(&self.resource_path),
            repo_name_with_owner: clone_opt_string(&self.repo_name_with_owner),
            data: self.data.clone(),
            project_item: self.project_item.clone(),
        }
    }
}

// ---------------------------------------------------------------------------
// Equality (by view)
// ---------------------------------------------------------------------------

pub fn opt_string_eq(a: &Option<String>, b: &Option<String>) -> (r: bool)
    ensures
        r == (opt_string_view(*a) == opt_string_view(*b)),
{
    match (a, b) {
        (None, None) => true,
        (Some(x), Some(y)) => *x == *y,
        _ => false,
    }
}

pub fn field_value_eq(a: &FieldValue, b: &FieldValue) -> (r: bool)
    ensures
        r == (field_value_view(*a) == field_value_view(*b)),
{
    match (a, b) {
        (DelayLoad::NotLoaded, DelayLoad::NotLoaded) => true,
        (DelayLoad::Loaded(x), DelayLoad::Loaded(y)) => crate::ids::opt_option_id_eq(x, y),
        _ => false,
    }
}

impl PartialEq for IssueState {
    fn eq(&self, other: &Self) -> (r: bool) {
        match (self, other) {
            (IssueState::CLOSED, IssueState::CLOSED) => true,
            (IssueState::OPEN, IssueState::OPEN) => true,
            (IssueState::Other(a), IssueState::Other(b)) => *a == *b,
            _ => false,
        }
    }
}

impl vstd::std_specs::cmp::PartialEqSpecImpl for IssueState {
    open spec fn obeys_eq_spec() -> bool {
        true
    }

    open spec fn eq_spec(&self, other: &Self) -> bool {
        self@ == other@
    }
}

impl PartialEq for PullRequestState {
    fn eq(&self, other: &Self) -> (r: bool) {
        match (self, other) {
            (PullRequestState::CLOSED, PullRequestState::CLOSED) => true,
            (PullRequestState::MERGED, PullRequestState::MERGED) => true,
            (PullRequestState::OPEN, PullRequestState::OPEN) => true,
            (PullRequestState::Other(a), PullRequestState::Other(b)) => *a == *b,
            _ => false,
        }
    }
}

impl vstd::std_specs::cmp::PartialEqSpecImpl for PullRequestState {
    open spec fn obeys_eq_spec() -> bool {
        true
    }

    open spec fn eq_spec(&self, other: &Self) -> bool {
        self@ == other@
    }
}

impl PartialEq for Issue {
    fn eq(&self, other: &Self) -> (r: bool) {
        let parent_ok = crate::ids::opt_id_eq(&self.parent_id, &other.parent_id);
        let type_ok = match (&self.issue_type, &other.issue_type) {
            (DelayLoad::NotLoaded, DelayLoad::NotLoaded) => true,
            (DelayLoad::Loaded(a), DelayLoad::Loaded(b)) => opt_string_eq(a, b),
            _ => false,
        };
        let state_ok = match (&self.state, &other.state) {
            (DelayLoad::NotLoaded, DelayLoad::NotLoaded) => true,
            (DelayLoad::Loaded(a), DelayLoad::Loaded(b)) => a == b,
            _ => false,
        };
        let subs_ok = crate::ids::ids_eq(&self.sub_issues, &other.sub_issues);
        let tracked_ok = match (&self.tracked_issues, &other.tracked_issues) {
            (DelayLoad::NotLoaded, DelayLoad::NotLoaded) => true,
            (DelayLoad::Loaded(a), DelayLoad::Loaded(b)) => crate::ids::ids_eq(a, b),
            _ => false,
        };
        let assignees_ok = crate::ids::strings_eq(&self.assignees, &other.assignees);
        let r = parent_ok && type_ok && state_ok && subs_ok && tracked_ok && assignees_ok;
        proof {
            if r {
                assert(self@ =~= other@);
            }
        }
        r
    }
}

impl vstd::std_specs::cmp::PartialEqSpecImpl for Issue {
    open spec fn obeys_eq_spec() -> bool {
        true
    }

    open spec fn eq_spec(&self, other: &Self) -> bool {
        self@ == other@
    }
}

impl PartialEq for PullRequest {
    fn eq(&self, other: &Self) -> (r: bool) {
        let state_ok = match (&self.state, &other.state) {
            (DelayLoad::NotLoaded, DelayLoad::NotLoaded) => true,
            (DelayLoad::Loaded(a), DelayLoad::Loaded(b)) => a == b,
            _ => false,
        };
        let assignees_ok = crate::ids::strings_eq(&self.assignees, &other.assignees);
        let r = state_ok && assignees_ok;
        proof {
            if r {
                assert(self@ =~= other@);
            }
        }
        r
    }
}

impl vstd::std_specs::cmp::PartialEqSpecImpl for PullRequest {
    open spec fn obeys_eq_spec() -> bool {
        true
    }

    open spec fn eq_spec(&self, other: &Self) -> bool {
        self@ == other@
    }
}

impl PartialEq for WorkItemData {
    fn eq(&self, other: &Self) -> (r: bool) {
        match (self, other) {
            (WorkItemData::DraftIssue, WorkItemData::DraftIssue) => true,
            (WorkItemData::Issue(a), WorkItemData::Issue(b)) => a == b,
            (WorkItemData::PullRequest(a), WorkItemData::PullRequest(b)) => a == b,
            _ => false,
        }
    }
}

impl vstd::std_specs::cmp::PartialEqSpecImpl for WorkItemData {
    open spec fn obeys_eq_spec() -> bool {
        true
    }

    open spec fn eq_spec(&self, other: &Self) -> bool {
        self@ == other@
    }
}

impl PartialEq for ProjectItem {
    fn eq(&self, other: &Self) -> (r: bool) {
        let r = self.id == other.id && opt_string_eq(&self.database_id, &other.database_id)
            && self.updated_at == other.updated_at && crate::ids::opt_option_id_eq(
            &self.status,
            &other.status,
        ) && field_value_eq(&self.iteration, &other.iteration) && field_value_eq(
            &self.blocked,
            &other.blocked,
        ) && field_value_eq(&self.kind, &other.kind) && crate::ids::opt_option_id_eq(
            &self.epic,
            &other.epic,
        ) && field_value_eq(&self.workstream, &other.workstream) && field_value_eq(
            &self.project_milestone,
            &other.project_milestone,
        ) && crate::ids::opt_option_id_eq(&self.estimate, &other.estimate)
            && crate::ids::opt_option_id_eq(&self.priority, &other.priority);
        proof {
            if r {
                assert(self@ =~= other@);
            }
        }
        r
    }
}

impl vstd::std_specs::cmp::PartialEqSpecImpl for ProjectItem {
    open spec fn obeys_eq_spec() -> bool {
        true
    }

    open spec fn eq_spec(&self, other: &Self) -> bool {
        self@ == other@
    }
}

impl PartialEq for WorkItem {
    fn eq(&self, other: &Self) -> (r: bool) {
        let r = self.id == other.id && self.title == other.title && self.updated_at
            == other.updated_at && opt_string_eq(&self.resource_path, &other.resource_path)
            && opt_string_eq(&self.repo_name_with_owner, &other.repo_name_with_owner) && self.data
            == other.data && self.project_item == other.project_item;
        proof {
            if r {
                assert(self@ =~= other@);
            }
        }
        r
    }
}

impl vstd::std_specs::cmp::PartialEqSpecImpl for WorkItem {
    open spec fn obeys_eq_spec() -> bool {
        true
    }

    open spec fn eq_spec(&self, other: &Self) -> bool {
        self@ == other@
    }
}

// ---------------------------------------------------------------------------
// Defaults
// ---------------------------------------------------------------------------

impl Default for WorkItemData {
    fn default() -> (r: Self)
        ensures
            r@ == WorkItemDataView::DraftIssue,
    {
        WorkItemData::DraftIssue
    }
}

impl Default for IssueState {
    fn default() -> (r: Self)
        ensures
            r@ == IssueStateView::Open,
    {
        IssueState::OPEN
    }
}

impl Default for PullRequestState {
    fn default() -> (r: Self)
        ensures
            r@ == PullRequestStateView::Merged,
    {
        PullRequestState::MERGED
    }
}

/// The view of a project item with nothing fetched yet.
pub open spec fn blank_project_item_view() -> ProjectItemView {
    ProjectItemView {
        id: Seq::<char>::empty(),
        database_id: None,
        updated_at: Seq::<char>::empty(),
        status: None,
        iteration: DelayLoadView::NotLoaded,
        blocked: DelayLoadView::NotLoaded,
        kind: DelayLoadView::NotLoaded,
        epic: None,
        workstream: DelayLoadView::NotLoaded,
        project_milestone: DelayLoadView::NotLoaded,
        estimate: None,
        priority: None,
    }
}

impl Default for ProjectItem {
    fn default() -> (r: Self)
        ensures
            r@ == blank_project_item_view(),
    {
        ProjectItem {
            id: ProjectItemId(String::new()),
            database_id: None,
            updated_at: String::new(),
            status: None,
            iteration: DelayLoad::NotLoaded,
            blocked: DelayLoad::NotLoaded,
            kind: DelayLoad::NotLoaded,
            epic: None,
            workstream: DelayLoad::NotLoaded,
            project_milestone: DelayLoad::NotLoaded,
            estimate: None,
            priority: None,
        }
    }
}

/// The view of a work item with nothing fetched yet.
pub open spec fn blank_work_item_view() -> WorkItemView {
    WorkItemView {
        id: Seq::<char>::empty(),
        title: Seq::<char>::empty(),
        updated_at: Seq::<char>::empty(),
        resource_path: None,
        repo_name_with_owner: None,
        data: WorkItemDataView::DraftIssue,
        project_item: blank_project_item_view(),
    }
}

impl Default for WorkItem {
    fn default() -> (r: Self)
        ensures
            r@ == blank_work_item_view(),
    {
        WorkItem {
            id: WorkItemId(String::new()),
            title: String::new(),
            updated_at: String::new(),
            resource_path: None,
            repo_name_with_owner: None,
            data: WorkItemData::DraftIssue,
            project_item: ProjectItem::default(),
        }
    }
}

/// The view of an issue with empty, but fetched, fields.
pub open spec fn loaded_issue_view() -> IssueView {
    IssueView {
        parent_id: None,
        issue_type: DelayLoadView::Loaded(None),
        state: DelayLoadView::Loaded(IssueStateView::Open),
        sub_issues: Seq::<Seq<char>>::empty(),
        tracked_issues: DelayLoadView::Loaded(Seq::<Seq<char>>::empty()),
        assignees: Seq::<Seq<char>>::empty(),
    }
}

/// The view of a project item whose field values are fetched and empty.
pub open spec fn loaded_project_item_view() -> ProjectItemView {
    ProjectItemView {
        id: Seq::<char>::empty(),
        database_id: None,
        updated_at: Seq::<char>::empty(),
        status: None,
        iteration: DelayLoadView::Loaded(None),
        blocked: DelayLoadView::Loaded(None),
        kind: DelayLoadView::Loaded(None),
        epic: None,
        workstream: DelayLoadView::Loaded(None),
        project_milestone: DelayLoadView::Loaded(None),
        estimate: None,
        priority: None,
    }
}

impl Issue {
    /// An issue whose lazily fetched fields are all present and empty.
    pub fn default_loaded() -> (r: Issue)
        ensures
            r@ == loaded_issue_view(),
    {
        let r = Issue {
            parent_id: None,
            issue_type: DelayLoad::Loaded(None),
            state: DelayLoad::Loaded(IssueState::OPEN),
            sub_issues: Vec::new(),
            tracked_issues: DelayLoad::Loaded(Vec::new()),
            assignees: Vec::new(),
        };
        proof {
            assert(r@ =~= loaded_issue_view());
        }
        r
    }
}

impl ProjectItem {
    /// A project item whose lazily fetched fields are all present and empty.
    pub fn default_loaded() -> (r: ProjectItem)
        ensures
            r@ == loaded_project_item_view(),
    {
        ProjectItem {
            id: ProjectItemId(String::new()),
            database_id: None,
            updated_at: String::new(),
            status: None,
            iteration: DelayLoad::Loaded(None),
            blocked: DelayLoad::Loaded(None),
            kind: DelayLoad::Loaded(None),
            epic: None,
            workstream: DelayLoad::Loaded(None),
            project_milestone: DelayLoad::Loaded(None),
            estimate: None,
            priority: None,
        }
    }

    /// Whether every lazily fetched field value has arrived.
    pub fn is_loaded(&self) -> (r: bool)
        ensures
            r == project_item_loaded(self@),
    {
        self.iteration.is_loaded() && self.blocked.is_loaded() && self.kind.is_loaded()
            && self.workstream.is_loaded() && self.project_milestone.is_loaded()
    }
}

/// Whether every lazily fetched field value of the project item has arrived.
pub open spec fn project_item_loaded(p: ProjectItemView) -> bool {
    &&& p.iteration is Loaded
    &&& p.blocked is Loaded
    &&& p.kind is Loaded
    &&& p.workstream is Loaded
    &&& p.project_milestone is Loaded
}

// ---------------------------------------------------------------------------
// Work-item queries
// ---------------------------------------------------------------------------

/// The view of a lazily fetched boolean.
pub open spec fn dl_bool_view(d: DelayLoad<bool>) -> DelayLoadView<bool> {
    match d {
        DelayLoad::NotLoaded => DelayLoadView::NotLoaded,
        DelayLoad::Loaded(b) => DelayLoadView::Loaded(b),
    }
}

/// Whether the entity is closed: a closed issue, or a merged or closed pull
/// request.  Draft issues are never closed.  Unknown until the state is
/// fetched.
pub open spec fn closed_state(d: WorkItemDataView) -> DelayLoadView<bool> {
    match d {
        WorkItemDataView::DraftIssue => DelayLoadView::Loaded(false),
        WorkItemDataView::Issue(i) => match i.state {
            DelayLoadView::NotLoaded => DelayLoadView::NotLoaded,
            DelayLoadView::Loaded(s) => DelayLoadView::Loaded(s is Closed),
        },
        WorkItemDataView::PullRequest(p) => match p.state {
            DelayLoadView::NotLoaded => DelayLoadView::NotLoaded,
            DelayLoadView::Loaded(s) => DelayLoadView::Loaded(s is Merged || s is Closed),
        },
    }
}

/// The entity description: its web address when the resource path is known,
/// else the id in brackets.
pub open spec fn describe_view(w: WorkItemView) -> Seq<char> {
    match w.resource_path {
        Some(p) => "https://github.com"@ + p,
        None => "["@ + w.id + "]"@,
    }
}

/// Whether the character sequence holds a slash.
pub open spec fn has_slash(s: Seq<char>) -> bool {
    exists|i: int| 0 <= i < s.len() && s[i] == '/'
}

impl WorkItem {
    /// The ordered child list, for issues; other entities have none.
    pub fn get_sub_issues(&self) -> (r: Option<&Vec<WorkItemId>>)
        ensures
            match r {
                Some(v) => self.data is Issue && ids_view(v@) == self@.data->Issue_0.sub_issues,
                None => !(self.data is Issue),
            },
    {
        match &self.data {
            WorkItemData::Issue(issue) => Some(&issue.sub_issues),
            _ => None,
        }
    }

    /// The parent edge, for issues; other entities have none.
    pub fn get_parent(&self) -> (r: Option<&WorkItemId>)
        ensures
            match r {
                Some(p) => self.data is Issue && self@.data->Issue_0.parent_id == Some(p@),
                None => !(self.data is Issue) || self@.data->Issue_0.parent_id is None,
            },
    {
        match &self.data {
            WorkItemData::Issue(issue) => issue.parent_id.as_ref(),
            _ => None,
        }
    }

    /// Whether the entity is closed; unknown until its state is fetched.
    pub fn is_closed(&self) -> (r: DelayLoad<bool>)
        ensures
            dl_bool_view(r) == closed_state(self@.data),
    {
        match &self.data {
            WorkItemData::DraftIssue => DelayLoad::Loaded(false),
            WorkItemData::Issue(issue) => match &issue.state {
                DelayLoad::NotLoaded => DelayLoad::NotLoaded,
                DelayLoad::Loaded(s) => DelayLoad::Loaded(match s {
                    IssueState::CLOSED => true,
                    _ => false,
                }),
            },
            WorkItemData::PullRequest(pr) => match &pr.state {
                DelayLoad::NotLoaded => DelayLoad::NotLoaded,
                DelayLoad::Loaded(s) => DelayLoad::Loaded(match s {
                    PullRequestState::MERGED => true,
                    PullRequestState::CLOSED => true,
                    _ => false,
                }),
            },
        }
    }

    /// A short human-readable description of the entity.
    pub fn describe(&self) -> (r: String)
        ensures
            r@ == describe_view(self@),
    {
        match &self.resource_path {
            Some(p) => String::from_str("https://github.com").concat(p.as_str()),
            None => String::from_str("[").concat(self.id.0.as_str()).concat("]"),
        }
    }

    /// Splits `repo_name_with_owner` at its first slash into owner and
    /// repository name; nothing when the field is absent or holds no slash.
    pub fn get_repository_info(&self) -> (r: Option<(String, String)>)
        ensures
            match r {
                Some(pair) => {
                    &&& self.repo_name_with_owner is Some
                    &&& !has_slash(pair.0@)
                    &&& self.repo_name_with_owner->0@ == pair.0@ + seq!['/'] + pair.1@
                },
                None => self.repo_name_with_owner is None || !has_slash(
                    self.repo_name_with_owner->0@,
                ),
            },
    {
        if let Some(repo) = &self.repo_name_with_owner {
            assert(self.repo_name_with_owner->0 == *repo);
            let s = repo.as_str();
            let n = s.unicode_len();
            let mut i: usize = 0;
            while i < n
                invariant
                    self.repo_name_with_owner is Some,
                    s@ == self.repo_name_with_owner->0@,
                    n == s@.len(),
                    i <= n,
                    forall|j: int| 0 <= j < i ==> s@[j] != '/',
                decreases n - i,
            {
                if s.get_char(i) == '/' {
                    let owner = s.substring_char(0, i).to_owned();
                    let name = s.substring_char(i + 1, n).to_owned();
                    proof {
                        assert(s@ =~= owner@ + seq!['/'] + name@);
                        assert(!has_slash(owner@));
                    }
                    return Some((owner, name));
                }
                i += 1;
            }
            assert(!has_slash(s@));
            None
        } else {
            None
        }
    }

    /// Whether the entity and its project-item fields are fully fetched.
    pub fn is_loaded(&self) -> (r: bool)
        ensures
            r == work_item_loaded(self@),
    {
        let data_loaded = match &self.data {
            WorkItemData::Issue(issue) => issue.state.is_loaded(),
            _ => true,
        };
        data_loaded && self.project_item.is_loaded()
    }
}

/// Whether the work item's lazily fetched parts have all arrived.
pub open spec fn work_item_loaded(w: WorkItemView) -> bool {
    &&& (w.data is Issue ==> w.data->Issue_0.state is Loaded)
    &&& project_item_loaded(w.project_item)
}

} // verus!

