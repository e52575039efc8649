//! Scaffolding for building small entity stores by hand: a counter-backed
//! id source, a work-item builder, and a canned field catalog.  Meant for
//! tests and examples; nothing here talks to a remote API.

use vstd::prelude::*;
use vstd::string::StringExecFns;

use crate::delay_load::DelayLoad;
use crate::fields::Field;
use crate::fields::FieldOption;
use crate::fields::Fields;
use crate::fields::Iteration;
use crate::fields::SingleSelect;
use crate::ids::FieldId;
use crate::ids::FieldOptionId;
use crate::ids::WorkItemId;
use crate::work_item::Issue;
use crate::work_item::IssueState;
use crate::work_item::ProjectItem;
use crate::work_item::WorkItem;
use crate::work_item::WorkItemData;
use crate::work_items::WorkItems;

verus! {

impl WorkItem {
    /// A blank draft item whose project-item fields are fetched and empty.
    pub fn default_loaded() -> (r: WorkItem)
        ensures
            r@.data is DraftIssue,
            r@.project_item == crate::work_item::loaded_project_item_view(),
    {
        WorkItem {
            id: WorkItemId(String::new()),
            title: String::new(),
            updated_at: String::new(),
            resource_path: None,
            repo_name_with_owner: None,
            data: WorkItemData::DraftIssue,
            project_item: ProjectItem::default_loaded(),
        }
    }

    /// A blank issue with the given sub-issue and tracked-issue edges.
    pub fn new_blank_issue(sub_issues: &[&WorkItemId], tracked_issues: &[&WorkItemId]) -> (r:
        WorkItem)
        ensures
            r@.data is Issue,
    {
        let mut issue = Issue::default_loaded();
        issue.sub_issues = to_project_item_ref_vec(sub_issues);
        issue.tracked_issues = DelayLoad::Loaded(to_project_item_ref_vec(tracked_issues));
        let mut r = WorkItem::default_loaded();
        r.data = WorkItemData::Issue(issue);
        r
    }
}

/// Clones a list of borrowed ids into an owned list, order kept.
pub fn to_project_item_ref_vec(ids: &[&WorkItemId]) -> (r: Vec<WorkItemId>)
    ensures
        r@.len() == ids@.len(),
        forall|j: int| 0 <= j < r@.len() ==> (#[trigger] r@[j])@ == ids@[j]@,
{
    let mut r: Vec<WorkItemId> = Vec::new();
    let mut i: usize = 0;
    while i < ids.len()
        invariant
            i <= ids@.len(),
            r@.len() == i,
            forall|j: int| 0 <= j < i ==> (#[trigger] r@[j])@ == ids@[j]@,
        decreases ids@.len() - i,
    {
        r.push(ids[i].clone());
        i += 1;
    }
    r
}

/// A store, a canned field catalog, and a counter for fresh ids.
pub struct TestData {
    pub work_items: WorkItems,
    pub fields: Fields,
    pub next_id: u32,
}

impl Default for TestData {
    /// An empty store with the canned catalog.
    fn default() -> (r: Self)
        ensures
            r.work_items@.order == Seq::<Seq<char>>::empty(),
            r.work_items@.map == Map::<Seq<char>, crate::work_item::WorkItemView>::empty(),
    {
        TestData { work_items: WorkItems::new(), fields: Fields::test(), next_id: 0 }
    }
}

impl TestData {
    /// A fresh id: the next counter value, as a decimal string.
    pub fn next_id(&mut self) -> (r: WorkItemId) {
        self.next_id = self.next_id.wrapping_add(1);
        WorkItemId(self.next_id.to_string())
    }

    /// Adds the item, first pointing each already-stored sub-issue's
    /// parent edge at it.
    pub fn add_work_item(&mut self, item: WorkItem)
        ensures
            final(self).work_items@.map.contains_key(item@.id),
    {
        let sub_ids: Vec<WorkItemId> = match &item.data {
            WorkItemData::Issue(issue) => crate::ids::clone_ids(&issue.sub_issues),
            _ => Vec::new(),
        };
        let mut i: usize = 0;
        while i < sub_ids.len()
            decreases sub_ids.len() - i,
        {
            let sub_item = match self.work_items.get(&sub_ids[i]) {
                Some(w) => Some(w.clone()),
                None => None,
            };
            if let Some(mut sub_item) = sub_item {
                if let WorkItemData::Issue(sub_issue) = &mut sub_item.data {
                    sub_issue.parent_id = Some(item.id.clone());
                    self.work_items.upsert(sub_item);
                }
            }
            i += 1;
        }
        self.work_items.add(item);
    }

    /// A builder for one new work item with a fresh id.
    pub fn build(&mut self) -> (r: TestDataWorkItemBuilder<'_>) {
        let id = self.next_id();
        let mut item = WorkItem::default_loaded();
        item.id = id;
        TestDataWorkItemBuilder { data: self, item }
    }

    /// Adds a blank issue with the given edges and hands back its id.
    pub fn add_blank_issue<const S: usize, const T: usize>(
        &mut self,
        sub_issues: [&WorkItemId; S],
        tracked_issues: [&WorkItemId; T],
    ) -> (r: WorkItemId) {
        let mut builder = self.build();
        let mut item = WorkItem::new_blank_issue(
            sub_issues.as_slice(),
            tracked_issues.as_slice(),
        );
        item.id = builder.item.id.clone();
        builder.item = item;
        builder.add()
    }
}

/// Builds one work item against a `TestData`, then commits it.
pub struct TestDataWorkItemBuilder<'a> {
    pub data: &'a mut TestData,
    pub item: WorkItem,
}

impl<'a> TestDataWorkItemBuilder<'a> {
    /// Commits the built item to the store and hands back its id.
    pub fn add(self) -> (r: WorkItemId) {
        let TestDataWorkItemBuilder { data, item } = self;
        let id = item.id.clone();
        data.add_work_item(item);
        id
    }

    /// Turns the item into an issue if it still is a draft.  The builder
    /// never builds pull requests, so no other case arises.
    fn ensure_issue(&mut self)
        ensures
            old(self).item.data is PullRequest ==> final(self).item == old(self).item,
            !(old(self).item.data is PullRequest) ==> final(self).item.data is Issue,
            final(self).data == old(self).data,
    {
        if let WorkItemData::DraftIssue = &self.item.data {
            self.item.data = WorkItemData::Issue(Issue::default_loaded());
        }
    }

    /// Makes the item an issue with the given state.
    pub fn issue_state(self, state: IssueState) -> (r: Self) {
        let mut s = self;
        s.ensure_issue();
        if let WorkItemData::Issue(issue) = &mut s.item.data {
            issue.state = DelayLoad::Loaded(state);
        }
        s
    }

    /// Makes the item an issue with the given sub-issue edges.
    pub fn sub_issues(self, ids: &[&WorkItemId]) -> (r: Self) {
        let mut s = self;
        s.ensure_issue();
        if let WorkItemData::Issue(issue) = &mut s.item.data {
            issue.sub_issues = to_project_item_ref_vec(ids);
        }
        s
    }

    /// Makes the item an issue with the given tracked-issue edges.
    pub fn tracked_issues(self, ids: &[&WorkItemId]) -> (r: Self) {
        let mut s = self;
        s.ensure_issue();
        if let WorkItemData::Issue(issue) = &mut s.item.data {
            issue.tracked_issues = DelayLoad::Loaded(to_project_item_ref_vec(ids));
        }
        s
    }

    /// Makes the item an issue.
    pub fn issue(self) -> (r: Self) {
        let mut s = self;
        s.ensure_issue();
        s
    }

    /// Sets the status field to the named catalog option.
    pub fn status(self, name: &str) -> (r: Self) {
        let mut s = self;
        let id = match s.data.fields.status.option_id(Some(name)) {
            Some(x) => Some(x.clone()),
            None => None,
        };
        s.item.project_item.status = id;
        s
    }

    /// Sets the project-milestone field to the named catalog option.
    pub fn project_milestone(self, name: &str) -> (r: Self) {
        let mut s = self;
        let id = match s.data.fields.project_milestone.option_id(Some(name)) {
            Some(x) => Some(x.clone()),
            None => None,
        };
        s.item.project_item.project_milestone = DelayLoad::Loaded(id);
        s
    }

    /// Sets the epic field to the named catalog option.
    pub fn epic(self, name: &str) -> (r: Self) {
        let mut s = self;
        let id = match s.data.fields.epic.option_id(Some(name)) {
            Some(x) => Some(x.clone()),
            None => None,
        };
        s.item.project_item.epic = id;
        s
    }

    /// Sets the workstream field to the named catalog option.
    pub fn workstream(self, name: &str) -> (r: Self) {
        let mut s = self;
        let id = match s.data.fields.workstream.option_id(Some(name)) {
            Some(x) => Some(x.clone()),
            None => None,
        };
        s.item.project_item.workstream = DelayLoad::Loaded(id);
        s
    }
}

/// The canned payload of a catalog option.
pub trait FieldOptionTestData: Sized {
    fn generate() -> Self;
}

impl FieldOptionTestData for SingleSelect {
    fn generate() -> Self {
        SingleSelect
    }
}

impl FieldOptionTestData for Iteration {
    fn generate() -> Self {
        Iteration { start_date: String::from_str("2025-01-01"), duration: 1 }
    }
}

impl<T: FieldOptionTestData + View> Field<T> {
    /// A catalog field with the given name and option names; each option's
    /// id is its name wrapped in "id(...)".
    pub fn test(name: &str, options: &[&str]) -> (r: Field<T>)
        ensures
            r@.name == name@,
            r@.options.len() == options@.len(),
            forall|j: int|
                0 <= j < options@.len() ==> (#[trigger] r@.options[j]).value == options@[j]@
                    && r@.options[j].id == "id("@ + options@[j]@ + ")"@,
    {
        let mut opts: Vec<FieldOption<T>> = Vec::new();
        let mut i: usize = 0;
        while i < options.len()
            invariant
                i <= options@.len(),
                opts@.len() == i,
                forall|j: int|
                    0 <= j < i ==> (#[trigger] opts@[j])@.value == options@[j]@ && opts@[j]@.id
                        == "id("@ + options@[j]@ + ")"@,
            decreases options@.len() - i,
        {
            let option_name = options[i];
            let id = String::from_str("id(").concat(option_name).concat(")");
            opts.push(
                FieldOption {
                    id: FieldOptionId(id),
                    value: option_name.to_owned(),
                    data: T::generate(),
                },
            );
            i += 1;
        }
        let r = Field { id: FieldId(String::from_str("id").concat(name)), name: name.to_owned(), options: opts };
        proof {
            assert(r@.options =~= opts@.map_values(|o: FieldOption<T>| o@));
        }
        r
    }
}

impl Fields {
    /// A canned catalog with a handful of options per field.
    pub fn test() -> (r: Fields) {
        Fields {
            project_id: String::from_str("project_id"),
            status: Field::test("status", &["Active", "Open", "Closed"]),
            blocked: Field::test("blocked", &["PR"]),
            epic: Field::test(
                "epic",
                &[
                    "DML Demo",
                    "MiniEngine Demo",
                    "SM 6.9 Preview",
                    "DXC 2025 Q4",
                    "Do Not Change",
                    "EpicA",
                    "EpicB",
                ],
            ),
            iteration: Field::test("iteration", &["S1", "S2"]),
            kind: Field::test("Kind", &["Bug", "Task"]),
            estimate: Field::test("estimate", &["S", "M", "L"]),
            priority: Field::test("priority", &["P0", "P1", "P2"]),
            workstream: Field::test("workstream", &["WS1", "WS2"]),
            project_milestone: Field::test(
                "Project Milestone",
                &[
                    "3: ML preview requirements",
                    "4: ML preview planning",
                    "5: ML preview implementation",
                    "Graphics preview feature analysis",
                    "DXC: SM 6.9 Preview",
                    "DXC: SM 6.9 Release",
                    "Another Project Milestone",
                ],
            ),
        }
    }
}

} // verus!
