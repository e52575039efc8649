//! Tests of the wire-shape conversion into the entity model.

use ghui::delay_load::DelayLoad;
use ghui::ids::FieldOptionId;
use ghui::ids::ProjectItemId;
use ghui::ids::WorkItemId;
use ghui::raw::RawContent;
use ghui::raw::RawCustomField;
use ghui::raw::RawError;
use ghui::raw::RawIssueState;
use ghui::raw::RawPullRequestState;
use ghui::raw::RawProjectItem;
use ghui::work_item::Issue;
use ghui::work_item::IssueState;
use ghui::work_item::ProjectItem;
use ghui::work_item::PullRequest;
use ghui::work_item::WorkItem;
use ghui::work_item::WorkItemData;
use ghui::work_items::WorkItems;

fn single_select_value(value: &str) -> DelayLoad<Option<FieldOptionId>> {
    DelayLoad::Loaded(Some(FieldOptionId(value.to_owned())))
}

fn single_select(value: &str) -> Option<RawCustomField> {
    Some(RawCustomField::SingleSelectValue {
        option_id: Some(value.to_owned()),
    })
}

fn blank_raw_item(id: &str, updated_at: &str, content: Option<RawContent>) -> RawProjectItem {
    RawProjectItem {
        id: id.to_owned(),
        updated_at: updated_at.to_owned(),
        status: None,
        iteration: None,
        blocked: None,
        kind: None,
        epic: None,
        workstream: None,
        project_milestone: None,
        estimate: None,
        priority: None,
        content,
    }
}

fn to_id_vec(ids: &[&str]) -> Vec<WorkItemId> {
    ids.iter().map(|id| WorkItemId((*id).to_owned())).collect()
}

fn to_string_vec(ids: &[&str]) -> Vec<String> {
    ids.iter().map(|id| (*id).to_owned()).collect()
}

#[test]
fn test_create_items() {
    let mut draft_row = blank_raw_item(
        "PVTI_lADOAQWwKc4ABQXFzgRi8S4",
        "2024-08-05T21:47:26Z",
        Some(RawContent::DraftIssue {
            id: "DI_lADOAQWwKc4ABQXFzgHLyWE".to_owned(),
            title: "[HLSL] Disallow multiple inheritance".to_owned(),
            updated_at: "2024-08-05T21:47:26Z".to_owned(),
        }),
    );
    draft_row.workstream = single_select("Language");

    let mut issue_row = blank_raw_item(
        "PVTI_lADOAQWwKc4ABQXFzgYLDkw",
        "2025-03-27T21:01:45Z",
        Some(RawContent::Issue {
            id: "I_kwDOBITxeM6tjuXs".to_owned(),
            title: "[HLSL] Add frontend test coverage of Root Signatures to Offload Test Suite"
                .to_owned(),
            updated_at: "2025-03-27T21:01:40Z".to_owned(),
            resource_path: "/llvm/llvm-project/issues/130826".to_owned(),
            repo_name_with_owner: "llvm/llvm-project".to_owned(),
            parent_id: None,
            issue_type: None,
            state: RawIssueState::Closed,
            sub_issues: Vec::new(),
            tracked_issues: Vec::new(),
            assignees: Vec::new(),
        }),
    );
    issue_row.status = single_select("Closed");
    issue_row.workstream = single_select("Root Signatures");
    issue_row.project_milestone = single_select("(old)3: Compute Shaders (1)");

    let mut pr_row = blank_raw_item(
        "PVTI_lADOAQWwKc4ABQXFzgXN2OI",
        "2025-04-07T20:00:01Z",
        Some(RawContent::PullRequest {
            id: "PR_kwDOMbLzis6KxhQb".to_owned(),
            title: "Add a proposal for how to explicitly specify struct layouts".to_owned(),
            updated_at: "2025-02-24T19:33:41Z".to_owned(),
            resource_path: "/llvm/wg-hlsl/pull/171".to_owned(),
            repo_name_with_owner: "llvm/wg-hlsl".to_owned(),
            state: RawPullRequestState::Open,
            assignees: Vec::new(),
        }),
    );
    pr_row.status = single_select("Needs Review");

    let project_items = WorkItems::from_graphql(vec![draft_row, issue_row, pr_row]).unwrap();
    let order = project_items.iter();

    let draft_issue = &order[0];
    let expected_draft_issue = WorkItem {
        id: WorkItemId("DI_lADOAQWwKc4ABQXFzgHLyWE".into()),
        title: "[HLSL] Disallow multiple inheritance".into(),
        updated_at: "2024-08-05T21:47:26Z".into(),
        resource_path: None,
        repo_name_with_owner: None,
        data: WorkItemData::DraftIssue,
        project_item: ProjectItem {
            id: ProjectItemId("PVTI_lADOAQWwKc4ABQXFzgRi8S4".into()),
            updated_at: "2024-08-05T21:47:26Z".into(),
            status: None,
            kind: DelayLoad::Loaded(None),
            workstream: single_select_value("Language"),
            project_milestone: DelayLoad::Loaded(None),
            ..ProjectItem::default_loaded()
        },
    };

    assert_eq!(*draft_issue, expected_draft_issue.id);

    assert_eq!(
        *project_items.get(&expected_draft_issue.id).unwrap(),
        expected_draft_issue
    );

    let issue = &order[1];
    let expected_issue = WorkItem {
        id: WorkItemId("I_kwDOBITxeM6tjuXs".into()),
        title: "[HLSL] Add frontend test coverage of Root Signatures to Offload Test Suite".into(),
        updated_at: "2025-03-27T21:01:40Z".into(),
        resource_path: Some("/llvm/llvm-project/issues/130826".into()),
        repo_name_with_owner: Some("llvm/llvm-project".into()),
        data: WorkItemData::Issue(Issue {
            parent_id: None,
            issue_type: DelayLoad::Loaded(None),
            state: DelayLoad::Loaded(IssueState::CLOSED),
            sub_issues: vec![],
            tracked_issues: DelayLoad::Loaded(vec![]),
            assignees: vec![],
        }),
        project_item: ProjectItem {
            id: ProjectItemId("PVTI_lADOAQWwKc4ABQXFzgYLDkw".into()),
            updated_at: "2025-03-27T21:01:45Z".into(),
            status: Some(FieldOptionId("Closed".into())),
            kind: DelayLoad::Loaded(None),
            workstream: single_select_value("Root Signatures"),
            project_milestone: single_select_value("(old)3: Compute Shaders (1)"),
            ..ProjectItem::default_loaded()
        },
    };
    assert_eq!(*issue, expected_issue.id);
    assert_eq!(*project_items.get(&expected_issue.id).unwrap(), expected_issue);

    let pull_request = &order[2];
    let expected_pull_request = WorkItem {
        id: WorkItemId("PR_kwDOMbLzis6KxhQb".into()),
        title: "Add a proposal for how to explicitly specify struct layouts".into(),
        updated_at: "2025-02-24T19:33:41Z".into(),
        resource_path: Some("/llvm/wg-hlsl/pull/171".into()),
        repo_name_with_owner: Some("llvm/wg-hlsl".into()),
        data: WorkItemData::PullRequest(PullRequest {
            state: DelayLoad::Loaded(ghui::work_item::PullRequestState::OPEN),
            assignees: vec![],
        }),
        project_item: ProjectItem {
            id: ProjectItemId("PVTI_lADOAQWwKc4ABQXFzgXN2OI".into()),
            updated_at: "2025-04-07T20:00:01Z".into(),
            status: Some(FieldOptionId("Needs Review".into())),
            kind: DelayLoad::Loaded(None),
            workstream: DelayLoad::Loaded(None),
            project_milestone: DelayLoad::Loaded(None),
            ..ProjectItem::default_loaded()
        },
    };
    assert_eq!(*pull_request, expected_pull_request.id);
    assert_eq!(
        *project_items.get(&expected_pull_request.id).unwrap(),
        expected_pull_request
    );
}

#[test]
fn test_sub_and_tracked_issues() {
    let row = blank_raw_item(
        "PVTI_lADOAQWwKc4ABQXFzgOXzwE",
        "2025-02-18T23:44:29Z",
        Some(RawContent::Issue {
            id: "I_kwDOMbLzis6RouY5".to_owned(),
            title: "[milestone] Compile a runnable shader from clang".to_owned(),
            updated_at: "2025-02-06T00:48:41Z".to_owned(),
            resource_path: "/llvm/wg-hlsl/issues/7".to_owned(),
            repo_name_with_owner: "llvm/wg-hlsl".to_owned(),
            parent_id: None,
            issue_type: None,
            state: RawIssueState::Closed,
            sub_issues: to_string_vec(&["I_kwDOMbLzis6VOIXt", "I_kwDOBITxeM6RoqRE"]),
            tracked_issues: to_string_vec(&[
                "I_kwDOBITxeM6RopkI",
                "I_kwDOBITxeM6S15Vc",
                "I_kwDOMbLzis6S3UK3",
                "I_kwDOBITxeM6YlVED",
                "I_kwDOBITxeM6TCeSQ",
                "I_kwDOBITxeM6RoqRE",
            ]),
            assignees: Vec::new(),
        }),
    );

    let project_items = WorkItems::from_graphql(vec![row]).unwrap();

    let item = project_items
        .get(&"I_kwDOMbLzis6RouY5".to_owned().into())
        .unwrap();

    let WorkItem {
        data:
            WorkItemData::Issue(Issue {
                ref sub_issues,
                ref tracked_issues,
                ..
            }),
        ..
    } = *item
    else {
        panic!("ProjectItem doesn't match")
    };

    assert_eq!(
        *sub_issues,
        to_id_vec(&["I_kwDOMbLzis6VOIXt", "I_kwDOBITxeM6RoqRE"])
    );
    assert_eq!(
        *tracked_issues,
        DelayLoad::Loaded(to_id_vec(&[
            "I_kwDOBITxeM6RopkI",
            "I_kwDOBITxeM6S15Vc",
            "I_kwDOMbLzis6S3UK3",
            "I_kwDOBITxeM6YlVED",
            "I_kwDOBITxeM6TCeSQ",
            "I_kwDOBITxeM6RoqRE",
        ]))
    );
}

#[test]
fn test_from_graphql_missing_content() {
    let row = blank_raw_item("PVTI_x", "2025-01-01T00:00:00Z", None);
    let err = WorkItems::from_graphql(vec![row]).unwrap_err();
    assert_eq!(err, RawError::MissingContent);
    assert_eq!(err.message(), "project item without content");
}
