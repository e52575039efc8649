//! Scenario tests for the library's laws: the root view, ledger upserts,
//! round-tripping applied changes, epic inheritance, closed-status fixes,
//! re-parenting, update classification, and adoption idempotence.

use ghui::changes::Change;
use ghui::changes::ChangeData;
use ghui::changes::Changes;
use ghui::fetch::PageAssembler;
use ghui::fetch::ProgressTracker;
use ghui::ids::FieldOptionId;
use ghui::ids::WorkItemId;
use ghui::raw::RawFieldConfig;
use ghui::raw::RawIterationCfg;
use ghui::raw::FieldConfigError;
use ghui::save_plan::IssueTypes;
use ghui::save_plan::RawIssueType;
use ghui::save_plan::SaveAction;
use ghui::fields::Field;
use ghui::fields::Iteration;
use ghui::test_helpers::TestData;
use ghui::update::get_work_item_update_type;
use ghui::update::UpdateType;
use ghui::work_item::IssueState;
use ghui::work_item::WorkItem;
use ghui::work_item::WorkItemData;

// The epic of the nearest ancestor reaches every blank descendant: with
// root(epic)->mid(blank)->leaf(blank), both mid and leaf receive the
// change.
#[test]
fn test_epic_reaches_blank_descendants() {
    let mut data = TestData::default();

    let leaf = data.build().add();
    let mid = data.build().sub_issues(&[&leaf]).add();
    data.build().epic("EpicA").sub_issues(&[&mid]).add();

    let epic = ChangeData::Epic(data.fields.epic.option_id(Some("EpicA")).cloned());

    let actual = data.work_items.sanitize(&data.fields);

    let mut expected = Changes::default();
    expected.add(Change {
        work_item_id: mid,
        data: epic.clone(),
    });
    expected.add(Change {
        work_item_id: leaf,
        data: epic,
    });
    assert_eq!(actual, expected);
}

// A closed entity whose status already reads "Closed" needs no fix.
#[test]
fn test_closed_with_closed_status_needs_nothing() {
    let mut data = TestData::default();
    data.build()
        .issue_state(IssueState::CLOSED)
        .status("Closed")
        .add();

    let actual = data.work_items.sanitize(&data.fields);
    assert_eq!(actual, Changes::default());
}

// A dangling sub-issue id yields an add-to-project change.
#[test]
fn test_dangling_child_yields_add_to_project() {
    let mut data = TestData::default();
    let missing = WorkItemId("never-fetched".to_owned());
    data.build().sub_issues(&[&missing]).add();

    let actual = data.work_items.sanitize(&data.fields);

    let mut expected = Changes::default();
    expected.add(Change {
        work_item_id: missing,
        data: ChangeData::AddToProject,
    });
    assert_eq!(actual, expected);
}

// Applying changes and re-applying the returned originals restores the
// store exactly.
#[test]
fn test_apply_then_restore_round_trips() {
    let mut data = TestData::default();
    let child = data.build().issue().add();
    let old_parent = data.build().sub_issues(&[&child]).add();
    let new_parent = data.build().issue().add();
    let _ = old_parent;

    let before = data.work_items.clone();

    let mut changes = Changes::default();
    changes.add(Change {
        work_item_id: child.clone(),
        data: ChangeData::SetParent(new_parent.clone()),
    });
    changes.add(Change {
        work_item_id: new_parent.clone(),
        data: ChangeData::Status(data.fields.status.option_id(Some("Active")).cloned()),
    });

    let originals = data.work_items.apply_changes(&changes);
    assert_ne!(before, data.work_items);

    data.work_items.restore(&originals);
    assert_eq!(before, data.work_items);
}

// Ledger insertion is idempotent and the last writer wins per key.
#[test]
fn test_ledger_upsert() {
    let id = WorkItemId("x".to_owned());
    let first = Change {
        work_item_id: id.clone(),
        data: ChangeData::Epic(Some(FieldOptionId("e1".to_owned()))),
    };
    let second = Change {
        work_item_id: id.clone(),
        data: ChangeData::Epic(Some(FieldOptionId("e2".to_owned()))),
    };

    let mut once = Changes::default();
    once.add(first.clone());
    let mut twice = Changes::default();
    twice.add(first.clone());
    twice.add(first.clone());
    assert_eq!(once, twice);
    assert_eq!(once.len(), 1);

    let mut overwritten = Changes::default();
    overwritten.add(first);
    overwritten.add(second.clone());
    let mut only_second = Changes::default();
    only_second.add(second);
    assert_eq!(overwritten, only_second);
    assert_eq!(overwritten.len(), 1);
}

// Adoption is idempotent: applying its output and re-running it yields
// nothing.
#[test]
fn test_convert_tracked_twice_yields_nothing() {
    let mut data = TestData::default();
    let t1 = data.build().issue().add();
    let t2 = data.build().issue().add();
    let parent = data.build().tracked_issues(&[&t1, &t2]).add();

    let first = data.work_items.convert_tracked_to_sub_issues(&parent);
    assert_eq!(first.len(), 2);

    data.work_items.apply_changes(&first);

    let second = data.work_items.convert_tracked_to_sub_issues(&parent);
    assert!(second.is_empty());
}

// Update classification: tracked issues are cosmetic; the tree-shaping
// fields are not; an unchanged entity is no update; a brand-new entity
// forces a refresh.
#[test]
fn test_update_classification() {
    let mut data = TestData::default();
    let other = data.build().issue().add();
    let id = data.build().issue().add();

    let old_item = data.work_items.get(&id).unwrap().clone();
    assert_eq!(
        get_work_item_update_type(&old_item, &old_item),
        UpdateType::NoUpdate
    );

    let mut tracked_changed = old_item.clone();
    if let WorkItemData::Issue(issue) = &mut tracked_changed.data {
        issue.tracked_issues = ghui::delay_load::DelayLoad::Loaded(vec![other.clone()]);
    }
    assert_eq!(
        get_work_item_update_type(&old_item, &tracked_changed),
        UpdateType::SimpleChange
    );

    let mut subs_changed = old_item.clone();
    if let WorkItemData::Issue(issue) = &mut subs_changed.data {
        issue.sub_issues = vec![other.clone()];
    }
    assert_eq!(
        get_work_item_update_type(&old_item, &subs_changed),
        UpdateType::ChangesHierarchy
    );

    let mut parent_changed = old_item.clone();
    if let WorkItemData::Issue(issue) = &mut parent_changed.data {
        issue.parent_id = Some(other.clone());
    }
    assert_eq!(
        get_work_item_update_type(&old_item, &parent_changed),
        UpdateType::ChangesHierarchy
    );

    let mut state_changed = old_item.clone();
    if let WorkItemData::Issue(issue) = &mut state_changed.data {
        issue.state = ghui::delay_load::DelayLoad::Loaded(IssueState::CLOSED);
    }
    assert_eq!(
        get_work_item_update_type(&old_item, &state_changed),
        UpdateType::ChangesHierarchy
    );

    let mut title_changed = old_item.clone();
    title_changed.title = "renamed".to_owned();
    assert_eq!(
        get_work_item_update_type(&old_item, &title_changed),
        UpdateType::SimpleChange
    );

    // A brand-new entity always forces a hierarchy refresh.
    let mut fresh = WorkItem::default_loaded();
    fresh.id = WorkItemId("brand-new".to_owned());
    assert_eq!(
        data.work_items.update(fresh),
        UpdateType::ChangesHierarchy
    );
}

// Catalog lookups: name to id, id to name, and the option's position.
#[test]
fn test_catalog_lookups() {
    let data = TestData::default();
    let closed = data.fields.status.option_id(Some("Closed")).cloned();
    assert_eq!(closed, Some(FieldOptionId("id(Closed)".to_owned())));
    assert_eq!(
        data.fields.status.option_name(closed.as_ref()),
        Some("Closed")
    );
    assert_eq!(data.fields.status.option_index(closed.as_ref()), 2);
    assert_eq!(data.fields.status.option_id(Some("Missing")), None);
    assert_eq!(data.fields.status.option_index(None), usize::MAX);
}

// Splitting a repository path at its first slash.
#[test]
fn test_repository_info() {
    let mut item = WorkItem::default_loaded();
    item.repo_name_with_owner = Some("llvm/llvm-project".to_owned());
    assert_eq!(
        item.get_repository_info(),
        Some(("llvm".to_owned(), "llvm-project".to_owned()))
    );

    item.repo_name_with_owner = Some("no-slash-here".to_owned());
    assert_eq!(item.get_repository_info(), None);

    item.repo_name_with_owner = None;
    assert_eq!(item.get_repository_info(), None);
}

// Describing a change names its kind and the new value by catalog name.
#[test]
fn test_describe_change() {
    let data = TestData::default();
    let change = Change {
        work_item_id: WorkItemId("x".to_owned()),
        data: ChangeData::Epic(data.fields.epic.option_id(Some("DML Demo")).cloned()),
    };
    assert_eq!(change.describe(&data.fields), "Epic(DML Demo)");

    let cleared = Change {
        work_item_id: WorkItemId("x".to_owned()),
        data: ChangeData::Status(None),
    };
    assert_eq!(cleared.describe(&data.fields), "Status(<>)");
}

// Planning a save: a re-parenting becomes an add-sub-issue call and names
// the child, its prior parent and its new parent for re-fetching.
#[test]
fn test_plan_set_parent() {
    let mut data = TestData::default();
    let child = data.build().issue().add();
    let old_parent = data.build().sub_issues(&[&child]).add();
    let new_parent = data.build().issue().add();

    let change = Change {
        work_item_id: child.clone(),
        data: ChangeData::SetParent(new_parent.clone()),
    };
    let (action, changed) = change.plan(&data.fields, &data.work_items);
    match action {
        SaveAction::AddSubIssue {
            parent_id,
            child_id,
        } => {
            assert_eq!(parent_id, new_parent);
            assert_eq!(child_id, child);
        }
        _ => panic!("expected an add-sub-issue call"),
    }
    assert_eq!(changed, vec![child, old_parent, new_parent]);
}

// Planning a save: a cleared field becomes a clear-field call; draining
// the ledger empties it; a failed change re-queued stays for next time.
#[test]
fn test_plan_clear_and_requeue() {
    let mut data = TestData::default();
    let id = data.build().issue().add();

    let change = Change {
        work_item_id: id.clone(),
        data: ChangeData::Status(None),
    };
    let (action, changed) = change.plan(&data.fields, &data.work_items);
    assert!(matches!(action, SaveAction::ClearField { .. }));
    assert_eq!(changed, vec![id]);

    let mut ledger = Changes::default();
    ledger.add(change);
    let pending = ledger.begin_save();
    assert!(ledger.is_empty());
    assert_eq!(pending.len(), 1);

    // The remote call failed: the change is re-queued for the next save.
    for failed in pending {
        ledger.add(failed);
    }
    assert_eq!(ledger.len(), 1);
}

// Page assembly keeps page order even when tasks complete out of order,
// and progress only ever counts upward.
#[test]
fn test_fetch_assembly_order_and_progress() {
    let mut data = TestData::default();
    let a = data.build().issue().add();
    let b = data.build().issue().add();
    let item_a = data.work_items.get(&a).unwrap().clone();
    let item_b = data.work_items.get(&b).unwrap().clone();

    let mut assembler = PageAssembler::new();
    let first = assembler.begin_page();
    let second = assembler.begin_page();

    // The second page's task finishes first.
    assembler.complete_page(second, vec![item_b.clone()]);

    let mut tracker = ProgressTracker::new();
    let (done, total) = tracker.record(1, 2);
    assert_eq!((done, total), (1, 2));

    assembler.complete_page(first, vec![item_a.clone()]);
    let (done, _) = tracker.record(1, 2);
    assert_eq!(done, 2);

    let assembled = assembler.assemble().unwrap();
    assert_eq!(assembled, vec![item_a, item_b]);
}

// An assembler with a pending page yields nothing yet.
#[test]
fn test_fetch_assembly_incomplete() {
    let mut assembler = PageAssembler::new();
    let _ = assembler.begin_page();
    assert!(assembler.assemble().is_none());
}

// Iteration options merge the current and completed iterations, ordered
// by title.
#[test]
fn test_iteration_field_options() {
    let cfg = RawFieldConfig::IterationField {
        id: "fid".to_owned(),
        name: "iteration".to_owned(),
        iterations: vec![RawIterationCfg {
            id: "i2".to_owned(),
            title: "S2".to_owned(),
            start_date: "2025-02-01".to_owned(),
            duration: 14,
        }],
        completed_iterations: vec![RawIterationCfg {
            id: "i1".to_owned(),
            title: "S1".to_owned(),
            start_date: "2025-01-01".to_owned(),
            duration: 14,
        }],
    };
    let field = Field::<Iteration>::from_raw_iteration(Some(cfg)).unwrap();
    assert_eq!(field.options.len(), 2);
    assert_eq!(field.options[0].value, "S1");
    assert_eq!(field.options[1].value, "S2");

    assert_eq!(
        Field::<Iteration>::from_raw_iteration(None).unwrap_err(),
        FieldConfigError::Missing
    );
    assert_eq!(
        Field::<Iteration>::from_raw_iteration(Some(RawFieldConfig::Field)).unwrap_err(),
        FieldConfigError::WrongKind
    );
}

// Issue-type catalogs: the last entry under a name wins; unknown names
// resolve to nothing.
#[test]
fn test_issue_type_catalog() {
    let types = IssueTypes::from_nodes(vec![
        Some(RawIssueType {
            id: "t1".to_owned(),
            name: "Bug".to_owned(),
        }),
        None,
        Some(RawIssueType {
            id: "t2".to_owned(),
            name: "Bug".to_owned(),
        }),
    ]);
    let id = types.name_to_id("Bug").unwrap();
    assert_eq!(id.0, "t2");
    assert!(types.name_to_id("Task").is_none());
    assert!(types.resolve(&None).is_none());
}

// Link extraction: the found addresses come back in order, and anything
// else in the text is ignored.  The extractor must really scan the text,
// not hand it back.
#[test]
fn test_read_issue_urls() {
    let content = "first https://github.com/llvm/wg-hlsl/issues/7\nthen \
                   https://github.com/llvm/llvm-project/issues/130826 end";
    let urls = ghui::links::read_issue_urls(content);
    assert_eq!(
        urls,
        vec![
            "https://github.com/llvm/wg-hlsl/issues/7".to_owned(),
            "https://github.com/llvm/llvm-project/issues/130826".to_owned(),
        ]
    );
    assert_eq!(ghui::links::read_issue_urls("no links here"), Vec::<String>::new());
}

// An empty store has no roots; a re-added id keeps one root entry and
// the later snapshot wins.
#[test]
fn test_roots_empty_and_duplicate_add() {
    let mut data = TestData::default();
    assert!(data.work_items.get_roots().is_empty());

    let id = data.build().issue().add();
    let mut replacement = data.work_items.get(&id).unwrap().clone();
    replacement.title = "replaced".to_owned();
    data.work_items.add(replacement);

    let roots = data.work_items.get_roots();
    assert_eq!(roots, vec![id.clone()]);
    assert_eq!(data.work_items.get(&id).unwrap().title, "replaced");
}

// Entity descriptions: the web address when the resource path is known,
// the bracketed id otherwise; closedness by entity kind.
#[test]
fn test_work_item_views() {
    let mut item = WorkItem::default_loaded();
    item.id = WorkItemId("raw-id".to_owned());
    assert_eq!(item.describe(), "[raw-id]");

    item.resource_path = Some("/llvm/wg-hlsl/pull/171".to_owned());
    assert_eq!(item.describe(), "https://github.com/llvm/wg-hlsl/pull/171");

    // A draft is never closed; a merged pull request is.
    assert_eq!(item.is_closed(), ghui::delay_load::DelayLoad::Loaded(false));
    item.data = WorkItemData::PullRequest(ghui::work_item::PullRequest {
        state: ghui::delay_load::DelayLoad::Loaded(ghui::work_item::PullRequestState::MERGED),
        assignees: vec![],
    });
    assert_eq!(item.is_closed(), ghui::delay_load::DelayLoad::Loaded(true));
}

// A scalar change replaces just its field, and the original value comes
// back in the snapshot map.
#[test]
fn test_apply_scalar_change() {
    let mut data = TestData::default();
    let id = data.build().issue().add();
    let blocked = data.fields.blocked.option_id(Some("PR")).cloned();

    let mut changes = Changes::default();
    changes.add(Change {
        work_item_id: id.clone(),
        data: ChangeData::Blocked(blocked.clone()),
    });

    let before = data.work_items.get(&id).unwrap().clone();
    let originals = data.work_items.apply_changes(&changes);

    assert_eq!(
        data.work_items.get(&id).unwrap().project_item.blocked,
        ghui::delay_load::DelayLoad::Loaded(blocked)
    );
    assert_eq!(*originals.get(&id).unwrap(), before);
    assert_eq!(originals.len(), 1);
}
