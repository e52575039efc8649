//! Tests of the display-node builder.

use ghui::apply::Originals;
use ghui::nodes::Filters;
use ghui::nodes::NodeBuilder;
use ghui::nodes::NodeData;
use ghui::test_helpers::TestData;

#[test]
fn test_node_builder_single_item() {
    let mut data = TestData::default();
    let id = data.build().epic("EpicA").add();
    let work_items = data.work_items;
    let filters = Filters::default();
    let original_work_items = Originals::new();
    let mut builder = NodeBuilder::new(&data.fields, &work_items, &filters, &original_work_items);
    let nodes = builder.build();
    // Only one node (the work item) should be present, no group node
    assert_eq!(nodes.len(), 1);
    assert!(matches!(nodes[0].data, NodeData::WorkItem));
    assert_eq!(nodes[0].id, id.0);
    assert_eq!(nodes[0].level, 0);
}

#[test]
fn test_node_builder_grouping() {
    let mut data = TestData::default();
    let id1 = data.build().epic("EpicA").add();
    let id2 = data.build().epic("EpicB").add();
    let work_items = data.work_items;
    let filters = Filters::default();
    let original_work_items = Originals::new();
    let mut builder = NodeBuilder::new(&data.fields, &work_items, &filters, &original_work_items);
    let nodes = builder.build();
    // Should have two groups and two work items, in order: Group(EpicA), WorkItem(1), Group(EpicB), WorkItem(2)
    println!("{:?}", work_items.items());
    println!("{nodes:?}");
    assert_eq!(nodes.len(), 4);
    assert!(matches!(nodes[0].data, NodeData::Group { ref name } if name == "EpicA"));
    assert!(matches!(nodes[1].data, NodeData::WorkItem));
    assert_eq!(nodes[1].id, id1.0);
    assert!(matches!(nodes[2].data, NodeData::Group { ref name } if name == "EpicB"));
    assert!(matches!(nodes[3].data, NodeData::WorkItem));
    assert_eq!(nodes[3].id, id2.0);
}

#[test]
fn test_node_builder_hierarchy() {
    let mut data = TestData::default();
    let id1 = data.build().epic("EpicA").add();
    let id2 = data.build().epic("EpicA").sub_issues(&[&id1]).add();
    let work_items = data.work_items;
    let filters = Filters::default();
    let original_work_items = Originals::new();
    let mut builder = NodeBuilder::new(&data.fields, &work_items, &filters, &original_work_items);
    let nodes = builder.build();
    // Should have two work items, no group node, in order: WorkItem(2), WorkItem(1)
    assert_eq!(nodes.len(), 2);
    assert!(matches!(nodes[0].data, NodeData::WorkItem));
    assert_eq!(nodes[0].id, id2.0);
    assert!(matches!(nodes[1].data, NodeData::WorkItem));
    assert_eq!(nodes[1].id, id1.0);
    // Child should be at a deeper level
    let parent_level = nodes.iter().find(|n| n.id == id2.0).unwrap().level;
    let child_level = nodes.iter().find(|n| n.id == id1.0).unwrap().level;
    assert!(child_level > parent_level);
}

#[test]
fn test_node_build_no_filters() {
    let mut data = TestData::default();

    let closed_item = data.build().status("Closed").add();

    let filters = Filters::default();
    let original_work_items = Originals::new();
    let mut builder = NodeBuilder::new(
        &data.fields,
        &data.work_items,
        &filters,
        &original_work_items,
    );
    let nodes = builder.build();

    // The closed parent and its closed children should be filtered out
    assert!(nodes.iter().any(|n| n.id == closed_item.0));
}

#[test]
fn test_node_builder_filters_closed() {
    let mut data = TestData::default();

    // Create a closed parent with two closed children
    let child1_id = data.build().status("Closed").add();
    let child2_id = data.build().status("Closed").add();
    let parent1_id = data
        .build()
        .sub_issues(&[&child1_id, &child2_id])
        .status("Closed")
        .add();

    // Create a closed parent, with closed child and open granchild
    let grandchild1_id = data.build().status("Open").add();
    let child3_id = data
        .build()
        .sub_issues(&[&grandchild1_id])
        .status("Closed")
        .add();
    let parent2_id = data
        .build()
        .sub_issues(&[&child3_id])
        .status("Closed")
        .add();

    let work_items = data.work_items;
    let filters = Filters { hide_closed: true };
    let original_work_items = Originals::new();
    let mut builder = NodeBuilder::new(&data.fields, &work_items, &filters, &original_work_items);
    let nodes = builder.build();

    // The closed parent and its closed children should be filtered out
    assert!(!nodes.iter().any(|n| n.id == parent1_id.0));
    assert!(!nodes.iter().any(|n| n.id == child1_id.0));
    assert!(!nodes.iter().any(|n| n.id == child2_id.0));

    // The open grandchild should be present, and so should its ancestors
    assert!(nodes.iter().any(|n| n.id == grandchild1_id.0));
    assert!(nodes.iter().any(|n| n.id == child3_id.0));
    assert!(nodes.iter().any(|n| n.id == parent2_id.0));
}
