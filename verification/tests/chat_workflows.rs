use chat_engine::builders::{ChatWorkflowBuilder, ChatWorkflowItemBuilder, ChatWorkflowResponseBuilder};
use chat_engine::chat_workflow_items::ChatWorkflowItemType;
use chat_engine::chat_workflows::{ChatWorkflow, ChatWorkflowEditableAttributes, ChatWorkflowStatus};
use chat_engine::domain_events::{DomainEvent, DomainEventTypes, Tables};
use chat_engine::error::DatabaseError;
use chat_engine::render::{DisplayChatWorkflow, ItemTree};
use chat_engine::store::Store;

fn contains_reference(tree: &ItemTree, id: u64) -> bool {
    match tree {
        ItemTree::Empty => false,
        ItemTree::Reference(n) => *n == id,
        ItemTree::Item(item) => item.tree.iter().any(|r| contains_reference(&r.tree, id)),
    }
}

#[test]
fn chat_workflows_for_display() {
    let mut store = Store::new();

    // Draft chat workflow, lacks an initial_chat_workflow_item_id
    let chat_workflow = ChatWorkflowBuilder::new().draft().finish(&mut store).unwrap();
    assert_eq!(
        chat_workflow.for_display(&store).unwrap(),
        DisplayChatWorkflow {
            id: chat_workflow.id,
            name: chat_workflow.name.clone(),
            status: chat_workflow.status,
            tree: ItemTree::Empty,
            initial_chat_workflow_item_id: chat_workflow.initial_chat_workflow_item_id,
        }
    );

    // Chat workflow with initial_chat_workflow_item_id
    let chat_workflow_item = ChatWorkflowItemBuilder::new()
        .with_item_type(ChatWorkflowItemType::Question)
        .with_chat_workflow(&chat_workflow)
        .finish(&mut store)
        .unwrap();
    let chat_workflow_item2 = ChatWorkflowItemBuilder::new()
        .with_item_type(ChatWorkflowItemType::Message)
        .with_chat_workflow(&chat_workflow)
        .finish(&mut store)
        .unwrap();
    let attributes = ChatWorkflowEditableAttributes {
        initial_chat_workflow_item_id: Some(Some(chat_workflow_item.id)),
        ..Default::default()
    };
    let chat_workflow = chat_workflow.update(attributes, &mut store).unwrap();
    ChatWorkflowResponseBuilder::new()
        .with_chat_workflow_item(&chat_workflow_item)
        .finish(&mut store)
        .unwrap();
    ChatWorkflowResponseBuilder::new()
        .with_chat_workflow_item(&chat_workflow_item)
        .with_next_chat_workflow_item(&chat_workflow_item2)
        .finish(&mut store)
        .unwrap();
    ChatWorkflowResponseBuilder::new()
        .with_chat_workflow_item(&chat_workflow_item2)
        .finish(&mut store)
        .unwrap();
    let mut rendered: Vec<u64> = Vec::new();
    let expected_tree = chat_workflow_item.for_display(&mut rendered, &store).unwrap();
    assert_eq!(
        chat_workflow.for_display(&store).unwrap(),
        DisplayChatWorkflow {
            id: chat_workflow.id,
            name: chat_workflow.name.clone(),
            status: chat_workflow.status,
            tree: ItemTree::Item(Box::new(expected_tree)),
            initial_chat_workflow_item_id: chat_workflow.initial_chat_workflow_item_id,
        }
    );

    // Chat workflow with recursive loop
    let chat_workflow = ChatWorkflowBuilder::new().draft().finish(&mut store).unwrap();
    let chat_workflow_item = ChatWorkflowItemBuilder::new()
        .with_item_type(ChatWorkflowItemType::Question)
        .with_chat_workflow(&chat_workflow)
        .finish(&mut store)
        .unwrap();
    let attributes = ChatWorkflowEditableAttributes {
        initial_chat_workflow_item_id: Some(Some(chat_workflow_item.id)),
        ..Default::default()
    };
    let chat_workflow = chat_workflow.update(attributes, &mut store).unwrap();
    ChatWorkflowResponseBuilder::new()
        .with_chat_workflow_item(&chat_workflow_item)
        .finish(&mut store)
        .unwrap();
    // Loops with self
    ChatWorkflowResponseBuilder::new()
        .with_chat_workflow_item(&chat_workflow_item)
        .with_next_chat_workflow_item(&chat_workflow_item)
        .finish(&mut store)
        .unwrap();
    let displayed_chat_workflow = chat_workflow.for_display(&store).unwrap();
    let mut rendered: Vec<u64> = Vec::new();
    let expected_tree = chat_workflow_item.for_display(&mut rendered, &store).unwrap();
    assert_eq!(
        displayed_chat_workflow,
        DisplayChatWorkflow {
            id: chat_workflow.id,
            name: chat_workflow.name.clone(),
            status: chat_workflow.status,
            tree: ItemTree::Item(Box::new(expected_tree)),
            initial_chat_workflow_item_id: chat_workflow.initial_chat_workflow_item_id,
        }
    );
    assert!(contains_reference(&displayed_chat_workflow.tree, chat_workflow_item.id));
}

#[test]
fn chat_workflows_destroy() {
    let mut store = Store::new();
    let user_id: u64 = 777;
    let chat_workflow = ChatWorkflowBuilder::new().draft().finish(&mut store).unwrap();
    let chat_workflow_item = ChatWorkflowItemBuilder::new()
        .with_chat_workflow(&chat_workflow)
        .finish(&mut store)
        .unwrap();
    let chat_workflow_response = ChatWorkflowResponseBuilder::new()
        .with_chat_workflow_item(&chat_workflow_item)
        .finish(&mut store)
        .unwrap();

    let domain_events = DomainEvent::find(
        Tables::ChatWorkflows,
        Some(chat_workflow.id),
        Some(DomainEventTypes::ChatWorkflowDeleted),
        &store,
    )
    .unwrap();
    assert_eq!(0, domain_events.len());

    assert!(chat_workflow.destroy(Some(user_id), &mut store).is_ok());
    let domain_events = DomainEvent::find(
        Tables::ChatWorkflows,
        Some(chat_workflow.id),
        Some(DomainEventTypes::ChatWorkflowDeleted),
        &store,
    )
    .unwrap();
    assert_eq!(1, domain_events.len());

    assert!(ChatWorkflow::find(chat_workflow.id, &store).is_err());
    assert!(chat_engine::chat_workflow_items::ChatWorkflowItem::find(chat_workflow_item.id, &store)
        .is_err());
    assert!(chat_engine::chat_workflow_responses::ChatWorkflowResponse::find(
        chat_workflow_response.id,
        &store
    )
    .is_err());
}

#[test]
fn publish() {
    let mut store = Store::new();
    let user_id: u64 = 900;
    let chat_workflow = ChatWorkflowBuilder::new().draft().finish(&mut store).unwrap();
    assert!(chat_workflow.initial_chat_workflow_item_id.is_none());
    let domain_events = DomainEvent::find(
        Tables::ChatWorkflows,
        Some(chat_workflow.id),
        Some(DomainEventTypes::ChatWorkflowPublished),
        &store,
    )
    .unwrap();
    assert_eq!(0, domain_events.len());

    // chat workflow fails to publish due to missing initial chat workflow item
    assert_eq!(
        chat_workflow.publish(Some(user_id), &mut store),
        DatabaseError::business_process_error("Initial chat workflow item must be set on workflow to publish")
    );
    let domain_events = DomainEvent::find(
        Tables::ChatWorkflows,
        Some(chat_workflow.id),
        Some(DomainEventTypes::ChatWorkflowPublished),
        &store,
    )
    .unwrap();
    assert_eq!(0, domain_events.len());

    let chat_workflow_item = ChatWorkflowItemBuilder::new()
        .with_chat_workflow(&chat_workflow)
        .finish(&mut store)
        .unwrap();
    let chat_workflow = chat_workflow
        .update(
            ChatWorkflowEditableAttributes {
                initial_chat_workflow_item_id: Some(Some(chat_workflow_item.id)),
                ..Default::default()
            },
            &mut store,
        )
        .unwrap();

    // With chat workflow that includes initial chat workflow item, succeeds
    let chat_workflow = chat_workflow.publish(Some(user_id), &mut store).unwrap();
    assert_eq!(chat_workflow.status, ChatWorkflowStatus::Published);
    let domain_events = DomainEvent::find(
        Tables::ChatWorkflows,
        Some(chat_workflow.id),
        Some(DomainEventTypes::ChatWorkflowPublished),
        &store,
    )
    .unwrap();
    assert_eq!(1, domain_events.len());

    // Publishing again does nothing but return a clone of itself
    let updated_chat_workflow = chat_workflow.publish(Some(user_id), &mut store).unwrap();
    assert_eq!(updated_chat_workflow, chat_workflow);
    let domain_events = DomainEvent::find(
        Tables::ChatWorkflows,
        Some(chat_workflow.id),
        Some(DomainEventTypes::ChatWorkflowPublished),
        &store,
    )
    .unwrap();
    assert_eq!(1, domain_events.len());
}

#[test]
fn chat_workflows_create_commit() {
    let mut store = Store::new();
    let user_id: u64 = 42;
    let name = "Workflow Name".to_string();
    let chat_workflow = ChatWorkflow::create(name.clone())
        .commit(Some(user_id), &mut store)
        .unwrap();
    let domain_events = DomainEvent::find(
        Tables::ChatWorkflows,
        Some(chat_workflow.id),
        Some(DomainEventTypes::ChatWorkflowCreated),
        &store,
    )
    .unwrap();
    assert_eq!(1, domain_events.len());

    assert!(chat_workflow.id != 0);
    assert_eq!(chat_workflow.name, name);
}

#[test]
fn chat_workflows_find() {
    let mut store = Store::new();
    let chat_workflow = ChatWorkflowBuilder::new().finish(&mut store).unwrap();
    assert_eq!(ChatWorkflow::find(chat_workflow.id, &store).unwrap(), chat_workflow);
}

#[test]
fn all() {
    let mut store = Store::new();
    let chat_workflow = ChatWorkflowBuilder::new().with_name("Workflow 1").finish(&mut store).unwrap();
    let chat_workflow2 = ChatWorkflowBuilder::new().with_name("Workflow 2").finish(&mut store).unwrap();
    assert_eq!(
        ChatWorkflow::all(&store).unwrap(),
        vec![chat_workflow, chat_workflow2]
    );
}

#[test]
fn chat_workflows_update() {
    let mut store = Store::new();

    let chat_workflow = ChatWorkflowBuilder::new().finish(&mut store).unwrap();

    let new_name = "New name".to_string();
    let attributes = ChatWorkflowEditableAttributes {
        name: Some(new_name.clone()),
        ..Default::default()
    };

    let chat_workflow = chat_workflow.update(attributes, &mut store).unwrap();
    assert_eq!(chat_workflow.name, new_name);
}
