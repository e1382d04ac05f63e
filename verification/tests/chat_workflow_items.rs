use chat_engine::builders::{
    ChatSessionBuilder, ChatWorkflowBuilder, ChatWorkflowItemBuilder, ChatWorkflowResponseBuilder,
};
use chat_engine::chat_workflow_items::{ChatWorkflowItem, ChatWorkflowItemEditableAttributes, ChatWorkflowItemType};
use chat_engine::chat_workflow_responses::{ChatWorkflowResponse, ChatWorkflowResponseType};
use chat_engine::chat_workflows::{ChatWorkflow, ChatWorkflowEditableAttributes};
use chat_engine::context::ContextValue;
use chat_engine::error::DatabaseError;
use chat_engine::render::{DisplayChatWorkflowItem, ItemTree};
use chat_engine::store::Store;

const NOW: i64 = 1_700_000_000;

fn item_tree_contains_reference(tree: &ItemTree, id: u64) -> bool {
    match tree {
        ItemTree::Empty => false,
        ItemTree::Reference(n) => *n == id,
        ItemTree::Item(item) => item.tree.iter().any(|r| item_tree_contains_reference(&r.tree, id)),
    }
}

#[test]
fn chat_workflow_items_for_display() {
    let mut store = Store::new();

    let chat_workflow_item = ChatWorkflowItemBuilder::new()
        .with_item_type(ChatWorkflowItemType::Question)
        .finish(&mut store)
        .unwrap();
    let chat_workflow_item2 = ChatWorkflowItemBuilder::new()
        .with_item_type(ChatWorkflowItemType::Message)
        .finish(&mut store)
        .unwrap();

    let mut rendered: Vec<u64> = Vec::new();
    assert_eq!(
        chat_workflow_item.for_display(&mut rendered, &store).unwrap(),
        DisplayChatWorkflowItem {
            id: chat_workflow_item.id,
            chat_workflow_id: chat_workflow_item.chat_workflow_id,
            item_type: chat_workflow_item.item_type,
            message: chat_workflow_item.message.clone(),
            render_type: chat_workflow_item.render_type,
            response_wait: chat_workflow_item.response_wait,
            tree: Vec::new(),
        }
    );

    // Chat workflow item with responses
    let chat_workflow_response = ChatWorkflowResponseBuilder::new()
        .with_chat_workflow_item(&chat_workflow_item)
        .with_next_chat_workflow_item(&chat_workflow_item2)
        .with_rank(1)
        .finish(&mut store)
        .unwrap();
    let chat_workflow_response2 = ChatWorkflowResponseBuilder::new()
        .with_chat_workflow_item(&chat_workflow_item)
        .with_rank(2)
        .finish(&mut store)
        .unwrap();
    let mut v1: Vec<u64> = Vec::new();
    let expected1 = chat_workflow_response.for_display(&mut v1, &store).unwrap();
    let mut v2: Vec<u64> = Vec::new();
    let expected2 = chat_workflow_response2.for_display(&mut v2, &store).unwrap();
    let mut rendered: Vec<u64> = Vec::new();
    assert_eq!(
        chat_workflow_item.for_display(&mut rendered, &store).unwrap(),
        DisplayChatWorkflowItem {
            id: chat_workflow_item.id,
            chat_workflow_id: chat_workflow_item.chat_workflow_id,
            item_type: chat_workflow_item.item_type,
            message: chat_workflow_item.message.clone(),
            render_type: chat_workflow_item.render_type,
            response_wait: chat_workflow_item.response_wait,
            tree: vec![expected1, expected2],
        }
    );

    // Chat workflow item with recursive loop
    let chat_workflow_item = ChatWorkflowItemBuilder::new()
        .with_item_type(ChatWorkflowItemType::Question)
        .finish(&mut store)
        .unwrap();
    let chat_workflow_response = ChatWorkflowResponseBuilder::new()
        .with_chat_workflow_item(&chat_workflow_item)
        .with_rank(1)
        .finish(&mut store)
        .unwrap();
    // Loops with self
    let chat_workflow_response2 = ChatWorkflowResponseBuilder::new()
        .with_chat_workflow_item(&chat_workflow_item)
        .with_next_chat_workflow_item(&chat_workflow_item)
        .with_rank(2)
        .finish(&mut store)
        .unwrap();
    let mut v1: Vec<u64> = vec![chat_workflow_item.id];
    let expected1 = chat_workflow_response.for_display(&mut v1, &store).unwrap();
    let mut v2: Vec<u64> = vec![chat_workflow_item.id];
    let expected2 = chat_workflow_response2.for_display(&mut v2, &store).unwrap();
    let mut rendered: Vec<u64> = Vec::new();
    let displayed_chat_workflow_item = chat_workflow_item.for_display(&mut rendered, &store).unwrap();
    assert_eq!(
        displayed_chat_workflow_item,
        DisplayChatWorkflowItem {
            id: chat_workflow_item.id,
            chat_workflow_id: chat_workflow_item.chat_workflow_id,
            item_type: chat_workflow_item.item_type,
            message: chat_workflow_item.message.clone(),
            render_type: chat_workflow_item.render_type,
            response_wait: chat_workflow_item.response_wait,
            tree: vec![expected1, expected2],
        }
    );
    let mut found = false;
    for r in displayed_chat_workflow_item.tree.iter() {
        if item_tree_contains_reference(&r.tree, chat_workflow_item.id) {
            found = true;
        }
    }
    assert!(found);
}

#[test]
fn chat_workflow_items_destroy() {
    let mut store = Store::new();
    let chat_workflow = ChatWorkflowBuilder::new().draft().finish(&mut store).unwrap();
    let chat_workflow_item = ChatWorkflowItemBuilder::new()
        .with_chat_workflow(&chat_workflow)
        .finish(&mut store)
        .unwrap();
    let chat_workflow_response = ChatWorkflowResponseBuilder::new()
        .with_chat_workflow_item(&chat_workflow_item)
        .finish(&mut store)
        .unwrap();

    assert!(chat_workflow_item.destroy(&mut store).is_ok());
    assert!(ChatWorkflow::find(chat_workflow.id, &store).is_ok());
    assert!(ChatWorkflowItem::find(chat_workflow_item.id, &store).is_err());
    assert!(ChatWorkflowResponse::find(chat_workflow_response.id, &store).is_err());
}

#[test]
fn destroy_recursive_chat_workflow_item() {
    let mut store = Store::new();
    let chat_workflow_item = ChatWorkflowItemBuilder::new().finish(&mut store).unwrap();
    let chat_workflow_item2 = ChatWorkflowItemBuilder::new().finish(&mut store).unwrap();
    let chat_workflow_response = ChatWorkflowResponseBuilder::new()
        .with_chat_workflow_item(&chat_workflow_item)
        .with_next_chat_workflow_item(&chat_workflow_item2)
        .finish(&mut store)
        .unwrap();
    let chat_workflow_response2 = ChatWorkflowResponseBuilder::new()
        .with_chat_workflow_item(&chat_workflow_item2)
        .with_next_chat_workflow_item(&chat_workflow_item)
        .finish(&mut store)
        .unwrap();

    assert!(chat_workflow_item.destroy(&mut store).is_ok());
    assert!(ChatWorkflowItem::find(chat_workflow_item.id, &store).is_err());
    assert!(ChatWorkflowResponse::find(chat_workflow_response.id, &store).is_err());

    assert!(ChatWorkflowItem::find(chat_workflow_item2.id, &store).is_ok());
    let chat_workflow_response2 = ChatWorkflowResponse::find(chat_workflow_response2.id, &store).unwrap();
    assert_eq!(chat_workflow_response2.next_chat_workflow_item_id, None);
}

#[test]
fn destroy_fails_as_initial_chat_workflow_item() {
    let mut store = Store::new();
    let chat_workflow = ChatWorkflowBuilder::new().draft().finish(&mut store).unwrap();
    let chat_workflow_item = ChatWorkflowItemBuilder::new()
        .with_chat_workflow(&chat_workflow)
        .finish(&mut store)
        .unwrap();
    let chat_workflow_response = ChatWorkflowResponseBuilder::new()
        .with_chat_workflow_item(&chat_workflow_item)
        .finish(&mut store)
        .unwrap();
    let chat_workflow = chat_workflow
        .update(
            ChatWorkflowEditableAttributes {
                initial_chat_workflow_item_id: Some(Some(chat_workflow_item.id)),
                ..Default::default()
            },
            &mut store,
        )
        .unwrap();

    assert_eq!(
        chat_workflow_item.destroy(&mut store),
        DatabaseError::business_process_error(
            "Chat workflow item cannot be destroyed, used as an initial chat workflow item",
        )
    );
    assert!(ChatWorkflow::find(chat_workflow.id, &store).is_ok());
    assert!(ChatWorkflowItem::find(chat_workflow_item.id, &store).is_ok());
    assert!(ChatWorkflowResponse::find(chat_workflow_response.id, &store).is_ok());

    // Removing as the initial chat workflow item allow deletion
    let chat_workflow = chat_workflow
        .update(
            ChatWorkflowEditableAttributes {
                initial_chat_workflow_item_id: Some(None),
                ..Default::default()
            },
            &mut store,
        )
        .unwrap();
    assert!(chat_workflow_item.destroy(&mut store).is_ok());
    assert!(ChatWorkflow::find(chat_workflow.id, &store).is_ok());
    assert!(ChatWorkflowItem::find(chat_workflow_item.id, &store).is_err());
    assert!(ChatWorkflowResponse::find(chat_workflow_response.id, &store).is_err());
}

#[test]
fn remaining_response_types() {
    let mut store = Store::new();

    let message_chat_workflow_item = ChatWorkflowItemBuilder::new()
        .with_item_type(ChatWorkflowItemType::Message)
        .finish(&mut store)
        .unwrap();
    message_chat_workflow_item.responses(&store).unwrap()[0]
        .destroy(&mut store)
        .unwrap();
    assert_eq!(
        message_chat_workflow_item.remaining_response_types(&store).unwrap(),
        vec![ChatWorkflowResponseType::Noop]
    );
    ChatWorkflowResponseBuilder::new()
        .with_chat_workflow_item(&message_chat_workflow_item)
        .finish(&mut store)
        .unwrap();
    assert_eq!(
        message_chat_workflow_item.remaining_response_types(&store).unwrap(),
        Vec::new()
    );

    // Questions do not run out of available answers
    let question_chat_workflow_item = ChatWorkflowItemBuilder::new()
        .with_item_type(ChatWorkflowItemType::Question)
        .finish(&mut store)
        .unwrap();
    assert_eq!(
        question_chat_workflow_item
            .remaining_response_types(&store)
            .unwrap(),
        vec![ChatWorkflowResponseType::Answer]
    );

    ChatWorkflowResponseBuilder::new()
        .with_chat_workflow_item(&question_chat_workflow_item)
        .finish(&mut store)
        .unwrap();
    assert_eq!(
        question_chat_workflow_item
            .remaining_response_types(&store)
            .unwrap(),
        vec![ChatWorkflowResponseType::Answer]
    );
}

#[test]
fn response_valid() {
    let mut store = Store::new();

    let message_chat_workflow_item = ChatWorkflowItemBuilder::new()
        .with_item_type(ChatWorkflowItemType::Message)
        .finish(&mut store)
        .unwrap();
    let noop_chat_workflow_response =
        message_chat_workflow_item.responses(&store).unwrap()[0].clone();

    // Questions do not run out of available answers
    let question_chat_workflow_item = ChatWorkflowItemBuilder::new()
        .with_item_type(ChatWorkflowItemType::Question)
        .finish(&mut store)
        .unwrap();
    let answer_chat_workflow_response = ChatWorkflowResponseBuilder::new()
        .with_chat_workflow_item(&question_chat_workflow_item)
        .finish(&mut store)
        .unwrap();

    assert!(message_chat_workflow_item
        .response_valid(&noop_chat_workflow_response, &store)
        .unwrap());
    assert!(!message_chat_workflow_item
        .response_valid(&answer_chat_workflow_response, &store)
        .unwrap());

    assert!(!question_chat_workflow_item
        .response_valid(&noop_chat_workflow_response, &store)
        .unwrap());
    assert!(question_chat_workflow_item
        .response_valid(&answer_chat_workflow_response, &store)
        .unwrap());
}

#[test]
fn message() {
    let mut store = Store::new();
    let mut chat_session = ChatSessionBuilder::new().finish(NOW, &mut store).unwrap();
    let chat_workflow_item = ChatWorkflowItemBuilder::new()
        .with_message("Testing normal message")
        .finish(&mut store)
        .unwrap();
    assert_eq!(
        chat_workflow_item.message(&chat_session).unwrap(),
        "Testing normal message".to_string()
    );

    let chat_workflow_item = ChatWorkflowItemBuilder::new()
        .with_message("Testing replacements, no valid {last_input} {error_message}")
        .finish(&mut store)
        .unwrap();
    assert_eq!(
        chat_workflow_item.message(&chat_session).unwrap(),
        "Testing replacements, no valid  ".to_string()
    );

    // With some values set on the chat session
    chat_session = chat_session
        .add_value_to_context("last_input", ContextValue::Text("Input".to_string()), NOW, &mut store)
        .unwrap();
    chat_session = chat_session
        .add_value_to_context("error_message", ContextValue::Text("Error".to_string()), NOW, &mut store)
        .unwrap();
    assert_eq!(
        chat_workflow_item.message(&chat_session).unwrap(),
        "Testing replacements, no valid Input Error".to_string()
    );
}

#[test]
fn response_types() {
    let mut store = Store::new();

    let message_chat_workflow_item = ChatWorkflowItemBuilder::new()
        .with_item_type(ChatWorkflowItemType::Message)
        .finish(&mut store)
        .unwrap();
    message_chat_workflow_item.responses(&store).unwrap()[0]
        .destroy(&mut store)
        .unwrap();
    assert!(message_chat_workflow_item
        .response_types(&store)
        .unwrap()
        .is_empty());
    ChatWorkflowResponseBuilder::new()
        .with_chat_workflow_item(&message_chat_workflow_item)
        .finish(&mut store)
        .unwrap();
    assert_eq!(
        vec![ChatWorkflowResponseType::Noop],
        message_chat_workflow_item.response_types(&store).unwrap()
    );

    // Questions do not run out of available answers
    let question_chat_workflow_item = ChatWorkflowItemBuilder::new()
        .with_item_type(ChatWorkflowItemType::Question)
        .finish(&mut store)
        .unwrap();
    assert!(question_chat_workflow_item
        .response_types(&store)
        .unwrap()
        .is_empty());
    ChatWorkflowResponseBuilder::new()
        .with_chat_workflow_item(&question_chat_workflow_item)
        .finish(&mut store)
        .unwrap();
    assert_eq!(
        vec![ChatWorkflowResponseType::Answer],
        question_chat_workflow_item.response_types(&store).unwrap()
    );
}

#[test]
fn chat_workflow() {
    let mut store = Store::new();
    let chat_workflow = ChatWorkflowBuilder::new().finish(&mut store).unwrap();
    let chat_workflow_item = ChatWorkflowItemBuilder::new()
        .with_chat_workflow(&chat_workflow)
        .finish(&mut store)
        .unwrap();
    assert_eq!(chat_workflow_item.chat_workflow(&store).unwrap(), chat_workflow);
}

#[test]
fn responses() {
    let mut store = Store::new();

    let message_chat_workflow_item = ChatWorkflowItemBuilder::new()
        .with_item_type(ChatWorkflowItemType::Message)
        .finish(&mut store)
        .unwrap();
    message_chat_workflow_item.responses(&store).unwrap()[0]
        .destroy(&mut store)
        .unwrap();
    assert!(message_chat_workflow_item.responses(&store).unwrap().is_empty());
    let noop_chat_workflow_response = ChatWorkflowResponseBuilder::new()
        .with_chat_workflow_item(&message_chat_workflow_item)
        .finish(&mut store)
        .unwrap();
    assert_eq!(
        vec![noop_chat_workflow_response],
        message_chat_workflow_item.responses(&store).unwrap()
    );

    // Questions do not run out of available answers
    let question_chat_workflow_item = ChatWorkflowItemBuilder::new()
        .with_item_type(ChatWorkflowItemType::Question)
        .finish(&mut store)
        .unwrap();
    assert!(question_chat_workflow_item.responses(&store).unwrap().is_empty());
    let answer_chat_workflow_response = ChatWorkflowResponseBuilder::new()
        .with_chat_workflow_item(&question_chat_workflow_item)
        .finish(&mut store)
        .unwrap();
    assert_eq!(
        vec![answer_chat_workflow_response],
        question_chat_workflow_item.responses(&store).unwrap()
    );
}

#[test]
fn available_response_types() {
    let mut store = Store::new();
    let message_chat_workflow_item = ChatWorkflowItemBuilder::new()
        .with_item_type(ChatWorkflowItemType::Message)
        .finish(&mut store)
        .unwrap();
    assert_eq!(
        vec![ChatWorkflowResponseType::Noop],
        message_chat_workflow_item.available_response_types()
    );

    let question_chat_workflow_item = ChatWorkflowItemBuilder::new()
        .with_item_type(ChatWorkflowItemType::Question)
        .finish(&mut store)
        .unwrap();
    assert_eq!(
        vec![ChatWorkflowResponseType::Answer],
        question_chat_workflow_item.available_response_types()
    );
}

#[test]
fn chat_workflow_items_create_commit() {
    let mut store = Store::new();
    let chat_workflow = ChatWorkflowBuilder::new().finish(&mut store).unwrap();
    let chat_workflow_item_type = ChatWorkflowItemType::Question;
    let message = Some("Example message".to_string());
    let chat_workflow_item = ChatWorkflowItem::create(chat_workflow.id, chat_workflow_item_type, message, None, None)
        .commit(&mut store)
        .unwrap();

    assert!(chat_workflow_item.id != 0);
    assert_eq!(chat_workflow_item.chat_workflow_id, chat_workflow.id);
    assert_eq!(chat_workflow_item.item_type, chat_workflow_item_type);
    assert_eq!(chat_workflow_item.render_type, None);
    assert_eq!(chat_workflow_item.response_wait, 10);
}

#[test]
fn chat_workflow_items_find() {
    let mut store = Store::new();
    let chat_workflow_item = ChatWorkflowItemBuilder::new().finish(&mut store).unwrap();
    assert_eq!(
        ChatWorkflowItem::find(chat_workflow_item.id, &store).unwrap(),
        chat_workflow_item
    );
}

#[test]
fn find_chat_workflow_response_by_response_type() {
    let mut store = Store::new();

    let message_chat_workflow_item = ChatWorkflowItemBuilder::new()
        .with_item_type(ChatWorkflowItemType::Message)
        .finish(&mut store)
        .unwrap();
    let noop_chat_workflow_response =
        message_chat_workflow_item.responses(&store).unwrap()[0].clone();
    assert_eq!(
        message_chat_workflow_item
            .find_chat_workflow_response_by_response_type(ChatWorkflowResponseType::Noop, &store)
            .unwrap(),
        noop_chat_workflow_response
    );

    assert!(message_chat_workflow_item
        .find_chat_workflow_response_by_response_type(ChatWorkflowResponseType::Answer, &store)
        .is_err());
}

#[test]
fn chat_workflow_items_update() {
    let mut store = Store::new();
    let chat_workflow_item = ChatWorkflowItemBuilder::new().finish(&mut store).unwrap();

    let new_message = "New message".to_string();
    let attributes = ChatWorkflowItemEditableAttributes {
        message: Some(Some(new_message.clone())),
        ..Default::default()
    };

    let chat_workflow_item = chat_workflow_item.update(attributes, &mut store).unwrap();
    assert_eq!(chat_workflow_item.message, Some(new_message));
}
