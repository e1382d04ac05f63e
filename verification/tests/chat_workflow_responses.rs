use chat_engine::builders::{
    ChatSessionBuilder, ChatWorkflowBuilder, ChatWorkflowItemBuilder, ChatWorkflowResponseBuilder,
};
use chat_engine::chat_workflow_items::{ChatWorkflowItem, ChatWorkflowItemType};
use chat_engine::chat_workflow_responses::{
    ChatWorkflowResponse, ChatWorkflowResponseEditableAttributes, ChatWorkflowResponseType,
};
use chat_engine::chat_workflows::ChatWorkflow;
use chat_engine::context::ContextValue;
use chat_engine::error::ErrorCode;
use chat_engine::render::{DisplayChatWorkflowResponse, ItemTree};
use chat_engine::store::Store;

const NOW: i64 = 1_700_000_000;

fn reference_somewhere(tree: &ItemTree, id: u64) -> bool {
    match tree {
        ItemTree::Empty => false,
        ItemTree::Reference(n) => *n == id,
        ItemTree::Item(item) => item.tree.iter().any(|r| reference_somewhere(&r.tree, id)),
    }
}

#[test]
fn chat_workflow_responses_for_display() {
    let mut store = Store::new();

    let chat_workflow_item = ChatWorkflowItemBuilder::new()
        .with_item_type(ChatWorkflowItemType::Question)
        .finish(&mut store)
        .unwrap();
    let chat_workflow_item2 = ChatWorkflowItemBuilder::new()
        .with_item_type(ChatWorkflowItemType::Message)
        .finish(&mut store)
        .unwrap();
    let chat_workflow_response = ChatWorkflowResponseBuilder::new()
        .with_chat_workflow_item(&chat_workflow_item)
        .with_rank(1)
        .finish(&mut store)
        .unwrap();
    let chat_workflow_response2 = ChatWorkflowResponseBuilder::new()
        .with_chat_workflow_item(&chat_workflow_item)
        .with_next_chat_workflow_item(&chat_workflow_item2)
        .with_rank(2)
        .finish(&mut store)
        .unwrap();

    let mut rendered: Vec<u64> = Vec::new();
    assert_eq!(
        chat_workflow_response.for_display(&mut rendered, &store).unwrap(),
        DisplayChatWorkflowResponse {
            id: chat_workflow_response.id,
            chat_workflow_item_id: chat_workflow_response.chat_workflow_item_id,
            response_type: chat_workflow_response.response_type,
            response: chat_workflow_response.response.clone(),
            answer_value: chat_workflow_response.answer_value.clone(),
            next_chat_workflow_item_id: chat_workflow_response.next_chat_workflow_item_id,
            rank: chat_workflow_response.rank,
            tree: ItemTree::Empty,
        }
    );

    // Chat workflow item with responses
    let mut v: Vec<u64> = Vec::new();
    let expected_item2 = chat_workflow_item2.for_display(&mut v, &store).unwrap();
    let mut rendered: Vec<u64> = Vec::new();
    assert_eq!(
        chat_workflow_response2.for_display(&mut rendered, &store).unwrap(),
        DisplayChatWorkflowResponse {
            id: chat_workflow_response2.id,
            chat_workflow_item_id: chat_workflow_response2.chat_workflow_item_id,
            response_type: chat_workflow_response2.response_type,
            response: chat_workflow_response2.response.clone(),
            answer_value: chat_workflow_response2.answer_value.clone(),
            next_chat_workflow_item_id: chat_workflow_response2.next_chat_workflow_item_id,
            rank: chat_workflow_response2.rank,
            tree: ItemTree::Item(Box::new(expected_item2)),
        }
    );

    // Chat workflow item with recursive loop
    let chat_workflow_item = ChatWorkflowItemBuilder::new()
        .with_item_type(ChatWorkflowItemType::Question)
        .finish(&mut store)
        .unwrap();
    // Loops with self
    let chat_workflow_response = ChatWorkflowResponseBuilder::new()
        .with_chat_workflow_item(&chat_workflow_item)
        .with_next_chat_workflow_item(&chat_workflow_item)
        .with_rank(1)
        .finish(&mut store)
        .unwrap();
    let mut v: Vec<u64> = vec![chat_workflow_item.id];
    let expected_item = chat_workflow_item.for_display(&mut v, &store).unwrap();
    let mut rendered: Vec<u64> = Vec::new();
    let displayed_chat_workflow_response =
        chat_workflow_response.for_display(&mut rendered, &store).unwrap();
    assert_eq!(
        displayed_chat_workflow_response,
        DisplayChatWorkflowResponse {
            id: chat_workflow_response.id,
            chat_workflow_item_id: chat_workflow_response.chat_workflow_item_id,
            response_type: chat_workflow_response.response_type,
            response: chat_workflow_response.response.clone(),
            answer_value: chat_workflow_response.answer_value.clone(),
            next_chat_workflow_item_id: chat_workflow_response.next_chat_workflow_item_id,
            rank: chat_workflow_response.rank,
            tree: ItemTree::Item(Box::new(expected_item)),
        }
    );
    assert!(reference_somewhere(&displayed_chat_workflow_response.tree, chat_workflow_item.id));
}

#[test]
fn chat_workflow_responses_destroy() {
    let mut store = Store::new();
    let chat_workflow = ChatWorkflowBuilder::new().draft().finish(&mut store).unwrap();
    let chat_workflow_item = ChatWorkflowItemBuilder::new()
        .with_chat_workflow(&chat_workflow)
        .finish(&mut store)
        .unwrap();
    let chat_workflow_response = ChatWorkflowResponseBuilder::new()
        .with_chat_workflow_item(&chat_workflow_item)
        .finish(&mut store)
        .unwrap();

    assert!(chat_workflow_response.destroy(&mut store).is_ok());
    assert!(ChatWorkflow::find(chat_workflow.id, &store).is_ok());
    assert!(ChatWorkflowItem::find(chat_workflow_item.id, &store).is_ok());
    assert!(ChatWorkflowResponse::find(chat_workflow_response.id, &store).is_err());
}

#[test]
fn create_with_validation_errors() {
    let mut store = Store::new();
    let chat_workflow_item = ChatWorkflowItemBuilder::new()
        .with_item_type(ChatWorkflowItemType::Question)
        .finish(&mut store)
        .unwrap();
    let chat_workflow_item2 = ChatWorkflowItemBuilder::new()
        .with_item_type(ChatWorkflowItemType::Question)
        .finish(&mut store)
        .unwrap();
    let response_type = ChatWorkflowResponseType::Answer;
    let answer_value = "Answer 1".to_string();

    // Creates chat workflow without issue
    assert!(ChatWorkflowResponse::create(
        chat_workflow_item.id,
        response_type,
        None,
        Some(answer_value.clone()),
        None,
        1
    )
    .commit(&mut store)
    .is_ok());

    // Failure because answer value already in use
    let result = ChatWorkflowResponse::create(
        chat_workflow_item.id,
        response_type,
        None,
        Some(answer_value.clone()),
        None,
        1,
    )
    .commit(&mut store);
    match result {
        Ok(_) => {
            panic!("Expected validation error");
        }
        Err(error) => match &error.error_code {
            ErrorCode::ValidationError { errors } => {
                assert_eq!(errors.len(), 1);
                assert_eq!(errors[0].field, "answer_value".to_string());
                assert_eq!(errors[0].code, "uniqueness".to_string());
                assert_eq!(errors[0].message, "Answer value is already in use".to_string());
            }
            _ => panic!("Expected validation error"),
        },
    }

    // Additional attempt using a unique answer type does not lead to errors
    assert!(ChatWorkflowResponse::create(
        chat_workflow_item.id,
        response_type,
        None,
        Some("Answer 2".to_string()),
        None,
        1
    )
    .commit(&mut store)
    .is_ok());

    // Can succeed for other question type as it filters to chat workflow item for the uniqueness constraint
    assert!(ChatWorkflowResponse::create(
        chat_workflow_item2.id,
        response_type,
        None,
        Some(answer_value.clone()),
        None,
        1
    )
    .commit(&mut store)
    .is_ok());
}

#[test]
fn chat_workflow_responses_create_commit() {
    let mut store = Store::new();
    let chat_workflow_item = ChatWorkflowItemBuilder::new().finish(&mut store).unwrap();
    let response_type = ChatWorkflowResponseType::Noop;
    let response = Some("Example response".to_string());
    let chat_workflow_response =
        ChatWorkflowResponse::create(chat_workflow_item.id, response_type, response.clone(), None, None, 1)
            .commit(&mut store)
            .unwrap();

    assert!(chat_workflow_response.id != 0);
    assert_eq!(chat_workflow_response.chat_workflow_item_id, chat_workflow_item.id);
    assert_eq!(chat_workflow_response.response_type, response_type);
    assert_eq!(chat_workflow_response.response, response);
    assert_eq!(chat_workflow_response.next_chat_workflow_item_id, None);
    assert_eq!(chat_workflow_response.rank, 1);

    // Add another workflow response set to rank 1, should move the original rank to 2
    let chat_workflow_response2 = ChatWorkflowResponseBuilder::new()
        .with_chat_workflow_item(&chat_workflow_item)
        .with_response("Example response")
        .with_rank(1)
        .finish(&mut store)
        .unwrap();

    assert_eq!(chat_workflow_response2.chat_workflow_item_id, chat_workflow_item.id);
    assert_eq!(chat_workflow_response2.response_type, response_type);
    assert_eq!(chat_workflow_response2.response, response);
    assert_eq!(chat_workflow_response2.next_chat_workflow_item_id, None);
    assert_eq!(chat_workflow_response2.rank, 1);

    let chat_workflow_response = ChatWorkflowResponse::find(chat_workflow_response.id, &store).unwrap();
    assert_eq!(chat_workflow_response.rank, 2);

    // Add another workflow response set to rank 2, should move original but not second added response rank
    let chat_workflow_response3 = ChatWorkflowResponseBuilder::new()
        .with_chat_workflow_item(&chat_workflow_item)
        .with_response("Example response")
        .with_rank(2)
        .finish(&mut store)
        .unwrap();

    assert_eq!(chat_workflow_response3.chat_workflow_item_id, chat_workflow_item.id);
    assert_eq!(chat_workflow_response3.response_type, response_type);
    assert_eq!(chat_workflow_response3.response, response);
    assert_eq!(chat_workflow_response3.next_chat_workflow_item_id, None);
    assert_eq!(chat_workflow_response3.rank, 2);

    let chat_workflow_response = ChatWorkflowResponse::find(chat_workflow_response.id, &store).unwrap();
    assert_eq!(chat_workflow_response.rank, 3);

    let chat_workflow_response2 = ChatWorkflowResponse::find(chat_workflow_response2.id, &store).unwrap();
    assert_eq!(chat_workflow_response2.rank, 1);
}

#[test]
fn response() {
    let mut store = Store::new();
    let mut chat_session = ChatSessionBuilder::new().finish(NOW, &mut store).unwrap();
    let chat_workflow_response = ChatWorkflowResponseBuilder::new()
        .with_response("Testing normal response")
        .finish(&mut store)
        .unwrap();
    assert_eq!(
        chat_workflow_response.response(&chat_session).unwrap(),
        "Testing normal response".to_string()
    );

    let chat_workflow_response = ChatWorkflowResponseBuilder::new()
        .with_response("Testing replacements, no valid {last_input} {error_message}")
        .finish(&mut store)
        .unwrap();
    assert_eq!(
        chat_workflow_response.response(&chat_session).unwrap(),
        "Testing replacements, no valid  ".to_string()
    );

    // With some values set on the chat session
    chat_session = chat_session
        .add_value_to_context("last_input", ContextValue::Text("Input".to_string()), NOW, &mut store)
        .unwrap();
    chat_session = chat_session
        .add_value_to_context("error_message", ContextValue::Text("Error".to_string()), NOW, &mut store)
        .unwrap();
    assert_eq!(
        chat_workflow_response.response(&chat_session).unwrap(),
        "Testing replacements, no valid Input Error".to_string()
    );
}

#[test]
fn chat_workflow_responses_find() {
    let mut store = Store::new();
    let chat_workflow_response = ChatWorkflowResponseBuilder::new().finish(&mut store).unwrap();
    assert_eq!(
        ChatWorkflowResponse::find(chat_workflow_response.id, &store).unwrap(),
        chat_workflow_response
    );
}

#[test]
fn find_for_chat_workflow_item() {
    let mut store = Store::new();
    let chat_workflow_item = ChatWorkflowItemBuilder::new().finish(&mut store).unwrap();
    chat_workflow_item.responses(&store).unwrap()[0]
        .destroy(&mut store)
        .unwrap();
    let chat_workflow_response = ChatWorkflowResponseBuilder::new()
        .with_chat_workflow_item(&chat_workflow_item)
        .with_rank(0)
        .finish(&mut store)
        .unwrap();
    let chat_workflow_response2 = ChatWorkflowResponseBuilder::new()
        .with_chat_workflow_item(&chat_workflow_item)
        .with_rank(1)
        .finish(&mut store)
        .unwrap();
    let _chat_workflow_response3 = ChatWorkflowResponseBuilder::new().finish(&mut store).unwrap();

    assert_eq!(
        ChatWorkflowResponse::find_for_chat_workflow_item(&chat_workflow_item, &store).unwrap(),
        vec![chat_workflow_response, chat_workflow_response2]
    );
}

#[test]
fn chat_workflow_responses_update() {
    let mut store = Store::new();
    let chat_workflow_item = ChatWorkflowItemBuilder::new().finish(&mut store).unwrap();
    let chat_workflow_response = ChatWorkflowResponseBuilder::new()
        .with_chat_workflow_item(&chat_workflow_item)
        .with_rank(1)
        .finish(&mut store)
        .unwrap();
    let chat_workflow_response2 = ChatWorkflowResponseBuilder::new()
        .with_chat_workflow_item(&chat_workflow_item)
        .with_rank(2)
        .finish(&mut store)
        .unwrap();
    let new_response = "New response".to_string();
    let attributes = ChatWorkflowResponseEditableAttributes {
        response: Some(Some(new_response.clone())),
        ..Default::default()
    };
    let chat_workflow_response = chat_workflow_response.update(attributes, &mut store).unwrap();
    let chat_workflow_response2_reloaded =
        ChatWorkflowResponse::find(chat_workflow_response2.id, &store).unwrap();
    assert_eq!(chat_workflow_response.response, Some(new_response));
    assert_eq!(chat_workflow_response.rank, 1);
    assert_eq!(chat_workflow_response2_reloaded.rank, 2);

    let attributes = ChatWorkflowResponseEditableAttributes {
        rank: Some(2),
        ..Default::default()
    };
    let chat_workflow_response = chat_workflow_response.update(attributes, &mut store).unwrap();
    let chat_workflow_response2_reloaded =
        ChatWorkflowResponse::find(chat_workflow_response2.id, &store).unwrap();
    assert_eq!(chat_workflow_response.rank, 2);
    assert_eq!(chat_workflow_response2_reloaded.rank, 1);
}

#[test]
fn chat_workflow_item() {
    let mut store = Store::new();
    let chat_workflow_item = ChatWorkflowItemBuilder::new().finish(&mut store).unwrap();
    let chat_workflow_response = ChatWorkflowResponseBuilder::new()
        .with_chat_workflow_item(&chat_workflow_item)
        .finish(&mut store)
        .unwrap();

    assert_eq!(
        chat_workflow_item,
        chat_workflow_response.chat_workflow_item(&store).unwrap()
    );
}

#[test]
fn find_by_chat_workflow_item_and_answer_value() {
    let mut store = Store::new();
    let chat_workflow_item = ChatWorkflowItemBuilder::new().finish(&mut store).unwrap();
    let chat_workflow_response = ChatWorkflowResponseBuilder::new()
        .with_answer_value("Yes!")
        .with_chat_workflow_item(&chat_workflow_item)
        .finish(&mut store)
        .unwrap();
    let chat_workflow_response2 = ChatWorkflowResponseBuilder::new()
        .with_answer_value("No way!")
        .with_rank(2)
        .with_chat_workflow_item(&chat_workflow_item)
        .finish(&mut store)
        .unwrap();

    assert_eq!(
        chat_workflow_response,
        ChatWorkflowResponse::find_by_chat_workflow_item_and_answer_value(&chat_workflow_item, "Yes!", &store)
            .unwrap()
    );
    assert_eq!(
        chat_workflow_response2,
        ChatWorkflowResponse::find_by_chat_workflow_item_and_answer_value(&chat_workflow_item, "No way!", &store)
            .unwrap()
    );
    assert!(ChatWorkflowResponse::find_by_chat_workflow_item_and_answer_value(
        &chat_workflow_item,
        "Not real!",
        &store
    )
    .is_err());
}
