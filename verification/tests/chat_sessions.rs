use chat_engine::builders::{
    ChatSessionBuilder, ChatWorkflowBuilder, ChatWorkflowItemBuilder, ChatWorkflowResponseBuilder,
};
use chat_engine::chat_sessions::{ChatSession, ChatSessionEditableAttributes, SESSION_EXPIRY_SECONDS};
use chat_engine::chat_workflow_interactions::ChatWorkflowInteraction;
use chat_engine::chat_workflow_items::{ChatWorkflowItemRenderType, ChatWorkflowItemType};
use chat_engine::chat_workflows::ChatWorkflowEditableAttributes;
use chat_engine::context::{Context, ContextValue};
use chat_engine::error::DatabaseError;
use chat_engine::store::Store;

const NOW: i64 = 1_700_000_000;

#[test]
fn chat_sessions_create_commit() {
    let mut store = Store::new();
    let user_id: u64 = 501;
    let chat_workflow = ChatWorkflowBuilder::new().draft().finish(&mut store).unwrap();
    let chat_workflow_item = ChatWorkflowItemBuilder::new()
        .with_chat_workflow(&chat_workflow)
        .finish(&mut store)
        .unwrap();
    let chat_session = ChatSession::create(user_id, chat_workflow.id, None);

    // Fails due to the chat workflow being in draft status
    let result = chat_session.commit(NOW, &mut store);
    assert_eq!(
        result,
        DatabaseError::business_process_error("Unable to start chat session, workflow is in draft status")
    );
    let chat_workflow = chat_workflow
        .update(
            ChatWorkflowEditableAttributes {
                initial_chat_workflow_item_id: Some(Some(chat_workflow_item.id)),
                ..Default::default()
            },
            &mut store,
        )
        .unwrap();
    assert!(chat_workflow.publish(None, &mut store).is_ok());

    // Once published, it succeeds and chat is given an expires_at value 15 minutes into the future
    let chat_session = chat_session.commit(NOW, &mut store).unwrap();
    assert!(chat_session.id != 0);
    assert_eq!(chat_session.user_id, user_id);
    assert_eq!(chat_session.chat_workflow_id, chat_workflow.id);
    assert_eq!(chat_session.context.len(), 0);
    assert!(chat_session.expires_at.is_some());
    assert!(chat_session.expires_at.unwrap() > NOW + 14 * 60 + 30);
    assert!(chat_session.expires_at.unwrap() <= NOW + 15 * 60);
}

#[test]
fn chat_sessions_find() {
    let mut store = Store::new();
    let chat_session = ChatSessionBuilder::new().finish(NOW, &mut store).unwrap();
    assert_eq!(Ok(chat_session.clone()), ChatSession::find(chat_session.id, &store));
}

#[test]
fn is_expired() {
    let mut store = Store::new();
    let chat_session = ChatSessionBuilder::new().finish(NOW, &mut store).unwrap();
    assert!(!chat_session.is_expired(NOW));

    // A session whose expiry lies a second in the past reports itself expired
    let mut stale = chat_session.clone();
    stale.expires_at = Some(NOW - 1);
    assert!(stale.is_expired(NOW));
}

#[test]
fn chat_sessions_update() {
    let mut store = Store::new();

    let chat_session = ChatSessionBuilder::new().finish(NOW, &mut store).unwrap();

    let mut new_context = Context::new();
    new_context.set("context", ContextValue::Boolean(true));
    let attributes = ChatSessionEditableAttributes {
        context: Some(new_context.clone()),
        ..Default::default()
    };

    let chat_session = chat_session.update(attributes, NOW, &mut store).unwrap();
    assert_eq!(chat_session.context, new_context);
}

#[test]
fn next_expires_at() {
    let next_expires_at = ChatSession::next_expires_at(NOW);
    assert_eq!(next_expires_at, NOW + SESSION_EXPIRY_SECONDS);
    assert_eq!(next_expires_at, NOW + 15 * 60);
}

#[test]
fn add_value_to_context() {
    let mut store = Store::new();
    let mut chat_session = ChatSessionBuilder::new().finish(NOW, &mut store).unwrap();
    assert_eq!(chat_session.context.len(), 0);

    // Initial value added
    chat_session = chat_session
        .add_value_to_context("Context", ContextValue::Boolean(true), NOW, &mut store)
        .unwrap();
    assert_eq!(chat_session.context.get("Context"), Some(ContextValue::Boolean(true)));
    assert_eq!(chat_session.context.len(), 1);

    // Replacing the value
    chat_session = chat_session
        .add_value_to_context("Context", ContextValue::Boolean(false), NOW, &mut store)
        .unwrap();
    assert_eq!(chat_session.context.get("Context"), Some(ContextValue::Boolean(false)));
    assert_eq!(chat_session.context.len(), 1);

    // With additional context
    chat_session = chat_session
        .add_value_to_context("MoreContext", ContextValue::Integer(12), NOW, &mut store)
        .unwrap();
    assert_eq!(chat_session.context.get("Context"), Some(ContextValue::Boolean(false)));
    assert_eq!(chat_session.context.get("MoreContext"), Some(ContextValue::Integer(12)));
    assert_eq!(chat_session.context.len(), 2);
}

#[test]
fn process_response() {
    let mut store = Store::new();
    let chat_workflow = ChatWorkflowBuilder::new().finish(&mut store).unwrap();
    let mut chat_session = ChatSessionBuilder::new().finish(NOW, &mut store).unwrap();
    let question_chat_workflow_item = ChatWorkflowItemBuilder::new()
        .with_item_type(ChatWorkflowItemType::Question)
        .with_chat_workflow(&chat_workflow)
        .finish(&mut store)
        .unwrap();
    let answer_chat_workflow_response = ChatWorkflowResponseBuilder::new()
        .with_chat_workflow_item(&question_chat_workflow_item)
        .finish(&mut store)
        .unwrap();
    let answer_chat_workflow_response2 = ChatWorkflowResponseBuilder::new()
        .with_chat_workflow_item(&question_chat_workflow_item)
        .finish(&mut store)
        .unwrap();
    let message_chat_workflow_item = ChatWorkflowItemBuilder::new()
        .with_item_type(ChatWorkflowItemType::Message)
        .with_chat_workflow(&chat_workflow)
        .finish(&mut store)
        .unwrap();
    let noop_chat_workflow_response = message_chat_workflow_item.responses(&store).unwrap()[0].clone();
    let render_chat_workflow_item = ChatWorkflowItemBuilder::new()
        .with_item_type(ChatWorkflowItemType::Render)
        .with_render_type(ChatWorkflowItemRenderType::OrderDetails)
        .with_chat_workflow(&chat_workflow)
        .finish(&mut store)
        .unwrap();
    let noop_chat_workflow_response2 = render_chat_workflow_item.responses(&store).unwrap()[0].clone();

    let number_of_interactions = ChatWorkflowInteraction::find_by_chat_session(&chat_session, &store)
        .unwrap()
        .len();
    assert_eq!(number_of_interactions, 0);

    // Failure due to no response provided
    let response = chat_session.process_response(&question_chat_workflow_item, None, None, NOW, &mut store);
    assert_eq!(
        response,
        DatabaseError::business_process_error("Unable to process response, no valid input provided")
    );
    let number_of_interactions = ChatWorkflowInteraction::find_by_chat_session(&chat_session, &store)
        .unwrap()
        .len();
    assert_eq!(number_of_interactions, 0);

    // Failure due to invalid response provided
    let response = chat_session.process_response(
        &question_chat_workflow_item,
        None,
        Some("Invalid".to_string()),
        NOW,
        &mut store,
    );
    assert_eq!(
        response,
        DatabaseError::business_process_error("Unable to process response, no valid input provided")
    );
    let number_of_interactions = ChatWorkflowInteraction::find_by_chat_session(&chat_session, &store)
        .unwrap()
        .len();
    assert_eq!(number_of_interactions, 0);

    assert_eq!(
        chat_session.context.get("last_input"),
        Some(ContextValue::Text("Invalid".to_string()))
    );
    assert_eq!(chat_session.context.len(), 1);

    // Failure due to invalid response for item
    let response = chat_session.process_response(
        &message_chat_workflow_item,
        Some(answer_chat_workflow_response.clone()),
        None,
        NOW,
        &mut store,
    );
    assert_eq!(
        response,
        DatabaseError::business_process_error(
            "Unable to process transfer, chat workflow response not valid for chat workflow item"
        )
    );
    let number_of_interactions = ChatWorkflowInteraction::find_by_chat_session(&chat_session, &store)
        .unwrap()
        .len();
    assert_eq!(number_of_interactions, 0);
    // Did not store input due to the error
    assert_eq!(chat_session.context.get("last_input"), Some(ContextValue::Null));
    assert_eq!(chat_session.context.len(), 1);

    // No failure for noop response like a message if no input provided, interaction is logged
    assert!(chat_session
        .process_response(&message_chat_workflow_item, None, None, NOW, &mut store)
        .is_ok());
    let interactions = ChatWorkflowInteraction::find_by_chat_session(&chat_session, &store).unwrap();
    assert_eq!(interactions.len(), 1);
    let interaction = &interactions[0];
    assert_eq!(interaction.chat_workflow_item_id, message_chat_workflow_item.id);
    assert_eq!(interaction.chat_workflow_response_id, noop_chat_workflow_response.id);
    assert_eq!(interaction.input, None);
    assert_eq!(chat_session.context.get("last_input"), Some(ContextValue::Null));
    assert_eq!(chat_session.context.len(), 1);

    // A chat workflow interaction is processed if an input is provided
    assert!(chat_session
        .process_response(
            &question_chat_workflow_item,
            Some(answer_chat_workflow_response.clone()),
            None,
            NOW,
            &mut store
        )
        .is_ok());
    let interactions = ChatWorkflowInteraction::find_by_chat_session(&chat_session, &store).unwrap();
    assert_eq!(interactions.len(), 2);
    let interaction = &interactions[1];
    assert_eq!(interaction.chat_workflow_item_id, question_chat_workflow_item.id);
    assert_eq!(interaction.chat_workflow_response_id, answer_chat_workflow_response.id);
    assert_eq!(interaction.input, answer_chat_workflow_response.answer_value.clone());
    assert_eq!(
        chat_session.context.get("answer_selection"),
        Some(ContextValue::Text(answer_chat_workflow_response.answer_value.clone().unwrap()))
    );
    assert_eq!(
        chat_session.context.get("last_input"),
        Some(ContextValue::Text(answer_chat_workflow_response.answer_value.clone().unwrap()))
    );
    assert_eq!(chat_session.context.len(), 2);

    // Can also be provided by the answer input
    assert!(chat_session
        .process_response(
            &question_chat_workflow_item,
            None,
            Some(answer_chat_workflow_response2.answer_value.clone().unwrap()),
            NOW,
            &mut store
        )
        .is_ok());
    let interactions = ChatWorkflowInteraction::find_by_chat_session(&chat_session, &store).unwrap();
    assert_eq!(interactions.len(), 3);
    let interaction = &interactions[2];
    assert_eq!(interaction.chat_workflow_item_id, question_chat_workflow_item.id);
    assert_eq!(interaction.chat_workflow_response_id, answer_chat_workflow_response2.id);
    assert_eq!(interaction.input, answer_chat_workflow_response2.answer_value);
    assert_eq!(
        chat_session.context.get("answer_selection"),
        Some(ContextValue::Text(answer_chat_workflow_response2.answer_value.clone().unwrap()))
    );
    assert_eq!(
        chat_session.context.get("last_input"),
        Some(ContextValue::Text(answer_chat_workflow_response2.answer_value.clone().unwrap()))
    );
    assert_eq!(chat_session.context.len(), 2);

    // Render type set on render type processing is stored in context in addition
    assert!(chat_session
        .process_response(&render_chat_workflow_item, None, None, NOW, &mut store)
        .is_ok());
    let interactions = ChatWorkflowInteraction::find_by_chat_session(&chat_session, &store).unwrap();
    assert_eq!(interactions.len(), 4);
    let interaction = &interactions[3];
    assert_eq!(interaction.chat_workflow_item_id, render_chat_workflow_item.id);
    assert_eq!(interaction.chat_workflow_response_id, noop_chat_workflow_response2.id);
    assert_eq!(interaction.input, None);
    assert_eq!(
        chat_session.context.get("render_type"),
        Some(ContextValue::Text("OrderDetails".to_string()))
    );
    assert_eq!(chat_session.context.get("last_input"), Some(ContextValue::Null));
    assert_eq!(chat_session.context.len(), 3);
}

#[test]
fn select_response() {
    let mut store = Store::new();
    let chat_workflow = ChatWorkflowBuilder::new().finish(&mut store).unwrap();
    let chat_session = ChatSessionBuilder::new().finish(NOW, &mut store).unwrap();
    let question_chat_workflow_item = ChatWorkflowItemBuilder::new()
        .with_item_type(ChatWorkflowItemType::Question)
        .with_chat_workflow(&chat_workflow)
        .finish(&mut store)
        .unwrap();
    let question_chat_workflow_item2 = ChatWorkflowItemBuilder::new()
        .with_item_type(ChatWorkflowItemType::Question)
        .with_chat_workflow(&chat_workflow)
        .finish(&mut store)
        .unwrap();
    let answer_chat_workflow_response = ChatWorkflowResponseBuilder::new()
        .with_chat_workflow_item(&question_chat_workflow_item)
        .with_next_chat_workflow_item(&question_chat_workflow_item2)
        .finish(&mut store)
        .unwrap();
    let _answer_chat_workflow_response2 = ChatWorkflowResponseBuilder::new()
        .with_chat_workflow_item(&question_chat_workflow_item2)
        .finish(&mut store)
        .unwrap();

    assert!(chat_session
        .select_response(
            &question_chat_workflow_item,
            &answer_chat_workflow_response,
            None,
            NOW,
            &mut store
        )
        .is_ok());
    let interactions = ChatWorkflowInteraction::find_by_chat_session(&chat_session, &store).unwrap();
    assert_eq!(interactions.len(), 1);
    let interaction = &interactions[0];
    assert_eq!(interaction.chat_workflow_item_id, question_chat_workflow_item.id);
    assert_eq!(interaction.chat_workflow_response_id, answer_chat_workflow_response.id);
    assert_eq!(interaction.input, None);
    let chat_session = ChatSession::find(chat_session.id, &store).unwrap();
    assert_eq!(chat_session.chat_workflow_item_id, Some(question_chat_workflow_item2.id));
}
