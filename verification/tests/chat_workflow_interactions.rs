use chat_engine::builders::{
    ChatSessionBuilder, ChatWorkflowInteractionBuilder, ChatWorkflowItemBuilder,
    ChatWorkflowResponseBuilder,
};
use chat_engine::chat_workflow_interactions::ChatWorkflowInteraction;
use chat_engine::store::Store;

const NOW: i64 = 1_700_000_000;

#[test]
fn chat_workflow_interactions_create_commit() {
    let mut store = Store::new();
    let chat_session = ChatSessionBuilder::new().finish(NOW, &mut store).unwrap();
    let chat_workflow_item = ChatWorkflowItemBuilder::new().finish(&mut store).unwrap();
    let chat_workflow_response = ChatWorkflowResponseBuilder::new()
        .with_chat_workflow_item(&chat_workflow_item)
        .finish(&mut store)
        .unwrap();
    let input = "Input".to_string();
    let chat_workflow_interaction = ChatWorkflowInteraction::create(
        chat_workflow_item.id,
        chat_workflow_response.id,
        chat_session.id,
        Some(input.clone()),
    )
    .commit(NOW, &mut store)
    .unwrap();

    assert!(chat_workflow_interaction.id != 0);
    assert_eq!(chat_workflow_interaction.chat_workflow_item_id, chat_workflow_item.id);
    assert_eq!(
        chat_workflow_interaction.chat_workflow_response_id,
        chat_workflow_response.id
    );
    assert_eq!(chat_workflow_interaction.chat_session_id, chat_session.id);
    assert_eq!(chat_workflow_interaction.input, Some(input));
}

#[test]
fn chat_workflow_interactions_find() {
    let mut store = Store::new();
    let chat_workflow_interaction = ChatWorkflowInteractionBuilder::new().finish(NOW, &mut store).unwrap();
    assert_eq!(
        ChatWorkflowInteraction::find(chat_workflow_interaction.id, &store).unwrap(),
        chat_workflow_interaction
    );
}

#[test]
fn log_interaction() {
    let mut store = Store::new();
    let chat_session = ChatSessionBuilder::new().finish(NOW, &mut store).unwrap();
    let chat_workflow_item = ChatWorkflowItemBuilder::new().finish(&mut store).unwrap();
    let chat_workflow_response = ChatWorkflowResponseBuilder::new()
        .with_chat_workflow_item(&chat_workflow_item)
        .finish(&mut store)
        .unwrap();
    let input = "Input".to_string();
    assert_eq!(
        ChatWorkflowInteraction::find_by_chat_session(&chat_session, &store)
            .unwrap()
            .len(),
        0
    );

    assert!(ChatWorkflowInteraction::log_interaction(
        &chat_session,
        &chat_workflow_item,
        &chat_workflow_response,
        Some(input.clone()),
        NOW,
        &mut store
    )
    .is_ok());

    let chat_workflow_interactions =
        ChatWorkflowInteraction::find_by_chat_session(&chat_session, &store).unwrap();
    assert_eq!(chat_workflow_interactions.len(), 1);
    let chat_workflow_interaction = &chat_workflow_interactions[0];
    assert_eq!(chat_workflow_interaction.chat_session_id, chat_session.id);
    assert_eq!(chat_workflow_interaction.chat_workflow_item_id, chat_workflow_item.id);
    assert_eq!(
        chat_workflow_interaction.chat_workflow_response_id,
        chat_workflow_response.id
    );
    assert_eq!(chat_workflow_interaction.input, Some(input));
}

#[test]
fn find_by_chat_session() {
    let mut store = Store::new();
    let chat_session = ChatSessionBuilder::new().finish(NOW, &mut store).unwrap();
    let chat_workflow_interaction = ChatWorkflowInteractionBuilder::new()
        .with_chat_session(&chat_session)
        .finish(NOW, &mut store)
        .unwrap();
    let chat_workflow_interaction2 = ChatWorkflowInteractionBuilder::new()
        .with_chat_session(&chat_session)
        .finish(NOW, &mut store)
        .unwrap();
    let chat_session2 = ChatSessionBuilder::new().finish(NOW, &mut store).unwrap();
    let chat_workflow_interaction3 = ChatWorkflowInteractionBuilder::new()
        .with_chat_session(&chat_session2)
        .finish(NOW, &mut store)
        .unwrap();

    assert_eq!(
        ChatWorkflowInteraction::find_by_chat_session(&chat_session, &store).unwrap(),
        vec![chat_workflow_interaction, chat_workflow_interaction2]
    );
    assert_eq!(
        ChatWorkflowInteraction::find_by_chat_session(&chat_session2, &store).unwrap(),
        vec![chat_workflow_interaction3]
    );
}
