use chat_engine::builders::{
    ChatSessionBuilder, ChatWorkflowBuilder, ChatWorkflowItemBuilder, ChatWorkflowResponseBuilder,
};
use chat_engine::chat_sessions::{ChatSession, ChatSessionEditableAttributes};
use chat_engine::chat_workflow_interactions::ChatWorkflowInteraction;
use chat_engine::chat_workflow_items::{ChatWorkflowItem, ChatWorkflowItemType};
use chat_engine::chat_workflow_responses::{ChatWorkflowResponse, ChatWorkflowResponseType};
use chat_engine::chat_workflows::{ChatWorkflow, ChatWorkflowEditableAttributes};
use chat_engine::context::ContextValue;
use chat_engine::error::{DatabaseError, ErrorCode};
use chat_engine::render::ItemTree;
use chat_engine::store::Store;
use chat_engine::transport::{
    next_message, receive_text, ChatSocketOutcome, ChatWebsocketResponse, Connection,
    CLIENT_TIMEOUT_SECONDS,
};

const NOW: i64 = 1_700_000_000;

#[test]
fn rank_shift_insert_moves_later_siblings() {
    // Responses at ranks {1,2,3}; inserting a new one at rank 2 leaves the
    // old rank 1 alone and moves the rank 2 and rank 3 occupants up by one.
    let mut store = Store::new();
    let item = ChatWorkflowItemBuilder::new()
        .with_item_type(ChatWorkflowItemType::Question)
        .finish(&mut store)
        .unwrap();
    let r1 = ChatWorkflowResponseBuilder::new()
        .with_chat_workflow_item(&item)
        .with_answer_value("one")
        .with_rank(1)
        .finish(&mut store)
        .unwrap();
    let r2 = ChatWorkflowResponseBuilder::new()
        .with_chat_workflow_item(&item)
        .with_answer_value("two")
        .with_rank(2)
        .finish(&mut store)
        .unwrap();
    let r3 = ChatWorkflowResponseBuilder::new()
        .with_chat_workflow_item(&item)
        .with_answer_value("three")
        .with_rank(3)
        .finish(&mut store)
        .unwrap();
    let inserted = ChatWorkflowResponseBuilder::new()
        .with_chat_workflow_item(&item)
        .with_answer_value("new")
        .with_rank(2)
        .finish(&mut store)
        .unwrap();

    assert_eq!(inserted.rank, 2);
    assert_eq!(ChatWorkflowResponse::find(r1.id, &store).unwrap().rank, 1);
    assert_eq!(ChatWorkflowResponse::find(r2.id, &store).unwrap().rank, 3);
    assert_eq!(ChatWorkflowResponse::find(r3.id, &store).unwrap().rank, 4);
}

#[test]
fn rank_shift_move_leaves_far_side() {
    // Moving the rank-3 response of {1,2,3} to rank 2 shifts only the
    // sibling between the old and the new rank: the rank-1 sibling stays
    // put, the rank-2 occupant moves to 3, and the ranks remain dense.
    let mut store = Store::new();
    let item = ChatWorkflowItemBuilder::new()
        .with_item_type(ChatWorkflowItemType::Question)
        .finish(&mut store)
        .unwrap();
    let r1 = ChatWorkflowResponseBuilder::new()
        .with_chat_workflow_item(&item)
        .with_answer_value("one")
        .with_rank(1)
        .finish(&mut store)
        .unwrap();
    let r2 = ChatWorkflowResponseBuilder::new()
        .with_chat_workflow_item(&item)
        .with_answer_value("two")
        .with_rank(2)
        .finish(&mut store)
        .unwrap();
    let r3 = ChatWorkflowResponseBuilder::new()
        .with_chat_workflow_item(&item)
        .with_answer_value("three")
        .with_rank(3)
        .finish(&mut store)
        .unwrap();

    let moved = r3
        .update(
            chat_engine::chat_workflow_responses::ChatWorkflowResponseEditableAttributes {
                rank: Some(2),
                ..Default::default()
            },
            &mut store,
        )
        .unwrap();
    assert_eq!(moved.rank, 2);
    assert_eq!(ChatWorkflowResponse::find(r1.id, &store).unwrap().rank, 1);
    assert_eq!(ChatWorkflowResponse::find(r2.id, &store).unwrap().rank, 3);

    // And the mirror move: bringing the rank-1 response down to rank 3
    // shifts only the occupants of ranks 2 and 3 up by one.
    let moved = ChatWorkflowResponse::find(r1.id, &store)
        .unwrap()
        .update(
            chat_engine::chat_workflow_responses::ChatWorkflowResponseEditableAttributes {
                rank: Some(3),
                ..Default::default()
            },
            &mut store,
        )
        .unwrap();
    assert_eq!(moved.rank, 3);
    assert_eq!(ChatWorkflowResponse::find(r2.id, &store).unwrap().rank, 2);
    assert_eq!(ChatWorkflowResponse::find(r3.id, &store).unwrap().rank, 1);
}

#[test]
fn session_update_after_expiry_fails() {
    let mut store = Store::new();
    let session = ChatSessionBuilder::new().finish(NOW, &mut store).unwrap();

    // Before expiry a mutation succeeds and extends the expiry window
    let later = NOW + 100;
    let updated = session
        .update(ChatSessionEditableAttributes::default(), later, &mut store)
        .unwrap();
    assert_eq!(updated.expires_at, Some(later + 15 * 60));

    // Past the extended expiry the mutation is refused
    let too_late = later + 15 * 60 + 1;
    let result = updated.update(ChatSessionEditableAttributes::default(), too_late, &mut store);
    assert_eq!(
        result,
        DatabaseError::business_process_error("Unable to update chat session as it has expired")
    );
}

#[test]
fn end_to_end_question_then_message() {
    // A published workflow with an initial question: answer A1 ends the
    // dialogue, answer A2 leads to a message item whose automatic no-op
    // ends it. Taking A2 and then the no-op logs two interactions.
    let mut store = Store::new();
    let workflow = ChatWorkflowBuilder::new().draft().finish(&mut store).unwrap();
    let q = ChatWorkflowItemBuilder::new()
        .with_item_type(ChatWorkflowItemType::Question)
        .with_chat_workflow(&workflow)
        .finish(&mut store)
        .unwrap();
    let m = ChatWorkflowItemBuilder::new()
        .with_item_type(ChatWorkflowItemType::Message)
        .with_chat_workflow(&workflow)
        .finish(&mut store)
        .unwrap();
    let _a1 = ChatWorkflowResponseBuilder::new()
        .with_chat_workflow_item(&q)
        .with_answer_value("all done")
        .with_rank(1)
        .finish(&mut store)
        .unwrap();
    let a2 = ChatWorkflowResponseBuilder::new()
        .with_chat_workflow_item(&q)
        .with_answer_value("more help")
        .with_next_chat_workflow_item(&m)
        .with_rank(2)
        .finish(&mut store)
        .unwrap();
    let workflow = workflow
        .update(
            ChatWorkflowEditableAttributes {
                initial_chat_workflow_item_id: Some(Some(q.id)),
                ..Default::default()
            },
            &mut store,
        )
        .unwrap();
    let workflow = workflow.publish(None, &mut store).unwrap();

    let mut session = ChatSession::create(11, workflow.id, None)
        .commit(NOW, &mut store)
        .unwrap();
    assert_eq!(session.chat_workflow_item_id, Some(q.id));

    session
        .process_response(&q, Some(a2.clone()), None, NOW, &mut store)
        .unwrap();
    let reloaded = ChatSession::find(session.id, &store).unwrap();
    assert_eq!(reloaded.chat_workflow_item_id, Some(m.id));
    assert_eq!(
        reloaded.context.get("answer_selection"),
        Some(ContextValue::Text("more help".to_string()))
    );
    assert_eq!(
        reloaded.context.get("last_input"),
        Some(ContextValue::Text("more help".to_string()))
    );

    let mut session = reloaded;
    session.process_response(&m, None, None, NOW, &mut store).unwrap();
    let reloaded = ChatSession::find(session.id, &store).unwrap();
    assert_eq!(reloaded.chat_workflow_item_id, None);
    let interactions = ChatWorkflowInteraction::find_by_chat_session(&reloaded, &store).unwrap();
    assert_eq!(interactions.len(), 2);
}

#[test]
fn convergent_edges_render_one_expansion() {
    // Two edges of one question converge on the same item: the first edge
    // expands it, the second carries only a reference marker, because one
    // rendered set spans the whole traversal.
    let mut store = Store::new();
    let q = ChatWorkflowItemBuilder::new()
        .with_item_type(ChatWorkflowItemType::Question)
        .finish(&mut store)
        .unwrap();
    let shared = ChatWorkflowItemBuilder::new()
        .with_item_type(ChatWorkflowItemType::Message)
        .finish(&mut store)
        .unwrap();
    ChatWorkflowResponseBuilder::new()
        .with_chat_workflow_item(&q)
        .with_answer_value("left")
        .with_next_chat_workflow_item(&shared)
        .with_rank(1)
        .finish(&mut store)
        .unwrap();
    ChatWorkflowResponseBuilder::new()
        .with_chat_workflow_item(&q)
        .with_answer_value("right")
        .with_next_chat_workflow_item(&shared)
        .with_rank(2)
        .finish(&mut store)
        .unwrap();

    let mut rendered: Vec<u64> = Vec::new();
    let display = q.for_display(&mut rendered, &store).unwrap();
    assert_eq!(display.tree.len(), 2);
    match &display.tree[0].tree {
        ItemTree::Item(inner) => assert_eq!(inner.id, shared.id),
        other => panic!("expected a full expansion, found {:?}", other),
    }
    assert_eq!(display.tree[1].tree, ItemTree::Reference(shared.id));
}

#[test]
fn transport_decisions() {
    let mut store = Store::new();
    let workflow = ChatWorkflowBuilder::new().finish(&mut store).unwrap();
    let session = ChatSessionBuilder::new()
        .with_chat_workflow(&workflow)
        .finish(NOW, &mut store)
        .unwrap();

    // The connection owes the client the current item with its responses
    let push = next_message(session.id, &store).unwrap();
    assert_eq!(Some(push.chat_workflow_item.id), session.chat_workflow_item_id);
    assert_eq!(push.responses.len(), 1);

    // An unparsable frame earns its error frame and changes nothing
    let outcome = receive_text(session.id, None, NOW, &mut store);
    assert_eq!(outcome, ChatSocketOutcome::Unparsable);
    assert_eq!(
        outcome.error_frame(),
        Some("unable to parse chat WebSocket response")
    );

    // A message for a session that does not exist earns its frame
    let outcome = receive_text(
        9_999_999,
        Some(ChatWebsocketResponse { chat_workflow_response_id: None, input: None }),
        NOW,
        &mut store,
    );
    assert_eq!(outcome, ChatSocketOutcome::NoCurrentSession);
    assert_eq!(outcome.error_frame(), Some("no current chat session"));

    // A well-formed frame advances the session through its no-op edge
    let outcome = receive_text(
        session.id,
        Some(ChatWebsocketResponse { chat_workflow_response_id: None, input: None }),
        NOW,
        &mut store,
    );
    assert_eq!(outcome, ChatSocketOutcome::Advanced);
    assert_eq!(outcome.error_frame(), None);

    // The initial message item is terminal, so the position is now cleared
    let reloaded = ChatSession::find(session.id, &store).unwrap();
    assert_eq!(reloaded.chat_workflow_item_id, None);
    assert!(next_message(session.id, &store).is_none());
    let outcome = receive_text(
        session.id,
        Some(ChatWebsocketResponse { chat_workflow_response_id: None, input: None }),
        NOW,
        &mut store,
    );
    assert_eq!(outcome, ChatSocketOutcome::NoCurrentItem);
    assert_eq!(outcome.error_frame(), Some("no current chat workflow item"));
}

#[test]
fn connection_heartbeat_timeout() {
    let mut connection = Connection::new(4, NOW);
    assert!(!connection.should_close(NOW));
    assert!(!connection.should_close(NOW + CLIENT_TIMEOUT_SECONDS));
    assert!(connection.should_close(NOW + CLIENT_TIMEOUT_SECONDS + 1));
    connection.heard_from(NOW + CLIENT_TIMEOUT_SECONDS);
    assert!(!connection.should_close(NOW + CLIENT_TIMEOUT_SECONDS + 1));
}

#[test]
fn draft_workflow_refuses_sessions() {
    let mut store = Store::new();
    let workflow = ChatWorkflowBuilder::new().draft().finish(&mut store).unwrap();
    let result = ChatSession::create(5, workflow.id, None).commit(NOW, &mut store);
    assert_eq!(
        result,
        DatabaseError::business_process_error("Unable to start chat session, workflow is in draft status")
    );
    let missing = ChatSession::create(5, 123_456, None).commit(NOW, &mut store);
    match missing {
        Err(e) => assert_eq!(e.error_code, ErrorCode::NoResults),
        Ok(_) => panic!("expected a missing workflow to be refused"),
    }
}

#[test]
fn active_session_lookup() {
    let mut store = Store::new();
    let workflow = ChatWorkflowBuilder::new().finish(&mut store).unwrap();
    let user_id: u64 = 321;
    assert!(ChatSession::find_active_for_user(user_id, NOW, &store).is_err());
    let session = ChatSessionBuilder::new()
        .with_user_id(user_id)
        .with_chat_workflow(&workflow)
        .finish(NOW, &mut store)
        .unwrap();
    let found = ChatSession::find_active_for_user(user_id, NOW, &store).unwrap();
    assert_eq!(found.id, session.id);

    // Once the window passes the session no longer counts as active
    let too_late = NOW + 15 * 60 + 1;
    assert!(ChatSession::find_active_for_user(user_id, too_late, &store).is_err());
}

#[test]
fn published_workflow_keeps_initial_item() {
    let mut store = Store::new();
    let workflow = ChatWorkflowBuilder::new().finish(&mut store).unwrap();
    let result = workflow.update(
        ChatWorkflowEditableAttributes {
            initial_chat_workflow_item_id: Some(None),
            ..Default::default()
        },
        &mut store,
    );
    assert_eq!(
        result,
        DatabaseError::business_process_error(
            "Initial chat workflow item cannot be removed on published chat workflow"
        )
    );
}

#[test]
fn workflow_names_stay_unique() {
    let mut store = Store::new();
    ChatWorkflow::create("taken".to_string()).commit(None, &mut store).unwrap();
    let result = ChatWorkflow::create("taken".to_string()).commit(None, &mut store);
    match result {
        Err(e) => match &e.error_code {
            ErrorCode::ValidationError { errors } => {
                assert_eq!(errors.len(), 1);
                assert_eq!(errors[0].field, "name".to_string());
                assert_eq!(errors[0].code, "uniqueness".to_string());
                assert_eq!(errors[0].message, "Name is already in use".to_string());
            }
            other => panic!("expected a uniqueness failure, found {:?}", other),
        },
        Ok(_) => panic!("expected the duplicate name to be refused"),
    }
}

#[test]
fn render_item_records_tag_in_context() {
    let mut store = Store::new();
    let workflow = ChatWorkflowBuilder::new().finish(&mut store).unwrap();
    let render_item = ChatWorkflowItemBuilder::new()
        .with_item_type(ChatWorkflowItemType::Render)
        .with_chat_workflow(&workflow)
        .finish(&mut store)
        .unwrap();
    let noop = render_item.responses(&store).unwrap()[0].clone();
    assert_eq!(noop.response_type, ChatWorkflowResponseType::Noop);

    let mut session = ChatSessionBuilder::new()
        .with_chat_workflow(&workflow)
        .finish(NOW, &mut store)
        .unwrap();
    // Even a chosen answer-style resolution is overridden: render items
    // always transition through their no-op edge.
    session
        .process_response(&render_item, Some(noop.clone()), None, NOW, &mut store)
        .unwrap();
    assert_eq!(
        session.context.get("render_type"),
        Some(ContextValue::Text("OrderDetails".to_string()))
    );
    let interactions = ChatWorkflowInteraction::find_by_chat_session(&session, &store).unwrap();
    assert_eq!(interactions[0].chat_workflow_response_id, noop.id);
}

#[test]
fn item_wait_defaults() {
    let mut store = Store::new();
    let workflow = ChatWorkflowBuilder::new().finish(&mut store).unwrap();
    let with_wait = ChatWorkflowItem::create(
        workflow.id,
        ChatWorkflowItemType::Message,
        None,
        None,
        Some(3),
    )
    .commit(&mut store)
    .unwrap();
    assert_eq!(with_wait.response_wait, 3);
    let defaulted = ChatWorkflowItem::create(workflow.id, ChatWorkflowItemType::Done, None, None, None)
        .commit(&mut store)
        .unwrap();
    assert_eq!(defaulted.response_wait, 10);
    // A terminal item takes no responses at all
    assert_eq!(defaulted.responses(&store).unwrap().len(), 0);
    assert!(defaulted.available_response_types().is_empty());
}
