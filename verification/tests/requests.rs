use gpui_chat_clone::activity::ConversationActivity;
use gpui_chat_clone::approval::{
    ApprovalCardEvent, ApprovalCardStatus, ApprovalCardViewModel, ApprovalDecision,
    ApprovalKeyboardFocus, ApprovalRequestPresentation, ApprovalResponseOutcome, ApprovalScope,
    ApprovalVisualState, CommandApprovalChoice,
};
use gpui_chat_clone::file_change::{
    FileApprovalAction, FileApprovalChoice, FileApprovalDecision, FileApprovalEvent,
    FileApprovalPathPresentation, FileApprovalPresentation, FileApprovalStatus,
    FileApprovalVisualState,
};
use gpui_chat_clone::requests::{
    ApprovalKeyOutcome, handle_approval_card_event, handle_approval_key,
    handle_file_approval_event, record_approval_response, record_file_approval_response,
    ShownRequests, release_request, shown_requests, stop_turn_requests,
};

fn command_card(id: &str) -> ConversationActivity {
    ConversationActivity::Approval(ApprovalCardViewModel::pending(
        id,
        ApprovalRequestPresentation::command("cargo test", None),
    ))
}

fn file_card(id: &str) -> ConversationActivity {
    ConversationActivity::FileApproval(FileApprovalPresentation::pending(
        id,
        vec![FileApprovalPathPresentation::new("/tmp/a.txt", 1, 0)],
        None,
    ))
}

fn file(activity: &ConversationActivity) -> &FileApprovalPresentation {
    match activity {
        ConversationActivity::FileApproval(model) => model,
        _ => panic!("expected a file approval"),
    }
}

fn approval(activity: &ConversationActivity) -> &ApprovalCardViewModel {
    match activity {
        ConversationActivity::Approval(model) => model,
        _ => panic!("expected an approval card"),
    }
}

#[test]
fn decisions_are_answered_by_the_caller_and_menus_change_the_card() {
    let mut activities = vec![
        ConversationActivity::AssistantMessage { item_id: "m".into(), text: "hi".into() },
        command_card("req-1"),
    ];
    assert_eq!(
        handle_approval_card_event(
            &mut activities,
            "req-1",
            ApprovalCardEvent::Decision(ApprovalDecision::AllowOnce)
        ),
        Some(CommandApprovalChoice::Accept)
    );
    assert_eq!(approval(&activities[1]).status, ApprovalCardStatus::Pending);
    assert_eq!(
        handle_approval_card_event(
            &mut activities,
            "req-1",
            ApprovalCardEvent::Decision(ApprovalDecision::AllowScoped(ApprovalScope::InternetAccess))
        ),
        None
    );
    assert_eq!(
        handle_approval_card_event(&mut activities, "req-1", ApprovalCardEvent::ToggleMenu),
        None
    );
    assert_eq!(
        approval(&activities[1]).visual_state,
        ApprovalVisualState::SplitMenu { focused: None }
    );
    assert_eq!(
        handle_approval_card_event(&mut activities, "missing", ApprovalCardEvent::ToggleMenu),
        None
    );
    assert_eq!(activities.len(), 2);
}

#[test]
fn responses_unmount_the_card_or_report_a_protocol_error() {
    let mut activities = vec![command_card("req-1"), command_card("req-2"), command_card("req-3")];
    record_approval_response(&mut activities, "req-1", ApprovalResponseOutcome::Sent);
    assert_eq!(approval(&activities[0]).status, ApprovalCardStatus::Submitting);
    assert!(!approval(&activities[0]).should_render());
    assert_eq!(
        handle_approval_card_event(
            &mut activities,
            "req-1",
            ApprovalCardEvent::Decision(ApprovalDecision::Decline)
        ),
        None
    );

    record_approval_response(
        &mut activities,
        "req-2",
        ApprovalResponseOutcome::Failed("pipe closed".into()),
    );
    assert_eq!(approval(&activities[1]).status, ApprovalCardStatus::Failed);
    assert!(approval(&activities[1]).should_render());
    assert_eq!(
        activities[3],
        ConversationActivity::ProtocolError {
            message: "无法回复命令审批".into(),
            details: Some("pipe closed".into()),
            will_retry: false,
        }
    );
    // A failed card is answered no more.
    assert_eq!(
        handle_approval_card_event(
            &mut activities,
            "req-2",
            ApprovalCardEvent::Decision(ApprovalDecision::AllowOnce)
        ),
        None
    );
    record_approval_response(&mut activities, "req-2", ApprovalResponseOutcome::Sent);
    assert_eq!(approval(&activities[1]).status, ApprovalCardStatus::Failed);
    assert_eq!(activities.len(), 4);

    record_approval_response(
        &mut activities,
        "req-3",
        ApprovalResponseOutcome::NoResponder { request_known: true },
    );
    assert_eq!(approval(&activities[2]).status, ApprovalCardStatus::Failed);
    assert_eq!(
        activities[4],
        ConversationActivity::ProtocolError {
            message: "无法回复命令审批".into(),
            details: Some("命令审批 responder 不存在".into()),
            will_retry: false,
        }
    );
    let mut stale = vec![command_card("req-4")];
    record_approval_response(
        &mut stale,
        "req-4",
        ApprovalResponseOutcome::NoResponder { request_known: false },
    );
    assert_eq!(approval(&stale[0]).status, ApprovalCardStatus::Submitting);
    assert_eq!(stale.len(), 1);
}

#[test]
fn file_approval_events_reach_the_card_with_the_request_id() {
    let mut activities = vec![file_card("f-1"), file_card("f-2")];
    assert_eq!(
        handle_file_approval_event(&mut activities, "f-2", FileApprovalEvent::ToggleMenu),
        FileApprovalAction::Nothing
    );
    match &activities[1] {
        ConversationActivity::FileApproval(model) => {
            assert_eq!(model.visual_state, FileApprovalVisualState::SplitMenu { focused: None })
        },
        _ => panic!("expected a file approval"),
    }
    assert_eq!(
        handle_file_approval_event(
            &mut activities,
            "f-1",
            FileApprovalEvent::Decision(FileApprovalDecision::Decline),
        ),
        FileApprovalAction::Answer(FileApprovalChoice::Decline)
    );
    assert_eq!(file(&activities[0]).status, FileApprovalStatus::Pending);
    assert_eq!(
        handle_file_approval_event(&mut activities, "missing", FileApprovalEvent::StopTurn),
        FileApprovalAction::Nothing
    );
}

#[test]
fn file_approval_waits_for_its_original_diff_and_replies_once_until_server_resolution() {
    let mut activities = vec![file_card("file-ui")];
    // No approval leaves before the request's patch has arrived.
    assert_eq!(
        handle_file_approval_event(
            &mut activities,
            "file-ui",
            FileApprovalEvent::Decision(FileApprovalDecision::AllowOnce),
        ),
        FileApprovalAction::Nothing
    );
    if let ConversationActivity::FileApproval(model) = &mut activities[0] {
        model.patch_arrived();
    }
    let action = handle_file_approval_event(
        &mut activities,
        "file-ui",
        FileApprovalEvent::Decision(FileApprovalDecision::AllowAllEdits),
    );
    assert_eq!(action, FileApprovalAction::Answer(FileApprovalChoice::AcceptForSession));
    record_file_approval_response(&mut activities, "file-ui", ApprovalResponseOutcome::Sent);
    assert_eq!(file(&activities[0]).status, FileApprovalStatus::Submitting);
    // Later decisions send nothing while the server holds the request.
    assert_eq!(
        handle_file_approval_event(
            &mut activities,
            "file-ui",
            FileApprovalEvent::Decision(FileApprovalDecision::Decline),
        ),
        FileApprovalAction::Nothing
    );
    assert_eq!(file(&activities[0]).status, FileApprovalStatus::Submitting);
    assert!(!file(&activities[0]).should_render());
    assert_eq!(file(&activities[0]).files[0].path, "/tmp/a.txt");
    assert_eq!(activities.len(), 1);
    // The server releasing the request resolves the card for good.
    release_request(&mut activities, "file-ui");
    assert_eq!(file(&activities[0]).status, FileApprovalStatus::Resolved);
    assert_eq!(
        handle_file_approval_event(
            &mut activities,
            "file-ui",
            FileApprovalEvent::Decision(FileApprovalDecision::AllowOnce),
        ),
        FileApprovalAction::Nothing
    );
    assert!(!shown_requests(&activities).blocking);
}

#[test]
fn file_approval_failure_stays_visible_without_allowing_retry_and_terminal_clears_ownership() {
    let mut activities = vec![file_card("failure-ui")];
    if let ConversationActivity::FileApproval(model) = &mut activities[0] {
        model.patch_arrived();
    }
    let mut sent = 0;
    for _ in 0..2 {
        let action = handle_file_approval_event(
            &mut activities,
            "failure-ui",
            FileApprovalEvent::Decision(FileApprovalDecision::AllowOnce),
        );
        if let FileApprovalAction::Answer(choice) = action {
            assert_eq!(choice, FileApprovalChoice::Accept);
            sent += 1;
            record_file_approval_response(
                &mut activities,
                "failure-ui",
                ApprovalResponseOutcome::Failed("模拟写入失败".into()),
            );
        }
    }
    assert_eq!(sent, 1);
    let model = file(&activities[0]);
    assert_eq!(model.status, FileApprovalStatus::Failed);
    assert!(model.failure_message.is_some());
    assert!(model.should_render());
    assert!(activities.iter().any(|a| matches!(
        a,
        ConversationActivity::ProtocolError { details: Some(error), .. } if error.contains("模拟写入失败")
    )));
    assert_eq!(
        handle_file_approval_event(&mut activities, "failure-ui", FileApprovalEvent::StopTurn),
        FileApprovalAction::StopTurn { decline: false }
    );
    assert!(!file(&activities[0]).should_render());
    assert_eq!(
        handle_file_approval_event(
            &mut activities,
            "failure-ui",
            FileApprovalEvent::Decision(FileApprovalDecision::AllowOnce),
        ),
        FileApprovalAction::Nothing
    );
}

#[test]
fn keyboard_answers_only_the_first_visible_request_even_when_a_hidden_command_is_pending() {
    let mut first = FileApprovalPresentation::pending(
        "first-file",
        vec![FileApprovalPathPresentation::new("/tmp/approval-root/a.rs", 1, 0)],
        None,
    );
    first.patch_arrived();
    let mut activities = vec![ConversationActivity::FileApproval(first), command_card("7")];
    assert_eq!(
        handle_approval_key(&mut activities, "enter", false),
        ApprovalKeyOutcome::FileAnswer {
            request_id: "first-file".into(),
            choice: FileApprovalChoice::Accept,
        }
    );
    record_file_approval_response(
        &mut activities,
        "first-file",
        ApprovalResponseOutcome::Failed("模拟写入失败".into()),
    );
    assert_eq!(file(&activities[0]).status, FileApprovalStatus::Failed);
    assert!(file(&activities[0]).should_render());
    assert_eq!(handle_approval_key(&mut activities, "enter", false), ApprovalKeyOutcome::Ignored);
    assert_eq!(approval(&activities[1]).status, ApprovalCardStatus::Pending);
    assert_eq!(approval(&activities[1]).keyboard_focus, None);
    // Shift+Esc on the failed card stops the turn without a second answer.
    assert_eq!(
        handle_approval_key(&mut activities, "escape", true),
        ApprovalKeyOutcome::StopTurn { request_id: "first-file".into(), decline: false }
    );
}

#[test]
fn keystrokes_go_only_to_the_first_visible_card() {
    let mut activities = vec![file_card("f-1"), command_card("req-1")];
    assert_eq!(handle_approval_key(&mut activities, "x", false), ApprovalKeyOutcome::Ignored);
    assert_eq!(handle_approval_key(&mut activities, "down", false), ApprovalKeyOutcome::Ignored);
    assert_eq!(approval(&activities[1]).status, ApprovalCardStatus::Pending);
    // The patch has not arrived: Enter approves nothing yet.
    assert_eq!(handle_approval_key(&mut activities, "enter", false), ApprovalKeyOutcome::Handled);
    assert_eq!(file(&activities[0]).status, FileApprovalStatus::Pending);
    // Shift+Esc rejects the file request and stops the turn.
    assert_eq!(
        handle_approval_key(&mut activities, "escape", true),
        ApprovalKeyOutcome::StopTurn { request_id: "f-1".into(), decline: true }
    );
    assert!(!file(&activities[0]).should_render());
    assert_eq!(
        handle_approval_key(&mut activities, "escape", false),
        ApprovalKeyOutcome::Answer {
            request_id: "req-1".into(),
            choice: CommandApprovalChoice::Decline,
        }
    );

    let mut resolved = ApprovalCardViewModel::pending(
        "req-2",
        ApprovalRequestPresentation::command("ls", None),
    );
    resolved.status = ApprovalCardStatus::Submitting;
    let mut only_files = vec![ConversationActivity::Approval(resolved), file_card("f-2")];
    assert_eq!(handle_approval_key(&mut only_files, "tab", false), ApprovalKeyOutcome::Handled);
    match &only_files[1] {
        ConversationActivity::FileApproval(model) => assert!(model.keyboard_focus.is_some()),
        _ => panic!("expected a file approval"),
    }

    let mut focus = vec![command_card("req-3")];
    assert_eq!(handle_approval_key(&mut focus, "tab", false), ApprovalKeyOutcome::Handled);
    assert_eq!(
        approval(&focus[0]).keyboard_focus,
        Some(ApprovalKeyboardFocus::Decline)
    );
}

#[test]
fn an_answered_card_takes_no_second_decision() {
    let mut activities = vec![command_card("req-1")];
    assert_eq!(
        handle_approval_card_event(
            &mut activities,
            "req-1",
            ApprovalCardEvent::Decision(ApprovalDecision::AllowScoped(ApprovalScope::SimilarCommands))
        ),
        Some(CommandApprovalChoice::AcceptWithExecpolicyAmendment)
    );
    record_approval_response(&mut activities, "req-1", ApprovalResponseOutcome::Sent);
    let before = activities.clone();
    assert_eq!(
        handle_approval_card_event(
            &mut activities,
            "req-1",
            ApprovalCardEvent::Decision(ApprovalDecision::AllowOnce)
        ),
        None
    );
    assert_eq!(activities, before);
    assert_eq!(handle_approval_key(&mut activities, "enter", false), ApprovalKeyOutcome::Ignored);
}

#[test]
fn a_keystroke_leaves_the_other_cards_alone() {
    let mut activities = vec![
        ConversationActivity::Error { message: "e".into() },
        command_card("req-1"),
        file_card("f-1"),
    ];
    let before = activities.clone();
    assert_eq!(handle_approval_key(&mut activities, "tab", true), ApprovalKeyOutcome::Handled);
    assert_eq!(activities[0], before[0]);
    assert_eq!(activities[2], before[2]);
    assert_ne!(activities[1], before[1]);
}

#[test]
fn concurrent_requests_show_one_card_of_each_kind_and_hide_the_composer() {
    let mut failed = ApprovalCardViewModel::pending(
        "req-0",
        ApprovalRequestPresentation::command("ls", None),
    );
    failed.status = ApprovalCardStatus::Submitting;
    let activities = vec![
        ConversationActivity::Approval(failed),
        command_card("req-1"),
        file_card("f-1"),
        command_card("req-2"),
        file_card("f-2"),
    ];
    let shown = shown_requests(&activities);
    assert_eq!(
        shown,
        ShownRequests { command: Some(1), user_input: None, file: Some(2), permissions: None, blocking: true }
    );
    let quiet = vec![ConversationActivity::Error { message: "e".into() }];
    assert_eq!(
        shown_requests(&quiet),
        ShownRequests { command: None, user_input: None, file: None, permissions: None, blocking: false }
    );
}

#[test]
fn the_server_releasing_a_request_resolves_its_card() {
    let mut activities = vec![command_card("req-1"), file_card("f-1"), command_card("req-2")];
    record_approval_response(&mut activities, "req-1", ApprovalResponseOutcome::Sent);
    release_request(&mut activities, "req-1");
    assert_eq!(approval(&activities[0]).status, ApprovalCardStatus::Resolved);
    release_request(&mut activities, "f-1");
    assert_eq!(file(&activities[1]).status, FileApprovalStatus::Resolved);
    assert_eq!(approval(&activities[2]).status, ApprovalCardStatus::Pending);
    release_request(&mut activities, "missing");
    assert_eq!(activities.len(), 3);
}

#[test]
fn stopping_the_turn_clears_waiting_and_failed_cards() {
    let mut activities = vec![
        command_card("req-1"),
        file_card("f-1"),
        command_card("req-2"),
        ConversationActivity::Error { message: "e".into() },
    ];
    record_approval_response(&mut activities, "req-2", ApprovalResponseOutcome::Failed("x".into()));
    stop_turn_requests(&mut activities);
    assert_eq!(approval(&activities[0]).status, ApprovalCardStatus::Resolved);
    assert_eq!(file(&activities[1]).status, FileApprovalStatus::Resolved);
    assert_eq!(approval(&activities[2]).status, ApprovalCardStatus::Resolved);
    assert_eq!(activities[3], ConversationActivity::Error { message: "e".into() });
    assert!(!shown_requests(&activities).blocking);
}
