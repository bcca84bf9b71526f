use gpui_chat_clone::activity::ConversationActivity;
use gpui_chat_clone::approval::ApprovalResponseOutcome;
use gpui_chat_clone::permissions::{
    PermissionApprovalDecision, PermissionApprovalEvent, PermissionApprovalHover,
    PermissionApprovalKeyboardFocus, PermissionApprovalMenuItem, PermissionApprovalStatus,
    PermissionApprovalVisualState, PermissionsApprovalChoice, PermissionsApprovalPresentation,
    handle_permissions_approval_event, record_permissions_approval_response,
};
use gpui_chat_clone::requests::shown_requests;

fn card(id: &str) -> ConversationActivity {
    ConversationActivity::PermissionsApproval(PermissionsApprovalPresentation::pending(id))
}

fn model(a: &ConversationActivity) -> &PermissionsApprovalPresentation {
    match a {
        ConversationActivity::PermissionsApproval(m) => m,
        _ => panic!("expected a permissions card"),
    }
}

#[test]
fn decisions_answer_and_responses_settle_the_card() {
    let mut activities = vec![card("p-1")];
    assert_eq!(
        handle_permissions_approval_event(
            &mut activities,
            "p-1",
            PermissionApprovalEvent::Decision(PermissionApprovalDecision::AllowForConversation),
        ),
        Some(PermissionsApprovalChoice::AllowForSession)
    );
    assert_eq!(model(&activities[0]).status, PermissionApprovalStatus::Pending);
    record_permissions_approval_response(
        &mut activities,
        "p-1",
        PermissionApprovalDecision::AllowForConversation,
        ApprovalResponseOutcome::Sent,
    );
    assert_eq!(model(&activities[0]).status, PermissionApprovalStatus::Approved);
    assert!(!model(&activities[0]).should_render());

    let mut declined = vec![card("p-2")];
    record_permissions_approval_response(
        &mut declined,
        "p-2",
        PermissionApprovalDecision::Decline,
        ApprovalResponseOutcome::NoResponder { request_known: false },
    );
    assert_eq!(model(&declined[0]).status, PermissionApprovalStatus::Declined);
}

#[test]
fn a_failed_answer_stays_visible_and_takes_no_second_decision() {
    let mut activities = vec![card("p-3")];
    record_permissions_approval_response(
        &mut activities,
        "p-3",
        PermissionApprovalDecision::AllowOnce,
        ApprovalResponseOutcome::Failed("pipe".into()),
    );
    assert_eq!(model(&activities[0]).status, PermissionApprovalStatus::Failed);
    assert_eq!(model(&activities[0]).failure_message.as_deref(), Some("无法写入权限审批响应"));
    assert!(model(&activities[0]).should_render());
    assert_eq!(
        activities[1],
        ConversationActivity::ProtocolError {
            message: "无法回复权限审批".into(),
            details: Some("pipe".into()),
            will_retry: false,
        }
    );
    assert_eq!(
        handle_permissions_approval_event(
            &mut activities,
            "p-3",
            PermissionApprovalEvent::Decision(PermissionApprovalDecision::AllowOnce),
        ),
        None
    );
    assert!(shown_requests(&activities).blocking);
    let mut missing = vec![card("p-4")];
    record_permissions_approval_response(
        &mut missing,
        "p-4",
        PermissionApprovalDecision::AllowOnce,
        ApprovalResponseOutcome::NoResponder { request_known: true },
    );
    assert_eq!(model(&missing[0]).status, PermissionApprovalStatus::Failed);
    assert_eq!(missing.len(), 2);
}

#[test]
fn menu_hover_and_focus_events() {
    let mut activities = vec![card("p-5")];
    handle_permissions_approval_event(
        &mut activities,
        "p-5",
        PermissionApprovalEvent::HoverChanged(Some(PermissionApprovalHover::Allow)),
    );
    assert_eq!(model(&activities[0]).visual_state, PermissionApprovalVisualState::AllowHovered);
    handle_permissions_approval_event(&mut activities, "p-5", PermissionApprovalEvent::ToggleMenu);
    assert_eq!(
        model(&activities[0]).visual_state,
        PermissionApprovalVisualState::Menu { focused: None }
    );
    handle_permissions_approval_event(
        &mut activities,
        "p-5",
        PermissionApprovalEvent::HoverChanged(Some(PermissionApprovalHover::Decline)),
    );
    assert_eq!(
        model(&activities[0]).visual_state,
        PermissionApprovalVisualState::Menu { focused: None }
    );
    handle_permissions_approval_event(
        &mut activities,
        "p-5",
        PermissionApprovalEvent::KeyboardFocusChanged(Some(
            PermissionApprovalKeyboardFocus::MenuAllowForConversation,
        )),
    );
    assert_eq!(
        model(&activities[0]).visual_state,
        PermissionApprovalVisualState::Menu {
            focused: Some(PermissionApprovalMenuItem::AllowForConversation)
        }
    );
    handle_permissions_approval_event(&mut activities, "p-5", PermissionApprovalEvent::ToggleMenu);
    assert_eq!(
        model(&activities[0]).keyboard_focus,
        Some(PermissionApprovalKeyboardFocus::MenuToggle)
    );
    assert_eq!(model(&activities[0]).visual_state, PermissionApprovalVisualState::Default);
}
