use gpui_chat_clone::approval::{
    ApprovalCardEvent, ApprovalCardStatus, ApprovalCardViewModel, ApprovalDecision,
    ApprovalKeyboardFocus, ApprovalMenuItem, ApprovalRequestPresentation,
    ApprovalResponseOutcome, ApprovalScope, ApprovalVisualState, CommandApprovalChoice,
    command_approval_choice,
};

fn command() -> ApprovalCardViewModel {
    ApprovalCardViewModel::pending(
        "request-1",
        ApprovalRequestPresentation::command("curl -I https://example.com", None),
    )
}

#[test]
fn explicit_reason_wins_and_blank_reason_falls_back() {
    let command = ApprovalRequestPresentation::command(
        "pwd",
        Some("是否允许我仅运行命令 `pwd`？".to_owned()),
    );
    assert_eq!(command.question(), "是否允许我仅运行命令 `pwd`？");

    let network =
        ApprovalRequestPresentation::network("example.com", None, Some("  ".to_owned()));
    assert_eq!(network.question(), "是否允许 ChatGPT 连接到 example.com？");
}

#[test]
fn request_kind_selects_the_real_scoped_copy() {
    assert_eq!(
        command().scoped_approval,
        Some(ApprovalScope::SimilarCommands)
    );
    let network = ApprovalCardViewModel::pending(
        "request-2",
        ApprovalRequestPresentation::network("example.com", Some("curl".to_owned()), None),
    );
    assert_eq!(network.scoped_approval, Some(ApprovalScope::InternetAccess));
    assert_eq!(ApprovalScope::InternetAccess.label(), "互联网访问");
}

#[test]
fn resolved_surface_is_not_renderable() {
    let mut model = command();
    assert!(model.should_render());
    model.status = ApprovalCardStatus::Resolved;
    assert!(!model.should_render());
}

#[test]
fn split_menu_tracks_default_and_focus_separately() {
    let default = ApprovalVisualState::SplitMenu { focused: None };
    assert!(default.menu_open());
    assert_eq!(default.focused_menu_item(), None);

    let focused = ApprovalVisualState::SplitMenu {
        focused: Some(ApprovalMenuItem::AllowOnce),
    };
    assert!(focused.menu_open());
    assert_eq!(
        focused.focused_menu_item(),
        Some(ApprovalMenuItem::AllowOnce)
    );
}

#[test]
fn keyboard_shortcuts_and_tab_order_cover_every_approval_action() {
    let mut model = command();
    assert_eq!(
        model.keyboard_event("enter", false),
        Some(ApprovalCardEvent::Decision(ApprovalDecision::AllowOnce))
    );
    assert_eq!(
        model.keyboard_event("escape", false),
        Some(ApprovalCardEvent::Decision(ApprovalDecision::Decline))
    );

    assert_eq!(
        model.keyboard_event("tab", false),
        Some(ApprovalCardEvent::KeyboardFocusChanged(Some(
            ApprovalKeyboardFocus::Decline
        )))
    );
    model.keyboard_focus = Some(ApprovalKeyboardFocus::Decline);
    assert_eq!(
        model.keyboard_event("tab", false),
        Some(ApprovalCardEvent::KeyboardFocusChanged(Some(
            ApprovalKeyboardFocus::AllowOnce
        )))
    );
    model.keyboard_focus = Some(ApprovalKeyboardFocus::AllowOnce);
    assert_eq!(
        model.keyboard_event("tab", false),
        Some(ApprovalCardEvent::KeyboardFocusChanged(Some(
            ApprovalKeyboardFocus::MenuToggle
        )))
    );
    model.keyboard_focus = Some(ApprovalKeyboardFocus::MenuToggle);
    assert_eq!(
        model.keyboard_event("enter", false),
        Some(ApprovalCardEvent::ToggleMenu)
    );
    assert_eq!(
        model.keyboard_event("tab", true),
        Some(ApprovalCardEvent::KeyboardFocusChanged(Some(
            ApprovalKeyboardFocus::AllowOnce
        )))
    );
}

#[test]
fn cancel_advertisement_still_drives_chatgpt_style_decline() {
    let mut model = command();
    model.set_available_decisions(true, false, true, None);

    assert!(model.can_reject());
    assert_eq!(model.rejection_decision(), Some(ApprovalDecision::Decline));
    assert_eq!(
        model.keyboard_event("escape", false),
        Some(ApprovalCardEvent::Decision(ApprovalDecision::Decline))
    );
    assert_eq!(
        model.keyboard_event("tab", false),
        Some(ApprovalCardEvent::KeyboardFocusChanged(Some(
            ApprovalKeyboardFocus::Decline
        )))
    );
    model.keyboard_focus = Some(ApprovalKeyboardFocus::Decline);
    assert_eq!(
        model.keyboard_event("enter", false),
        Some(ApprovalCardEvent::Decision(ApprovalDecision::Decline))
    );
}

#[test]
fn open_menu_traps_tab_and_escape_without_answering() {
    let mut model = command();
    model.visual_state = ApprovalVisualState::SplitMenu { focused: None };
    assert_eq!(
        model.keyboard_event("tab", false),
        Some(ApprovalCardEvent::KeyboardFocusChanged(Some(
            ApprovalKeyboardFocus::MenuAllowOnce
        )))
    );
    assert_eq!(
        model.keyboard_event("tab", true),
        Some(ApprovalCardEvent::KeyboardFocusChanged(Some(
            ApprovalKeyboardFocus::MenuScoped(ApprovalScope::SimilarCommands)
        )))
    );
    assert_eq!(
        model.keyboard_event("escape", false),
        Some(ApprovalCardEvent::ToggleMenu)
    );

    model.keyboard_focus = Some(ApprovalKeyboardFocus::MenuScoped(
        ApprovalScope::SimilarCommands,
    ));
    assert_eq!(
        model.keyboard_event("enter", false),
        Some(ApprovalCardEvent::Decision(ApprovalDecision::AllowScoped(
            ApprovalScope::SimilarCommands
        )))
    );
}

#[test]
fn approval_titles_previews_and_default_copy() {
    let cmd = ApprovalRequestPresentation::command("ls", None);
    assert_eq!(cmd.title(), "终端");
    assert_eq!(cmd.question(), "是否允许 ChatGPT 运行此命令？");
    assert_eq!(cmd.preview(), Some("ls"));
    assert_eq!(ApprovalRequestPresentation::command(" \t", None).preview(), None);
    let net = ApprovalRequestPresentation::network("example.com", Some("curl x".into()), None);
    assert_eq!(net.title(), "互联网访问");
    assert_eq!(net.preview(), Some("curl x"));
    assert_eq!(net.default_scope(), ApprovalScope::InternetAccess);
    assert_eq!(ApprovalScope::SimilarCommands.label(), "允许类似命令");
    let reasoned = ApprovalRequestPresentation::command("ls", Some("  请确认  ".into()));
    assert_eq!(reasoned.question(), "请确认");
}

#[test]
fn tab_then_shift_tab_returns_to_the_same_button() {
    let mut model = command();
    for focus in [
        ApprovalKeyboardFocus::Decline,
        ApprovalKeyboardFocus::AllowOnce,
        ApprovalKeyboardFocus::MenuToggle,
    ] {
        model.keyboard_focus = Some(focus);
        let event = model.keyboard_event("tab", false).unwrap();
        let mut next = model.clone();
        next.apply_interaction(event);
        assert_eq!(
            next.keyboard_event("tab", true),
            Some(ApprovalCardEvent::KeyboardFocusChanged(Some(focus)))
        );
    }
}

#[test]
fn menu_toggle_and_focus_events_update_the_card() {
    let mut model = command();
    model.apply_interaction(ApprovalCardEvent::ToggleMenu);
    assert_eq!(model.visual_state, ApprovalVisualState::SplitMenu { focused: None });
    model.apply_interaction(ApprovalCardEvent::KeyboardFocusChanged(Some(
        ApprovalKeyboardFocus::MenuScoped(ApprovalScope::SimilarCommands),
    )));
    assert_eq!(
        model.visual_state,
        ApprovalVisualState::SplitMenu {
            focused: Some(ApprovalMenuItem::Scoped(ApprovalScope::SimilarCommands))
        }
    );
    model.apply_interaction(ApprovalCardEvent::ToggleMenu);
    assert_eq!(model.visual_state, ApprovalVisualState::Default);
    assert_eq!(model.keyboard_focus, Some(ApprovalKeyboardFocus::MenuToggle));
    model.apply_interaction(ApprovalCardEvent::MenuFocusChanged(Some(ApprovalMenuItem::AllowOnce)));
    assert_eq!(
        model.visual_state,
        ApprovalVisualState::SplitMenu { focused: Some(ApprovalMenuItem::AllowOnce) }
    );
}

#[test]
fn decisions_map_to_protocol_choices_and_responses_unmount_once() {
    assert_eq!(
        command_approval_choice(ApprovalDecision::AllowOnce),
        Some(CommandApprovalChoice::Accept)
    );
    assert_eq!(
        command_approval_choice(ApprovalDecision::Decline),
        Some(CommandApprovalChoice::Decline)
    );
    assert_eq!(
        command_approval_choice(ApprovalDecision::AllowScoped(ApprovalScope::SimilarCommands)),
        Some(CommandApprovalChoice::AcceptWithExecpolicyAmendment)
    );
    assert_eq!(
        command_approval_choice(ApprovalDecision::AllowScoped(ApprovalScope::InternetAccess)),
        None
    );

    let mut sent = command();
    assert_eq!(sent.apply_response(ApprovalResponseOutcome::Sent), None);
    assert_eq!(sent.status, ApprovalCardStatus::Submitting);
    assert!(!sent.should_render());
    assert_eq!(sent.apply_response(ApprovalResponseOutcome::Failed("x".into())), None);

    let mut failed = command();
    let notice = failed
        .apply_response(ApprovalResponseOutcome::Failed("broken pipe".into()))
        .unwrap();
    assert_eq!(notice.message, "无法回复命令审批");
    assert_eq!(notice.details.as_deref(), Some("broken pipe"));
    assert_eq!(failed.status, ApprovalCardStatus::Failed);
    assert!(failed.should_render());
    assert_eq!(failed.apply_response(ApprovalResponseOutcome::Sent), None);
    assert_eq!(failed.status, ApprovalCardStatus::Failed);

    let mut missing = command();
    let notice = missing
        .apply_response(ApprovalResponseOutcome::NoResponder { request_known: true })
        .unwrap();
    assert_eq!(notice.details.as_deref(), Some("命令审批 responder 不存在"));
    assert_eq!(missing.status, ApprovalCardStatus::Failed);
    let mut stale = command();
    assert_eq!(
        stale.apply_response(ApprovalResponseOutcome::NoResponder { request_known: false }),
        None
    );
    assert_eq!(stale.status, ApprovalCardStatus::Submitting);
}

#[test]
fn card_without_answers_ignores_keys() {
    let mut model = command();
    model.set_available_decisions(false, false, false, None);
    assert_eq!(model.keyboard_event("tab", false), None);
    assert_eq!(model.keyboard_event("escape", false), None);
    assert_eq!(model.keyboard_event("enter", false), None);
    assert_eq!(model.keyboard_event("x", false), None);
    model.set_available_decisions(false, true, false, Some(ApprovalScope::InternetAccess));
    assert_eq!(
        model.keyboard_event("space", false),
        Some(ApprovalCardEvent::Decision(ApprovalDecision::AllowScoped(
            ApprovalScope::InternetAccess
        )))
    );
}

#[test]
fn tab_then_shift_tab_returns_on_a_card_of_any_status() {
    for status in [ApprovalCardStatus::Submitting, ApprovalCardStatus::Failed, ApprovalCardStatus::Resolved] {
        let mut model = command();
        model.status = status;
        for focus in [
            ApprovalKeyboardFocus::Decline,
            ApprovalKeyboardFocus::AllowOnce,
            ApprovalKeyboardFocus::MenuToggle,
        ] {
            model.keyboard_focus = Some(focus);
            let Some(ApprovalCardEvent::KeyboardFocusChanged(Some(next))) =
                model.keyboard_event("tab", false)
            else {
                panic!("tab moves focus")
            };
            let mut moved = model.clone();
            moved.keyboard_focus = Some(next);
            assert_eq!(
                moved.keyboard_event("tab", true),
                Some(ApprovalCardEvent::KeyboardFocusChanged(Some(focus)))
            );
        }
    }
}
