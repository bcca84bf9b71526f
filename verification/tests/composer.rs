use gpui_chat_clone::activity::ConversationActivity;
use gpui_chat_clone::composer::{
    AgentPermissionMode, ConversationPhase, Dictation, DictationState, PermissionActivation,
    PermissionKeyOutcome, PermissionMenuState, PermissionMode, PermissionRequest,
    PermissionUpdateState, PickerSubmenu, PromptSubmission, ShimmerAction, ThinkingShimmer,
    conversation_status,
    particle_layers, particle_noise_bits, prompt_submission,
};

fn menu(mode: PermissionMode) -> PermissionMenuState {
    PermissionMenuState {
        ui_enabled: true,
        open: false,
        keyboard_focus: false,
        focused_item: 0,
        mode,
        model_menu_open: true,
        submenu: Some(PickerSubmenu::Effort),
    }
}

#[test]
fn particle_layers_hide_the_max_layer_while_accelerated() {
    assert_eq!(particle_layers(false, false), (false, false));
    assert_eq!(particle_layers(true, false), (true, false));
    assert_eq!(particle_layers(true, true), (false, true));
    assert_eq!(particle_layers(false, true), (false, true));
}

#[test]
fn particle_noise_is_the_reference_integer_hash() {
    let expected = |index: usize, step: u32, channel: u32| {
        let mut value = (index as u32 + 1)
            .wrapping_mul(0x9e37_79b9)
            .wrapping_add(step.wrapping_mul(0x85eb_ca6b))
            .wrapping_add(channel.wrapping_mul(0xc2b2_ae35));
        value ^= value >> 16;
        value = value.wrapping_mul(0x7feb_352d);
        value ^= value >> 15;
        value = value.wrapping_mul(0x846c_a68b);
        value ^= value >> 16;
        value
    };
    for (index, step, channel) in [(0, 0, 0), (3, 7, 1), (41, 12, 0), (1000, u32::MAX, 1)] {
        assert_eq!(particle_noise_bits(index, step, channel), expected(index, step, channel));
    }
    assert_ne!(particle_noise_bits(0, 0, 0), particle_noise_bits(0, 0, 1));
}

#[test]
fn permission_menu_opens_from_the_trigger_and_closes_the_model_menu() {
    let mut state = menu(PermissionMode::Request);
    assert_eq!(state.handle_key("down"), PermissionKeyOutcome::Opened);
    assert!(state.open && state.keyboard_focus && !state.model_menu_open);
    assert_eq!(state.submenu, None);
    assert_eq!(state.focused_item, 0);

    let mut state = menu(PermissionMode::Request);
    assert_eq!(state.handle_key("up"), PermissionKeyOutcome::Opened);
    assert_eq!(state.focused_item, 3);

    let mut state = menu(PermissionMode::Request);
    assert_eq!(state.handle_key("enter"), PermissionKeyOutcome::Opened);
    assert!(state.open && !state.keyboard_focus);

    let mut state = menu(PermissionMode::Request);
    assert_eq!(state.handle_key("a"), PermissionKeyOutcome::Ignored);
    assert!(!state.open);
}

#[test]
fn permission_menu_navigation_wraps_and_escape_or_tab_close_it() {
    let mut state = menu(PermissionMode::Request);
    state.handle_key("down");
    for expected in [1, 2, 3, 0] {
        assert_eq!(state.handle_key("down"), PermissionKeyOutcome::Handled);
        assert_eq!(state.focused_item, expected);
    }
    assert_eq!(state.handle_key("up"), PermissionKeyOutcome::Handled);
    assert_eq!(state.focused_item, 3);
    state.handle_key("home");
    assert_eq!(state.focused_item, 0);
    state.handle_key("end");
    assert_eq!(state.focused_item, 3);
    assert_eq!(state.handle_key("escape"), PermissionKeyOutcome::Handled);
    assert!(!state.open && !state.keyboard_focus);

    state.handle_key("space");
    assert_eq!(state.handle_key("tab"), PermissionKeyOutcome::ClosedByTab);
    assert!(!state.open);
}

#[test]
fn activating_full_access_asks_for_confirmation_first() {
    let mut state = menu(PermissionMode::Request);
    state.handle_key("up");
    state.handle_key("up");
    assert_eq!(state.focused_item, 2);
    assert_eq!(
        state.handle_key("enter"),
        PermissionKeyOutcome::Activated(PermissionActivation::ConfirmFullAccess)
    );
    assert!(!state.open);

    let mut state = menu(PermissionMode::Full);
    assert_eq!(
        state.activate(PermissionMode::Full),
        PermissionActivation::Request(PermissionMode::Full)
    );
    assert_eq!(
        state.activate(PermissionMode::Assist),
        PermissionActivation::Request(PermissionMode::Assist)
    );

    let mut disabled = PermissionMenuState { ui_enabled: false, ..menu(PermissionMode::Request) };
    assert_eq!(disabled.activate(PermissionMode::Full), PermissionActivation::Disabled);
    assert_eq!(disabled.handle_key("enter"), PermissionKeyOutcome::Ignored);
}

#[test]
fn permission_modes_map_rows_names_and_labels() {
    assert_eq!(PermissionMode::at_menu_index(0), PermissionMode::Request);
    assert_eq!(PermissionMode::at_menu_index(1), PermissionMode::Assist);
    assert_eq!(PermissionMode::at_menu_index(2), PermissionMode::Full);
    assert_eq!(PermissionMode::at_menu_index(9), PermissionMode::Custom);
    assert_eq!(PermissionMode::Assist.agent_mode(), AgentPermissionMode::Assist);
    assert_eq!(PermissionMode::Full.name(), "full");
    assert_eq!(PermissionMode::Full.label(), ("完全访问", "permission"));
    assert_eq!(PermissionMode::Request.label(), ("请求批准", "permission-request"));
}

#[test]
fn stale_permission_replies_are_ignored() {
    let mut state = PermissionUpdateState {
        mode: PermissionMode::Request,
        update_cycle: 4,
        error: None,
    };
    assert_eq!(
        state.request_mode(PermissionMode::Assist, true),
        PermissionRequest::SentToServer { cycle: 5 }
    );
    state.abandon_updates();
    let mut activities: Vec<ConversationActivity> = Vec::new();
    assert_eq!(state.finish_update(5, PermissionMode::Assist, Ok("settings"), &mut activities), None);
    assert!(activities.is_empty());
    assert_eq!(state.mode, PermissionMode::Request);

    assert_eq!(
        state.request_mode(PermissionMode::Custom, true),
        PermissionRequest::SentToServer { cycle: 7 }
    );
    assert_eq!(
        state.finish_update::<&str>(7, PermissionMode::Custom, Err("denied".into()), &mut activities),
        None
    );
    assert_eq!(state.error.as_deref(), Some("无法更新权限模式：denied"));
    assert_eq!(state.mode, PermissionMode::Request);
    assert_eq!(
        activities,
        vec![ConversationActivity::Error { message: "无法更新权限模式：denied".into() }]
    );

    assert_eq!(
        state.request_mode(PermissionMode::Assist, true),
        PermissionRequest::SentToServer { cycle: 8 }
    );
    assert_eq!(
        state.finish_update(8, PermissionMode::Assist, Ok("thread settings"), &mut activities),
        Some("thread settings")
    );
    assert_eq!(state.mode, PermissionMode::Assist);
    assert_eq!(activities.len(), 1);

    assert_eq!(
        state.request_mode(PermissionMode::Full, false),
        PermissionRequest::AppliedLocally
    );
    assert_eq!(state.mode, PermissionMode::Full);
    assert_eq!(state.error, None);
}

#[test]
fn dictation_timer_only_finishes_its_own_cycle() {
    let mut dictation = Dictation { state: DictationState::Idle, cycle: 0 };
    assert_eq!(dictation.stop(), None);
    dictation.start();
    assert_eq!(dictation.state, DictationState::Recording);
    let timer = dictation.stop().unwrap();
    assert_eq!(dictation.state, DictationState::Transcribing);
    dictation.transcription_finished(timer + 1);
    assert_eq!(dictation.state, DictationState::Transcribing);
    dictation.transcription_finished(timer);
    assert_eq!(dictation.state, DictationState::Idle);

    dictation.start();
    let timer = dictation.stop().unwrap();
    dictation.cancel();
    dictation.start();
    dictation.transcription_finished(timer);
    assert_eq!(dictation.state, DictationState::Recording);
    assert_eq!(DictationState::Transcribing.name(), "transcribing");
}

#[test]
fn prompt_submission_ignores_blank_prompts_and_running_turns() {
    assert_eq!(
        prompt_submission("  \n", ConversationPhase::Empty, "gpt", "high", None),
        PromptSubmission::Ignored
    );
    assert_eq!(
        prompt_submission("hi", ConversationPhase::Streaming, "gpt", "high", None),
        PromptSubmission::Ignored
    );
    assert_eq!(
        prompt_submission("hi", ConversationPhase::Complete, "gpt", "high", None),
        PromptSubmission::Run
    );
    assert_eq!(
        prompt_submission("hi", ConversationPhase::Failed, "", "high", None),
        PromptSubmission::Failed("没有可用的 Codex 模型".into())
    );
    assert_eq!(
        prompt_submission("hi", ConversationPhase::Empty, "gpt", "", Some("catalog down")),
        PromptSubmission::Failed("catalog down".into())
    );
    assert!(ConversationPhase::Stopping.is_running());
    assert!(!ConversationPhase::Complete.is_running());
    assert_eq!(conversation_status(ConversationPhase::Thinking), Some("正在思考"));
    assert_eq!(conversation_status(ConversationPhase::Starting), None);
}

#[test]
fn thinking_shimmer_runs_only_while_thinking_and_loops_its_phases() {
    let mut shimmer = ThinkingShimmer { cycle: 0, running: false, step: 0 };
    assert_eq!(shimmer.sync(ConversationPhase::Starting), ShimmerAction::Keep);
    assert_eq!(shimmer.sync(ConversationPhase::Thinking), ShimmerAction::Start { cycle: 1 });
    assert_eq!(shimmer.sync(ConversationPhase::Thinking), ShimmerAction::Keep);
    assert!(!shimmer.tick(0));
    for expected in 1..=48 {
        assert!(shimmer.tick(1));
        assert_eq!(shimmer.step, expected);
    }
    assert!(shimmer.tick(1));
    assert_eq!(shimmer.step, 1);
    assert_eq!(shimmer.sync(ConversationPhase::Streaming), ShimmerAction::Stop);
    assert_eq!(shimmer, ThinkingShimmer { cycle: 2, running: false, step: 0 });
    assert!(!shimmer.tick(1));
    assert_eq!(shimmer.sync(ConversationPhase::Complete), ShimmerAction::Keep);
}
