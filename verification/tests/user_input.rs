use gpui_chat_clone::activity::ConversationActivity;
use gpui_chat_clone::approval::ApprovalResponseOutcome;
use gpui_chat_clone::user_input::{
    UserInputAction, UserInputAnswer, UserInputRequestEvent, UserInputRequestPresentation,
    UserInputRequestStatus, handle_user_input_request_event, record_user_input_response,
};

fn request(id: &str, questions: &[&str]) -> ConversationActivity {
    ConversationActivity::UserInput(UserInputRequestPresentation::pending(
        id.to_owned(),
        questions.iter().map(|q| (*q).to_owned()).collect(),
    ))
}

fn card(activity: &ConversationActivity) -> &UserInputRequestPresentation {
    match activity {
        ConversationActivity::UserInput(model) => model,
        _ => panic!("expected a user input request"),
    }
}

fn answer(id: &str, answers: &[&str]) -> UserInputAnswer {
    UserInputAnswer {
        question_id: id.to_owned(),
        answers: answers.iter().map(|a| (*a).to_owned()).collect(),
    }
}

#[test]
fn a_single_question_submits_its_option_at_once() {
    let mut activities = vec![request("ui-1", &["q1"])];
    let action = handle_user_input_request_event(
        &mut activities,
        "ui-1",
        UserInputRequestEvent::SelectOption {
            question_id: "q1".into(),
            option_index: 2,
            label: "Rust".into(),
        },
    );
    assert_eq!(action, UserInputAction::Respond(vec![answer("q1", &["Rust"])]));
    assert_eq!(card(&activities[0]).selected_option_index, Some(2));
    record_user_input_response(&mut activities, "ui-1", ApprovalResponseOutcome::Sent);
    assert_eq!(card(&activities[0]).status, UserInputRequestStatus::Submitting);
    assert!(!card(&activities[0]).should_render());
    assert_eq!(
        handle_user_input_request_event(&mut activities, "ui-1", UserInputRequestEvent::Skip),
        UserInputAction::Nothing
    );
}

#[test]
fn several_questions_are_answered_in_turn() {
    let mut activities = vec![request("ui-2", &["q1", "q2", "q3"])];
    assert_eq!(
        handle_user_input_request_event(
            &mut activities,
            "ui-2",
            UserInputRequestEvent::SubmitOtherAnswer { question_id: "q1".into(), answer: "own".into() },
        ),
        UserInputAction::Nothing
    );
    assert_eq!(card(&activities[0]).current, 1);
    assert_eq!(
        handle_user_input_request_event(&mut activities, "ui-2", UserInputRequestEvent::Skip),
        UserInputAction::Nothing
    );
    assert_eq!(
        handle_user_input_request_event(&mut activities, "ui-2", UserInputRequestEvent::PreviousQuestion),
        UserInputAction::Nothing
    );
    assert_eq!(card(&activities[0]).current, 1);
    assert_eq!(
        handle_user_input_request_event(&mut activities, "ui-2", UserInputRequestEvent::NextQuestion),
        UserInputAction::Nothing
    );
    assert_eq!(card(&activities[0]).current, 2);
    let action = handle_user_input_request_event(
        &mut activities,
        "ui-2",
        UserInputRequestEvent::SelectOption {
            question_id: "q3".into(),
            option_index: 0,
            label: "yes".into(),
        },
    );
    assert_eq!(
        action,
        UserInputAction::Respond(vec![answer("q1", &["own"]), answer("q2", &[]), answer("q3", &["yes"])])
    );
}

#[test]
fn an_event_for_another_question_is_reported_and_changes_nothing() {
    let mut activities = vec![request("ui-3", &["q1", "q2"])];
    let before = card(&activities[0]).clone();
    assert_eq!(
        handle_user_input_request_event(
            &mut activities,
            "ui-3",
            UserInputRequestEvent::SelectOption {
                question_id: "q2".into(),
                option_index: 0,
                label: "x".into(),
            },
        ),
        UserInputAction::Nothing
    );
    assert_eq!(card(&activities[0]), &before);
    assert_eq!(
        activities[1],
        ConversationActivity::ProtocolError {
            message: "用户输入请求事件标识不一致".into(),
            details: Some("选择事件 question id `q2` 与当前 question id Some(\"q1\") 不一致".into()),
            will_retry: false,
        }
    );
}

#[test]
fn dismissing_sends_no_answers_and_failures_stay_visible() {
    let mut activities = vec![request("ui-4", &["q1", "q2"])];
    assert_eq!(
        handle_user_input_request_event(&mut activities, "ui-4", UserInputRequestEvent::Dismiss),
        UserInputAction::Respond(vec![])
    );
    record_user_input_response(
        &mut activities,
        "ui-4",
        ApprovalResponseOutcome::Failed("pipe".into()),
    );
    let model = card(&activities[0]);
    assert_eq!(model.status, UserInputRequestStatus::Failed);
    assert_eq!(model.failure_message.as_deref(), Some("无法写入用户输入响应"));
    assert!(model.should_render());
    assert_eq!(
        activities[1],
        ConversationActivity::ProtocolError {
            message: "无法回复用户输入请求".into(),
            details: Some("pipe".into()),
            will_retry: false,
        }
    );
    assert_eq!(
        handle_user_input_request_event(&mut activities, "ui-4", UserInputRequestEvent::Dismiss),
        UserInputAction::Nothing
    );

    let mut missing = vec![request("ui-5", &["q1"])];
    record_user_input_response(
        &mut missing,
        "ui-5",
        ApprovalResponseOutcome::NoResponder { request_known: true },
    );
    assert_eq!(card(&missing[0]).status, UserInputRequestStatus::Failed);
    assert_eq!(missing.len(), 2);
    let mut stale = vec![request("ui-6", &["q1"])];
    record_user_input_response(
        &mut stale,
        "ui-6",
        ApprovalResponseOutcome::NoResponder { request_known: false },
    );
    assert_eq!(card(&stale[0]).status, UserInputRequestStatus::Submitting);
    assert_eq!(stale.len(), 1);
}

#[test]
fn other_answer_focus_and_active_option() {
    let mut activities = vec![request("ui-7", &["q1"])];
    handle_user_input_request_event(
        &mut activities,
        "ui-7",
        UserInputRequestEvent::ActiveOptionChanged(Some(1)),
    );
    assert_eq!(card(&activities[0]).active_option_index, Some(1));
    handle_user_input_request_event(
        &mut activities,
        "ui-7",
        UserInputRequestEvent::BeginOtherAnswer { question_id: "q1".into() },
    );
    assert!(card(&activities[0]).other_focused);
    assert_eq!(card(&activities[0]).active_option_index, None);
}
