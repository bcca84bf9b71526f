use gpui_chat_clone::auto_approval::{Action, Status, action_label, model, status_label};

#[test]
fn auto_approval_labels_match_observed_action_variants() {
    assert_eq!(
        action_label(&Action::Command {
            command: "cat README.md".into(),
            cwd: "/tmp".into(),
            source: "shell".into()
        }),
        "cat README.md"
    );
    assert_eq!(
        action_label(&Action::Execve {
            program: "/bin/ls".into(),
            argv: vec!["ls".into(), "a b".into()],
            cwd: "/tmp".into(),
            source: "unifiedExec".into()
        }),
        "/bin/ls ls a b"
    );
    assert_eq!(
        action_label(&Action::WriteStdin {
            approval_id: "child".into(),
            process_id: "123".into(),
            stdin: "answer\n".into(),
            cwd: "/tmp".into()
        }),
        "向进程 123 发送输入：answer\n"
    );
    assert_eq!(
        action_label(&Action::ApplyPatch {
            files: vec!["/tmp/a".into(), "/tmp/b".into()],
            cwd: "/tmp".into()
        }),
        "正在编辑 2 个文件"
    );
    assert_eq!(status_label(Status::TimedOut), "自动审核超时");
    assert_eq!(status_label(Status::Aborted), "自动审核已停止");
}

#[test]
fn execve_without_arguments_is_just_the_program() {
    assert_eq!(
        action_label(&Action::Execve {
            program: "/usr/bin/true".into(),
            argv: vec![],
            cwd: "/".into(),
            source: "shell".into()
        }),
        "/usr/bin/true"
    );
}

#[test]
fn apply_patch_counts_files_in_decimal() {
    let files: Vec<String> = (0..12).map(|i| format!("/tmp/{i}")).collect();
    assert_eq!(
        action_label(&Action::ApplyPatch { files, cwd: "/tmp".into() }),
        "正在编辑 12 个文件"
    );
    assert_eq!(
        action_label(&Action::ApplyPatch { files: vec![], cwd: "/tmp".into() }),
        "正在编辑 0 个文件"
    );
}

#[test]
fn review_fixture_finishes_only_when_not_in_progress() {
    let running = model(Status::InProgress);
    assert_eq!(running.review.status, Status::InProgress);
    assert_eq!(running.review.completed_at_ms, None);
    assert_eq!(running.review.decision_source, None);
    assert_eq!(running.review.started_at_ms, 100);
    assert_eq!(running.review.key.review_id, "review");
    assert!(!running.closed_locally && !running.attached_to_item);

    let timed_out = model(Status::TimedOut);
    assert_eq!(timed_out.review.completed_at_ms, Some(200));
    assert_eq!(timed_out.review.decision_source.as_deref(), Some("agent"));
    assert_eq!(
        timed_out.review.rationale.as_deref(),
        Some("This action only reads public information.")
    );
    assert_eq!(
        timed_out.review.action,
        Action::NetworkAccess {
            host: "example.com".into(),
            port: 443,
            protocol: "https".into(),
            target: "example.com:443".into()
        }
    );
}

#[test]
fn network_reviews_and_running_reviews_have_no_label_text() {
    let review = model(Status::InProgress);
    assert_eq!(action_label(&review.review.action), "");
    assert_eq!(status_label(Status::InProgress), "");
}
