use gpui_chat_clone::approval::ApprovalResponseOutcome;
use gpui_chat_clone::file_change::{
    FileApprovalAction, FileApprovalChoice, FileApprovalDecision, FileApprovalEvent, FileApprovalKeyboardFocus, FileApprovalMenuItem,
    FileApprovalPathPresentation, FileApprovalPresentation, FileApprovalStatus,
    FileApprovalVisualState, FileChangeActivityPresentation, FileChangeActivityVisualState,
    captured_file_approval_fixture, captured_file_change_activity_fixture,
};
use gpui_chat_clone::theme::ThemeMode;
use gpui_chat_clone::paths::{resolve_review_path, review_display_path, split_directory_and_name};
use gpui_chat_clone::review::{
    DiffFilePresentation, DiffFileVisualState, DiffLineKind, DiffLinePresentation,
    DiffReviewPresentation, captured_diff_review_fixture, parse_hunk_header,
};

fn approval() -> FileApprovalPresentation {
    FileApprovalPresentation::pending(
        "file-request-1",
        vec![FileApprovalPathPresentation::new(
            "/Users/zp/Desktop/codex-cdp-file-approval-probe.txt",
            1,
            0,
        )],
        None,
    )
}

fn review_file(state: DiffFileVisualState) -> DiffFilePresentation {
    DiffFilePresentation {
        path: "../../../../tmp/chatgpt-cdp-file-approval-approved.txt".to_owned(),
        resolved_path: Some("/tmp/chatgpt-cdp-file-approval-approved.txt".to_owned()),
        additions: 1,
        deletions: 0,
        lines: vec![DiffLinePresentation::added(1, "APPROVED_PROBE")],
        visual_state: state,
    }
}

#[test]
fn approval_uses_captured_copy_and_explicit_reason() {
    let mut model = approval();
    assert_eq!(model.question(), "是否允许 ChatGPT 编辑以下文件？");
    model.reason = Some("仅允许创建此文件？".to_owned());
    assert_eq!(model.question(), "仅允许创建此文件？");
    model.reason = Some("  ".to_owned());
    assert_eq!(model.question(), "是否允许 ChatGPT 编辑以下文件？");
}

#[test]
fn approval_path_preserves_directory_and_filename_emphasis_boundary() {
    let file = &approval().files[0];
    assert_eq!(file.directory_and_name().0, "/Users/zp/Desktop/");
    assert_eq!(
        file.directory_and_name().1,
        "codex-cdp-file-approval-probe.txt"
    );
}

#[test]
fn resolved_approved_and_declined_surface_is_unmounted() {
    let mut model = approval();
    assert!(model.should_render());
    model.status = FileApprovalStatus::Resolved;
    assert!(!model.should_render());
}

#[test]
fn file_approval_tracks_all_required_visual_states() {
    assert!(!FileApprovalVisualState::Default.menu_open());
    assert!(!FileApprovalVisualState::AllowHovered.menu_open());
    assert!(!FileApprovalVisualState::DeclineHovered.menu_open());
    let menu = FileApprovalVisualState::SplitMenu {
        focused: Some(FileApprovalMenuItem::AllowOnce),
    };
    assert!(menu.menu_open());
    assert_eq!(
        menu.focused_menu_item(),
        Some(FileApprovalMenuItem::AllowOnce)
    );
}

#[test]
fn file_approval_keyboard_drives_decisions_and_menu_focus() {
    let mut model = approval();
    assert_eq!(
        model.keyboard_event("enter", false),
        Some(FileApprovalEvent::Decision(FileApprovalDecision::AllowOnce))
    );
    assert_eq!(
        model.keyboard_event("escape", false),
        Some(FileApprovalEvent::Decision(FileApprovalDecision::Decline))
    );
    assert_eq!(model.keyboard_event("escape", true), Some(FileApprovalEvent::StopTurn));
    assert_eq!(
        model.keyboard_event("tab", false),
        Some(FileApprovalEvent::KeyboardFocusChanged(Some(
            FileApprovalKeyboardFocus::Decline
        )))
    );

    model.visual_state = FileApprovalVisualState::SplitMenu { focused: None };
    model.keyboard_focus = Some(FileApprovalKeyboardFocus::MenuAllowOnce);
    assert_eq!(
        model.keyboard_event("down", false),
        Some(FileApprovalEvent::KeyboardFocusChanged(Some(
            FileApprovalKeyboardFocus::MenuAllowAllEdits
        )))
    );
    assert_eq!(
        model.keyboard_event("enter", false),
        Some(FileApprovalEvent::Decision(FileApprovalDecision::AllowOnce))
    );
    assert_eq!(
        model.keyboard_event("escape", false),
        Some(FileApprovalEvent::ToggleMenu)
    );
}

#[test]
fn review_totals_are_per_file_sums() {
    let mut model = DiffReviewPresentation::new(
        "review-1",
        "上一轮",
        vec![
            review_file(DiffFileVisualState::Expanded),
            DiffFilePresentation {
                path: "/tmp/deleted.txt".to_owned(),
                resolved_path: Some("/tmp/deleted.txt".to_owned()),
                additions: 0,
                deletions: 3,
                lines: Vec::new(),
                visual_state: DiffFileVisualState::Collapsed,
            },
        ],
    );
    model.show_summary = true;
    assert_eq!(model.total_additions(), 1);
    assert_eq!(model.total_deletions(), 3);
}

const TWO_FILE_DIFF: &str = "diff --git a/src/first.rs b/src/first.rs\n--- a/src/first.rs\n+++ b/src/first.rs\n@@ -10,3 +10,4 @@\n context before\n-old value\n+new value\n+second new value\n context after\ndiff --git a/tests/second.rs b/tests/second.rs\n--- a/tests/second.rs\n+++ b/tests/second.rs\n@@ -2,2 +2,2 @@\n-removed line\n+replacement line\n unchanged\n";

#[test]
fn unified_diff_parser_keeps_all_files_lines_numbers_and_real_targets() {
    let model = DiffReviewPresentation::from_unified_diff(
        "turn-42",
        "上一轮",
        TWO_FILE_DIFF,
        Some("/workspace/project"),
    );

    assert_eq!(model.review_id, "turn-42");
    assert_eq!(model.turn_label, "上一轮");
    assert!(!model.show_summary);
    assert!(model.show_file_tree);
    assert_eq!(model.files.len(), 2);
    assert_eq!(model.total_additions(), 3);
    assert_eq!(model.total_deletions(), 2);
    assert_eq!(model.files[0].path, "src/first.rs");
    assert_eq!(
        model.files[0].resolved_path.as_deref(),
        Some("/workspace/project/src/first.rs")
    );
    assert_eq!(model.files[0].lines.len(), 5);
    assert_eq!(
        model.files[0].lines,
        vec![
            DiffLinePresentation::context(10, 10, "context before"),
            DiffLinePresentation::deleted(11, "old value"),
            DiffLinePresentation::added(11, "new value"),
            DiffLinePresentation::added(12, "second new value"),
            DiffLinePresentation::context(12, 13, "context after"),
        ]
    );
    assert_eq!(model.files[1].path, "tests/second.rs");
    assert_eq!(model.files[1].lines.len(), 3);
    assert_eq!(model.files[1].lines[0].old_line, Some(2));
    assert_eq!(model.files[1].lines[0].new_line, None);
    assert_eq!(model.files[1].lines[1].old_line, None);
    assert_eq!(model.files[1].lines[1].new_line, Some(2));
    assert_eq!(model.files[1].lines[2].old_line, Some(3));
    assert_eq!(model.files[1].lines[2].new_line, Some(3));
    assert_eq!(model.files[1].lines[2].kind, DiffLineKind::Context);
}

#[test]
fn unified_diff_without_header_uses_the_generic_file_and_crlf_lines() {
    let model = DiffReviewPresentation::from_unified_diff(
        "r",
        "上一轮",
        "noise\r\n@@ -1 +1 @@\r\n-ORIGINAL_BEFORE\r\n+ORIGINAL_AFTER\r\nno prefix\n",
        None,
    );
    assert_eq!(model.files.len(), 1);
    assert_eq!(model.files[0].path, "变更");
    assert_eq!(model.files[0].resolved_path, None);
    assert_eq!(
        model.files[0].lines,
        vec![
            DiffLinePresentation::deleted(1, "ORIGINAL_BEFORE"),
            DiffLinePresentation::added(1, "ORIGINAL_AFTER"),
        ]
    );
    assert_eq!((model.files[0].additions, model.files[0].deletions), (1, 1));
    let empty = DiffReviewPresentation::from_unified_diff("e", "上一轮", "", None);
    assert!(empty.files.is_empty());
}

#[test]
fn absolute_diff_targets_are_shown_relative_to_the_workspace() {
    let model = DiffReviewPresentation::from_unified_diff(
        "abs",
        "上一轮",
        "diff --git a//tmp/x/a.txt b//tmp/x/a.txt\n@@ -1 +1 @@\n+A\n",
        Some("/Users/zp/Desktop/GPUI"),
    );
    assert_eq!(model.files[0].path, "../../../../tmp/x/a.txt");
    assert_eq!(model.files[0].resolved_path.as_deref(), Some("/tmp/x/a.txt"));
}

#[test]
fn hunk_headers_parse_the_two_start_lines() {
    assert_eq!(parse_hunk_header("@@ -10,3 +10,4 @@"), Some((10, 10)));
    assert_eq!(parse_hunk_header("@@ -1 +1 @@ fn main()"), Some((1, 1)));
    assert_eq!(parse_hunk_header("@@ -+7,1 +8 @@"), Some((7, 8)));
    assert_eq!(parse_hunk_header("@@ -4294967296 +1 @@"), None);
    assert_eq!(parse_hunk_header("@@ -x +1 @@"), None);
    assert_eq!(parse_hunk_header("@@ -1 +1"), None);
    assert_eq!(parse_hunk_header("@@ 1 +1 @@"), None);
}

#[test]
fn review_paths_resolve_and_display_lexically() {
    assert_eq!(
        resolve_review_path("src/a.rs", Some("/w")).as_deref(),
        Some("/w/src/a.rs")
    );
    assert_eq!(resolve_review_path("src/a.rs", Some("/w/")).as_deref(), Some("/w/src/a.rs"));
    assert_eq!(resolve_review_path("/abs/a.rs", None).as_deref(), Some("/abs/a.rs"));
    assert_eq!(resolve_review_path("src/a.rs", None), None);
    assert_eq!(review_display_path("rel/a.rs", Some("/w/rel/a.rs"), Some("/w")), "rel/a.rs");
    assert_eq!(review_display_path("/w/x/a.rs", Some("/w/x/a.rs"), Some("/w")), "x/a.rs");
    assert_eq!(review_display_path("/w/a.rs", Some("/w/a.rs"), None), "/w/a.rs");
    assert_eq!(review_display_path("/w", Some("/w"), Some("/w")), "");
    assert_eq!(review_display_path("/a/b", Some("/a/b"), Some("x/y")), "/a/b");
}

#[test]
fn directory_split_follows_the_file_name() {
    assert_eq!(split_directory_and_name("/tmp/中文.txt"), ("/tmp/", "中文.txt"));
    assert_eq!(split_directory_and_name("name"), ("", "name"));
    assert_eq!(split_directory_and_name("/"), ("", "/"));
    assert_eq!(split_directory_and_name("dir/"), ("d", "ir/"));
}

#[test]
fn file_approval_events_resolve_and_move_menu_focus() {
    let mut model = approval();
    model.apply_event(FileApprovalEvent::ToggleMenu);
    assert_eq!(model.visual_state, FileApprovalVisualState::SplitMenu { focused: None });
    model.apply_event(FileApprovalEvent::KeyboardFocusChanged(Some(
        FileApprovalKeyboardFocus::MenuAllowAllEdits,
    )));
    assert_eq!(
        model.visual_state,
        FileApprovalVisualState::SplitMenu { focused: Some(FileApprovalMenuItem::AllowAllEdits) }
    );
    model.apply_event(FileApprovalEvent::ToggleMenu);
    assert_eq!(model.keyboard_focus, Some(FileApprovalKeyboardFocus::MenuToggle));
    assert_eq!(model.visual_state, FileApprovalVisualState::Default);
    // Before its patch arrives the card approves nothing; afterwards a
    // decision hands its answer to the caller without changing the card.
    assert_eq!(
        model.apply_event(FileApprovalEvent::Decision(FileApprovalDecision::AllowAllEdits)),
        FileApprovalAction::Nothing
    );
    model.patch_arrived();
    assert_eq!(
        model.apply_event(FileApprovalEvent::Decision(FileApprovalDecision::AllowAllEdits)),
        FileApprovalAction::Answer(FileApprovalChoice::AcceptForSession)
    );
    assert_eq!(model.status, FileApprovalStatus::Pending);
    assert_eq!(model.apply_response(ApprovalResponseOutcome::Sent), None);
    assert_eq!(model.status, FileApprovalStatus::Submitting);
    assert!(!model.should_render());
    assert_eq!(
        model.apply_event(FileApprovalEvent::StopTurn),
        FileApprovalAction::StopTurn { decline: false }
    );
    assert_eq!(model.status, FileApprovalStatus::Resolved);
}

#[test]
fn file_approval_failure_keeps_the_card_and_only_stops_the_turn() {
    let mut model = approval();
    model.patch_arrived();
    let notice = model
        .apply_response(ApprovalResponseOutcome::Failed("disk full".into()))
        .unwrap();
    assert_eq!(notice.message, "无法回复文件审批");
    assert_eq!(notice.details.as_deref(), Some("disk full"));
    assert_eq!(model.status, FileApprovalStatus::Failed);
    assert_eq!(model.failure_message.as_deref(), Some("无法写入文件审批响应"));
    assert!(model.should_render());
    assert_eq!(model.keyboard_event("enter", false), None);
    assert_eq!(model.keyboard_event("escape", false), None);
    assert_eq!(model.keyboard_event("escape", true), Some(FileApprovalEvent::StopTurn));
    assert_eq!(
        model.apply_event(FileApprovalEvent::Decision(FileApprovalDecision::AllowOnce)),
        FileApprovalAction::Nothing
    );
    assert_eq!(
        model.apply_event(FileApprovalEvent::StopTurn),
        FileApprovalAction::StopTurn { decline: false }
    );
    assert!(!model.should_render());

    let mut missing = approval();
    let notice = missing
        .apply_response(ApprovalResponseOutcome::NoResponder { request_known: true })
        .unwrap();
    assert_eq!(notice.details.as_deref(), Some("文件审批 responder 不存在"));
    assert_eq!(missing.status, FileApprovalStatus::Failed);
    let mut stale = approval();
    assert_eq!(
        stale.apply_response(ApprovalResponseOutcome::NoResponder { request_known: false }),
        None
    );
    assert_eq!(stale.status, FileApprovalStatus::Submitting);

    let mut pending = approval();
    assert_eq!(
        pending.apply_event(FileApprovalEvent::StopTurn),
        FileApprovalAction::StopTurn { decline: true }
    );
    assert_eq!(pending.status, FileApprovalStatus::Resolved);
}

#[test]
fn completed_activity_title_and_review() {
    let activity = FileChangeActivityPresentation::edited(
        "file-item-1",
        "/tmp/chatgpt-cdp-file-approval-approved.txt",
        1,
        0,
    );
    assert_eq!(activity.title(), "已编辑 chatgpt-cdp-file-approval-approved.txt");
    assert_eq!(activity.review.review_id, "file-change-file-item-1");
    assert_eq!(activity.review.files.len(), 1);
    let review = DiffReviewPresentation::new(
        "r",
        "上一轮",
        vec![
            review_file(DiffFileVisualState::Expanded),
            review_file(DiffFileVisualState::Expanded),
        ],
    );
    let multi = activity.with_review(review);
    assert_eq!(multi.title(), "已编辑 2 个文件");
    assert!(multi.details_expanded);
    assert_eq!((multi.additions, multi.deletions), (2, 0));
}

#[test]
fn captured_file_approval_fixture_uses_cdp_paths_counts_and_states() {
    let light = captured_file_approval_fixture(ThemeMode::Light, "options-focus");
    assert_eq!(
        light.files,
        vec![FileApprovalPathPresentation::new(
            "/Users/zp/Desktop/codex-cdp-file-approval-probe.txt",
            1,
            0,
        )]
    );
    assert_eq!(
        light.visual_state.focused_menu_item(),
        Some(FileApprovalMenuItem::AllowOnce)
    );

    let dark = captured_file_approval_fixture(ThemeMode::Dark, "declined-resolved");
    assert_eq!(
        dark.files[0].path,
        "/Users/zp/Desktop/codex-cdp-file-approval-dark-probe.txt"
    );
    assert_eq!(dark.status, FileApprovalStatus::Resolved);
}

#[test]
fn captured_file_approval_fixture_lists_multifile_and_many_paths() {
    let multi = captured_file_approval_fixture(ThemeMode::Light, "multifile-allow-hover");
    assert_eq!(multi.files.len(), 2);
    assert_eq!(
        multi.files[1].path,
        "/Users/zp/Desktop/codex-cdp-multifile-approval-20260830-b.txt"
    );
    assert_eq!(multi.visual_state, FileApprovalVisualState::AllowHovered);
    assert_eq!(multi.status, FileApprovalStatus::Pending);

    let many = captured_file_approval_fixture(ThemeMode::Dark, "many-options");
    assert_eq!(many.files.len(), 8);
    assert_eq!(
        many.files[0].path,
        "/Users/zp/Desktop/codex-cdp-multifile-scroll-20260830-01.txt"
    );
    assert_eq!(
        many.files[7].path,
        "/Users/zp/Desktop/codex-cdp-multifile-scroll-20260830-08.txt"
    );
    assert_eq!(many.visual_state, FileApprovalVisualState::SplitMenu { focused: None });

    assert_eq!(
        captured_file_approval_fixture(ThemeMode::Light, "timeout").status,
        FileApprovalStatus::Resolved
    );
    assert_eq!(
        captured_file_approval_fixture(ThemeMode::Light, "decline-hover").visual_state,
        FileApprovalVisualState::DeclineHovered
    );
    assert_eq!(
        captured_file_approval_fixture(ThemeMode::Light, "unresolved").status,
        FileApprovalStatus::Pending
    );
}

#[test]
fn captured_file_change_fixture_carries_both_files_and_totals() {
    let model = captured_file_change_activity_fixture("completed");
    assert_eq!(model.review.files.len(), 2);
    assert_eq!(
        model.path,
        "/Users/zp/Desktop/codex-cdp-multifile-approval-20260830-a.txt"
    );
    assert_eq!((model.additions, model.deletions), (2, 0));
    assert_eq!(model.title(), "已编辑 2 个文件");
    assert!(model.details_expanded);
    assert_eq!(model.review.files[0].lines[0].content, "APPROVAL_A");
    assert_eq!(model.review.files[1].lines[0].content, "APPROVAL_B");

    let hovered = captured_file_change_activity_fixture("completed-hover");
    assert_eq!(hovered.visual_state, FileChangeActivityVisualState::HeaderHovered);
    assert!(!captured_file_change_activity_fixture("collapsed").details_expanded);
}

#[test]
fn parsed_files_count_headers_and_their_own_lines() {
    let model = DiffReviewPresentation::from_unified_diff(
        "count",
        "上一轮",
        "@@ -1 +1 @@\n+early\ndiff --git a/x b/x\n@@ -1,2 +1 @@\n-a\n-b\n+c\ndiff --git a/y b/y\n",
        None,
    );
    assert_eq!(model.files.len(), 3);
    assert_eq!(model.files[0].path, "变更");
    assert_eq!((model.files[0].additions, model.files[0].deletions), (1, 0));
    assert_eq!((model.files[1].additions, model.files[1].deletions), (1, 2));
    assert_eq!((model.files[2].additions, model.files[2].deletions), (0, 0));
    assert!(model.files.iter().all(|f| f.visual_state == DiffFileVisualState::Expanded));
}

#[test]
fn rows_read_their_line_counts_and_empty_files_show_one_line() {
    let activity = FileChangeActivityPresentation::edited("i", "/tmp/dir/a.rs", 3, 1);
    assert_eq!(activity.accessible_label(), "已编辑 a.rs，增加 3 行，删除 1 行");
    let path = FileApprovalPathPresentation::new("/tmp/b.rs", 0, 12);
    assert_eq!(path.accessible_label(), "/tmp/b.rs，增加 0 行，删除 12 行");
    let review = DiffReviewPresentation::from_unified_diff("r", "上一轮", "diff --git a/e b/e\n", None);
    assert_eq!(review.files[0].shown_lines(), vec![DiffLinePresentation::added(1, " ")]);
    let full = DiffReviewPresentation::from_unified_diff("r", "上一轮", TWO_FILE_DIFF, None);
    assert_eq!(full.files[0].shown_lines(), full.files[0].lines);
}

#[test]
fn captured_review_fixture_sets_the_first_file_state() {
    let collapsed = captured_diff_review_fixture(TWO_FILE_DIFF, "file-collapsed");
    assert_eq!(collapsed.review_id, "turn-diff-ui-capture");
    assert_eq!(collapsed.turn_label, "上一轮");
    assert_eq!(collapsed.files.len(), 2);
    assert_eq!(collapsed.files[0].visual_state, DiffFileVisualState::Collapsed);
    assert_eq!(collapsed.files[1].visual_state, DiffFileVisualState::Expanded);
    assert_eq!(collapsed.raw_diff.as_deref(), Some(TWO_FILE_DIFF));
    let hover = captured_diff_review_fixture(TWO_FILE_DIFF, "file-header-hover");
    assert_eq!(hover.files[0].visual_state, DiffFileVisualState::HeaderHovered);
    let bottom = captured_diff_review_fixture(TWO_FILE_DIFF, "bottom");
    assert_eq!(bottom.files[0].visual_state, DiffFileVisualState::Expanded);
    assert_eq!(bottom.files[0].resolved_path.as_deref(), Some("/Users/zp/Desktop/GPUI/src/first.rs"));
}
