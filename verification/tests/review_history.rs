use gpui_chat_clone::activity::ConversationActivity;
use gpui_chat_clone::file_change::{FileChangeActivityPresentation, FileChangeStatus};
use gpui_chat_clone::review::DiffReviewPresentation;
use gpui_chat_clone::review_history::latest_review;

fn change(item: &str, path: &str, status: FileChangeStatus) -> ConversationActivity {
    let mut c = FileChangeActivityPresentation::edited(item, path, 1, 0);
    c.status = status;
    ConversationActivity::FileChange(c)
}

#[test]
fn the_latest_turn_diff_wins() {
    let mut diff_change = FileChangeActivityPresentation::edited("d", "/tmp/x", 1, 0);
    diff_change.review = DiffReviewPresentation::from_unified_diff(
        "turn-diff-7",
        "上一轮",
        "diff --git a/x b/x\n@@ -1 +1 @@\n-a\n+b\n",
        None,
    );
    let current = vec![
        ConversationActivity::FileChange(diff_change),
        change("c", "/tmp/y", FileChangeStatus::Completed),
    ];
    let review = latest_review(&current, &vec![], Some("thread-a"), 3).unwrap();
    assert_eq!(review.review_id, "turn-diff-7");
    assert_eq!(review.files.len(), 1);
    assert!(review.raw_diff.as_deref().unwrap().contains("+b"));
}

#[test]
fn completed_changes_are_gathered_from_the_newest_turn_with_any() {
    let current = vec![change("a", "/tmp/a", FileChangeStatus::InProgress)];
    let earlier = vec![
        vec![change("old", "/tmp/old", FileChangeStatus::Completed)],
        vec![
            change("b", "/tmp/b", FileChangeStatus::Completed),
            change("f", "/tmp/f", FileChangeStatus::Failed),
            change("c", "/tmp/c", FileChangeStatus::Completed),
        ],
        vec![ConversationActivity::Error { message: "e".into() }],
    ];
    let review = latest_review(&current, &earlier, None, 12).unwrap();
    assert_eq!(review.review_id, "latest-draft-12");
    assert_eq!(review.turn_label, "上一轮");
    let paths: Vec<_> = review.files.iter().map(|f| f.path.clone()).collect();
    assert_eq!(paths, vec!["/tmp/b".to_owned(), "/tmp/c".to_owned()]);
    assert_eq!(review.raw_diff, None);
    assert!(latest_review(&current, &vec![], Some("t"), 1).is_none());
}
