use gpui_chat_clone::paths::paths_equal;
use gpui_chat_clone::file_panel::{
    CloseOutcome, DirectoryListing, DocumentState, Documents, FileEntry, FileTree, OpenOutcome,
    RowActivation, SaveFollowUp, TreeKeyOutcome, file_icon, is_image_path, is_markdown_path,
    result_count_label,
};

fn entry(path: &str, directory: bool) -> FileEntry {
    FileEntry { path: path.into(), directory }
}

fn tree() -> FileTree {
    let mut tree = FileTree::new("/w");
    assert!(tree.begin_loading("/w"));
    assert!(!tree.begin_loading("/w"));
    tree.finish_loading(
        "/w",
        Ok(vec![entry("/w/src", true), entry("/w/README.md", false)]),
    );
    tree.finish_loading(
        "/w/src",
        Ok(vec![entry("/w/src/main.rs", false), entry("/w/src/util", true)]),
    );
    tree.finish_loading("/w/src/util", Err("permission denied".into()));
    tree
}

fn paths(tree: &FileTree) -> Vec<(String, usize)> {
    tree.rows().into_iter().map(|row| (row.entry.path, row.depth)).collect()
}

#[test]
fn rows_walk_loaded_and_expanded_directories() {
    let mut tree = tree();
    assert_eq!(
        paths(&tree),
        vec![("/w/src".to_owned(), 0), ("/w/README.md".to_owned(), 0)]
    );
    assert_eq!(
        tree.activate_row(0),
        RowActivation::Expanded { path: "/w/src".into() }
    );
    assert_eq!(
        paths(&tree),
        vec![
            ("/w/src".to_owned(), 0),
            ("/w/src/main.rs".to_owned(), 1),
            ("/w/src/util".to_owned(), 1),
            ("/w/README.md".to_owned(), 0),
        ]
    );
    assert_eq!(
        tree.activate_row(2),
        RowActivation::Expanded { path: "/w/src/util".into() }
    );
    assert_eq!(tree.rows().len(), 4);
    assert_eq!(tree.activate_row(3), RowActivation::Open { path: "/w/README.md".into() });
    assert_eq!(tree.selected_row, 3);
    assert_eq!(tree.activate_row(9), RowActivation::Missing);
    assert_eq!(tree.activate_row(0), RowActivation::Collapsed);
    assert_eq!(paths(&tree).len(), 2);
}

#[test]
fn reloading_a_directory_replaces_its_listing() {
    let mut tree = tree();
    tree.finish_loading("/w", Ok(vec![entry("/w/new.txt", false)]));
    assert_eq!(paths(&tree), vec![("/w/new.txt".to_owned(), 0)]);
    assert_eq!(tree.directories.len(), 3);
    assert!(tree.begin_loading("/w"));
}

#[test]
fn tree_keys_move_open_and_close() {
    let mut tree = tree();
    assert_eq!(tree.tree_key("down", false), TreeKeyOutcome::Handled);
    assert_eq!(tree.selected_row, 0);
    assert_eq!(tree.tree_key("up", false), TreeKeyOutcome::Handled);
    assert_eq!(tree.selected_row, 1);
    assert_eq!(tree.tree_key("down", true), TreeKeyOutcome::Handled);
    assert_eq!(tree.selected_row, 1);
    assert_eq!(tree.tree_key("home", true), TreeKeyOutcome::Handled);
    assert_eq!(tree.selected_row, 0);
    assert_eq!(tree.tree_key("up", true), TreeKeyOutcome::Handled);
    assert_eq!(tree.selected_row, 0);
    assert_eq!(
        tree.tree_key("right", true),
        TreeKeyOutcome::Activated(RowActivation::Expanded { path: "/w/src".into() })
    );
    assert_eq!(tree.tree_key("right", true), TreeKeyOutcome::Handled);
    assert_eq!(tree.tree_key("end", true), TreeKeyOutcome::Handled);
    assert_eq!(tree.selected_row, 3);
    assert_eq!(tree.tree_key("x", true), TreeKeyOutcome::Ignored);

    // Left on a file selects its parent directory's row.
    tree.selected_row = 1;
    assert_eq!(tree.tree_key("left", true), TreeKeyOutcome::Handled);
    assert_eq!(tree.selected_row, 0);
    // Left on an open directory closes it.
    assert_eq!(tree.tree_key("left", true), TreeKeyOutcome::Handled);
    assert_eq!(tree.rows().len(), 2);
    // Left on a closed top-level directory looks for the root row, which
    // the tree does not show, so the selection stays.
    assert_eq!(tree.tree_key("left", true), TreeKeyOutcome::Handled);
    assert_eq!(tree.selected_row, 0);
    assert_eq!(
        tree.tree_key("enter", true),
        TreeKeyOutcome::Activated(RowActivation::Expanded { path: "/w/src".into() })
    );
}

#[test]
fn filtering_shows_flat_results_and_escape_clears_it() {
    let mut tree = tree();
    tree.query = "main".into();
    let generation = tree.search().unwrap();
    assert!(tree.searching);
    assert_eq!(tree.rows().len(), 0);
    assert_eq!(tree.tree_key("down", true), TreeKeyOutcome::Ignored);
    assert_eq!(tree.submit_filter(), None);
    assert!(tree.open_search_when_ready);
    assert!(tree.is_current_search(generation));
    assert_eq!(tree.finish_search(generation + 1, vec![entry("/w/other.rs", false)]), None);
    assert_eq!(
        tree.finish_search(generation, vec![entry("/w/src/main.rs", false)]),
        Some(RowActivation::Open { path: "/w/src/main.rs".into() })
    );
    assert!(!tree.searching);
    assert_eq!(paths(&tree), vec![("/w/src/main.rs".to_owned(), 0)]);
    assert_eq!(tree.tree_key("escape", true), TreeKeyOutcome::FilterCleared);
    assert!(tree.query.is_empty());
    assert_eq!(tree.search_generation, generation + 1);
    assert_eq!(paths(&tree).len(), 2);
    assert_eq!(
        tree.submit_filter(),
        Some(RowActivation::Expanded { path: "/w/src".into() })
    );
}

#[test]
fn file_kinds_follow_the_extension() {
    assert_eq!(file_icon("/w/src/main.rs"), "markdown-file-rust");
    assert_eq!(file_icon("tool.py"), "markdown-file-python");
    assert_eq!(file_icon("/w/package.json"), "markdown-file-json");
    assert_eq!(file_icon("/w/.rs"), "markdown-file-document");
    assert_eq!(file_icon("/w/Makefile"), "markdown-file-document");
    assert!(is_image_path("/w/shot.PNG"));
    assert!(is_image_path("a.jpeg"));
    assert!(!is_image_path("/w/png"));
    assert!(is_markdown_path("/w/README.md"));
    assert!(is_markdown_path("notes.markdown"));
    assert!(!is_markdown_path("/w/README.MD"));
}

fn documents() -> Documents {
    Documents { documents: vec![], active: None, next_id: 0, pending_close: None }
}

fn doc(docs: &Documents, id: u64) -> &DocumentState {
    docs.documents.iter().find(|d| d.id == id).unwrap()
}

#[test]
fn opening_a_path_twice_focuses_the_first_document() {
    let mut docs = documents();
    assert_eq!(docs.open_path("/w", "src/main.rs"), OpenOutcome::Opened { id: 0, load: true });
    assert_eq!(docs.documents[0].path, "/w/src/main.rs");
    assert_eq!(docs.open_path("/w", "shot.png"), OpenOutcome::Opened { id: 1, load: false });
    assert!(docs.documents[1].image && !docs.documents[1].loading);
    assert_eq!(docs.open_path("/w/", "/w/src/main.rs"), OpenOutcome::Focused { id: 0 });
    assert_eq!(docs.active, Some(0));
    assert_eq!(docs.open_path("/w", "README.md"), OpenOutcome::Opened { id: 2, load: true });
    assert!(docs.documents[2].preview);
    assert_eq!(docs.documents.len(), 3);
}

#[test]
fn paths_that_differ_only_in_spelling_open_the_same_document() {
    let mut docs = documents();
    assert_eq!(docs.open_path("/w", "/w/a/b"), OpenOutcome::Opened { id: 0, load: true });
    assert_eq!(docs.open_path("/w", "/w/a//b"), OpenOutcome::Focused { id: 0 });
    assert_eq!(docs.open_path("/w", "/w/./a/b/"), OpenOutcome::Focused { id: 0 });
    assert_eq!(docs.open_path("/w/", "a/b"), OpenOutcome::Focused { id: 0 });
    assert_eq!(docs.documents.len(), 1);
    assert!(paths_equal("/w/a//b", "/w/a/b"));
    assert!(!paths_equal("/w/a/../b", "/w/b"));
}

#[test]
fn left_finds_the_parent_row_whatever_its_spelling() {
    let mut tree = FileTree::new("/w");
    assert!(tree.begin_loading("/w"));
    tree.finish_loading("/w", Ok(vec![entry("/w//src/", true)]));
    assert!(tree.begin_loading("/w//src/"));
    tree.finish_loading("/w//src/", Ok(vec![entry("/w/src/main.rs", false)]));
    assert_eq!(
        tree.tree_key("enter", true),
        TreeKeyOutcome::Activated(RowActivation::Expanded { path: "/w//src/".into() })
    );
    assert_eq!(tree.rows().len(), 2);
    tree.selected_row = 1;
    assert_eq!(tree.tree_key("left", true), TreeKeyOutcome::Handled);
    assert_eq!(tree.selected_row, 0);
}

#[test]
fn saves_follow_edits_and_close_after_saving() {
    let mut docs = documents();
    docs.open_path("/w", "a.rs");
    assert!(docs.finish_load(0, Ok("original\n".into())));
    assert!(!doc(&docs, 0).dirty());
    assert!(!docs.has_unsaved());
    let revision = docs.record_edit(0, "edited\n".into()).unwrap();
    assert!(docs.has_unsaved());
    assert!(docs.save_due(0, revision));
    assert_eq!(docs.begin_save(0, true), None);
    assert_eq!(docs.begin_save(0, false), Some("edited\n".to_owned()));
    assert_eq!(docs.begin_save(0, false), None);
    assert_eq!(docs.request_close(0), CloseOutcome::SaveFirst);
    assert_eq!(docs.pending_close, Some(0));
    docs.record_edit(0, "edited twice\n".into());
    assert_eq!(docs.finish_save(0, Ok("edited\n".into())), SaveFollowUp::ScheduleSave);
    assert_eq!(docs.begin_save(0, false), Some("edited twice\n".to_owned()));
    assert_eq!(docs.finish_save(0, Ok("edited twice\n".into())), SaveFollowUp::Closed);
    assert!(docs.documents.is_empty());
    assert_eq!(docs.active, None);
    assert_eq!(docs.pending_close, None);
}

#[test]
fn failed_saves_and_external_changes_are_reported() {
    let mut docs = documents();
    docs.open_path("/w", "a.rs");
    docs.finish_load(0, Ok("one".into()));
    let target = docs.refresh_target(false).unwrap();
    assert_eq!(target, (0, "/w/a.rs".to_owned(), 0));
    assert_eq!(docs.refresh_target(true), None);
    assert!(docs.finish_refresh(0, 0, Ok("two".into())));
    assert_eq!(doc(&docs, 0).buffer_text.as_deref(), Some("two"));
    assert!(!docs.finish_refresh(0, 0, Ok("two".into())));

    docs.record_edit(0, "mine".into());
    assert_eq!(docs.refresh_target(false), None);
    assert!(!docs.finish_refresh(0, 1, Ok("theirs".into())));
    docs.begin_save(0, false);
    assert_eq!(
        docs.finish_save(0, Err("文件已被其他程序修改".into())),
        SaveFollowUp::Nothing
    );
    assert!(doc(&docs, 0).error.as_deref().unwrap().contains("其他程序"));
    assert_eq!(doc(&docs, 0).buffer_text.as_deref(), Some("mine"));
    assert!(!docs.save_due(0, 1));
    assert_eq!(docs.request_close(0), CloseOutcome::SaveFirst);
    assert_eq!(docs.documents.len(), 1);
}

#[test]
fn closing_the_active_document_activates_its_neighbour() {
    let mut docs = documents();
    docs.open_path("/w", "a");
    docs.open_path("/w", "b");
    docs.open_path("/w", "c");
    docs.open_path("/w", "b");
    assert_eq!(docs.active, Some(1));
    assert_eq!(docs.request_close(1), CloseOutcome::Removed);
    assert_eq!(docs.active, Some(2));
    docs.remove_document(2);
    assert_eq!(docs.active, Some(0));
    docs.open_path("/w", "d");
    docs.remove_document(0);
    assert_eq!(docs.active, Some(3));
    docs.remove_document(42);
    assert_eq!(docs.documents.len(), 1);
    assert_eq!(docs.finish_load(42, Ok(String::new())), false);
}

#[test]
fn tree_and_toolbar_texts() {
    let mut tree = FileTree::new("/w");
    assert_eq!(tree.empty_state_text(), "空目录");
    assert!(tree.begin_loading("/w"));
    assert_eq!(tree.empty_state_text(), "正在加载…");
    tree.finish_loading("/w", Err("permission denied".into()));
    assert_eq!(tree.empty_state_text(), "无法读取目录：permission denied");
    let mut empty = FileTree::new("/w");
    empty.query = "zzz".into();
    assert_eq!(empty.empty_state_text(), "没有匹配的文件");
    assert_eq!(result_count_label(500), "显示前 500 个结果");
    assert_eq!(result_count_label(12), "12 个文件");
    assert_eq!(result_count_label(0), "0 个文件");

    let mut docs = documents();
    docs.open_path("/w", "a.rs");
    assert_eq!(doc(&docs, 0).save_status(), "");
    assert_eq!(docs.close_prompt(), None);
    docs.documents[0].saving = true;
    assert_eq!(doc(&docs, 0).save_status(), "保存中…");
    docs.documents[0].saving = false;
    docs.documents[0].buffer_text = Some("new".into());
    docs.documents[0].saved_text = Some("old".into());
    assert_eq!(doc(&docs, 0).save_status(), "未保存");
    docs.pending_close = Some(0);
    assert_eq!(docs.close_prompt(), None);
    docs.documents[0].error = Some("disk full".into());
    assert_eq!(docs.close_prompt(), Some(0));
}
