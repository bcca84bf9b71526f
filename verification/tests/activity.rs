use gpui_chat_clone::activity::{
    ConfigWarningActivity, notice_text,
    ActivityStreamUnit, AgentImageView, CommandExecution, CommandExecutionAction,
    CommandExecutionStatus, ConversationActivity, ReasoningActivityPresentation,
    ToolActivityGroupPresentation, active_reasoning_body, activity_stream_units,
    command_activity_row_count, command_activity_summaries, command_activity_summary,
    completed_reasoning_body, completed_tool_group_summary, format_reasoning_elapsed,
    generic_command_activity_summary, reasoning_activity_title, reasoning_header_label,
    strip_terminal_line_ending, tool_group_reasoning_title, tool_group_row_count,
    command_accessible_label, command_card_text, tool_group_accessible_label, tool_group_header,
};
use gpui_chat_clone::composer::{ConversationPhase, conversation_status, show_thinking_tail};
use gpui_chat_clone::file_change::{
    FileChangeActivityPresentation, FileChangeStatus, captured_file_change_activity_fixture,
};

fn reasoning(id: &str, title: &str, active: bool) -> ReasoningActivityPresentation {
    ReasoningActivityPresentation {
        item_id: id.to_owned(),
        summary: vec![title.to_owned()],
        content: Vec::new(),
        started_at_ms: 1_000,
        completed_at_ms: (!active).then_some(2_000),
    }
}

fn command(
    id: &str,
    action: CommandExecutionAction,
    status: CommandExecutionStatus,
) -> CommandExecution {
    let command = match &action {
        CommandExecutionAction::Read { command, .. }
        | CommandExecutionAction::ListFiles { command, .. }
        | CommandExecutionAction::Search { command, .. }
        | CommandExecutionAction::Unknown { command } => command.clone(),
    };
    CommandExecution {
        id: id.to_owned(),
        command,
        actions: vec![action],
        cwd: "/tmp/project".to_owned(),
        output: String::new(),
        terminal_process_id: None,
        status,
        exit_code: (status == CommandExecutionStatus::Completed).then_some(0),
    }
}

#[test]
fn consecutive_reasoning_and_commands_form_one_tool_activity_group() {
    let activities = vec![
        ConversationActivity::Reasoning(reasoning("reasoning_1", "Inspecting runtime", false)),
        ConversationActivity::Command(command(
            "read_1",
            CommandExecutionAction::Read {
                command: "sed -n '1,20p' src/main.rs".into(),
                name: "main.rs".into(),
                path: "src/main.rs".into(),
            },
            CommandExecutionStatus::Completed,
        )),
        ConversationActivity::Reasoning(reasoning("reasoning_2", "Checking tests", false)),
        ConversationActivity::Command(command(
            "run_1",
            CommandExecutionAction::Unknown {
                command: "cargo test".into(),
            },
            CommandExecutionStatus::Completed,
        )),
        ConversationActivity::AssistantMessage {
            item_id: "message_1".into(),
            text: "完成。".into(),
        },
    ];

    let units = activity_stream_units(activities.clone());
    assert_eq!(units.len(), 2);
    let ActivityStreamUnit::ToolGroup(group) = &units[0] else {
        panic!("expected grouped tool activity");
    };
    assert_eq!(group.id, "reasoning_1");
    assert_eq!(group.reasoning.len(), 2);
    assert_eq!(group.commands.len(), 2);
    assert_eq!(
        tool_group_reasoning_title(group).as_deref(),
        Some("Checking tests")
    );
    assert_eq!(
        completed_tool_group_summary(group).text,
        "已读取文件运行了命令"
    );
    assert!(matches!(units[1], ActivityStreamUnit::Standalone(_)));

    let separated = vec![
        activities[1].clone(),
        activities[4].clone(),
        activities[3].clone(),
    ];
    let separated_units = activity_stream_units(separated);
    assert_eq!(separated_units.len(), 3);
    assert!(matches!(
        separated_units[0],
        ActivityStreamUnit::ToolGroup(_)
    ));
    assert!(matches!(
        separated_units[2],
        ActivityStreamUnit::ToolGroup(_)
    ));
}

#[test]
fn image_view_stays_a_standalone_disclosure_between_tool_groups() {
    let activities = vec![
        ConversationActivity::Command(command(
            "read_1",
            CommandExecutionAction::Read {
                command: "sed -n '1,20p' screenshot.png".into(),
                name: "screenshot.png".into(),
                path: "screenshot.png".into(),
            },
            CommandExecutionStatus::Completed,
        )),
        ConversationActivity::ImageView(AgentImageView {
            id: "image_1".into(),
            path: "/tmp/screenshot.png".into(),
        }),
        ConversationActivity::Command(command(
            "test_1",
            CommandExecutionAction::Unknown {
                command: "cargo test".into(),
            },
            CommandExecutionStatus::Completed,
        )),
    ];

    let units = activity_stream_units(activities);
    assert_eq!(units.len(), 3);
    assert!(matches!(units[0], ActivityStreamUnit::ToolGroup(_)));
    assert!(matches!(
        &units[1],
        ActivityStreamUnit::Standalone(ConversationActivity::ImageView(image))
            if image.id == "image_1" && image.path == "/tmp/screenshot.png"
    ));
    assert!(matches!(units[2], ActivityStreamUnit::ToolGroup(_)));
}

#[test]
fn file_change_joins_the_tool_group_and_leads_its_completed_summary() {
    let activities = vec![
        ConversationActivity::Reasoning(reasoning("reasoning_1", "Applying changes", false)),
        ConversationActivity::Command(command(
            "read_1",
            CommandExecutionAction::Read {
                command: "sed -n '1,20p' src/main.rs".into(),
                name: "main.rs".into(),
                path: "src/main.rs".into(),
            },
            CommandExecutionStatus::Completed,
        )),
        ConversationActivity::FileChange(captured_file_change_activity_fixture("completed")),
        ConversationActivity::Command(command(
            "run_1",
            CommandExecutionAction::Unknown {
                command: "cargo test".into(),
            },
            CommandExecutionStatus::Completed,
        )),
    ];

    let units = activity_stream_units(activities);
    assert_eq!(units.len(), 1);
    let ActivityStreamUnit::ToolGroup(group) = &units[0] else {
        panic!("expected fileChange inside the tool activity group");
    };
    assert_eq!(group.file_changes.len(), 1);
    assert_eq!(
        completed_tool_group_summary(group).text,
        "编辑了文件读取文件运行了命令"
    );
    assert_eq!(completed_tool_group_summary(group).icon, "message-edit");
}

#[test]
fn active_reasoning_follows_the_latest_json_rpc_item_until_it_completes() {
    let later_items = || {
        vec![
            ConversationActivity::AssistantMessage {
                item_id: "message_1".into(),
                text: "先说明当前进度。".into(),
            },
            ConversationActivity::Command(command(
                "read_1",
                CommandExecutionAction::Read {
                    command: "sed -n '1,20p' src/main.rs".into(),
                    name: "main.rs".into(),
                    path: "src/main.rs".into(),
                },
                CommandExecutionStatus::Completed,
            )),
            ConversationActivity::AssistantMessage {
                item_id: "message_2".into(),
                text: "继续分析读取结果。".into(),
            },
        ]
    };

    let mut active_activities = vec![ConversationActivity::Reasoning(reasoning(
        "reasoning_1",
        "Inspecting the implementation",
        true,
    ))];
    active_activities.extend(later_items());
    let active_units = activity_stream_units(active_activities);

    assert_eq!(active_units.len(), 4);
    assert!(matches!(
        &active_units[0],
        ActivityStreamUnit::Standalone(ConversationActivity::AssistantMessage {
            item_id,
            ..
        }) if item_id == "message_1"
    ));
    assert!(matches!(active_units[1], ActivityStreamUnit::ToolGroup(_)));
    assert!(matches!(
        &active_units[2],
        ActivityStreamUnit::Standalone(ConversationActivity::AssistantMessage {
            item_id,
            ..
        }) if item_id == "message_2"
    ));
    assert!(matches!(
        &active_units[3],
        ActivityStreamUnit::Standalone(ConversationActivity::Reasoning(reasoning))
            if reasoning.item_id == "reasoning_1" && reasoning.is_active()
    ));

    let mut completed_activities = vec![ConversationActivity::Reasoning(reasoning(
        "reasoning_1",
        "Inspecting the implementation",
        false,
    ))];
    completed_activities.extend(later_items());
    let completed_units = activity_stream_units(completed_activities);
    assert_eq!(completed_units.len(), 3);
    assert!(matches!(
        &completed_units[0],
        ActivityStreamUnit::Standalone(ConversationActivity::AssistantMessage {
            item_id,
            ..
        }) if item_id == "message_1"
    ));
    assert!(!completed_units.iter().any(|unit| matches!(
        unit,
        ActivityStreamUnit::Standalone(ConversationActivity::Reasoning(_))
    )));
}

#[test]
fn completed_reasoning_without_a_following_command_is_not_rendered() {
    let activities = vec![
        ConversationActivity::Reasoning(reasoning("reasoning_1", "Only reasoning", false)),
        ConversationActivity::AssistantMessage {
            item_id: "message_1".into(),
            text: "结论。".into(),
        },
    ];
    let units = activity_stream_units(activities);
    assert_eq!(units.len(), 1);
    assert!(matches!(
        &units[0],
        ActivityStreamUnit::Standalone(ConversationActivity::AssistantMessage {
            item_id,
            ..
        }) if item_id == "message_1"
    ));

    let titled = ReasoningActivityPresentation {
        summary: vec!["**Header title**".into(), "Longer reasoning body".into()],
        ..reasoning("reasoning_title", "unused", false)
    };
    assert_eq!(
        reasoning_activity_title(&titled).as_deref(),
        Some("Header title")
    );
}

#[test]
fn command_rows_use_the_app_server_action_semantics() {
    let read = command(
        "read",
        CommandExecutionAction::Read {
            command: "sed -n '1,20p' src/main.rs".into(),
            name: "main.rs".into(),
            path: "src/main.rs".into(),
        },
        CommandExecutionStatus::Completed,
    );
    assert_eq!(command_activity_summary(&read).text, "已读取 main.rs");

    let search = command(
        "search",
        CommandExecutionAction::Search {
            command: "rg needle src".into(),
            path: Some("src".into()),
            query: Some("needle".into()),
        },
        CommandExecutionStatus::InProgress,
    );
    assert_eq!(
        command_activity_summary(&search).text,
        "正在 src 中搜索“needle”"
    );

    let shell = command(
        "shell",
        CommandExecutionAction::Unknown {
            command: "cargo check".into(),
        },
        CommandExecutionStatus::Completed,
    );
    assert_eq!(command_activity_summary(&shell).text, "已运行 cargo check");
}

#[test]
fn multiline_history_command_summary_collapses_to_one_activity_row() {
    let command = command(
        "multiline-command",
        CommandExecutionAction::Unknown {
            command: "python3 - <<'PY'\nfrom PIL import Image\nprint('done')\nPY".to_owned(),
        },
        CommandExecutionStatus::Completed,
    );

    let summary = generic_command_activity_summary(&command, &command.command);
    assert_eq!(
        summary.text,
        "已运行 python3 - <<'PY' from PIL import Image print('done') PY"
    );
    assert_eq!(summary.text.lines().count(), 1);
}

#[test]
fn one_command_execution_renders_every_structured_action_as_its_own_row() {
    let command = CommandExecution {
        id: "exec_many".into(),
        command: "compound command".into(),
        actions: vec![
            CommandExecutionAction::Read {
                command: "sed main.rs".into(),
                name: "main.rs".into(),
                path: "src/main.rs".into(),
            },
            CommandExecutionAction::Search {
                command: "rg needle src".into(),
                path: Some("src".into()),
                query: Some("needle".into()),
            },
            CommandExecutionAction::Unknown {
                command: "cargo check".into(),
            },
        ],
        cwd: "/tmp/project".into(),
        output: String::new(),
        terminal_process_id: None,
        status: CommandExecutionStatus::Completed,
        exit_code: Some(0),
    };

    let summaries = command_activity_summaries(&command);
    assert_eq!(command_activity_row_count(&command), 3);
    assert_eq!(
        summaries
            .into_iter()
            .map(|summary| summary.text)
            .collect::<Vec<_>>(),
        vec![
            "已读取 main.rs",
            "已在 src 中搜索“needle”",
            "已运行 cargo check",
        ]
    );
}

#[test]
fn starting_a_prompt_does_not_render_a_synthetic_status_message() {
    assert_eq!(conversation_status(ConversationPhase::Starting), None);
    assert_eq!(
        conversation_status(ConversationPhase::Thinking),
        Some("正在思考")
    );
}

#[test]
fn active_reasoning_hides_the_streamed_summary_title_like_chatgpt() {
    assert_eq!(active_reasoning_body("  普通正文"), "普通正文");
    assert_eq!(
        active_reasoning_body("**检查实现**\n\n正在阅读协议"),
        "正在阅读协议"
    );
    assert_eq!(active_reasoning_body("**尚未闭合"), "");
}

#[test]
fn completed_reasoning_renders_the_summary_title_without_markdown_delimiters() {
    assert_eq!(
        completed_reasoning_body("**检查实现**\n\n正在阅读协议"),
        (Some("检查实现".into()), "正在阅读协议".into())
    );
    assert_eq!(
        completed_reasoning_body("普通正文"),
        (None, "普通正文".into())
    );
    assert_eq!(
        completed_reasoning_body("**尚未闭合"),
        (None, "**尚未闭合".into())
    );
}

#[test]
fn command_card_omits_one_terminal_line_ending() {
    assert_eq!(strip_terminal_line_ending("one\n"), "one");
    assert_eq!(strip_terminal_line_ending("one\r\n"), "one");
    assert_eq!(strip_terminal_line_ending("one\n\n"), "one\n");
    assert_eq!(strip_terminal_line_ending("one"), "one");
}

#[test]
fn reasoning_headers_use_localized_elapsed_labels() {
    assert_eq!(format_reasoning_elapsed(1), "1s");
    assert_eq!(format_reasoning_elapsed(29_000), "29s");
    assert_eq!(format_reasoning_elapsed(82_000), "1m 22s");
    assert_eq!(format_reasoning_elapsed(3_520_000), "58m 40s");

    let active = ReasoningActivityPresentation {
        item_id: "reasoning_1".into(),
        summary: vec![],
        content: vec![],
        started_at_ms: 1_000,
        completed_at_ms: None,
    };
    assert_eq!(reasoning_header_label(&active), "正在思考");

    let complete = ReasoningActivityPresentation {
        completed_at_ms: Some(30_000),
        ..active.clone()
    };
    assert_eq!(reasoning_header_label(&complete), "思考了 29s");
    let missing_elapsed = ReasoningActivityPresentation {
        completed_at_ms: Some(1_000),
        ..active
    };
    assert_eq!(reasoning_header_label(&missing_elapsed), "完成思考");
}

#[test]
fn elapsed_labels_cover_hours_and_whole_minutes() {
    assert_eq!(format_reasoning_elapsed(0), "1s");
    assert_eq!(format_reasoning_elapsed(60_000), "1m");
    assert_eq!(format_reasoning_elapsed(3_600_000), "1h");
    assert_eq!(format_reasoning_elapsed(3_660_000), "1h 1m");
    assert_eq!(format_reasoning_elapsed(7_199_001), "2h");
    assert_eq!(format_reasoning_elapsed(59_001), "1m");
}

#[test]
fn list_and_search_rows_cover_every_status() {
    let list = |status, path: Option<&str>| {
        command_activity_summary(&command(
            "ls",
            CommandExecutionAction::ListFiles {
                command: "ls".into(),
                path: path.map(str::to_owned),
            },
            status,
        ))
        .text
    };
    assert_eq!(list(CommandExecutionStatus::Failed, Some("src")), "列出 src 中的文件失败");
    assert_eq!(list(CommandExecutionStatus::Failed, None), "列出文件失败");
    assert_eq!(list(CommandExecutionStatus::Completed, Some("src")), "已列出 src 中的文件");
    assert_eq!(list(CommandExecutionStatus::Completed, Some("  ")), "已列出文件");
    assert_eq!(list(CommandExecutionStatus::InProgress, Some("src")), "正在列出 src 中的文件");
    assert_eq!(list(CommandExecutionStatus::InProgress, None), "正在列出文件");

    let search = |status, path: Option<&str>, query: Option<&str>| {
        command_activity_summary(&command(
            "rg",
            CommandExecutionAction::Search {
                command: "rg".into(),
                path: path.map(str::to_owned),
                query: query.map(str::to_owned),
            },
            status,
        ))
    };
    assert_eq!(search(CommandExecutionStatus::Failed, Some("src"), Some("x")).text, "搜索“x”失败");
    assert_eq!(search(CommandExecutionStatus::Failed, None, None).text, "搜索文件失败");
    assert_eq!(search(CommandExecutionStatus::Completed, None, Some("x")).text, "已对“x”进行搜索");
    assert_eq!(search(CommandExecutionStatus::Completed, Some("src"), None).text, "已搜索文件");
    assert_eq!(search(CommandExecutionStatus::InProgress, None, Some("x")).text, "正在搜索“x”");
    assert_eq!(search(CommandExecutionStatus::InProgress, None, Some(" ")).text, "正在搜索文件");
    assert_eq!(search(CommandExecutionStatus::InProgress, None, None).icon, "search");

    let read = command_activity_summary(&command(
        "cat",
        CommandExecutionAction::Read {
            command: "cat a".into(),
            name: " ".into(),
            path: "docs/a.md".into(),
        },
        CommandExecutionStatus::Failed,
    ));
    assert_eq!(read.text, "读取失败 docs/a.md");
    assert_eq!(read.icon, "activity-read");
    assert!(read.reads_files && !read.runs_command);
}

#[test]
fn commands_without_actions_show_one_generic_row() {
    let bare = CommandExecution {
        id: "bare".into(),
        command: "  \n ".into(),
        actions: vec![],
        cwd: "/".into(),
        output: String::new(),
        terminal_process_id: None,
        status: CommandExecutionStatus::InProgress,
        exit_code: None,
    };
    assert_eq!(command_activity_row_count(&bare), 1);
    let rows = command_activity_summaries(&bare);
    assert_eq!(rows.len(), 1);
    assert_eq!(rows[0].text, "正在运行 命令");
    assert_eq!(rows[0].icon, "panel-terminal");
    let failed = CommandExecution { status: CommandExecutionStatus::Failed, command: "make  all".into(), ..bare };
    assert_eq!(command_activity_summary(&failed).text, "运行失败 make all");
}

#[test]
fn tool_group_summaries_report_the_kinds_of_work() {
    let group = |commands: Vec<CommandExecution>, edits: bool| ToolActivityGroupPresentation {
        id: "g".into(),
        reasoning: vec![],
        commands,
        file_changes: if edits {
            vec![captured_file_change_activity_fixture("completed")]
        } else {
            vec![]
        },
    };
    let read = command(
        "r",
        CommandExecutionAction::Read { command: "cat a".into(), name: "a".into(), path: "a".into() },
        CommandExecutionStatus::Completed,
    );
    let run = command(
        "u",
        CommandExecutionAction::Unknown { command: "make".into() },
        CommandExecutionStatus::InProgress,
    );
    assert_eq!(completed_tool_group_summary(&group(vec![], false)).text, "已工作");
    assert_eq!(completed_tool_group_summary(&group(vec![], true)).text, "编辑了文件");
    assert_eq!(completed_tool_group_summary(&group(vec![read.clone()], false)).text, "已读取文件");
    assert_eq!(completed_tool_group_summary(&group(vec![run.clone()], false)).text, "运行了命令");
    assert_eq!(completed_tool_group_summary(&group(vec![run.clone()], false)).icon, "panel-terminal");
    assert_eq!(
        completed_tool_group_summary(&group(vec![read.clone()], true)).text,
        "编辑了文件读取文件"
    );
    assert_eq!(
        completed_tool_group_summary(&group(vec![run.clone()], true)).text,
        "编辑了文件运行了命令"
    );
    let mixed = group(vec![read.clone(), run.clone()], true);
    assert_eq!(tool_group_row_count(&mixed), 3);
    assert!(mixed.is_active());
    assert!(!group(vec![read], false).is_active());
}

#[test]
fn reasoning_titles_strip_markers_and_fall_back_to_content() {
    let r = |summary: Vec<&str>, content: Vec<&str>| ReasoningActivityPresentation {
        item_id: "r".into(),
        summary: summary.into_iter().map(str::to_owned).collect(),
        content: content.into_iter().map(str::to_owned).collect(),
        started_at_ms: 0,
        completed_at_ms: Some(1),
    };
    assert_eq!(reasoning_activity_title(&r(vec!["  ", "## Plan\nmore"], vec![])).as_deref(), Some("Plan"));
    assert_eq!(reasoning_activity_title(&r(vec![], vec!["-* item\r\nrest"])).as_deref(), Some("item"));
    assert_eq!(reasoning_activity_title(&r(vec!["**Unclosed title"], vec![])).as_deref(), Some("Unclosed title"));
    assert_eq!(reasoning_activity_title(&r(vec!["###"], vec!["ignored"])), None);
    assert_eq!(reasoning_activity_title(&r(vec![" "], vec![])), None);

    let group = ToolActivityGroupPresentation {
        id: "g".into(),
        reasoning: vec![r(vec!["First"], vec![]), r(vec!["---"], vec![])],
        commands: vec![],
        file_changes: vec![],
    };
    assert_eq!(tool_group_reasoning_title(&group).as_deref(), Some("First"));
}

#[test]
fn live_reasoning_rows_trail_in_arrival_order() {
    let activities = vec![
        ConversationActivity::Reasoning(reasoning("a", "A", true)),
        ConversationActivity::Error { message: "oops".into() },
        ConversationActivity::Reasoning(reasoning("b", "B", true)),
        ConversationActivity::Reasoning(reasoning("c", "C", false)),
        ConversationActivity::Command(command(
            "cmd",
            CommandExecutionAction::Unknown { command: "ls".into() },
            CommandExecutionStatus::InProgress,
        )),
    ];
    let units = activity_stream_units(activities);
    assert_eq!(units.len(), 4);
    assert!(matches!(&units[0], ActivityStreamUnit::Standalone(ConversationActivity::Error { .. })));
    let ActivityStreamUnit::ToolGroup(group) = &units[1] else {
        panic!("expected a tool group");
    };
    assert_eq!(group.id, "b");
    assert_eq!(group.reasoning.len(), 1);
    assert!(group.is_active());
    assert!(matches!(&units[2], ActivityStreamUnit::Standalone(ConversationActivity::Reasoning(r)) if r.item_id == "a"));
    assert!(matches!(&units[3], ActivityStreamUnit::Standalone(ConversationActivity::Reasoning(r)) if r.item_id == "b"));
}

#[test]
fn tool_group_header_follows_the_running_work() {
    let unknown = || CommandExecutionAction::Unknown { command: "cargo build".into() };
    let finished = ToolActivityGroupPresentation {
        id: "g".into(),
        reasoning: vec![],
        commands: vec![command("c1", unknown(), CommandExecutionStatus::Completed)],
        file_changes: vec![],
    };
    assert_eq!(tool_group_header(&finished), completed_tool_group_summary(&finished));

    let running = ToolActivityGroupPresentation {
        id: "g".into(),
        reasoning: vec![],
        commands: vec![
            command("c1", unknown(), CommandExecutionStatus::InProgress),
            command("c2", unknown(), CommandExecutionStatus::Completed),
        ],
        file_changes: vec![],
    };
    let expected = command_activity_summaries(&running.commands[0]).pop().unwrap();
    assert_eq!(tool_group_header(&running), expected);
    let mut change = FileChangeActivityPresentation::edited("f", "/tmp/a.rs", 1, 0);
    change.status = FileChangeStatus::InProgress;
    let editing_group = ToolActivityGroupPresentation {
        id: "g".into(),
        reasoning: vec![],
        commands: vec![command("c1", unknown(), CommandExecutionStatus::Completed)],
        file_changes: vec![change],
    };
    assert!(editing_group.is_active());
    let editing = tool_group_header(&editing_group);
    assert_eq!((editing.icon, editing.text.as_str()), ("message-edit", "正在编辑文件"));

    let thinking = ToolActivityGroupPresentation {
        id: "g".into(),
        reasoning: vec![ReasoningActivityPresentation {
            item_id: "r".into(),
            summary: vec![],
            content: vec![],
            started_at_ms: 1,
            completed_at_ms: None,
        }],
        commands: vec![],
        file_changes: vec![],
    };
    let working = tool_group_header(&thinking);
    assert_eq!((working.icon, working.text.as_str(), working.runs_command), ("panel-terminal", "正在工作", true));
    assert_eq!(tool_group_accessible_label("正在工作", true), "正在工作，折叠工具调用");
    assert_eq!(tool_group_accessible_label("正在工作", false), "正在工作，展开工具调用");
}

#[test]
fn command_card_shows_status_command_and_output() {
    let mut c = command("c1", CommandExecutionAction::Unknown { command: "ls".into() }, CommandExecutionStatus::InProgress);
    let text = command_card_text(&c);
    assert_eq!((text.status_label, text.status_icon, text.failed), ("运行中", "check", false));
    assert_eq!((text.command.as_str(), text.output.as_str()), ("ls", "等待输出…"));
    c.status = CommandExecutionStatus::Failed;
    c.command = String::new();
    let text = command_card_text(&c);
    assert_eq!((text.status_label, text.status_icon, text.failed), ("失败", "settings-warning", true));
    assert_eq!((text.command.as_str(), text.output.as_str()), ("命令", "（无输出）"));
    c.status = CommandExecutionStatus::Completed;
    c.output = "a\nb\r\n".into();
    let text = command_card_text(&c);
    assert_eq!((text.status_label, text.output.as_str()), ("成功", "a\nb"));
    assert_eq!(command_accessible_label("ls", true), "ls，折叠详情");
    assert_eq!(command_accessible_label("ls", false), "ls，展开详情");
}

#[test]
fn the_thinking_line_shows_while_no_reasoning_streams() {
    let quiet = vec![ConversationActivity::Reasoning(reasoning("r", "t", false))];
    assert!(show_thinking_tail(ConversationPhase::Thinking, &quiet));
    assert!(!show_thinking_tail(ConversationPhase::Complete, &quiet));
    let live = vec![ConversationActivity::Reasoning(reasoning("r", "t", true))];
    assert!(!show_thinking_tail(ConversationPhase::Thinking, &live));
}

#[test]
fn notices_are_titled_by_kind() {
    let error = notice_text(&ConversationActivity::ProtocolError {
        message: "无法回复".into(),
        details: Some("pipe".into()),
        will_retry: false,
    })
    .unwrap();
    assert_eq!((error.title, error.retrying), ("Codex 错误", false));
    assert_eq!(error.accessible_label, "Codex 错误：无法回复；pipe");
    let retry = notice_text(&ConversationActivity::ProtocolError {
        message: "重连".into(),
        details: Some("  ".into()),
        will_retry: true,
    })
    .unwrap();
    assert!(retry.retrying);
    assert_eq!(retry.details, None);
    assert_eq!(retry.accessible_label, "Codex 错误，正在重试：重连");
    let warning = notice_text(&ConversationActivity::Warning { message: "慢".into() }).unwrap();
    assert_eq!(warning.accessible_label, "Codex 警告：慢");
    let config = notice_text(&ConversationActivity::ConfigWarning(ConfigWarningActivity {
        summary: "配置无效".into(),
        details: None,
        path: Some("/c.toml".into()),
        line: Some(3),
        column: Some(7),
    }))
    .unwrap();
    assert_eq!(config.file_label.as_deref(), Some("文件：/c.toml（第 3 行，第 7 列）"));
    assert_eq!(config.accessible_label, "Codex 配置警告：配置无效；文件：/c.toml（第 3 行，第 7 列）");
    let line_only = notice_text(&ConversationActivity::ConfigWarning(ConfigWarningActivity {
        summary: "s".into(),
        details: None,
        path: Some("/c.toml".into()),
        line: Some(3),
        column: None,
    }))
    .unwrap();
    assert_eq!(line_only.file_label.as_deref(), Some("文件：/c.toml（第 3 行）"));
    let failed = notice_text(&ConversationActivity::Error { message: "turn".into() }).unwrap();
    assert_eq!(failed.title, "Codex turn 失败");
    assert!(notice_text(&ConversationActivity::AssistantMessage { item_id: "m".into(), text: "x".into() }).is_none());
}

#[test]
fn a_run_lists_its_commands_before_its_file_changes() {
    let change = FileChangeActivityPresentation::edited("f", "/tmp/a.rs", 1, 0);
    let run = command("c", CommandExecutionAction::Unknown { command: "ls".into() }, CommandExecutionStatus::Completed);
    let activities = vec![
        ConversationActivity::FileChange(change.clone()),
        ConversationActivity::Command(run.clone()),
        ConversationActivity::Warning { message: "w".into() },
    ];
    let units = activity_stream_units(activities);
    assert_eq!(units.len(), 2);
    match &units[0] {
        ActivityStreamUnit::ToolGroup(group) => {
            assert_eq!(group.commands, vec![run]);
            assert_eq!(group.file_changes, vec![change]);
            assert_eq!(group.id, "f");
        },
        _ => panic!("expected a tool group"),
    }
    assert_eq!(
        units[1],
        ActivityStreamUnit::Standalone(ConversationActivity::Warning { message: "w".into() })
    );
}
