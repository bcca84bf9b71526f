use gpui_chat_clone::activity::{
    ActivityStreamUnit, AgentImageView, CommandExecution, CommandExecutionStatus,
    ConversationActivity, ToolActivityGroupPresentation,
};
use gpui_chat_clone::disclosure::{ActivityDisclosures, DisclosureSet};

#[test]
fn reasoning_disclosure_uses_one_toggle_path_for_pointer_and_keyboard_activation() {
    let mut home = ActivityDisclosures::new();

    assert!(home.toggle_reasoning_item("reasoning_1"));
    assert!(home.expanded_reasoning.contains("reasoning_1"));

    assert!(!home.toggle_reasoning_item("reasoning_1"));
    assert!(!home.expanded_reasoning.contains("reasoning_1"));
}

#[test]
fn tool_group_disclosure_uses_one_toggle_path_for_pointer_and_keyboard_activation() {
    let mut home = ActivityDisclosures::new();

    home.toggle_tool_activity_group("group_1", false);
    assert!(home.expanded_tool_groups.contains("group_1"));

    home.toggle_tool_activity_group("group_1", false);
    assert!(!home.expanded_tool_groups.contains("group_1"));

    home.toggle_tool_activity_group("group_1", true);
    assert!(home.collapsed_active_tool_groups.contains("group_1"));
}

#[test]
fn live_tool_groups_start_open_and_finished_ones_closed() {
    let mut home = ActivityDisclosures::new();
    assert!(home.tool_group_expanded("g", true));
    assert!(!home.tool_group_expanded("g", false));
    assert!(!home.toggle_tool_activity_group("g", true));
    assert!(!home.tool_group_expanded("g", true));
    assert!(home.toggle_tool_activity_group("g", true));
    assert!(home.tool_group_expanded("g", true));
    assert!(home.toggle_tool_activity_group("g", false));
    assert!(home.tool_group_expanded("g", false));
}

#[test]
fn command_cards_toggle_independently() {
    let mut home = ActivityDisclosures::new();
    assert!(home.toggle_command_activity("cmd_1"));
    assert!(home.toggle_command_activity("cmd_2"));
    assert!(!home.toggle_command_activity("cmd_1"));
    assert!(!home.expanded_commands.contains("cmd_1"));
    assert!(home.expanded_commands.contains("cmd_2"));
    assert!(!home.expanded_reasoning.contains("cmd_2"));
}

#[test]
fn disclosure_sets_hold_each_id_once() {
    let mut set = DisclosureSet::new();
    assert!(!set.contains("a"));
    assert!(set.toggle("a"));
    assert!(set.toggle("b"));
    assert!(!set.toggle("a"));
    assert!(!set.contains("a"));
    assert!(set.contains("b"));
    assert!(set.toggle("a"));
    assert!(set.contains("a"));
}

#[test]
fn disclosure_choices_for_departed_rows_are_forgotten() {
    let group = |id: &str, status: CommandExecutionStatus| {
        ActivityStreamUnit::ToolGroup(ToolActivityGroupPresentation {
            id: id.into(),
            reasoning: vec![],
            commands: vec![CommandExecution {
                id: format!("{id}-cmd"),
                command: "ls".into(),
                actions: vec![],
                cwd: "/".into(),
                output: String::new(),
                terminal_process_id: None,
                status,
                exit_code: None,
            }],
            file_changes: vec![],
        })
    };
    let mut home = ActivityDisclosures::new();
    for id in ["done", "gone", "image"] {
        home.toggle_tool_activity_group(id, false);
    }
    for id in ["live", "done", "image", "gone"] {
        home.toggle_tool_activity_group(id, true);
    }
    home.toggle_reasoning_item("r");
    let units = vec![
        group("done", CommandExecutionStatus::Completed),
        group("live", CommandExecutionStatus::InProgress),
        ActivityStreamUnit::Standalone(ConversationActivity::ImageView(AgentImageView {
            id: "image".into(),
            path: "/tmp/a.png".into(),
        })),
    ];
    home.prune_tool_group_disclosures(&units);
    assert!(home.expanded_tool_groups.contains("done"));
    assert!(home.expanded_tool_groups.contains("image"));
    assert!(!home.expanded_tool_groups.contains("gone"));
    assert!(home.collapsed_active_tool_groups.contains("live"));
    assert!(home.collapsed_active_tool_groups.contains("image"));
    assert!(!home.collapsed_active_tool_groups.contains("done"));
    assert!(!home.collapsed_active_tool_groups.contains("gone"));
    assert!(home.expanded_reasoning.contains("r"));
}

#[test]
fn retaining_keeps_only_listed_ids() {
    let mut set = DisclosureSet::new();
    for id in ["a", "b", "c"] {
        set.toggle(id);
    }
    set.retain_in(&vec!["c".to_owned(), "x".to_owned(), "a".to_owned()]);
    assert!(set.contains("a") && set.contains("c"));
    assert!(!set.contains("b") && !set.contains("x"));
    set.retain_in(&vec![]);
    assert!(!set.contains("a"));
}

#[test]
fn reasoning_and_image_views_open_as_the_stream_shows_them() {
    let mut d = ActivityDisclosures::new();
    assert!(d.reasoning_expanded("r", true));
    assert!(!d.reasoning_expanded("r", false));
    d.toggle_reasoning_item("r");
    assert!(d.reasoning_expanded("r", false));
    assert!(d.image_view_expanded("img", true));
    assert!(!d.image_view_expanded("img", false));
    d.toggle_tool_activity_group("img", true);
    assert!(!d.image_view_expanded("img", true));
}
