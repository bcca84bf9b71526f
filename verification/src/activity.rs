//! The conversation's activity timeline: which protocol items form one
//! collapsible tool group, and where live reasoning is shown.

use vstd::prelude::*;

use crate::approval::ApprovalCardViewModel;
use crate::file_change::{FileApprovalPresentation, FileChangeActivityPresentation, FileChangeStatus};
use crate::text::{
    append_decimal, chars_of, collapse_whitespace, concat2, concat3, decimal, find, find_in,
    is_blank, is_blank_str, is_ws, join, lemma_join_words_with_spaces, lemma_ws_tokens_are_words, lemma_find_from_found, opt_chars, opt_string, skip_ws,
    skip_ws_back, starts_with, strip_leading_char, string_from, sub_vec, to_owned_string, trim, trim_start,
    ws_tokens,
};

use crate::permissions::PermissionsApprovalPresentation;
use crate::user_input::UserInputRequestPresentation;

verus! {

/// Status of a command execution item.
#[derive(Clone, Copy, Debug, PartialEq, Eq, Structural)]
pub enum CommandExecutionStatus {
    InProgress,
    Completed,
    Failed,
}

/// What the app server understood a command to do.
#[derive(Clone, Debug, PartialEq, Eq)]
pub enum CommandExecutionAction {
    Read { command: String, name: String, path: String },
    ListFiles { command: String, path: Option<String> },
    Search { command: String, path: Option<String>, query: Option<String> },
    Unknown { command: String },
}

/// One command execution item of a turn.
#[derive(Clone, Debug, PartialEq, Eq)]
pub struct CommandExecution {
    pub id: String,
    pub command: String,
    pub actions: Vec<CommandExecutionAction>,
    pub cwd: String,
    pub output: String,
    pub terminal_process_id: Option<String>,
    pub status: CommandExecutionStatus,
    pub exit_code: Option<i32>,
}

/// A reasoning item: summary and raw content parts, and when it ran.
#[derive(Clone, Debug, PartialEq, Eq)]
pub struct ReasoningActivityPresentation {
    pub item_id: String,
    pub summary: Vec<String>,
    pub content: Vec<String>,
    pub started_at_ms: u64,
    pub completed_at_ms: Option<u64>,
}

impl ReasoningActivityPresentation {
    /// The item is still streaming: it has no completion time yet.
    pub fn is_active(&self) -> (b: bool)
        ensures
            b == (self.completed_at_ms is None),
    {
        self.completed_at_ms.is_none()
    }

    /// How long the reasoning took, when it finished after it started.
    pub fn elapsed_ms(&self) -> (e: Option<u64>)
        ensures
            e == (match self.completed_at_ms {
                Some(done) => if done > self.started_at_ms {
                    Some((done - self.started_at_ms) as u64)
                } else {
                    None
                },
                None => None,
            }),
    {
        match self.completed_at_ms {
            Some(done) => if done > self.started_at_ms {
                Some(done - self.started_at_ms)
            } else {
                None
            },
            None => None,
        }
    }
}

/// An image the agent looked at.
#[derive(Clone, Debug, PartialEq, Eq)]
pub struct AgentImageView {
    pub id: String,
    pub path: String,
}

/// A configuration warning, pointing into a config file when known.
#[derive(Clone, Debug, PartialEq, Eq)]
pub struct ConfigWarningActivity {
    pub summary: String,
    pub details: Option<String>,
    pub path: Option<String>,
    pub line: Option<u64>,
    pub column: Option<u64>,
}

/// One item of the conversation's activity list.
#[derive(Clone, Debug, PartialEq, Eq)]
pub enum ConversationActivity {
    Reasoning(ReasoningActivityPresentation),
    Command(CommandExecution),
    FileChange(FileChangeActivityPresentation),
    AssistantMessage { item_id: String, text: String },
    ImageView(AgentImageView),
    Error { message: String },
    Warning { message: String },
    ConfigWarning(ConfigWarningActivity),
    ProtocolError { message: String, details: Option<String>, will_retry: bool },
    Approval(ApprovalCardViewModel),
    FileApproval(FileApprovalPresentation),
    UserInput(UserInputRequestPresentation),
    PermissionsApproval(PermissionsApprovalPresentation),
}

/// Reasoning, commands and file changes shown under one disclosure.
#[derive(Clone, Debug, PartialEq, Eq)]
pub struct ToolActivityGroupPresentation {
    pub id: String,
    pub reasoning: Vec<ReasoningActivityPresentation>,
    pub commands: Vec<CommandExecution>,
    pub file_changes: Vec<FileChangeActivityPresentation>,
}

/// One row of the rendered activity stream.
#[derive(Clone, Debug, PartialEq, Eq)]
pub enum ActivityStreamUnit {
    Standalone(ConversationActivity),
    ToolGroup(ToolActivityGroupPresentation),
}

/// A tool group by its members.
pub struct ToolGroupView {
    pub id: String,
    pub reasoning: Seq<ReasoningActivityPresentation>,
    pub commands: Seq<CommandExecution>,
    pub file_changes: Seq<FileChangeActivityPresentation>,
}

/// A stream row by its contents.
pub enum UnitView {
    Standalone(ConversationActivity),
    ToolGroup(ToolGroupView),
}

impl View for ToolActivityGroupPresentation {
    type V = ToolGroupView;

    open spec fn view(&self) -> ToolGroupView {
        ToolGroupView {
            id: self.id,
            reasoning: self.reasoning@,
            commands: self.commands@,
            file_changes: self.file_changes@,
        }
    }
}

impl View for ActivityStreamUnit {
    type V = UnitView;

    open spec fn view(&self) -> UnitView {
        match self {
            ActivityStreamUnit::Standalone(a) => UnitView::Standalone(*a),
            ActivityStreamUnit::ToolGroup(g) => UnitView::ToolGroup(g@),
        }
    }
}

pub open spec fn units_view(units: Seq<ActivityStreamUnit>) -> Seq<UnitView> {
    units.map_values(|u: ActivityStreamUnit| u@)
}

/// The tool group still being collected while the stream is walked.
pub struct PendingView {
    pub id: Option<String>,
    pub reasoning: Seq<ReasoningActivityPresentation>,
    pub commands: Seq<CommandExecution>,
    pub file_changes: Seq<FileChangeActivityPresentation>,
}

pub open spec fn empty_pending() -> PendingView {
    PendingView { id: None, reasoning: seq![], commands: seq![], file_changes: seq![] }
}

/// A pending group with a command or a file change has an id.
pub open spec fn pending_wf(p: PendingView) -> bool {
    p.commands.len() > 0 || p.file_changes.len() > 0 ==> p.id is Some
}

/// Closing the pending group: it becomes a row only if it holds a command or
/// a file change; reasoning alone is dropped.
pub open spec fn flush_units(p: PendingView) -> Seq<UnitView> {
    if p.commands.len() == 0 && p.file_changes.len() == 0 {
        seq![]
    } else {
        seq![
            UnitView::ToolGroup(
                ToolGroupView {
                    id: p.id->0,
                    reasoning: p.reasoning,
                    commands: p.commands,
                    file_changes: p.file_changes,
                },
            ),
        ]
    }
}

/// Rows emitted so far, the pending group, and the live reasoning items.
pub struct StreamState {
    pub units: Seq<UnitView>,
    pub pending: PendingView,
    pub active: Seq<ReasoningActivityPresentation>,
}

pub open spec fn keep_or(id: Option<String>, fallback: String) -> Option<String> {
    if id is Some {
        id
    } else {
        Some(fallback)
    }
}

/// Walking one activity.
pub open spec fn stream_step(s: StreamState, a: ConversationActivity) -> StreamState {
    match a {
        ConversationActivity::Reasoning(r) => if r.completed_at_ms is None {
            StreamState {
                units: s.units + flush_units(s.pending),
                pending: PendingView { id: Some(r.item_id), ..empty_pending() },
                active: s.active.push(r),
            }
        } else {
            StreamState {
                pending: PendingView {
                    id: keep_or(s.pending.id, r.item_id),
                    reasoning: s.pending.reasoning.push(r),
                    ..s.pending
                },
                ..s
            }
        },
        ConversationActivity::Command(c) => StreamState {
            pending: PendingView {
                id: keep_or(s.pending.id, c.id),
                commands: s.pending.commands.push(c),
                ..s.pending
            },
            ..s
        },
        ConversationActivity::FileChange(f) => StreamState {
            pending: PendingView {
                id: keep_or(s.pending.id, f.item_id),
                file_changes: s.pending.file_changes.push(f),
                ..s.pending
            },
            ..s
        },
        _ => StreamState {
            units: s.units + flush_units(s.pending) + seq![UnitView::Standalone(a)],
            pending: empty_pending(),
            active: s.active,
        },
    }
}

/// The state after walking `acts` from the start.
pub open spec fn stream_run(acts: Seq<ConversationActivity>) -> StreamState
    decreases acts.len(),
{
    if acts.len() == 0 {
        StreamState { units: seq![], pending: empty_pending(), active: seq![] }
    } else {
        stream_step(stream_run(acts.drop_last()), acts.last())
    }
}

/// A live reasoning item as a standalone row.
pub open spec fn live_reasoning_row(r: ReasoningActivityPresentation) -> UnitView {
    UnitView::Standalone(ConversationActivity::Reasoning(r))
}

/// The rows of the activity stream: consecutive reasoning, commands and
/// file changes form one tool group (kept only if it holds a command or a
/// file change), any other activity stands alone and closes the group, and
/// each live reasoning item closes the group before it and is shown after
/// everything else.
pub open spec fn stream_units(acts: Seq<ConversationActivity>) -> Seq<UnitView> {
    let s = stream_run(acts);
    s.units + flush_units(s.pending) + s.active.map_values(
        |r: ReasoningActivityPresentation| live_reasoning_row(r),
    )
}

pub proof fn lemma_stream_run_wf(acts: Seq<ConversationActivity>)
    ensures
        pending_wf(stream_run(acts).pending),
    decreases acts.len(),
{
    if acts.len() > 0 {
        lemma_stream_run_wf(acts.drop_last());
    }
}

struct PendingToolActivityGroup {
    id: Option<String>,
    reasoning: Vec<ReasoningActivityPresentation>,
    commands: Vec<CommandExecution>,
    file_changes: Vec<FileChangeActivityPresentation>,
}

impl View for PendingToolActivityGroup {
    type V = PendingView;

    closed spec fn view(&self) -> PendingView {
        PendingView {
            id: self.id,
            reasoning: self.reasoning@,
            commands: self.commands@,
            file_changes: self.file_changes@,
        }
    }
}

impl PendingToolActivityGroup {
    fn new() -> (p: Self)
        ensures
            p@ == empty_pending(),
    {
        PendingToolActivityGroup {
            id: None,
            reasoning: Vec::new(),
            commands: Vec::new(),
            file_changes: Vec::new(),
        }
    }
}

fn flush_pending_tool_activity_group(
    pending: &mut PendingToolActivityGroup,
    units: &mut Vec<ActivityStreamUnit>,
)
    requires
        pending_wf(old(pending)@),
    ensures
        final(pending)@ == empty_pending(),
        units_view(final(units)@) == units_view(old(units)@) + flush_units(old(pending)@),
{
    let mut taken = PendingToolActivityGroup::new();
    std::mem::swap(&mut taken, pending);
    if taken.commands.len() == 0 && taken.file_changes.len() == 0 {
        proof {
            assert(units_view(units@) == units_view(units@) + flush_units(taken@));
        }
        return;
    }
    let PendingToolActivityGroup { id, reasoning, commands, file_changes } = taken;
    let id = match id {
        Some(id) => id,
        None => {
            proof {
                assert(false);
            }
            return;
        },
    };
    let group = ToolActivityGroupPresentation { id, reasoning, commands, file_changes };
    let ghost before = units@;
    units.push(ActivityStreamUnit::ToolGroup(group));
    proof {
        assert(units_view(units@) =~= units_view(before) + flush_units(taken@));
    }
}

/// Groups the conversation's activities into stream rows (see
/// `stream_units`).
pub fn activity_stream_units(activities: Vec<ConversationActivity>) -> (units: Vec<
    ActivityStreamUnit,
>)
    ensures
        units_view(units@) == stream_units(activities@),
{
    let ghost acts = activities@;
    let mut units: Vec<ActivityStreamUnit> = Vec::new();
    let mut pending = PendingToolActivityGroup::new();
    let mut active_reasoning: Vec<ReasoningActivityPresentation> = Vec::new();
    proof {
        assert(acts.take(0) =~= Seq::<ConversationActivity>::empty());
        assert(units_view(units@) =~= Seq::<UnitView>::empty());
    }
    for activity in it: activities.into_iter()
        invariant
            it.seq() == acts,
            it.index() <= acts.len(),
            units_view(units@) == stream_run(acts.take(it.index() as int)).units,
            pending@ == stream_run(acts.take(it.index() as int)).pending,
            active_reasoning@ == stream_run(acts.take(it.index() as int)).active,
    {
        let ghost i = it.index() as int;
        let ghost s = stream_run(acts.take(i));
        proof {
            assert(acts.take(i + 1).drop_last() =~= acts.take(i));
            assert(acts.take(i + 1).last() == acts[i]);
            lemma_stream_run_wf(acts.take(i));
        }
        let ghost a = activity;
        let ghost units_before = units@;
        match activity {
            ConversationActivity::Reasoning(reasoning) => {
                if reasoning.is_active() {
                    flush_pending_tool_activity_group(&mut pending, &mut units);
                    pending.id = Some(reasoning.item_id.clone());
                    active_reasoning.push(reasoning);
                } else {
                    if pending.id.is_none() {
                        pending.id = Some(reasoning.item_id.clone());
                    }
                    pending.reasoning.push(reasoning);
                }
            },
            ConversationActivity::Command(command) => {
                if pending.id.is_none() {
                    pending.id = Some(command.id.clone());
                }
                pending.commands.push(command);
            },
            ConversationActivity::FileChange(change) => {
                if pending.id.is_none() {
                    pending.id = Some(change.item_id.clone());
                }
                pending.file_changes.push(change);
            },
            standalone => {
                flush_pending_tool_activity_group(&mut pending, &mut units);
                let ghost flushed = units@;
                units.push(ActivityStreamUnit::Standalone(standalone));
                proof {
                    assert(units_view(units@) =~= units_view(flushed) + seq![
                        UnitView::Standalone(a),
                    ]);
                }
            },
        }
        proof {
            assert(pending@ == stream_step(s, a).pending);
        }
    }
    proof {
        assert(acts.take(acts.len() as int) =~= acts);
        lemma_stream_run_wf(acts);
    }
    flush_pending_tool_activity_group(&mut pending, &mut units);
    let ghost flushed = units@;
    let ghost live = active_reasoning@;
    for reasoning in it: active_reasoning.into_iter()
        invariant
            it.seq() == live,
            it.index() <= live.len(),
            units_view(units@) == units_view(flushed) + live.take(it.index() as int).map_values(
                |r: ReasoningActivityPresentation| live_reasoning_row(r),
            ),
    {
        let ghost before = units@;
        let ghost j = it.index() as int;
        units.push(ActivityStreamUnit::Standalone(ConversationActivity::Reasoning(reasoning)));
        proof {
            assert(live.take(j + 1).map_values(
                |r: ReasoningActivityPresentation| live_reasoning_row(r),
            ) =~= live.take(j).map_values(
                |r: ReasoningActivityPresentation| live_reasoning_row(r),
            ).push(live_reasoning_row(live[j])));
            assert(units_view(units@) =~= units_view(before).push(live_reasoning_row(live[j])));
        }
    }
    proof {
        assert(live.take(live.len() as int) =~= live);
    }
    units
}

/// The one-line label of an activity row, its icon, and what kind of work it
/// reports.
#[derive(Clone, Debug, PartialEq, Eq)]
pub struct CommandActivitySummary {
    pub icon: &'static str,
    pub text: String,
    pub reads_files: bool,
    pub runs_command: bool,
}

pub struct SummaryView {
    pub icon: Seq<char>,
    pub text: Seq<char>,
    pub reads_files: bool,
    pub runs_command: bool,
}

impl View for CommandActivitySummary {
    type V = SummaryView;

    open spec fn view(&self) -> SummaryView {
        SummaryView {
            icon: self.icon@,
            text: self.text@,
            reads_files: self.reads_files,
            runs_command: self.runs_command,
        }
    }
}

/// The characters of an optional string that holds more than whitespace.
pub open spec fn nonblank(o: Option<String>) -> Option<Seq<char>> {
    match o {
        Some(s) => if is_blank(s@) {
            None
        } else {
            Some(s@)
        },
        None => None,
    }
}

/// A command line shown on one row: its words separated by single spaces,
/// or a generic noun when it has none.
pub open spec fn one_line_command(display: Seq<char>) -> Seq<char> {
    let collapsed = join(ws_tokens(display), seq![' ']);
    if collapsed.len() == 0 {
        "命令"@
    } else {
        collapsed
    }
}

pub open spec fn run_text(status: CommandExecutionStatus, display: Seq<char>) -> Seq<char> {
    let d = one_line_command(display);
    match status {
        CommandExecutionStatus::InProgress => "正在运行 "@ + d,
        CommandExecutionStatus::Completed => "已运行 "@ + d,
        CommandExecutionStatus::Failed => "运行失败 "@ + d,
    }
}

pub open spec fn read_text(status: CommandExecutionStatus, target: Seq<char>) -> Seq<char> {
    match status {
        CommandExecutionStatus::Failed => "读取失败 "@ + target,
        CommandExecutionStatus::Completed => "已读取 "@ + target,
        CommandExecutionStatus::InProgress => "正在读取 "@ + target,
    }
}

pub open spec fn list_text(status: CommandExecutionStatus, path: Option<Seq<char>>) -> Seq<char> {
    match (status, path) {
        (CommandExecutionStatus::Failed, Some(p)) => "列出 "@ + p + " 中的文件失败"@,
        (CommandExecutionStatus::Failed, None) => "列出文件失败"@,
        (CommandExecutionStatus::Completed, Some(p)) => "已列出 "@ + p + " 中的文件"@,
        (CommandExecutionStatus::Completed, None) => "已列出文件"@,
        (CommandExecutionStatus::InProgress, Some(p)) => "正在列出 "@ + p + " 中的文件"@,
        (CommandExecutionStatus::InProgress, None) => "正在列出文件"@,
    }
}

pub open spec fn search_text(
    status: CommandExecutionStatus,
    path: Option<Seq<char>>,
    query: Option<Seq<char>>,
) -> Seq<char> {
    match (status, path, query) {
        (CommandExecutionStatus::Failed, _, Some(q)) => "搜索“"@ + q + "”失败"@,
        (CommandExecutionStatus::Failed, _, None) => "搜索文件失败"@,
        (CommandExecutionStatus::Completed, Some(p), Some(q)) => "已在 "@ + p + " 中搜索“"@ + q
            + "”"@,
        (CommandExecutionStatus::Completed, None, Some(q)) => "已对“"@ + q + "”进行搜索"@,
        (CommandExecutionStatus::Completed, _, None) => "已搜索文件"@,
        (CommandExecutionStatus::InProgress, Some(p), Some(q)) => "正在 "@ + p + " 中搜索“"@ + q
            + "”"@,
        (CommandExecutionStatus::InProgress, None, Some(q)) => "正在搜索“"@ + q + "”"@,
        (CommandExecutionStatus::InProgress, _, None) => "正在搜索文件"@,
    }
}

pub open spec fn run_summary(status: CommandExecutionStatus, display: Seq<char>) -> SummaryView {
    SummaryView {
        icon: "panel-terminal"@,
        text: run_text(status, display),
        reads_files: false,
        runs_command: true,
    }
}

/// A command row is one line: its command text, however many lines it
/// had, holds no line break.
pub proof fn lemma_command_row_is_one_line(status: CommandExecutionStatus, display: Seq<char>)
    ensures
        forall|i: int| 0 <= i < run_text(status, display).len() ==> #[trigger] run_text(
            status,
            display,
        )[i] != '\n',
{
    reveal_strlit("命令");
    reveal_strlit("正在运行 ");
    reveal_strlit("已运行 ");
    reveal_strlit("运行失败 ");
    lemma_ws_tokens_are_words(display);
    lemma_join_words_with_spaces(ws_tokens(display));
    let d = one_line_command(display);
    assert forall|i: int| 0 <= i < d.len() implies d[i] != '\n' by {
        if join(ws_tokens(display), seq![' ']).len() == 0 {
            assert(d == "命令"@);
        } else {
            assert(is_ws('\n'));
        }
    }
    let prefix = match status {
        CommandExecutionStatus::InProgress => "正在运行 "@,
        CommandExecutionStatus::Completed => "已运行 "@,
        CommandExecutionStatus::Failed => "运行失败 "@,
    };
    let t = run_text(status, display);
    assert(t == prefix + d);
    assert forall|i: int| 0 <= i < t.len() implies #[trigger] t[i] != '\n' by {
        if i < prefix.len() {
            assert(t[i] == prefix[i]);
        } else {
            assert(t[i] == d[i - prefix.len()]);
        }
    }
}

/// The row for one structured action of a command.
pub open spec fn action_summary(
    status: CommandExecutionStatus,
    action: CommandExecutionAction,
) -> SummaryView {
    match action {
        CommandExecutionAction::Read { name, path, .. } => SummaryView {
            icon: "activity-read"@,
            text: read_text(
                status,
                if is_blank(name@) {
                    path@
                } else {
                    name@
                },
            ),
            reads_files: true,
            runs_command: false,
        },
        CommandExecutionAction::ListFiles { path, .. } => SummaryView {
            icon: "activity-read"@,
            text: list_text(status, nonblank(path)),
            reads_files: true,
            runs_command: false,
        },
        CommandExecutionAction::Search { path, query, .. } => SummaryView {
            icon: "search"@,
            text: search_text(status, nonblank(path), nonblank(query)),
            reads_files: true,
            runs_command: false,
        },
        CommandExecutionAction::Unknown { command } => run_summary(status, command@),
    }
}

/// The rows of a command: one per structured action, or one generic row
/// for its command line when it has none.
pub open spec fn command_summaries(c: CommandExecution) -> Seq<SummaryView> {
    if c.actions@.len() == 0 {
        seq![run_summary(c.status, c.command@)]
    } else {
        c.actions@.map_values(|a: CommandExecutionAction| action_summary(c.status, a))
    }
}

/// The generic row of a command, for the command line `display_command`.
pub fn generic_command_activity_summary(
    command: &CommandExecution,
    display_command: &str,
) -> (s: CommandActivitySummary)
    ensures
        s@ == run_summary(command.status, display_command@),
{
    let collapsed = collapse_whitespace(display_command);
    let display: &str = if collapsed.as_str().is_empty() {
        "命令"
    } else {
        collapsed.as_str()
    };
    let text = match command.status {
        CommandExecutionStatus::InProgress => concat2("正在运行 ", display),
        CommandExecutionStatus::Completed => concat2("已运行 ", display),
        CommandExecutionStatus::Failed => concat2("运行失败 ", display),
    };
    CommandActivitySummary { icon: "panel-terminal", text, reads_files: false, runs_command: true }
}

fn nonblank_str(o: &Option<String>) -> (r: Option<&str>)
    ensures
        opt_chars(r) == nonblank(*o),
{
    match o {
        Some(s) => if is_blank_str(s.as_str()) {
            None
        } else {
            Some(s.as_str())
        },
        None => None,
    }
}

/// The row for one structured action of `command`.
pub fn command_action_summary(
    command: &CommandExecution,
    action: &CommandExecutionAction,
) -> (s: CommandActivitySummary)
    ensures
        s@ == action_summary(command.status, *action),
{
    let failed = command.status == CommandExecutionStatus::Failed;
    let completed = command.status == CommandExecutionStatus::Completed;
    match action {
        CommandExecutionAction::Read { name, path, .. } => {
            let target = if is_blank_str(name.as_str()) {
                path.as_str()
            } else {
                name.as_str()
            };
            let text = if failed {
                concat2("读取失败 ", target)
            } else if completed {
                concat2("已读取 ", target)
            } else {
                concat2("正在读取 ", target)
            };
            CommandActivitySummary {
                icon: "activity-read",
                text,
                reads_files: true,
                runs_command: false,
            }
        },
        CommandExecutionAction::ListFiles { path, .. } => {
            let target = nonblank_str(path);
            let text = match target {
                Some(p) => if failed {
                    concat3("列出 ", p, " 中的文件失败")
                } else if completed {
                    concat3("已列出 ", p, " 中的文件")
                } else {
                    concat3("正在列出 ", p, " 中的文件")
                },
                None => if failed {
                    to_owned_string("列出文件失败")
                } else if completed {
                    to_owned_string("已列出文件")
                } else {
                    to_owned_string("正在列出文件")
                },
            };
            CommandActivitySummary {
                icon: "activity-read",
                text,
                reads_files: true,
                runs_command: false,
            }
        },
        CommandExecutionAction::Search { path, query, .. } => {
            let path = nonblank_str(path);
            let query = nonblank_str(query);
            let text = match query {
                Some(q) => if failed {
                    concat3("搜索“", q, "”失败")
                } else {
                    match path {
                        Some(p) => {
                            let mut t = if completed {
                                concat3("已在 ", p, " 中搜索“")
                            } else {
                                concat3("正在 ", p, " 中搜索“")
                            };
                            t.append(q);
                            t.append("”");
                            t
                        },
                        None => if completed {
                            concat3("已对“", q, "”进行搜索")
                        } else {
                            concat3("正在搜索“", q, "”")
                        },
                    }
                },
                None => if failed {
                    to_owned_string("搜索文件失败")
                } else if completed {
                    to_owned_string("已搜索文件")
                } else {
                    to_owned_string("正在搜索文件")
                },
            };
            CommandActivitySummary { icon: "search", text, reads_files: true, runs_command: false }
        },
        CommandExecutionAction::Unknown { command: display } => generic_command_activity_summary(
            command,
            display.as_str(),
        ),
    }
}

pub open spec fn summaries_view(s: Seq<CommandActivitySummary>) -> Seq<SummaryView> {
    s.map_values(|x: CommandActivitySummary| x@)
}

/// The rows of one command execution.
pub fn command_activity_summaries(command: &CommandExecution) -> (rows: Vec<
    CommandActivitySummary,
>)
    ensures
        summaries_view(rows@) == command_summaries(*command),
{
    let mut rows: Vec<CommandActivitySummary> = Vec::new();
    if command.actions.len() == 0 {
        rows.push(generic_command_activity_summary(command, command.command.as_str()));
        proof {
            assert(summaries_view(rows@) =~= command_summaries(*command));
        }
        return rows;
    }
    let mut i: usize = 0;
    while i < command.actions.len()
        invariant
            i <= command.actions.len(),
            command.actions.len() > 0,
            summaries_view(rows@) =~= command.actions@.take(i as int).map_values(
                |a: CommandExecutionAction| action_summary(command.status, a),
            ),
        decreases command.actions.len() - i,
    {
        let row = command_action_summary(command, &command.actions[i]);
        let ghost before = rows@;
        rows.push(row);
        proof {
            assert(summaries_view(rows@) =~= summaries_view(before).push(row@));
            assert(command.actions@.take(i + 1) =~= command.actions@.take(i as int).push(
                command.actions@[i as int],
            ));
        }
        i += 1;
    }
    proof {
        assert(command.actions@.take(i as int) =~= command.actions@);
    }
    rows
}

/// The first row of a command (every command has one).
pub fn command_activity_summary(command: &CommandExecution) -> (s: CommandActivitySummary)
    ensures
        s@ == command_summaries(*command)[0],
{
    if command.actions.len() == 0 {
        generic_command_activity_summary(command, command.command.as_str())
    } else {
        command_action_summary(command, &command.actions[0])
    }
}

/// How many rows a command takes: one per action, at least one.
pub fn command_activity_row_count(command: &CommandExecution) -> (n: usize)
    ensures
        n == command_summaries(*command).len(),
        n == (if command.actions.len() == 0 {
            1
        } else {
            command.actions.len()
        }),
{
    if command.actions.len() == 0 {
        1
    } else {
        command.actions.len()
    }
}

/// The number of rows of the commands in `cmds`.
pub open spec fn command_rows(cmds: Seq<CommandExecution>) -> nat
    decreases cmds.len(),
{
    if cmds.len() == 0 {
        0
    } else {
        command_rows(cmds.drop_last()) + command_summaries(cmds.last()).len()
    }
}

/// How many rows an expanded tool group shows.
pub fn tool_group_row_count(group: &ToolActivityGroupPresentation) -> (n: usize)
    requires
        command_rows(group.commands@) + group.file_changes.len() <= usize::MAX,
    ensures
        n == command_rows(group.commands@) + group.file_changes.len(),
{
    let mut total: usize = 0;
    let mut i: usize = 0;
    while i < group.commands.len()
        invariant
            i <= group.commands.len(),
            total == command_rows(group.commands@.take(i as int)),
            command_rows(group.commands@) + group.file_changes.len() <= usize::MAX,
        decreases group.commands.len() - i,
    {
        proof {
            assert(group.commands@.take(i + 1).drop_last() =~= group.commands@.take(i as int));
            lemma_command_rows_prefix(group.commands@, i + 1);
        }
        total = total + command_activity_row_count(&group.commands[i]);
        i += 1;
    }
    proof {
        assert(group.commands@.take(i as int) =~= group.commands@);
    }
    total + group.file_changes.len()
}

proof fn lemma_command_rows_prefix(cmds: Seq<CommandExecution>, k: int)
    requires
        0 <= k <= cmds.len(),
    ensures
        command_rows(cmds.take(k)) <= command_rows(cmds),
    decreases cmds.len() - k,
{
    if k < cmds.len() {
        lemma_command_rows_prefix(cmds, k + 1);
        assert(cmds.take(k + 1).drop_last() =~= cmds.take(k));
    } else {
        assert(cmds.take(k) =~= cmds);
    }
}

/// Some row in `rows` reads files.
pub open spec fn any_reads(rows: Seq<SummaryView>) -> bool
    decreases rows.len(),
{
    rows.len() > 0 && (any_reads(rows.drop_last()) || rows.last().reads_files)
}

/// Some row in `rows` runs a command.
pub open spec fn any_runs(rows: Seq<SummaryView>) -> bool
    decreases rows.len(),
{
    rows.len() > 0 && (any_runs(rows.drop_last()) || rows.last().runs_command)
}

/// Some row of the commands in `cmds` reads files.
pub open spec fn group_reads(cmds: Seq<CommandExecution>) -> bool
    decreases cmds.len(),
{
    cmds.len() > 0 && (group_reads(cmds.drop_last()) || any_reads(command_summaries(cmds.last())))
}

/// Some row of the commands in `cmds` runs a command.
pub open spec fn group_runs(cmds: Seq<CommandExecution>) -> bool
    decreases cmds.len(),
{
    cmds.len() > 0 && (group_runs(cmds.drop_last()) || any_runs(command_summaries(cmds.last())))
}

pub open spec fn group_summary_text(edits: bool, reads: bool, runs: bool) -> Seq<char> {
    if edits {
        if reads {
            if runs {
                "编辑了文件读取文件运行了命令"@
            } else {
                "编辑了文件读取文件"@
            }
        } else if runs {
            "编辑了文件运行了命令"@
        } else {
            "编辑了文件"@
        }
    } else if reads {
        if runs {
            "已读取文件运行了命令"@
        } else {
            "已读取文件"@
        }
    } else if runs {
        "运行了命令"@
    } else {
        "已工作"@
    }
}

/// The header row of a finished tool group: what kinds of work it did.
pub open spec fn group_summary(g: ToolGroupView) -> SummaryView {
    let edits = g.file_changes.len() > 0;
    let reads = group_reads(g.commands);
    let runs = group_runs(g.commands);
    SummaryView {
        icon: if edits {
            "message-edit"@
        } else if reads {
            "activity-read"@
        } else {
            "panel-terminal"@
        },
        text: group_summary_text(edits, reads, runs),
        reads_files: reads,
        runs_command: runs,
    }
}

/// The header row of a finished tool group.
pub fn completed_tool_group_summary(group: &ToolActivityGroupPresentation) -> (s:
    CommandActivitySummary)
    ensures
        s@ == group_summary(group@),
{
    let mut reads_files = false;
    let mut runs_command = false;
    let mut i: usize = 0;
    while i < group.commands.len()
        invariant
            i <= group.commands.len(),
            reads_files == group_reads(group.commands@.take(i as int)),
            runs_command == group_runs(group.commands@.take(i as int)),
        decreases group.commands.len() - i,
    {
        let rows = command_activity_summaries(&group.commands[i]);
        let ghost rv = summaries_view(rows@);
        let mut row_reads = false;
        let mut row_runs = false;
        let mut j: usize = 0;
        while j < rows.len()
            invariant
                j <= rows.len(),
                rv == summaries_view(rows@),
                row_reads == any_reads(rv.take(j as int)),
                row_runs == any_runs(rv.take(j as int)),
            decreases rows.len() - j,
        {
            proof {
                assert(rv.take(j + 1).drop_last() =~= rv.take(j as int));
                assert(rv.take(j + 1).last() == rows@[j as int]@);
            }
            row_reads = row_reads || rows[j].reads_files;
            row_runs = row_runs || rows[j].runs_command;
            j += 1;
        }
        proof {
            assert(rv.take(j as int) =~= rv);
            assert(group.commands@.take(i + 1).drop_last() =~= group.commands@.take(i as int));
            assert(group.commands@.take(i + 1).last() == group.commands@[i as int]);
        }
        reads_files = reads_files || row_reads;
        runs_command = runs_command || row_runs;
        i += 1;
    }
    proof {
        assert(group.commands@.take(i as int) =~= group.commands@);
    }
    let edits_files = group.file_changes.len() > 0;
    let text = if edits_files {
        if reads_files {
            if runs_command {
                "编辑了文件读取文件运行了命令"
            } else {
                "编辑了文件读取文件"
            }
        } else if runs_command {
            "编辑了文件运行了命令"
        } else {
            "编辑了文件"
        }
    } else if reads_files {
        if runs_command {
            "已读取文件运行了命令"
        } else {
            "已读取文件"
        }
    } else if runs_command {
        "运行了命令"
    } else {
        "已工作"
    };
    CommandActivitySummary {
        icon: if edits_files {
            "message-edit"
        } else if reads_files {
            "activity-read"
        } else {
            "panel-terminal"
        },
        text: to_owned_string(text),
        reads_files,
        runs_command,
    }
}

/// A tool group is live while one of its reasoning items or commands is
/// still running.
pub open spec fn group_is_active(g: ToolGroupView) -> bool {
    ||| exists|i: int| 0 <= i < g.reasoning.len() && (#[trigger] g.reasoning[i]).completed_at_ms is None
    ||| exists|i: int|
        0 <= i < g.commands.len() && (#[trigger] g.commands[i]).status
            == CommandExecutionStatus::InProgress
    ||| group_edits_files(g)
}

/// Whether a file change of the group is still in progress.
pub open spec fn group_edits_files(g: ToolGroupView) -> bool {
    exists|i: int|
        0 <= i < g.file_changes.len() && (#[trigger] g.file_changes[i]).status
            == FileChangeStatus::InProgress
}

impl ToolActivityGroupPresentation {
    /// Whether a file change of the group is still in progress.
    pub fn edits_files(&self) -> (b: bool)
        ensures
            b == group_edits_files(self@),
    {
        let mut i: usize = 0;
        while i < self.file_changes.len()
            invariant
                i <= self.file_changes.len(),
                forall|k: int|
                    0 <= k < i ==> (#[trigger] self.file_changes@[k]).status
                        != FileChangeStatus::InProgress,
            decreases self.file_changes.len() - i,
        {
            if matches!(self.file_changes[i].status, FileChangeStatus::InProgress) {
                return true;
            }
            i += 1;
        }
        false
    }
}

impl ToolActivityGroupPresentation {
    /// Whether the group is still running (see `group_is_active`).
    pub fn is_active(&self) -> (b: bool)
        ensures
            b == group_is_active(self@),
    {
        let mut i: usize = 0;
        while i < self.reasoning.len()
            invariant
                i <= self.reasoning.len(),
                forall|k: int| 0 <= k < i ==> (#[trigger] self.reasoning@[k]).completed_at_ms is Some,
            decreases self.reasoning.len() - i,
        {
            if self.reasoning[i].is_active() {
                return true;
            }
            i += 1;
        }
        let mut j: usize = 0;
        while j < self.commands.len()
            invariant
                j <= self.commands.len(),
                forall|k: int| 0 <= k < self.reasoning.len() ==> (#[trigger] self.reasoning@[k]).completed_at_ms is Some,
                forall|k: int| 0 <= k < j ==> (#[trigger] self.commands@[k]).status
                    != CommandExecutionStatus::InProgress,
            decreases self.commands.len() - j,
        {
            if self.commands[j].status == CommandExecutionStatus::InProgress {
                return true;
            }
            j += 1;
        }
        self.edits_files()
    }
}

/// Command output without one final line ending (`\r\n` or `\n`).
pub open spec fn strip_line_ending(s: Seq<char>) -> Seq<char> {
    if s.len() >= 2 && s[s.len() - 2] == '\r' && s[s.len() - 1] == '\n' {
        s.subrange(0, s.len() - 2)
    } else if s.len() >= 1 && s[s.len() - 1] == '\n' {
        s.subrange(0, s.len() - 1)
    } else {
        s
    }
}

/// Drops one terminal line ending from command output.
pub fn strip_terminal_line_ending(output: &str) -> (r: &str)
    ensures
        r@ == strip_line_ending(output@),
{
    let v = chars_of(output);
    let n = v.len();
    if n >= 2 && v[n - 2] == '\r' && v[n - 1] == '\n' {
        output.substring_char(0, n - 2)
    } else if n >= 1 && v[n - 1] == '\n' {
        output.substring_char(0, n - 1)
    } else {
        proof {
            assert(output@.subrange(0, n as int) =~= output@);
        }
        output.substring_char(0, n)
    }
}

/// The whole seconds a reasoning item took, rounded up, at least one.
pub open spec fn elapsed_seconds(elapsed_ms: u64) -> nat {
    let s = (elapsed_ms + 999) / 1000;
    if s == 0 {
        1
    } else {
        s as nat
    }
}

/// A duration as the reasoning header shows it: hours and minutes, minutes
/// and seconds, or seconds, leaving out a zero second part.
pub open spec fn elapsed_text(elapsed_ms: u64) -> Seq<char> {
    let total = elapsed_seconds(elapsed_ms);
    let hours = total / 3600;
    let minutes = total % 3600 / 60;
    let seconds = total % 60;
    if hours > 0 {
        if minutes > 0 {
            decimal(hours) + "h "@ + decimal(minutes) + "m"@
        } else {
            decimal(hours) + "h"@
        }
    } else if minutes > 0 {
        if seconds > 0 {
            decimal(minutes) + "m "@ + decimal(seconds) + "s"@
        } else {
            decimal(minutes) + "m"@
        }
    } else {
        decimal(seconds) + "s"@
    }
}

/// Formats how long reasoning took.
pub fn format_reasoning_elapsed(elapsed_ms: u64) -> (t: String)
    ensures
        t@ == elapsed_text(elapsed_ms),
{
    let rounded = elapsed_ms / 1000 + if elapsed_ms % 1000 != 0 {
        1u64
    } else {
        0u64
    };
    let total_seconds = if rounded == 0 {
        1
    } else {
        rounded
    };
    proof {
        assert(rounded == (elapsed_ms + 999) / 1000) by (nonlinear_arith)
            requires
                rounded == elapsed_ms / 1000 + if elapsed_ms % 1000 != 0 {
                    1int
                } else {
                    0int
                },
        ;
    }
    let hours = total_seconds / 3_600;
    let minutes = total_seconds % 3_600 / 60;
    let seconds = total_seconds % 60;
    let mut out = String::new();
    if hours > 0 {
        append_decimal(&mut out, hours);
        if minutes > 0 {
            out.append("h ");
            append_decimal(&mut out, minutes);
            out.append("m");
        } else {
            out.append("h");
        }
    } else if minutes > 0 {
        append_decimal(&mut out, minutes);
        if seconds > 0 {
            out.append("m ");
            append_decimal(&mut out, seconds);
            out.append("s");
        } else {
            out.append("m");
        }
    } else {
        append_decimal(&mut out, seconds);
        out.append("s");
    }
    out
}

/// The reasoning header: thinking, how long it took, or plain done.
pub open spec fn header_label(r: ReasoningActivityPresentation) -> Seq<char> {
    if r.completed_at_ms is None {
        "正在思考"@
    } else {
        match r.completed_at_ms {
            Some(done) => if done > r.started_at_ms {
                "思考了 "@ + elapsed_text((done - r.started_at_ms) as u64)
            } else {
                "完成思考"@
            },
            None => "完成思考"@,
        }
    }
}

/// The label of a reasoning item's header.
pub fn reasoning_header_label(reasoning: &ReasoningActivityPresentation) -> (l: String)
    ensures
        l@ == header_label(*reasoning),
{
    if reasoning.is_active() {
        to_owned_string("正在思考")
    } else {
        match reasoning.elapsed_ms() {
            Some(elapsed_ms) => concat2("思考了 ", format_reasoning_elapsed(elapsed_ms).as_str()),
            None => to_owned_string("完成思考"),
        }
    }
}

/// The two characters that open and close a bold heading.
pub open spec fn double_star() -> Seq<char> {
    seq!['*', '*']
}

/// `s` up to its first line feed.
pub open spec fn first_line(s: Seq<char>) -> Seq<char> {
    match find(s, seq!['\n']) {
        Some(k) => s.subrange(0, k),
        None => s,
    }
}

/// The body of a streaming reasoning item: its text without leading
/// whitespace, with a bold heading on the first line cut off; while the
/// heading is still open, nothing.
pub open spec fn active_body(text: Seq<char>) -> Seq<char> {
    let t = trim_start(text);
    if !starts_with(t, double_star()) {
        t
    } else {
        let after = t.subrange(2, t.len() as int);
        match find(first_line(after), double_star()) {
            Some(c) => trim_start(after.subrange(c + 2, after.len() as int)),
            None => seq![],
        }
    }
}

/// A finished reasoning item's text split into its bold heading (when the
/// first line closes one and it is not blank) and the body after it.
pub open spec fn completed_body(text: Seq<char>) -> (Option<Seq<char>>, Seq<char>) {
    let t = trim_start(text);
    if !starts_with(t, double_star()) {
        (None, t)
    } else {
        let after = t.subrange(2, t.len() as int);
        match find(first_line(after), double_star()) {
            Some(c) => {
                let title = trim(after.subrange(0, c));
                (
                    if title.len() == 0 {
                        None
                    } else {
                        Some(title)
                    },
                    trim_start(after.subrange(c + 2, after.len() as int)),
                )
            },
            None => (None, t),
        }
    }
}

pub open spec fn opt_index(o: Option<usize>) -> Option<int> {
    match o {
        Some(k) => Some(k as int),
        None => None,
    }
}

/// For text that opens a bold heading: the characters after the opening
/// `**`, and where the heading closes on their first line.
fn bold_heading(t: &Vec<char>) -> (r: Option<(Vec<char>, Option<usize>)>)
    ensures
        !starts_with(t@, double_star()) ==> r is None,
        starts_with(t@, double_star()) ==> (r matches Some((after, c)) && after@ == t@.subrange(
            2,
            t@.len() as int,
        ) && opt_index(c) == find(first_line(after@), double_star()) && (c matches Some(k)
            ==> k + 2 <= after@.len())),
{
    if !(t.len() >= 2 && t[0] == '*' && t[1] == '*') {
        proof {
            if starts_with(t@, double_star()) {
                assert(t@[0] == t@.subrange(0, 2)[0]);
                assert(t@[1] == t@.subrange(0, 2)[1]);
            }
        }
        return None;
    }
    proof {
        assert(t@.subrange(0, 2) =~= double_star());
    }
    let after = sub_vec(t, 2, t.len());
    let nl = vec!['\n'];
    let ds = vec!['*', '*'];
    proof {
        assert(nl@ =~= seq!['\n']);
        assert(ds@ =~= double_star());
        assert(after@.subrange(0, after@.len() as int) =~= after@);
    }
    let line_end = match find_in(&after, after.len(), 0, &nl) {
        Some(k) => {
            proof {
                lemma_find_from_found(after@, seq!['\n'], 0);
            }
            k
        },
        None => after.len(),
    };
    proof {
        assert(first_line(after@) =~= after@.subrange(0, line_end as int));
    }
    let c = find_in(&after, line_end, 0, &ds);
    proof {
        if c is Some {
            lemma_find_from_found(first_line(after@), double_star(), 0);
        }
    }
    Some((after, c))
}

/// The body shown under a streaming reasoning item's header.
pub fn active_reasoning_body(text: &str) -> (b: String)
    ensures
        b@ == active_body(text@),
{
    let v = chars_of(text);
    let lo = skip_ws(&v, 0, v.len());
    proof {
        assert(v@.subrange(0, v@.len() as int) =~= v@);
    }
    let t = sub_vec(&v, lo, v.len());
    match bold_heading(&t) {
        None => string_from(&t, 0, t.len()),
        Some((after, c)) => match c {
            None => String::new(),
            Some(c) => {
                let k = skip_ws(&after, c + 2, after.len());
                proof {
                    assert(trim_start(after@.subrange(c + 2, after@.len() as int)) =~= after@.subrange(
                        k as int,
                        after@.len() as int,
                    ));
                }
                string_from(&after, k, after.len())
            },
        },
    }
}

/// A finished reasoning item's heading and body.
pub fn completed_reasoning_body(text: &str) -> (r: (Option<String>, String))
    ensures
        (opt_string(r.0), r.1@) == completed_body(text@),
{
    let v = chars_of(text);
    let lo = skip_ws(&v, 0, v.len());
    proof {
        assert(v@.subrange(0, v@.len() as int) =~= v@);
    }
    let t = sub_vec(&v, lo, v.len());
    match bold_heading(&t) {
        None => (None, string_from(&t, 0, t.len())),
        Some((after, c)) => match c {
            None => (None, string_from(&t, 0, t.len())),
            Some(c) => {
                let a = skip_ws(&after, 0, c);
                let b = skip_ws_back(&after, a, c);
                let k = skip_ws(&after, c + 2, after.len());
                proof {
                    let x = after@.subrange(0, c as int);
                    assert(trim_start(x) =~= after@.subrange(a as int, c as int));
                    assert(trim(x) =~= after@.subrange(a as int, b as int));
                    assert(trim_start(after@.subrange(c + 2, after@.len() as int)) =~= after@.subrange(
                        k as int,
                        after@.len() as int,
                    ));
                }
                let title = if a == b {
                    None
                } else {
                    Some(string_from(&after, a, b))
                };
                (title, string_from(&after, k, after.len()))
            },
        },
    }
}

/// The first part that holds more than whitespace.
pub open spec fn first_nonblank(parts: Seq<String>) -> Option<Seq<char>>
    decreases parts.len(),
{
    if parts.len() == 0 {
        None
    } else if !is_blank(parts[0]@) {
        Some(parts[0]@)
    } else {
        first_nonblank(parts.drop_first())
    }
}

/// `s` without one trailing carriage return.
pub open spec fn strip_cr(s: Seq<char>) -> Seq<char> {
    if s.len() > 0 && s.last() == '\r' {
        s.drop_last()
    } else {
        s
    }
}

/// The first line of `s` as `str::lines` yields it.
pub open spec fn first_text_line(s: Seq<char>) -> Seq<char> {
    match find(s, seq!['\n']) {
        Some(k) => strip_cr(s.subrange(0, k)),
        None => s,
    }
}

/// The heading of a reasoning part: the text of a leading bold span (up to
/// its closing `**`, or all of it when unclosed), else the first line.
pub open spec fn heading_candidate(c: Seq<char>) -> Seq<char> {
    if starts_with(c, double_star()) {
        let after = c.subrange(2, c.len() as int);
        match find(after, double_star()) {
            Some(k) => after.subrange(0, k),
            None => after,
        }
    } else {
        first_text_line(c)
    }
}

pub open spec fn is_bullet(ch: char) -> bool {
    ch == '-' || ch == '*'
}

/// `s` without its leading `-` and `*` characters.
pub open spec fn strip_bullets(s: Seq<char>) -> Seq<char>
    decreases s.len(),
{
    if s.len() > 0 && is_bullet(s[0]) {
        strip_bullets(s.drop_first())
    } else {
        s
    }
}

/// A heading without markdown heading or list markers.
pub open spec fn clean_heading(c: Seq<char>) -> Seq<char> {
    trim(strip_bullets(strip_leading_char(trim(c), '#')))
}

/// The title of a reasoning item: the cleaned heading of its first
/// non-blank summary part (or, without one, content part), unless empty.
pub open spec fn title_of(r: ReasoningActivityPresentation) -> Option<Seq<char>> {
    let part = match first_nonblank(r.summary@) {
        Some(p) => Some(p),
        None => first_nonblank(r.content@),
    };
    match part {
        Some(p) => {
            let t = clean_heading(heading_candidate(trim(p)));
            if t.len() == 0 {
                None
            } else {
                Some(t)
            }
        },
        None => None,
    }
}

/// The title of the last reasoning item in `rs` that has one.
pub open spec fn last_title(rs: Seq<ReasoningActivityPresentation>) -> Option<Seq<char>>
    decreases rs.len(),
{
    if rs.len() == 0 {
        None
    } else {
        match title_of(rs.last()) {
            Some(t) => Some(t),
            None => last_title(rs.drop_last()),
        }
    }
}

fn first_nonblank_index(parts: &Vec<String>) -> (r: Option<usize>)
    ensures
        r matches Some(i) ==> i < parts.len() && first_nonblank(parts@) == Some(parts@[i as int]@),
        r is None ==> first_nonblank(parts@) is None,
{
    let mut i: usize = 0;
    proof {
        assert(parts@.subrange(0, parts@.len() as int) =~= parts@);
    }
    while i < parts.len()
        invariant
            i <= parts.len(),
            first_nonblank(parts@) == first_nonblank(parts@.subrange(i as int, parts@.len() as int)),
        decreases parts.len() - i,
    {
        let ghost rest = parts@.subrange(i as int, parts@.len() as int);
        proof {
            assert(rest[0] == parts@[i as int]);
            assert(rest.drop_first() =~= parts@.subrange(i + 1, parts@.len() as int));
        }
        if !is_blank_str(parts[i].as_str()) {
            return Some(i);
        }
        i += 1;
    }
    None
}

/// Index of the first character of `v[lo..]` that is not `c`.
fn skip_char(v: &Vec<char>, lo: usize, c: char) -> (k: usize)
    requires
        lo <= v.len(),
    ensures
        lo <= k <= v.len(),
        strip_leading_char(v@.subrange(lo as int, v@.len() as int), c) == v@.subrange(
            k as int,
            v@.len() as int,
        ),
{
    let mut k = lo;
    while k < v.len() && v[k] == c
        invariant
            lo <= k <= v.len(),
            strip_leading_char(v@.subrange(lo as int, v@.len() as int), c) == strip_leading_char(
                v@.subrange(k as int, v@.len() as int),
                c,
            ),
        decreases v.len() - k,
    {
        proof {
            assert(v@.subrange(k as int, v@.len() as int).drop_first() =~= v@.subrange(
                k + 1,
                v@.len() as int,
            ));
        }
        k += 1;
    }
    k
}

/// Index of the first character of `v[lo..]` that is neither `-` nor `*`.
fn skip_bullets(v: &Vec<char>, lo: usize) -> (k: usize)
    requires
        lo <= v.len(),
    ensures
        lo <= k <= v.len(),
        strip_bullets(v@.subrange(lo as int, v@.len() as int)) == v@.subrange(
            k as int,
            v@.len() as int,
        ),
{
    let mut k = lo;
    while k < v.len() && (v[k] == '-' || v[k] == '*')
        invariant
            lo <= k <= v.len(),
            strip_bullets(v@.subrange(lo as int, v@.len() as int)) == strip_bullets(
                v@.subrange(k as int, v@.len() as int),
            ),
        decreases v.len() - k,
    {
        proof {
            assert(v@.subrange(k as int, v@.len() as int).drop_first() =~= v@.subrange(
                k + 1,
                v@.len() as int,
            ));
        }
        k += 1;
    }
    k
}

/// `v` without its leading and trailing whitespace.
fn trim_vec(v: &Vec<char>) -> (r: Vec<char>)
    ensures
        r@ == trim(v@),
{
    let lo = skip_ws(v, 0, v.len());
    let hi = skip_ws_back(v, lo, v.len());
    proof {
        assert(v@.subrange(0, v@.len() as int) =~= v@);
        assert(trim_start(v@) =~= v@.subrange(lo as int, v@.len() as int));
        assert(trim(v@) =~= v@.subrange(lo as int, hi as int));
    }
    sub_vec(v, lo, hi)
}

fn heading_candidate_of(c: &Vec<char>) -> (r: Vec<char>)
    ensures
        r@ == heading_candidate(c@),
{
    let ds = vec!['*', '*'];
    let nl = vec!['\n'];
    proof {
        assert(ds@ =~= double_star());
        assert(nl@ =~= seq!['\n']);
    }
    if c.len() >= 2 && c[0] == '*' && c[1] == '*' {
        proof {
            assert(c@.subrange(0, 2) =~= double_star());
        }
        let after = sub_vec(c, 2, c.len());
        proof {
            assert(after@.subrange(0, after@.len() as int) =~= after@);
        }
        match find_in(&after, after.len(), 0, &ds) {
            Some(k) => {
                proof {
                    lemma_find_from_found(after@, double_star(), 0);
                }
                sub_vec(&after, 0, k)
            },
            None => after,
        }
    } else {
        proof {
            if starts_with(c@, double_star()) {
                assert(c@[0] == c@.subrange(0, 2)[0]);
                assert(c@[1] == c@.subrange(0, 2)[1]);
            }
            assert(c@.subrange(0, c@.len() as int) =~= c@);
        }
        match find_in(c, c.len(), 0, &nl) {
            Some(k) => {
                proof {
                    lemma_find_from_found(c@, seq!['\n'], 0);
                }
                if k > 0 && c[k - 1] == '\r' {
                    proof {
                        assert(c@.subrange(0, k as int).drop_last() =~= c@.subrange(0, k - 1));
                    }
                    sub_vec(c, 0, k - 1)
                } else {
                    sub_vec(c, 0, k)
                }
            },
            None => sub_vec(c, 0, c.len()),
        }
    }
}

/// The title of a reasoning item (see `title_of`).
pub fn reasoning_activity_title(reasoning: &ReasoningActivityPresentation) -> (t: Option<String>)
    ensures
        opt_string(t) == title_of(*reasoning),
{
    let part: &String = match first_nonblank_index(&reasoning.summary) {
        Some(i) => &reasoning.summary[i],
        None => match first_nonblank_index(&reasoning.content) {
            Some(i) => &reasoning.content[i],
            None => {
                return None;
            },
        },
    };
    let whole = chars_of(part.as_str());
    let trimmed = trim_vec(&whole);
    let candidate = heading_candidate_of(&trimmed);
    let inner = trim_vec(&candidate);
    let k = skip_char(&inner, 0, '#');
    let j = skip_bullets(&inner, k);
    proof {
        assert(inner@.subrange(0, inner@.len() as int) =~= inner@);
        assert(inner@.subrange(k as int, inner@.len() as int).subrange(
            (j - k) as int,
            inner@.len() - k,
        ) =~= inner@.subrange(j as int, inner@.len() as int));
    }
    let rest = sub_vec(&inner, j, inner.len());
    let cleaned = trim_vec(&rest);
    if cleaned.len() == 0 {
        None
    } else {
        Some(string_from(&cleaned, 0, cleaned.len()))
    }
}

/// The title a tool group shows for its reasoning: that of its last titled
/// reasoning item.
pub fn tool_group_reasoning_title(group: &ToolActivityGroupPresentation) -> (t: Option<String>)
    ensures
        opt_string(t) == last_title(group.reasoning@),
{
    let mut i = group.reasoning.len();
    proof {
        assert(group.reasoning@.take(i as int) =~= group.reasoning@);
    }
    while i > 0
        invariant
            i <= group.reasoning.len(),
            last_title(group.reasoning@) == last_title(group.reasoning@.take(i as int)),
        decreases i,
    {
        let ghost prefix = group.reasoning@.take(i as int);
        proof {
            assert(prefix.drop_last() =~= group.reasoning@.take(i - 1));
            assert(prefix.last() == group.reasoning@[i - 1]);
        }
        match reasoning_activity_title(&group.reasoning[i - 1]) {
            Some(t) => {
                return Some(t);
            },
            None => {},
        }
        i -= 1;
    }
    None
}

/// The commands among `acts`, in order.
pub open spec fn activity_commands(acts: Seq<ConversationActivity>) -> Seq<CommandExecution>
    decreases acts.len(),
{
    if acts.len() == 0 {
        seq![]
    } else {
        activity_commands(acts.drop_last()) + match acts.last() {
            ConversationActivity::Command(c) => seq![c],
            _ => seq![],
        }
    }
}

/// The file changes among `acts`, in order.
pub open spec fn activity_file_changes(acts: Seq<ConversationActivity>) -> Seq<
    FileChangeActivityPresentation,
>
    decreases acts.len(),
{
    if acts.len() == 0 {
        seq![]
    } else {
        activity_file_changes(acts.drop_last()) + match acts.last() {
            ConversationActivity::FileChange(f) => seq![f],
            _ => seq![],
        }
    }
}

/// Whether an activity always stands alone in the stream.
pub open spec fn is_standalone_kind(a: ConversationActivity) -> bool {
    !(a is Reasoning) && !(a is Command) && !(a is FileChange)
}

/// The activities of `acts` that always stand alone, in order.
pub open spec fn standalone_activities(acts: Seq<ConversationActivity>) -> Seq<ConversationActivity>
    decreases acts.len(),
{
    if acts.len() == 0 {
        seq![]
    } else {
        standalone_activities(acts.drop_last()) + if is_standalone_kind(acts.last()) {
            seq![acts.last()]
        } else {
            seq![]
        }
    }
}

/// The reasoning items of `acts` that are still streaming, in order.
pub open spec fn live_reasoning(acts: Seq<ConversationActivity>) -> Seq<
    ReasoningActivityPresentation,
>
    decreases acts.len(),
{
    if acts.len() == 0 {
        seq![]
    } else {
        live_reasoning(acts.drop_last()) + match acts.last() {
            ConversationActivity::Reasoning(r) => if r.completed_at_ms is None {
                seq![r]
            } else {
                seq![]
            },
            _ => seq![],
        }
    }
}

/// The commands of the tool groups among `units`, in order.
pub open spec fn unit_commands(units: Seq<UnitView>) -> Seq<CommandExecution>
    decreases units.len(),
{
    if units.len() == 0 {
        seq![]
    } else {
        unit_commands(units.drop_last()) + match units.last() {
            UnitView::ToolGroup(g) => g.commands,
            _ => seq![],
        }
    }
}

/// The file changes of the tool groups among `units`, in order.
pub open spec fn unit_file_changes(units: Seq<UnitView>) -> Seq<FileChangeActivityPresentation>
    decreases units.len(),
{
    if units.len() == 0 {
        seq![]
    } else {
        unit_file_changes(units.drop_last()) + match units.last() {
            UnitView::ToolGroup(g) => g.file_changes,
            _ => seq![],
        }
    }
}

/// The standalone rows of `units` that are not reasoning, in order.
pub open spec fn unit_standalones(units: Seq<UnitView>) -> Seq<ConversationActivity>
    decreases units.len(),
{
    if units.len() == 0 {
        seq![]
    } else {
        unit_standalones(units.drop_last()) + match units.last() {
            UnitView::Standalone(a) => if a is Reasoning {
                seq![]
            } else {
                seq![a]
            },
            _ => seq![],
        }
    }
}

/// A row that is not reasoning and, if a tool group, holds a command or a
/// file change.
pub open spec fn settled_row(u: UnitView) -> bool {
    match u {
        UnitView::Standalone(a) => !(a is Reasoning),
        UnitView::ToolGroup(g) => g.commands.len() > 0 || g.file_changes.len() > 0,
    }
}

proof fn lemma_unit_parts_concat(a: Seq<UnitView>, b: Seq<UnitView>)
    ensures
        unit_commands(a + b) == unit_commands(a) + unit_commands(b),
        unit_file_changes(a + b) == unit_file_changes(a) + unit_file_changes(b),
        unit_standalones(a + b) == unit_standalones(a) + unit_standalones(b),
    decreases b.len(),
{
    if b.len() == 0 {
        assert(a + b =~= a);
        assert(unit_commands(a) + unit_commands(b) =~= unit_commands(a));
        assert(unit_file_changes(a) + unit_file_changes(b) =~= unit_file_changes(a));
        assert(unit_standalones(a) + unit_standalones(b) =~= unit_standalones(a));
    } else {
        lemma_unit_parts_concat(a, b.drop_last());
        assert((a + b).drop_last() =~= a + b.drop_last());
        assert((a + b).last() == b.last());
        assert(unit_commands(a + b) =~= unit_commands(a) + unit_commands(b));
        assert(unit_file_changes(a + b) =~= unit_file_changes(a) + unit_file_changes(b));
        assert(unit_standalones(a + b) =~= unit_standalones(a) + unit_standalones(b));
    }
}

proof fn lemma_flush_parts(p: PendingView)
    requires
        pending_wf(p),
    ensures
        unit_commands(flush_units(p)) == p.commands,
        unit_file_changes(flush_units(p)) == p.file_changes,
        unit_standalones(flush_units(p)) == Seq::<ConversationActivity>::empty(),
        forall|i: int| 0 <= i < flush_units(p).len() ==> settled_row(#[trigger] flush_units(p)[i]),
{
    let f = flush_units(p);
    let none = Seq::<UnitView>::empty();
    assert(unit_commands(none) == Seq::<CommandExecution>::empty());
    assert(unit_file_changes(none) == Seq::<FileChangeActivityPresentation>::empty());
    assert(unit_standalones(none) == Seq::<ConversationActivity>::empty());
    if f.len() > 0 {
        assert(f.drop_last() =~= none);
        assert(unit_commands(f) =~= p.commands);
        assert(unit_file_changes(f) =~= p.file_changes);
        assert(unit_standalones(f) =~= Seq::<ConversationActivity>::empty());
    } else {
        assert(p.commands =~= Seq::<CommandExecution>::empty());
        assert(p.file_changes =~= Seq::<FileChangeActivityPresentation>::empty());
    }
}

proof fn lemma_single_standalone(a: ConversationActivity)
    ensures
        unit_commands(seq![UnitView::Standalone(a)]) == Seq::<CommandExecution>::empty(),
        unit_file_changes(seq![UnitView::Standalone(a)]) == Seq::<
            FileChangeActivityPresentation,
        >::empty(),
        unit_standalones(seq![UnitView::Standalone(a)]) == (if a is Reasoning {
            Seq::<ConversationActivity>::empty()
        } else {
            seq![a]
        }),
{
    let s = seq![UnitView::Standalone(a)];
    let none = Seq::<UnitView>::empty();
    assert(unit_commands(none) == Seq::<CommandExecution>::empty());
    assert(unit_file_changes(none) == Seq::<FileChangeActivityPresentation>::empty());
    assert(unit_standalones(none) == Seq::<ConversationActivity>::empty());
    assert(s.drop_last() =~= none);
    assert(unit_commands(s) =~= Seq::<CommandExecution>::empty());
    assert(unit_file_changes(s) =~= Seq::<FileChangeActivityPresentation>::empty());
    assert(unit_standalones(s) =~= (if a is Reasoning {
        Seq::<ConversationActivity>::empty()
    } else {
        seq![a]
    }));
}

proof fn lemma_live_rows_parts(rs: Seq<ReasoningActivityPresentation>)
    ensures
        ({
            let rows = rs.map_values(|r: ReasoningActivityPresentation| live_reasoning_row(r));
            &&& unit_commands(rows) == Seq::<CommandExecution>::empty()
            &&& unit_file_changes(rows) == Seq::<FileChangeActivityPresentation>::empty()
            &&& unit_standalones(rows) == Seq::<ConversationActivity>::empty()
        }),
    decreases rs.len(),
{
    let rows = rs.map_values(|r: ReasoningActivityPresentation| live_reasoning_row(r));
    if rs.len() > 0 {
        lemma_live_rows_parts(rs.drop_last());
        assert(rows.drop_last() =~= rs.drop_last().map_values(
            |r: ReasoningActivityPresentation| live_reasoning_row(r),
        ));
        assert(unit_commands(rows) =~= Seq::<CommandExecution>::empty());
        assert(unit_file_changes(rows) =~= Seq::<FileChangeActivityPresentation>::empty());
        assert(unit_standalones(rows) =~= Seq::<ConversationActivity>::empty());
    } else {
        assert(rows =~= Seq::<UnitView>::empty());
    }
}

/// What walking the activities keeps: every command, file change and
/// standalone activity seen so far is in an emitted row or the pending
/// group, in order; the live reasoning items are collected in order; and
/// every emitted row is settled.
proof fn lemma_stream_run_invariants(acts: Seq<ConversationActivity>)
    ensures
        ({
            let s = stream_run(acts);
            &&& pending_wf(s.pending)
            &&& unit_commands(s.units) + s.pending.commands == activity_commands(acts)
            &&& unit_file_changes(s.units) + s.pending.file_changes == activity_file_changes(acts)
            &&& unit_standalones(s.units) == standalone_activities(acts)
            &&& s.active == live_reasoning(acts)
            &&& forall|i: int| 0 <= i < s.units.len() ==> settled_row(#[trigger] s.units[i])
        }),
    decreases acts.len(),
{
    if acts.len() == 0 {
        return;
    }
    let prev = acts.drop_last();
    let a = acts.last();
    lemma_stream_run_invariants(prev);
    let s = stream_run(prev);
    let t = stream_run(acts);
    assert(t == stream_step(s, a));
    let f = flush_units(s.pending);
    lemma_flush_parts(s.pending);
    lemma_unit_parts_concat(s.units, f);
    match a {
        ConversationActivity::Reasoning(r) => {
            if r.completed_at_ms is None {
                assert(unit_commands(t.units) + t.pending.commands =~= activity_commands(acts));
                assert(unit_file_changes(t.units) + t.pending.file_changes
                    =~= activity_file_changes(acts));
                assert(unit_standalones(t.units) =~= standalone_activities(acts));
                assert forall|i: int| 0 <= i < t.units.len() implies settled_row(
                    #[trigger] t.units[i],
                ) by {
                    if i >= s.units.len() {
                        assert(t.units[i] == f[i - s.units.len()]);
                    }
                }
            } else {
                assert(activity_commands(acts) =~= activity_commands(prev));
                assert(activity_file_changes(acts) =~= activity_file_changes(prev));
                assert(standalone_activities(acts) =~= standalone_activities(prev));
                assert(live_reasoning(acts) =~= live_reasoning(prev));
            }
        },
        ConversationActivity::Command(c) => {
            assert(unit_commands(t.units) + t.pending.commands =~= activity_commands(acts));
            assert(activity_file_changes(acts) =~= activity_file_changes(prev));
            assert(standalone_activities(acts) =~= standalone_activities(prev));
            assert(live_reasoning(acts) =~= live_reasoning(prev));
        },
        ConversationActivity::FileChange(c) => {
            assert(unit_file_changes(t.units) + t.pending.file_changes
                =~= activity_file_changes(acts));
            assert(activity_commands(acts) =~= activity_commands(prev));
            assert(standalone_activities(acts) =~= standalone_activities(prev));
            assert(live_reasoning(acts) =~= live_reasoning(prev));
        },
        _ => {
            let single = seq![UnitView::Standalone(a)];
            lemma_single_standalone(a);
            lemma_unit_parts_concat(s.units + f, single);
            assert(unit_commands(t.units) + t.pending.commands =~= activity_commands(acts));
            assert(unit_file_changes(t.units) + t.pending.file_changes
                =~= activity_file_changes(acts));
            assert(unit_standalones(t.units) =~= standalone_activities(acts));
            assert(live_reasoning(acts) =~= live_reasoning(prev));
            assert forall|i: int| 0 <= i < t.units.len() implies settled_row(
                #[trigger] t.units[i],
            ) by {
                if s.units.len() <= i < s.units.len() + f.len() {
                    assert(t.units[i] == f[i - s.units.len()]);
                }
            }
        },
    }
}

/// Grouping loses and reorders nothing: the commands of the tool groups,
/// read in stream order, are exactly the commands of the activities in
/// order, and likewise the file changes; the other standalone rows are
/// exactly the activities that always stand alone, in order.
pub proof fn lemma_stream_keeps_every_item_in_order(acts: Seq<ConversationActivity>)
    ensures
        unit_commands(stream_units(acts)) == activity_commands(acts),
        unit_file_changes(stream_units(acts)) == activity_file_changes(acts),
        unit_standalones(stream_units(acts)) == standalone_activities(acts),
{
    let s = stream_run(acts);
    lemma_stream_run_invariants(acts);
    let f = flush_units(s.pending);
    let rows = s.active.map_values(|r: ReasoningActivityPresentation| live_reasoning_row(r));
    lemma_flush_parts(s.pending);
    lemma_live_rows_parts(s.active);
    lemma_unit_parts_concat(s.units, f);
    lemma_unit_parts_concat(s.units + f, rows);
    assert(unit_commands(stream_units(acts)) =~= activity_commands(acts));
    assert(unit_file_changes(stream_units(acts)) =~= activity_file_changes(acts));
    assert(unit_standalones(stream_units(acts)) =~= standalone_activities(acts));
}

/// Reasoning never forms a row of its own once finished: every row before
/// the live reasoning items is settled (a non-reasoning activity, or a tool
/// group with a command or a file change), and the stream ends with the
/// live reasoning items, in the order they arrived.
pub proof fn lemma_live_reasoning_trails_the_stream(acts: Seq<ConversationActivity>)
    ensures
        ({
            let units = stream_units(acts);
            let live = live_reasoning(acts);
            &&& live.len() <= units.len()
            &&& forall|i: int|
                0 <= i < units.len() - live.len() ==> settled_row(#[trigger] units[i])
            &&& units.subrange(units.len() - live.len(), units.len() as int) == live.map_values(
                |r: ReasoningActivityPresentation| live_reasoning_row(r),
            )
        }),
{
    let s = stream_run(acts);
    lemma_stream_run_invariants(acts);
    lemma_flush_parts(s.pending);
    let f = flush_units(s.pending);
    let units = stream_units(acts);
    let head = s.units + f;
    let rows = s.active.map_values(|r: ReasoningActivityPresentation| live_reasoning_row(r));
    assert(units == head + rows);
    assert(units.subrange(head.len() as int, units.len() as int) =~= rows);
    assert forall|i: int| 0 <= i < units.len() - s.active.len() implies settled_row(
        #[trigger] units[i],
    ) by {
        assert(units[i] == head[i]);
        if i >= s.units.len() {
            assert(head[i] == f[i - s.units.len()]);
        }
    }
}

/// Every reasoning item of a tool group has finished.
pub open spec fn group_reasoning_finished(u: UnitView) -> bool {
    u matches UnitView::ToolGroup(g) ==> forall|j: int|
        0 <= j < g.reasoning.len() ==> (#[trigger] g.reasoning[j]).completed_at_ms is Some
}

proof fn lemma_stream_run_reasoning(acts: Seq<ConversationActivity>)
    ensures
        forall|j: int|
            0 <= j < stream_run(acts).pending.reasoning.len() ==> (#[trigger] stream_run(
                acts,
            ).pending.reasoning[j]).completed_at_ms is Some,
        forall|i: int|
            0 <= i < stream_run(acts).units.len() ==> group_reasoning_finished(
                #[trigger] stream_run(acts).units[i],
            ),
    decreases acts.len(),
{
    if acts.len() > 0 {
        let prev = acts.drop_last();
        lemma_stream_run_reasoning(prev);
        let s = stream_run(prev);
        let t = stream_run(acts);
        let f = flush_units(s.pending);
        assert(t == stream_step(s, acts.last()));
        assert forall|i: int| 0 <= i < f.len() implies group_reasoning_finished(#[trigger] f[i]) by {}
        assert forall|i: int| 0 <= i < t.units.len() implies group_reasoning_finished(
            #[trigger] t.units[i],
        ) by {
            if i < s.units.len() {
                assert(t.units[i] == s.units[i]);
            } else if i < s.units.len() + f.len() && t.units.len() != s.units.len() {
                match acts.last() {
                    ConversationActivity::Command(_) => {},
                    ConversationActivity::FileChange(_) => {},
                    ConversationActivity::Reasoning(r) => {
                        if r.completed_at_ms is None {
                            assert(t.units[i] == f[i - s.units.len()]);
                        }
                    },
                    _ => {
                        assert(t.units[i] == (s.units + f)[i]);
                        assert(t.units[i] == f[i - s.units.len()]);
                    },
                }
            }
        }
        assert forall|j: int| 0 <= j < t.pending.reasoning.len() implies (
        #[trigger] t.pending.reasoning[j]).completed_at_ms is Some by {
            match acts.last() {
                ConversationActivity::Reasoning(r) => {
                    if r.completed_at_ms is Some && j < s.pending.reasoning.len() {
                        assert(t.pending.reasoning[j] == s.pending.reasoning[j]);
                    }
                },
                _ => {},
            }
        }
    }
}

/// The structure of the activity stream, in one statement: every command
/// and file change of the activities appears once, inside a tool group, in
/// their order; every activity that always stands alone appears once as a
/// standalone row, in order; before the live reasoning rows, every tool
/// group holds a command or a file change and no row is reasoning on its
/// own, so finished reasoning appears only inside tool groups; the stream
/// ends with the live reasoning items, in the order they arrived.
pub proof fn lemma_stream_structure(acts: Seq<ConversationActivity>)
    ensures
        ({
            let units = stream_units(acts);
            let live = live_reasoning(acts);
            let k = units.len() - live.len();
            &&& unit_commands(units) == activity_commands(acts)
            &&& unit_file_changes(units) == activity_file_changes(acts)
            &&& unit_standalones(units) == standalone_activities(acts)
            &&& live.len() <= units.len()
            &&& forall|i: int|
                0 <= i < k ==> (#[trigger] units[i] matches UnitView::ToolGroup(g) ==> g.commands.len()
                    > 0 || g.file_changes.len() > 0)
            &&& forall|i: int|
                0 <= i < k ==> (#[trigger] units[i] matches UnitView::Standalone(a) ==> !(
                a is Reasoning))
            &&& forall|i: int| 0 <= i < units.len() ==> group_reasoning_finished(#[trigger] units[i])
            &&& forall|j: int|
                0 <= j < live.len() ==> units[k + j] == live_reasoning_row(live[j])
                    && (#[trigger] live[j]).completed_at_ms is None
        }),
{
    lemma_stream_keeps_every_item_in_order(acts);
    lemma_live_reasoning_trails_the_stream(acts);
    lemma_stream_run_reasoning(acts);
    lemma_live_reasoning_open(acts);
    let units = stream_units(acts);
    let live = live_reasoning(acts);
    let k = units.len() - live.len();
    let s = stream_run(acts);
    let f = flush_units(s.pending);
    let rows = s.active.map_values(|r: ReasoningActivityPresentation| live_reasoning_row(r));
    assert(units == s.units + f + rows);
    assert forall|i: int| 0 <= i < k implies (#[trigger] units[i] matches UnitView::ToolGroup(
        g,
    ) ==> g.commands.len() > 0 || g.file_changes.len() > 0) by {
        assert(settled_row(units[i]));
    }
    assert forall|i: int| 0 <= i < k implies (#[trigger] units[i] matches UnitView::Standalone(
        a,
    ) ==> !(a is Reasoning)) by {
        assert(settled_row(units[i]));
    }
    assert forall|i: int| 0 <= i < units.len() implies group_reasoning_finished(
        #[trigger] units[i],
    ) by {
        if i < s.units.len() {
            assert(units[i] == s.units[i]);
        } else if i < s.units.len() + f.len() {
            assert(units[i] == f[i - s.units.len()]);
        } else {
            assert(units[i] == rows[i - s.units.len() - f.len()]);
        }
    }
    assert forall|j: int| 0 <= j < live.len() implies units[k + j] == live_reasoning_row(live[j])
        && (#[trigger] live[j]).completed_at_ms is None by {
        assert(units.subrange(k, units.len() as int)[j] == units[k + j]);
    }
}

proof fn lemma_live_reasoning_open(acts: Seq<ConversationActivity>)
    ensures
        forall|j: int|
            0 <= j < live_reasoning(acts).len() ==> (#[trigger] live_reasoning(
                acts,
            )[j]).completed_at_ms is None,
    decreases acts.len(),
{
    if acts.len() > 0 {
        lemma_live_reasoning_open(acts.drop_last());
        let p = live_reasoning(acts.drop_last());
        assert forall|j: int| 0 <= j < live_reasoning(acts).len() implies (
        #[trigger] live_reasoning(acts)[j]).completed_at_ms is None by {
            if j < p.len() {
                assert(live_reasoning(acts)[j] == p[j]);
            }
        }
    }
}

/// The index of the last running command of `cs`, if any.
pub open spec fn last_running(cs: Seq<CommandExecution>) -> Option<int>
    decreases cs.len(),
{
    if cs.len() == 0 {
        None
    } else if cs.last().status == CommandExecutionStatus::InProgress {
        Some(cs.len() - 1)
    } else {
        last_running(cs.drop_last())
    }
}

/// The header row of a tool group. A finished group shows its summary; a
/// running one shows the title of its latest titled reasoning item, else
/// "正在编辑文件" while one of its file changes is in progress, else the last row of its latest running command (or
/// of its last command), else "正在工作".
pub open spec fn group_header(g: ToolGroupView) -> SummaryView {
    let editing_files = group_edits_files(g);
    if !group_is_active(g) {
        group_summary(g)
    } else {
        match last_title(g.reasoning) {
            Some(t) => SummaryView { icon: ""@, text: t, reads_files: false, runs_command: false },
            None => if editing_files {
                SummaryView {
                    icon: "message-edit"@,
                    text: "正在编辑文件"@,
                    reads_files: false,
                    runs_command: false,
                }
            } else {
                let c = match last_running(g.commands) {
                    Some(k) => Some(g.commands[k]),
                    None => if g.commands.len() > 0 {
                        Some(g.commands.last())
                    } else {
                        None
                    },
                };
                match c {
                    Some(c) if command_summaries(c).len() > 0 => command_summaries(c).last(),
                    _ => SummaryView {
                        icon: "panel-terminal"@,
                        text: "正在工作"@,
                        reads_files: false,
                        runs_command: true,
                    },
                }
            },
        }
    }
}

proof fn lemma_last_running(cs: Seq<CommandExecution>)
    ensures
        last_running(cs) matches Some(k) ==> 0 <= k < cs.len(),
    decreases cs.len(),
{
    if cs.len() > 0 {
        lemma_last_running(cs.drop_last());
    }
}

fn last_running_command(cs: &Vec<CommandExecution>) -> (r: Option<usize>)
    ensures
        opt_index(r) == last_running(cs@),
        r matches Some(k) ==> k < cs.len(),
{
    proof {
        lemma_last_running(cs@);
    }
    let mut i = cs.len();
    proof {
        assert(cs@.take(i as int) =~= cs@);
    }
    while i > 0
        invariant
            i <= cs.len(),
            last_running(cs@) == last_running(cs@.take(i as int)),
        decreases i,
    {
        proof {
            assert(cs@.take(i as int).drop_last() =~= cs@.take(i - 1));
            assert(cs@.take(i as int).last() == cs@[i - 1]);
        }
        if cs[i - 1].status == CommandExecutionStatus::InProgress {
            return Some(i - 1);
        }
        i -= 1;
    }
    None
}

/// The header row of a tool group (see `group_header`).
pub fn tool_group_header(group: &ToolActivityGroupPresentation) -> (s: CommandActivitySummary)
    ensures
        s@ == group_header(group@),
{
    let editing_files = group.edits_files();
    if !group.is_active() {
        return completed_tool_group_summary(group);
    }
    match tool_group_reasoning_title(group) {
        Some(text) => {
            return CommandActivitySummary { icon: "", text, reads_files: false, runs_command: false };
        },
        None => {},
    }
    if editing_files {
        return CommandActivitySummary {
            icon: "message-edit",
            text: to_owned_string("正在编辑文件"),
            reads_files: false,
            runs_command: false,
        };
    }
    let index = match last_running_command(&group.commands) {
        Some(k) => Some(k),
        None => if group.commands.len() > 0 {
            Some(group.commands.len() - 1)
        } else {
            None
        },
    };
    let working = CommandActivitySummary {
        icon: "panel-terminal",
        text: to_owned_string("正在工作"),
        reads_files: false,
        runs_command: true,
    };
    match index {
        Some(k) => {
            let mut rows = command_activity_summaries(&group.commands[k]);
            proof {
                assert(group.commands@[k as int] == group@.commands[k as int]);
            }
            match rows.pop() {
                Some(row) => {
                    proof {
                        assert(summaries_view(rows@).len() + 1 == command_summaries(
                            group.commands@[k as int],
                        ).len());
                    }
                    row
                },
                None => working,
            }
        },
        None => working,
    }
}

/// The accessible label of a tool group's header.
pub fn tool_group_accessible_label(text: &str, expanded: bool) -> (label: String)
    ensures
        label@ == text@ + (if expanded {
            "，折叠工具调用"@
        } else {
            "，展开工具调用"@
        }),
{
    if expanded {
        concat2(text, "，折叠工具调用")
    } else {
        concat2(text, "，展开工具调用")
    }
}

/// The text of a command card: its status label and icon, whether it
/// failed (shown in the warning colour), the command shown, and the output
/// shown.
#[derive(Clone, Debug, PartialEq, Eq)]
pub struct CommandCardText {
    pub status_label: &'static str,
    pub status_icon: &'static str,
    pub failed: bool,
    pub command: String,
    pub output: String,
}

/// The status label of a command.
pub open spec fn status_label_spec(s: CommandExecutionStatus) -> Seq<char> {
    match s {
        CommandExecutionStatus::InProgress => "运行中"@,
        CommandExecutionStatus::Completed => "成功"@,
        CommandExecutionStatus::Failed => "失败"@,
    }
}

/// The output a command card shows: the output less one final line ending,
/// or a placeholder while there is none.
pub open spec fn shown_output(c: CommandExecution) -> Seq<char> {
    if c.output@.len() == 0 {
        if c.status == CommandExecutionStatus::InProgress {
            "等待输出…"@
        } else {
            "（无输出）"@
        }
    } else {
        strip_line_ending(c.output@)
    }
}

/// The text of a command card (see [`CommandCardText`]).
pub fn command_card_text(command: &CommandExecution) -> (t: CommandCardText)
    ensures
        t.status_label@ == status_label_spec(command.status),
        t.status_icon@ == (if command.status == CommandExecutionStatus::Failed {
            "settings-warning"@
        } else {
            "check"@
        }),
        t.failed == (command.status == CommandExecutionStatus::Failed),
        t.command@ == (if command.command@.len() == 0 {
            "命令"@
        } else {
            command.command@
        }),
        t.output@ == shown_output(*command),
{
    let status_label = match command.status {
        CommandExecutionStatus::InProgress => "运行中",
        CommandExecutionStatus::Completed => "成功",
        CommandExecutionStatus::Failed => "失败",
    };
    let failed = matches!(command.status, CommandExecutionStatus::Failed);
    let status_icon = if failed {
        "settings-warning"
    } else {
        "check"
    };
    let shown_command = if command.command.unicode_len() == 0 {
        to_owned_string("命令")
    } else {
        command.command.clone()
    };
    let output = if command.output.unicode_len() == 0 {
        if matches!(command.status, CommandExecutionStatus::InProgress) {
            to_owned_string("等待输出…")
        } else {
            to_owned_string("（无输出）")
        }
    } else {
        to_owned_string(strip_terminal_line_ending(command.output.as_str()))
    };
    CommandCardText { status_label, status_icon, failed, command: shown_command, output }
}

/// The accessible label of a command card's header.
pub fn command_accessible_label(text: &str, expanded: bool) -> (label: String)
    ensures
        label@ == text@ + (if expanded {
            "，折叠详情"@
        } else {
            "，展开详情"@
        }),
{
    if expanded {
        concat2(text, "，折叠详情")
    } else {
        concat2(text, "，展开详情")
    }
}

/// The text of a notice row in the activity stream.
#[derive(Clone, Debug, PartialEq, Eq)]
pub struct NoticeText {
    /// What kind of notice the row is, as its accessible label names it.
    pub title: &'static str,
    /// A protocol error the client retries: shown as a quiet row.
    pub retrying: bool,
    pub summary: String,
    /// The details shown, when there are any that are not blank.
    pub details: Option<String>,
    /// Where a configuration warning points.
    pub file_label: Option<String>,
    pub accessible_label: String,
}

pub struct NoticeView {
    pub title: Seq<char>,
    pub retrying: bool,
    pub summary: Seq<char>,
    pub details: Option<Seq<char>>,
    pub file_label: Option<Seq<char>>,
    pub accessible_label: Seq<char>,
}

impl View for NoticeText {
    type V = NoticeView;

    open spec fn view(&self) -> NoticeView {
        NoticeView {
            title: self.title@,
            retrying: self.retrying,
            summary: self.summary@,
            details: opt_string(self.details),
            file_label: opt_string(self.file_label),
            accessible_label: self.accessible_label@,
        }
    }
}

/// Details worth showing: present and not blank.
pub open spec fn shown_details(d: Option<String>) -> Option<Seq<char>> {
    match d {
        Some(x) => if is_blank(x@) {
            None
        } else {
            Some(x@)
        },
        None => None,
    }
}

/// Where a configuration warning points: the file, with its line and
/// column when known.
pub open spec fn file_label_spec(path: Seq<char>, line: Option<u64>, column: Option<u64>) -> Seq<
    char,
> {
    "文件："@ + path + match (line, column) {
        (Some(l), Some(c)) => "（第 "@ + decimal(l as nat) + " 行，第 "@ + decimal(c as nat)
            + " 列）"@,
        (Some(l), None) => "（第 "@ + decimal(l as nat) + " 行）"@,
        _ => seq![],
    }
}

/// `; part` when there is a part.
pub open spec fn optional_part(part: Option<Seq<char>>) -> Seq<char> {
    match part {
        Some(p) => "；"@ + p,
        None => seq![],
    }
}

/// A notice row of the given title.
pub open spec fn notice(
    title: Seq<char>,
    summary: Seq<char>,
    details: Option<Seq<char>>,
    file_label: Option<Seq<char>>,
) -> NoticeView {
    NoticeView {
        title,
        retrying: false,
        summary,
        details,
        file_label,
        accessible_label: title + "："@ + summary + optional_part(details) + optional_part(
            file_label,
        ),
    }
}

/// The notice row an activity shows, if it is a notice: a protocol error
/// ("Codex 错误", or a quiet retrying row when the client retries), a
/// warning ("Codex 警告"), a configuration warning ("Codex 配置警告", with
/// its file), or a failed turn ("Codex turn 失败").
pub open spec fn notice_spec(a: ConversationActivity) -> Option<NoticeView> {
    match a {
        ConversationActivity::ProtocolError { message, details, will_retry } => if will_retry {
            Some(
                NoticeView {
                    title: "Codex 错误"@,
                    retrying: true,
                    summary: message@,
                    details: shown_details(details),
                    file_label: None,
                    accessible_label: "Codex 错误，正在重试："@ + message@ + optional_part(
                        shown_details(details),
                    ),
                },
            )
        } else {
            Some(notice("Codex 错误"@, message@, shown_details(details), None))
        },
        ConversationActivity::Warning { message } => Some(
            notice("Codex 警告"@, message@, None, None),
        ),
        ConversationActivity::ConfigWarning(w) => Some(
            notice(
                "Codex 配置警告"@,
                w.summary@,
                shown_details(w.details),
                match w.path {
                    Some(p) => Some(file_label_spec(p@, w.line, w.column)),
                    None => None,
                },
            ),
        ),
        ConversationActivity::Error { message } => Some(
            notice("Codex turn 失败"@, message@, None, None),
        ),
        _ => None,
    }
}

fn shown_details_of(d: &Option<String>) -> (r: Option<String>)
    ensures
        opt_string(r) == shown_details(*d),
{
    match d {
        Some(x) => if is_blank_str(x.as_str()) {
            None
        } else {
            Some(x.clone())
        },
        None => None,
    }
}

/// The text of `file_label_spec`.
pub fn config_file_label(path: &str, line: Option<u64>, column: Option<u64>) -> (l: String)
    ensures
        l@ == file_label_spec(path@, line, column),
{
    let mut l = concat2("文件：", path);
    match (line, column) {
        (Some(ln), Some(c)) => {
            l.append("（第 ");
            append_decimal(&mut l, ln);
            l.append(" 行，第 ");
            append_decimal(&mut l, c);
            l.append(" 列）");
        },
        (Some(ln), None) => {
            l.append("（第 ");
            append_decimal(&mut l, ln);
            l.append(" 行）");
        },
        _ => {
            proof {
                assert(l@ =~= file_label_spec(path@, line, column));
            }
        },
    }
    l
}

fn append_part(l: &mut String, part: &Option<String>)
    ensures
        final(l)@ == old(l)@ + optional_part(opt_string(*part)),
{
    match part {
        Some(p) => {
            l.append("；");
            l.append(p.as_str());
        },
        None => {
            proof {
                assert(l@ =~= old(l)@ + optional_part(opt_string(*part)));
            }
        },
    }
}

fn notice_of(
    title: &'static str,
    summary: &String,
    details: Option<String>,
    file_label: Option<String>,
) -> (n: NoticeText)
    ensures
        n@ == notice(title@, summary@, opt_string(details), opt_string(file_label)),
{
    let mut label = concat3(title, "：", summary.as_str());
    append_part(&mut label, &details);
    append_part(&mut label, &file_label);
    NoticeText {
        title,
        retrying: false,
        summary: summary.clone(),
        details,
        file_label,
        accessible_label: label,
    }
}

/// The notice row an activity shows, if it is a notice (see
/// `notice_spec`).
pub fn notice_text(activity: &ConversationActivity) -> (n: Option<NoticeText>)
    ensures
        match n {
            Some(t) => notice_spec(*activity) == Some(t@),
            None => notice_spec(*activity) is None,
        },
{
    match activity {
        ConversationActivity::ProtocolError { message, details, will_retry } => {
            let shown = shown_details_of(details);
            if *will_retry {
                let mut label = concat2("Codex 错误，正在重试：", message.as_str());
                append_part(&mut label, &shown);
                Some(
                    NoticeText {
                        title: "Codex 错误",
                        retrying: true,
                        summary: message.clone(),
                        details: shown,
                        file_label: None,
                        accessible_label: label,
                    },
                )
            } else {
                Some(notice_of("Codex 错误", message, shown, None))
            }
        },
        ConversationActivity::Warning { message } => Some(notice_of("Codex 警告", message, None, None)),
        ConversationActivity::ConfigWarning(w) => {
            let shown = shown_details_of(&w.details);
            let file = match &w.path {
                Some(p) => Some(config_file_label(p.as_str(), w.line, w.column)),
                None => None,
            };
            Some(notice_of("Codex 配置警告", &w.summary, shown, file))
        },
        ConversationActivity::Error { message } => Some(
            notice_of("Codex turn 失败", message, None, None),
        ),
        _ => None,
    }
}

/// Commands as activities.
pub open spec fn command_items(cs: Seq<CommandExecution>) -> Seq<ConversationActivity> {
    cs.map_values(|c: CommandExecution| ConversationActivity::Command(c))
}

/// File changes as activities.
pub open spec fn file_change_items(fs: Seq<FileChangeActivityPresentation>) -> Seq<
    ConversationActivity,
> {
    fs.map_values(|f: FileChangeActivityPresentation| ConversationActivity::FileChange(f))
}

/// The activities a row stands for, reasoning left out: a tool group's
/// commands and then its file changes, or a standalone activity.
pub open spec fn flat_unit(u: UnitView) -> Seq<ConversationActivity> {
    match u {
        UnitView::Standalone(a) => if a is Reasoning {
            seq![]
        } else {
            seq![a]
        },
        UnitView::ToolGroup(g) => command_items(g.commands) + file_change_items(g.file_changes),
    }
}

/// The activities the rows stand for, in row order.
pub open spec fn flat_units(us: Seq<UnitView>) -> Seq<ConversationActivity>
    decreases us.len(),
{
    if us.len() == 0 {
        seq![]
    } else {
        flat_units(us.drop_last()) + flat_unit(us.last())
    }
}

/// The activities arranged as the stream shows them, reasoning left out:
/// finished ones, and the commands and file changes of the open run.
pub struct Arrangement {
    pub done: Seq<ConversationActivity>,
    pub commands: Seq<ConversationActivity>,
    pub file_changes: Seq<ConversationActivity>,
}

/// Arranging `acts`: a run of commands and file changes lists its commands,
/// then its file changes; the run ends at a live reasoning item or at any
/// other activity, which follows it; finished reasoning changes nothing.
pub open spec fn arrange(acts: Seq<ConversationActivity>) -> Arrangement
    decreases acts.len(),
{
    if acts.len() == 0 {
        Arrangement { done: seq![], commands: seq![], file_changes: seq![] }
    } else {
        let p = arrange(acts.drop_last());
        let a = acts.last();
        match a {
            ConversationActivity::Command(_) => Arrangement { commands: p.commands.push(a), ..p },
            ConversationActivity::FileChange(_) => Arrangement {
                file_changes: p.file_changes.push(a),
                ..p
            },
            ConversationActivity::Reasoning(r) => if r.completed_at_ms is None {
                Arrangement {
                    done: p.done + p.commands + p.file_changes,
                    commands: seq![],
                    file_changes: seq![],
                }
            } else {
                p
            },
            _ => Arrangement {
                done: p.done + p.commands + p.file_changes + seq![a],
                commands: seq![],
                file_changes: seq![],
            },
        }
    }
}

/// All activities but reasoning, in the order the stream shows them.
pub open spec fn arranged(acts: Seq<ConversationActivity>) -> Seq<ConversationActivity> {
    let p = arrange(acts);
    p.done + p.commands + p.file_changes
}

proof fn lemma_flat_units_concat(a: Seq<UnitView>, b: Seq<UnitView>)
    ensures
        flat_units(a + b) == flat_units(a) + flat_units(b),
    decreases b.len(),
{
    if b.len() == 0 {
        assert(a + b =~= a);
        assert(flat_units(a) + flat_units(b) =~= flat_units(a));
    } else {
        assert((a + b).drop_last() =~= a + b.drop_last());
        lemma_flat_units_concat(a, b.drop_last());
        assert(flat_units(a + b) =~= flat_units(a) + flat_units(b));
    }
}

proof fn lemma_flat_flush(p: PendingView)
    ensures
        flat_units(flush_units(p)) == command_items(p.commands) + file_change_items(p.file_changes),
{
    let f = flush_units(p);
    if p.commands.len() == 0 && p.file_changes.len() == 0 {
        assert(command_items(p.commands) + file_change_items(p.file_changes) =~= Seq::<
            ConversationActivity,
        >::empty());
    } else {
        assert(f.drop_last() =~= Seq::<UnitView>::empty());
        assert(flat_units(f.drop_last()) =~= Seq::<ConversationActivity>::empty());
        assert(flat_units(f) =~= flat_unit(f.last()));
    }
}

proof fn lemma_flat_live_rows(rs: Seq<ReasoningActivityPresentation>)
    ensures
        flat_units(rs.map_values(|r: ReasoningActivityPresentation| live_reasoning_row(r))) == Seq::<
            ConversationActivity,
        >::empty(),
    decreases rs.len(),
{
    if rs.len() > 0 {
        let m = rs.map_values(|r: ReasoningActivityPresentation| live_reasoning_row(r));
        assert(m.drop_last() =~= rs.drop_last().map_values(
            |r: ReasoningActivityPresentation| live_reasoning_row(r),
        ));
        lemma_flat_live_rows(rs.drop_last());
        assert(flat_units(m) =~= Seq::<ConversationActivity>::empty());
    }
}

proof fn lemma_arrange_run(acts: Seq<ConversationActivity>)
    ensures
        flat_units(stream_run(acts).units) == arrange(acts).done,
        command_items(stream_run(acts).pending.commands) == arrange(acts).commands,
        file_change_items(stream_run(acts).pending.file_changes) == arrange(acts).file_changes,
    decreases acts.len(),
{
    if acts.len() > 0 {
        let prev = acts.drop_last();
        lemma_arrange_run(prev);
        let s = stream_run(prev);
        let t = stream_run(acts);
        let a = acts.last();
        let p = arrange(prev);
        assert(t == stream_step(s, a));
        lemma_flat_flush(s.pending);
        let f = flush_units(s.pending);
        match a {
            ConversationActivity::Command(c) => {
                assert(command_items(t.pending.commands) =~= command_items(s.pending.commands).push(
                    a,
                ));
            },
            ConversationActivity::FileChange(x) => {
                assert(file_change_items(t.pending.file_changes) =~= file_change_items(
                    s.pending.file_changes,
                ).push(a));
            },
            ConversationActivity::Reasoning(r) => {
                if r.completed_at_ms is None {
                    lemma_flat_units_concat(s.units, f);
                    assert(command_items(t.pending.commands) =~= Seq::<ConversationActivity>::empty());
                    assert(file_change_items(t.pending.file_changes) =~= Seq::<
                        ConversationActivity,
                    >::empty());
                    assert(flat_units(t.units) =~= arrange(acts).done);
                }
            },
            _ => {
                let single = seq![UnitView::Standalone(a)];
                lemma_flat_units_concat(s.units, f);
                lemma_flat_units_concat(s.units + f, single);
                assert(single.drop_last() =~= Seq::<UnitView>::empty());
                assert(flat_units(single.drop_last()) =~= Seq::<ConversationActivity>::empty());
                assert(!(a is Reasoning));
                assert(flat_unit(single.last()) =~= seq![a]);
                assert(flat_units(single) =~= seq![a]);
                assert(command_items(t.pending.commands) =~= Seq::<ConversationActivity>::empty());
                assert(file_change_items(t.pending.file_changes) =~= Seq::<
                    ConversationActivity,
                >::empty());
                assert(flat_units(t.units) =~= arrange(acts).done);
            },
        }
    }
}

/// Reading the stream's rows in order, each tool group as its commands
/// and then its file changes and each standalone row as its activity
/// (live reasoning left out), gives every activity but reasoning exactly
/// once, in input order except that within each run of commands and file
/// changes the commands come first (see `arranged`).
pub proof fn lemma_stream_interleaved_order(acts: Seq<ConversationActivity>)
    ensures
        flat_units(stream_units(acts)) == arranged(acts),
{
    let s = stream_run(acts);
    lemma_arrange_run(acts);
    lemma_flat_flush(s.pending);
    let f = flush_units(s.pending);
    let rows = s.active.map_values(|r: ReasoningActivityPresentation| live_reasoning_row(r));
    lemma_flat_live_rows(s.active);
    lemma_flat_units_concat(s.units, f);
    lemma_flat_units_concat(s.units + f, rows);
    assert(flat_units(stream_units(acts)) =~= arranged(acts));
}

/// Where no file change of a run comes before a command of the same run,
/// the stream keeps the exact input order of all activities but
/// reasoning.
pub proof fn lemma_stream_keeps_input_order(acts: Seq<ConversationActivity>)
    requires
        arrange_keeps_order(acts),
    ensures
        flat_units(stream_units(acts)) == non_reasoning(acts),
{
    lemma_stream_interleaved_order(acts);
    lemma_arrange_in_order(acts);
}

/// The activities that are not reasoning, in order.
pub open spec fn non_reasoning(acts: Seq<ConversationActivity>) -> Seq<ConversationActivity>
    decreases acts.len(),
{
    if acts.len() == 0 {
        seq![]
    } else {
        non_reasoning(acts.drop_last()) + if acts.last() is Reasoning {
            seq![]
        } else {
            seq![acts.last()]
        }
    }
}

/// No command follows a file change of the same run.
pub open spec fn arrange_keeps_order(acts: Seq<ConversationActivity>) -> bool
    decreases acts.len(),
{
    if acts.len() == 0 {
        true
    } else {
        arrange_keeps_order(acts.drop_last()) && (acts.last() is Command ==> arrange(
            acts.drop_last(),
        ).file_changes.len() == 0)
    }
}

proof fn lemma_arrange_in_order(acts: Seq<ConversationActivity>)
    requires
        arrange_keeps_order(acts),
    ensures
        arranged(acts) == non_reasoning(acts),
    decreases acts.len(),
{
    if acts.len() > 0 {
        let prev = acts.drop_last();
        lemma_arrange_in_order(prev);
        let p = arrange(prev);
        let a = acts.last();
        match a {
            ConversationActivity::Command(_) => {
                assert(p.file_changes =~= Seq::<ConversationActivity>::empty());
                assert(arranged(acts) =~= non_reasoning(acts));
            },
            ConversationActivity::Reasoning(r) => {
                if r.completed_at_ms is None {
                    assert(arranged(acts) =~= non_reasoning(acts));
                }
            },
            _ => {
                assert(arranged(acts) =~= non_reasoning(acts));
            },
        }
    }
}

} // verus!
