//! Automatic approval reviews: the reviewed action, its status, and the
//! labels the review row shows for them.

use vstd::prelude::*;

use crate::text::{append_decimal, concat2, decimal, join, to_owned_string};

verus! {

/// Identity of one automatic review.
#[derive(Clone, Debug, PartialEq, Eq)]
pub struct AgentAutoApprovalReviewKey {
    pub thread_id: String,
    pub turn_id: String,
    pub review_id: String,
}

/// The action an automatic review judged.
#[derive(Clone, Debug, PartialEq, Eq)]
pub enum Action {
    Command { command: String, cwd: String, source: String },
    Execve { program: String, argv: Vec<String>, cwd: String, source: String },
    WriteStdin { approval_id: String, process_id: String, stdin: String, cwd: String },
    ApplyPatch { files: Vec<String>, cwd: String },
    NetworkAccess { host: String, port: u16, protocol: String, target: String },
}

/// Status of an automatic review.
#[derive(Clone, Copy, Debug, PartialEq, Eq, Structural)]
pub enum Status {
    InProgress,
    TimedOut,
    Aborted,
}

#[derive(Clone, Debug, PartialEq, Eq)]
pub struct AgentAutoApprovalReview {
    pub key: AgentAutoApprovalReviewKey,
    pub target_item_id: Option<String>,
    pub action: Action,
    pub status: Status,
    pub rationale: Option<String>,
    pub risk_level: Option<String>,
    pub user_authorization: Option<String>,
    pub started_at_ms: u64,
    pub completed_at_ms: Option<u64>,
    pub decision_source: Option<String>,
}

/// A review as the conversation shows it.
#[derive(Clone, Debug, PartialEq, Eq)]
pub struct AutoApprovalReviewPresentation {
    pub review: AgentAutoApprovalReview,
    pub closed_locally: bool,
    pub attached_to_item: bool,
}

/// The text of a reviewed program invocation: the program followed by its
/// arguments, separated by spaces.
pub open spec fn execve_text(program: Seq<char>, argv: Seq<String>) -> Seq<char> {
    join(seq![program] + argv.map_values(|a: String| a@), seq![' '])
}

/// The row label for a reviewed action (empty for network access).
pub open spec fn action_label_spec(action: Action) -> Seq<char> {
    match action {
        Action::Command { command, .. } => command@,
        Action::Execve { program, argv, .. } => execve_text(program@, argv@),
        Action::WriteStdin { process_id, stdin, .. } => "向进程 "@ + process_id@ + " 发送输入："@
            + stdin@,
        Action::ApplyPatch { files, .. } => "正在编辑 "@ + decimal(files.len() as nat)
            + " 个文件"@,
        Action::NetworkAccess { .. } => seq![],
    }
}

pub open spec fn status_label_spec(status: Status) -> Seq<char> {
    match status {
        Status::TimedOut => "自动审核超时"@,
        Status::Aborted => "自动审核已停止"@,
        Status::InProgress => seq![],
    }
}

/// The label a review row shows for its action; a network access review
/// carries no action text of its own (its target shows in its details).
pub fn action_label(action: &Action) -> (l: String)
    ensures
        l@ == action_label_spec(*action),
{
    match action {
        Action::Command { command, .. } => command.clone(),
        Action::Execve { program, argv, .. } => {
            let mut out = program.clone();
            let ghost parts = seq![program@] + argv@.map_values(|a: String| a@);
            proof {
                assert(parts.subrange(0, 1) =~= seq![program@]);
                reveal_strlit(" ");
            }
            let mut i: usize = 0;
            while i < argv.len()
                invariant
                    i <= argv.len(),
                    " "@ == seq![' '],
                    parts == seq![program@] + argv@.map_values(|a: String| a@),
                    out@ == join(parts.subrange(0, i + 1), seq![' ']),
                decreases argv.len() - i,
            {
                proof {
                    let t = parts.subrange(0, i + 2);
                    assert(t.drop_last() == parts.subrange(0, i + 1));
                    assert(t.last() == argv@[i as int]@);
                }
                out.append(" ");
                out.append(argv[i].as_str());
                i += 1;
            }
            proof {
                assert(parts.subrange(0, argv.len() + 1) == parts);
            }
            out
        },
        Action::WriteStdin { process_id, stdin, .. } => {
            let mut out = concat2("向进程 ", process_id.as_str());
            out.append(" 发送输入：");
            out.append(stdin.as_str());
            out
        },
        Action::ApplyPatch { files, .. } => {
            let mut out = to_owned_string("正在编辑 ");
            append_decimal(&mut out, files.len() as u64);
            out.append(" 个文件");
            out
        },
        Action::NetworkAccess { .. } => String::new(),
    }
}

/// The label a review row shows for a review's status: a review still in
/// progress shows no status text.
pub fn status_label(status: Status) -> (l: &'static str)
    ensures
        l@ == status_label_spec(status),
{
    match status {
        Status::TimedOut => "自动审核超时",
        Status::Aborted => "自动审核已停止",
        Status::InProgress => {
            proof {
                reveal_strlit("");
            }
            ""
        },
    }
}

/// The network-access review used to exercise the review row: a low-risk
/// `example.com:443` request started at 100 ms, finished at 200 ms by the
/// agent unless still in progress.
pub fn model(status: Status) -> (m: AutoApprovalReviewPresentation)
    ensures
        m.review.key.thread_id@ == "thread"@,
        m.review.key.turn_id@ == "turn"@,
        m.review.key.review_id@ == "review"@,
        m.review.target_item_id is None,
        m.review.action matches Action::NetworkAccess { host, port, protocol, target } && host@
            == "example.com"@ && port == 443 && protocol@ == "https"@ && target@
            == "example.com:443"@,
        m.review.status == status,
        m.review.rationale matches Some(r) && r@ == "This action only reads public information."@,
        m.review.risk_level matches Some(r) && r@ == "low"@,
        m.review.user_authorization matches Some(u) && u@ == "high"@,
        m.review.started_at_ms == 100,
        m.review.completed_at_ms == (if status != Status::InProgress {
            Some(200u64)
        } else {
            None
        }),
        status != Status::InProgress ==> (m.review.decision_source matches Some(d) && d@
            == "agent"@),
        status == Status::InProgress ==> m.review.decision_source is None,
        !m.closed_locally,
        !m.attached_to_item,
{
    let finished = status != Status::InProgress;
    AutoApprovalReviewPresentation {
        review: AgentAutoApprovalReview {
            key: AgentAutoApprovalReviewKey {
                thread_id: to_owned_string("thread"),
                turn_id: to_owned_string("turn"),
                review_id: to_owned_string("review"),
            },
            target_item_id: None,
            action: Action::NetworkAccess {
                host: to_owned_string("example.com"),
                port: 443,
                protocol: to_owned_string("https"),
                target: to_owned_string("example.com:443"),
            },
            status,
            rationale: Some(to_owned_string("This action only reads public information.")),
            risk_level: Some(to_owned_string("low")),
            user_authorization: Some(to_owned_string("high")),
            started_at_ms: 100,
            completed_at_ms: if finished {
                Some(200)
            } else {
                None
            },
            decision_source: if finished {
                Some(to_owned_string("agent"))
            } else {
                None
            },
        },
        closed_locally: false,
        attached_to_item: false,
    }
}

} // verus!
