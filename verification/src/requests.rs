//! Routing of the conversation's request cards: finding the card an event
//! or a keystroke belongs to, applying it, and recording how answering the
//! server went.

use vstd::prelude::*;

use crate::activity::ConversationActivity;
use crate::approval::{
    ApprovalCardEvent, ApprovalCardStatus, ApprovalCardViewModel, ApprovalDecision,
    ApprovalResponseOutcome,
    CommandApprovalChoice, command_approval_choice, command_choice_spec,
};
use crate::file_change::{
    FileApprovalAction, FileApprovalChoice, FileApprovalEvent, FileApprovalPresentation,
    FileApprovalStatus,
};
use crate::keys::key_of;
use crate::permissions::PermissionApprovalStatus;
use crate::user_input::{
    UserInputRequestPresentation, UserInputRequestStatus, first_user_input, user_input_for,
};
use crate::text::{opt_string, str_eq};

verus! {

/// The first index of `acts` whose activity satisfies `p`.
pub open spec fn first_index(
    acts: Seq<ConversationActivity>,
    p: spec_fn(ConversationActivity) -> bool,
) -> Option<int>
    decreases acts.len(),
{
    if acts.len() == 0 {
        None
    } else {
        match first_index(acts.drop_last(), p) {
            Some(i) => Some(i),
            None => if p(acts.last()) {
                Some(acts.len() - 1)
            } else {
                None
            },
        }
    }
}

pub proof fn lemma_first_index(acts: Seq<ConversationActivity>, p: spec_fn(ConversationActivity) -> bool)
    ensures
        first_index(acts, p) matches Some(i) ==> 0 <= i < acts.len() && p(acts[i]) && forall|
            j: int,
        | 0 <= j < i ==> !p(#[trigger] acts[j]),
        first_index(acts, p) is None ==> forall|j: int| 0 <= j < acts.len() ==> !p(#[trigger] acts[j]),
    decreases acts.len(),
{
    if acts.len() > 0 {
        let d = acts.drop_last();
        lemma_first_index(d, p);
        match first_index(d, p) {
            Some(i) => {
                assert(acts[i] == d[i]);
                assert forall|j: int| 0 <= j < i implies !p(#[trigger] acts[j]) by {
                    assert(acts[j] == d[j]);
                }
            },
            None => {
                assert forall|j: int| 0 <= j < acts.len() - 1 implies !p(#[trigger] acts[j]) by {
                    assert(acts[j] == d[j]);
                }
            },
        }
    }
}

pub proof fn lemma_first_index_prefix(
    acts: Seq<ConversationActivity>,
    p: spec_fn(ConversationActivity) -> bool,
    k: int,
)
    requires
        0 <= k <= acts.len(),
        first_index(acts.take(k), p) is Some,
    ensures
        first_index(acts, p) == first_index(acts.take(k), p),
    decreases acts.len() - k,
{
    if k < acts.len() {
        assert(acts.take(k + 1).drop_last() =~= acts.take(k));
        lemma_first_index_prefix(acts, p, k + 1);
    } else {
        assert(acts.take(k) =~= acts);
    }
}

pub open spec fn opt_index(o: Option<usize>) -> Option<int> {
    match o {
        Some(k) => Some(k as int),
        None => None,
    }
}

/// The command or network approval card for `id`.
pub open spec fn approval_for(id: Seq<char>) -> spec_fn(ConversationActivity) -> bool {
    |a: ConversationActivity| a matches ConversationActivity::Approval(m) && m.request_id@ == id
}

/// The file approval card for `id`.
pub open spec fn file_approval_for(id: Seq<char>) -> spec_fn(ConversationActivity) -> bool {
    |a: ConversationActivity| a matches ConversationActivity::FileApproval(m) && m.request_id@ == id
}

fn approval_index(acts: &Vec<ConversationActivity>, request_id: &str) -> (r: Option<usize>)
    ensures
        opt_index(r) == first_index(acts@, approval_for(request_id@)),
{
    let ghost p = approval_for(request_id@);
    let mut i: usize = 0;
    proof {
        assert(acts@.take(0) =~= Seq::<ConversationActivity>::empty());
    }
    while i < acts.len()
        invariant
            i <= acts.len(),
            p == approval_for(request_id@),
            first_index(acts@.take(i as int), p) is None,
        decreases acts.len() - i,
    {
        proof {
            assert(acts@.take(i + 1).drop_last() =~= acts@.take(i as int));
            assert(acts@.take(i + 1).last() == acts@[i as int]);
        }
        let found = match &acts[i] {
            ConversationActivity::Approval(m) => str_eq(m.request_id.as_str(), request_id),
            _ => false,
        };
        if found {
            proof {
                lemma_first_index_prefix(acts@, p, i + 1);
            }
            return Some(i);
        }
        i += 1;
    }
    proof {
        assert(acts@.take(i as int) =~= acts@);
    }
    None
}

fn file_approval_index(acts: &Vec<ConversationActivity>, request_id: &str) -> (r: Option<usize>)
    ensures
        opt_index(r) == first_index(acts@, file_approval_for(request_id@)),
{
    let ghost p = file_approval_for(request_id@);
    let mut i: usize = 0;
    proof {
        assert(acts@.take(0) =~= Seq::<ConversationActivity>::empty());
    }
    while i < acts.len()
        invariant
            i <= acts.len(),
            p == file_approval_for(request_id@),
            first_index(acts@.take(i as int), p) is None,
        decreases acts.len() - i,
    {
        proof {
            assert(acts@.take(i + 1).drop_last() =~= acts@.take(i as int));
            assert(acts@.take(i + 1).last() == acts@[i as int]);
        }
        let found = match &acts[i] {
            ConversationActivity::FileApproval(m) => str_eq(m.request_id.as_str(), request_id),
            _ => false,
        };
        if found {
            proof {
                lemma_first_index_prefix(acts@, p, i + 1);
            }
            return Some(i);
        }
        i += 1;
    }
    proof {
        assert(acts@.take(i as int) =~= acts@);
    }
    None
}

/// A protocol notice in the conversation with this message and details,
/// not retried.
pub open spec fn is_protocol_error(
    a: ConversationActivity,
    message: Seq<char>,
    details: Option<Seq<char>>,
) -> bool {
    a matches ConversationActivity::ProtocolError { message: m, details: d, will_retry } && m@
        == message && opt_string(d) == details && !will_retry
}

/// `after` is `before` with one activity appended.
pub open spec fn appended(
    before: Seq<ConversationActivity>,
    after: Seq<ConversationActivity>,
) -> bool {
    after.len() == before.len() + 1 && after.take(before.len() as int) == before
}

/// The activities, and the answer to send, after an event of the approval
/// card for `id` (see [`handle_approval_card_event`]).
pub open spec fn approval_event_effect(
    acts: Seq<ConversationActivity>,
    id: Seq<char>,
    event: ApprovalCardEvent,
) -> (Seq<ConversationActivity>, Option<CommandApprovalChoice>) {
    match first_index(acts, approval_for(id)) {
        None => (acts, None),
        Some(i) => {
            let m = acts[i]->Approval_0;
            if m.status != ApprovalCardStatus::Pending {
                (acts, None)
            } else {
                match event {
                    ApprovalCardEvent::Decision(d) => (acts, command_choice_spec(d)),
                    _ => (
                        acts.update(i, ConversationActivity::Approval(m.interaction_spec(event))),
                        None,
                    ),
                }
            }
        },
    }
}

/// The activities, and what the caller does next, after an event of the
/// file approval card for `id`.
pub open spec fn file_event_effect(
    acts: Seq<ConversationActivity>,
    id: Seq<char>,
    event: FileApprovalEvent,
) -> (Seq<ConversationActivity>, FileApprovalAction) {
    match first_index(acts, file_approval_for(id)) {
        None => (acts, FileApprovalAction::Nothing),
        Some(i) => {
            let r = acts[i]->FileApproval_0.event_spec(event);
            (acts.update(i, ConversationActivity::FileApproval(r.0)), r.1)
        },
    }
}

/// Applies an event of the command or network approval card for
/// `request_id`. A decision changes nothing yet: it returns the answer to
/// send to the server (none for a scoped internet grant), after which the
/// caller reports the outcome with [`record_approval_response`]. Cards that
/// are missing or no longer pending ignore the event.
pub fn handle_approval_card_event(
    activities: &mut Vec<ConversationActivity>,
    request_id: &str,
    event: ApprovalCardEvent,
) -> (choice: Option<CommandApprovalChoice>)
    ensures
        (final(activities)@, choice) == approval_event_effect(old(activities)@, request_id@, event),
{
    let index = match approval_index(activities, request_id) {
        Some(i) => i,
        None => {
            return None;
        },
    };
    proof {
        lemma_first_index(activities@, approval_for(request_id@));
    }
    let mut item = ConversationActivity::Error { message: String::new() };
    activities.set_and_swap(index, &mut item);
    match item {
        ConversationActivity::Approval(mut model) => {
            let mut choice = None;
            if model.status == ApprovalCardStatus::Pending {
                match event {
                    ApprovalCardEvent::Decision(decision) => {
                        choice = command_approval_choice(decision);
                    },
                    _ => {
                        model.apply_interaction(event);
                    },
                }
            }
            activities.set(index, ConversationActivity::Approval(model));
            choice
        },
        other => {
            activities.set(index, other);
            None
        },
    }
}

/// Records how answering the server for the approval card `request_id`
/// went (see `ApprovalCardViewModel::apply_response`); a failure adds a
/// protocol notice to the conversation.
pub fn record_approval_response(
    activities: &mut Vec<ConversationActivity>,
    request_id: &str,
    outcome: ApprovalResponseOutcome,
)
    ensures
        match first_index(old(activities)@, approval_for(request_id@)) {
            None => final(activities)@ == old(activities)@,
            Some(i) => {
                let m = old(activities)@[i]->Approval_0;
                if m.status != ApprovalCardStatus::Pending {
                    final(activities)@ == old(activities)@
                } else {
                    match outcome {
                        ApprovalResponseOutcome::Sent => final(activities)@ == old(
                            activities,
                        )@.update(
                            i,
                            ConversationActivity::Approval(
                                ApprovalCardViewModel { status: ApprovalCardStatus::Submitting, ..m },
                            ),
                        ),
                        ApprovalResponseOutcome::Failed(e) => appended(
                            old(activities)@.update(
                                i,
                                ConversationActivity::Approval(
                                    ApprovalCardViewModel { status: ApprovalCardStatus::Failed, ..m },
                                ),
                            ),
                            final(activities)@,
                        ) && is_protocol_error(
                            final(activities)@.last(),
                            "无法回复命令审批"@,
                            Some(e@),
                        ),
                        ApprovalResponseOutcome::NoResponder { request_known } => if request_known {
                            appended(
                                old(activities)@.update(
                                    i,
                                    ConversationActivity::Approval(
                                        ApprovalCardViewModel {
                                            status: ApprovalCardStatus::Failed,
                                            ..m
                                        },
                                    ),
                                ),
                                final(activities)@,
                            ) && is_protocol_error(
                                final(activities)@.last(),
                                "无法回复命令审批"@,
                                Some("命令审批 responder 不存在"@),
                            )
                        } else {
                            final(activities)@ == old(activities)@.update(
                                i,
                                ConversationActivity::Approval(
                                    ApprovalCardViewModel {
                                        status: ApprovalCardStatus::Submitting,
                                        ..m
                                    },
                                ),
                            )
                        },
                    }
                }
            },
        },
{
    let index = match approval_index(activities, request_id) {
        Some(i) => i,
        None => {
            return ;
        },
    };
    proof {
        lemma_first_index(activities@, approval_for(request_id@));
    }
    let ghost before = activities@;
    let mut item = ConversationActivity::Error { message: String::new() };
    activities.set_and_swap(index, &mut item);
    match item {
        ConversationActivity::Approval(mut model) => {
            let ghost m0 = model;
            let notice = model.apply_response(outcome);
            activities.set(index, ConversationActivity::Approval(model));
            match notice {
                Some(n) => {
                    proof {
                        assert(activities@ =~= before.update(
                            index as int,
                            ConversationActivity::Approval(model),
                        ));
                    }
                    let ghost restored = activities@;
                    activities.push(
                        ConversationActivity::ProtocolError {
                            message: n.message,
                            details: n.details,
                            will_retry: false,
                        },
                    );
                    proof {
                        assert(activities@.take(restored.len() as int) =~= restored);
                    }
                },
                None => {
                    proof {
                        assert(activities@ =~= before.update(
                            index as int,
                            ConversationActivity::Approval(model),
                        ));
                    }
                },
            }
        },
        other => {
            activities.set(index, other);
        },
    }
}

/// Applies an event of the file approval card for `request_id` (see
/// `FileApprovalPresentation::event_spec`) and returns what the caller does
/// next: send an answer and report it with
/// [`record_file_approval_response`], or stop the turn. Without such a
/// card nothing changes.
pub fn handle_file_approval_event(
    activities: &mut Vec<ConversationActivity>,
    request_id: &str,
    event: FileApprovalEvent,
) -> (a: FileApprovalAction)
    ensures
        (final(activities)@, a) == file_event_effect(old(activities)@, request_id@, event),
{
    let index = match file_approval_index(activities, request_id) {
        Some(i) => i,
        None => {
            return FileApprovalAction::Nothing;
        },
    };
    proof {
        lemma_first_index(activities@, file_approval_for(request_id@));
    }
    let mut item = ConversationActivity::Error { message: String::new() };
    activities.set_and_swap(index, &mut item);
    match item {
        ConversationActivity::FileApproval(mut model) => {
            let a = model.apply_event(event);
            activities.set(index, ConversationActivity::FileApproval(model));
            a
        },
        other => {
            activities.set(index, other);
            FileApprovalAction::Nothing
        },
    }
}

/// The activities after reporting `outcome` for the file approval card
/// `id`: the card moves on as `FileApprovalPresentation::response_card`
/// says, and a failure appends its protocol notice.
pub open spec fn file_response_effect(
    before: Seq<ConversationActivity>,
    after: Seq<ConversationActivity>,
    id: Seq<char>,
    outcome: ApprovalResponseOutcome,
) -> bool {
    match first_index(before, file_approval_for(id)) {
        None => after == before,
        Some(i) => {
            let m = before[i]->FileApproval_0;
            &&& i < after.len()
            &&& after[i] is FileApproval
            &&& m.response_card(outcome, after[i]->FileApproval_0)
            &&& match m.response_notice(outcome) {
                None => after == before.update(i, after[i]),
                Some(d) => appended(before.update(i, after[i]), after) && is_protocol_error(
                    after.last(),
                    "无法回复文件审批"@,
                    d,
                ),
            }
        },
    }
}

/// Records how answering the server for the file approval card
/// `request_id` went (see `FileApprovalPresentation::apply_response`); a
/// failure leaves the card shown as failed and adds a protocol notice.
pub fn record_file_approval_response(
    activities: &mut Vec<ConversationActivity>,
    request_id: &str,
    outcome: ApprovalResponseOutcome,
)
    ensures
        file_response_effect(old(activities)@, final(activities)@, request_id@, outcome),
{
    let index = match file_approval_index(activities, request_id) {
        Some(i) => i,
        None => {
            return ;
        },
    };
    proof {
        lemma_first_index(activities@, file_approval_for(request_id@));
    }
    let ghost before = activities@;
    let mut item = ConversationActivity::Error { message: String::new() };
    activities.set_and_swap(index, &mut item);
    match item {
        ConversationActivity::FileApproval(mut model) => {
            let notice = model.apply_response(outcome);
            activities.set(index, ConversationActivity::FileApproval(model));
            let ghost updated = activities@;
            proof {
                assert(updated =~= before.update(
                    index as int,
                    ConversationActivity::FileApproval(model),
                ));
            }
            match notice {
                Some(n) => {
                    activities.push(
                        ConversationActivity::ProtocolError {
                            message: n.message,
                            details: n.details,
                            will_retry: false,
                        },
                    );
                    proof {
                        assert(activities@.take(updated.len() as int) =~= updated);
                        assert(activities@[index as int] == updated[index as int]);
                    }
                },
                None => {},
            }
        },
        other => {
            activities.set(index, other);
        },
    }
}

/// A card that is shown: an approval or file approval card that waits
/// for a decision or whose answer failed.
pub open spec fn visible_card() -> spec_fn(ConversationActivity) -> bool {
    |a: ConversationActivity|
        (a matches ConversationActivity::Approval(m) && (m.status == ApprovalCardStatus::Pending
            || m.status == ApprovalCardStatus::Failed)) || (a matches ConversationActivity::FileApproval(
            m,
        ) && (m.status == FileApprovalStatus::Pending || m.status == FileApprovalStatus::Failed))
}

/// What a keystroke did to the conversation's approval cards.
#[derive(Clone, Debug, PartialEq, Eq)]
pub enum ApprovalKeyOutcome {
    /// No card took the key.
    Ignored,
    /// A card handled the key.
    Handled,
    /// The key decided a command approval: this answer goes to the server
    /// for `request_id`.
    Answer { request_id: String, choice: CommandApprovalChoice },
    /// The key decided a file approval: this answer goes to the server for
    /// `request_id`.
    FileAnswer { request_id: String, choice: FileApprovalChoice },
    /// The key stops the current turn from the file approval `request_id`,
    /// first declining it when `decline`.
    StopTurn { request_id: String, decline: bool },
}

/// What routing a keystroke to a card asks of the caller: the card's id,
/// the command answer to send, and the file approval action.
pub type KeyRouting = Option<(Seq<char>, Option<CommandApprovalChoice>, FileApprovalAction)>;

/// The effect of a keystroke: only the first shown card may take it, and
/// only by its own key handling (a failed command card takes none); the
/// cards behind it never see it.
pub open spec fn approval_key_effect(
    acts: Seq<ConversationActivity>,
    key: Seq<char>,
    shift: bool,
) -> (Seq<ConversationActivity>, KeyRouting) {
    match first_index(acts, visible_card()) {
        Some(i) => match acts[i] {
            ConversationActivity::Approval(m) => if m.status != ApprovalCardStatus::Pending {
                (acts, None)
            } else {
                match m.keyboard_spec(key_of(key), shift) {
                    Some(e) => {
                        let r = approval_event_effect(acts, m.request_id@, e);
                        (r.0, Some((m.request_id@, r.1, FileApprovalAction::Nothing)))
                    },
                    None => (acts, None),
                }
            },
            ConversationActivity::FileApproval(m) => match m.keyboard_spec(key_of(key), shift) {
                Some(e) => {
                    let r = file_event_effect(acts, m.request_id@, e);
                    (r.0, Some((m.request_id@, None, r.1)))
                },
                None => (acts, None),
            },
            _ => (acts, None),
        },
        None => (acts, None),
    }
}

/// The outcome reported for a routing.
pub open spec fn key_outcome_matches(routed: KeyRouting, outcome: ApprovalKeyOutcome) -> bool {
    match routed {
        None => outcome == ApprovalKeyOutcome::Ignored,
        Some((id, Some(c), _)) => outcome matches ApprovalKeyOutcome::Answer { request_id, choice }
            && request_id@ == id && choice == c,
        Some((id, None, FileApprovalAction::Answer(c))) => outcome matches ApprovalKeyOutcome::FileAnswer {
            request_id,
            choice,
        } && request_id@ == id && choice == c,
        Some((id, None, FileApprovalAction::StopTurn { decline: d })) => outcome matches ApprovalKeyOutcome::StopTurn {
            request_id,
            decline,
        } && request_id@ == id && decline == d,
        Some((_, None, FileApprovalAction::Nothing)) => outcome == ApprovalKeyOutcome::Handled,
    }
}

/// Routes a keystroke to the first shown approval card (see
/// `approval_key_effect`).
pub fn handle_approval_key(
    activities: &mut Vec<ConversationActivity>,
    key: &str,
    shift: bool,
) -> (outcome: ApprovalKeyOutcome)
    ensures
        ({
            let (after, routed) = approval_key_effect(old(activities)@, key@, shift);
            &&& final(activities)@ == after
            &&& key_outcome_matches(routed, outcome)
        }),
{
    let ghost p = visible_card();
    let mut i: usize = 0;
    proof {
        assert(activities@.take(0) =~= Seq::<ConversationActivity>::empty());
    }
    while i < activities.len()
        invariant
            i <= activities.len(),
            activities@ == old(activities)@,
            p == visible_card(),
            first_index(activities@.take(i as int), p) is None,
        decreases activities.len() - i,
    {
        proof {
            assert(activities@.take(i + 1).drop_last() =~= activities@.take(i as int));
            assert(activities@.take(i + 1).last() == activities@[i as int]);
        }
        let visible = match &activities[i] {
            ConversationActivity::Approval(m) => m.should_render(),
            ConversationActivity::FileApproval(m) => m.should_render(),
            _ => false,
        };
        if visible {
            proof {
                lemma_first_index_prefix(activities@, p, i + 1);
            }
            let command = match &activities[i] {
                ConversationActivity::Approval(m) => {
                    if m.status != ApprovalCardStatus::Pending {
                        return ApprovalKeyOutcome::Ignored;
                    }
                    match m.keyboard_event(key, shift) {
                        Some(event) => Some((m.request_id.clone(), event)),
                        None => {
                            return ApprovalKeyOutcome::Ignored;
                        },
                    }
                },
                _ => None,
            };
            match command {
                Some((request_id, event)) => {
                    let choice = handle_approval_card_event(activities, request_id.as_str(), event);
                    return match choice {
                        Some(choice) => ApprovalKeyOutcome::Answer { request_id, choice },
                        None => ApprovalKeyOutcome::Handled,
                    };
                },
                None => {},
            }
            let file = match &activities[i] {
                ConversationActivity::FileApproval(m) => match m.keyboard_event(key, shift) {
                    Some(event) => Some((m.request_id.clone(), event)),
                    None => None,
                },
                _ => None,
            };
            return match file {
                Some((request_id, event)) => {
                    let action = handle_file_approval_event(activities, request_id.as_str(), event);
                    match action {
                        FileApprovalAction::Answer(choice) => ApprovalKeyOutcome::FileAnswer {
                            request_id,
                            choice,
                        },
                        FileApprovalAction::StopTurn { decline } => ApprovalKeyOutcome::StopTurn {
                            request_id,
                            decline,
                        },
                        FileApprovalAction::Nothing => ApprovalKeyOutcome::Handled,
                    }
                },
                None => ApprovalKeyOutcome::Ignored,
            };
        }
        i += 1;
    }
    proof {
        assert(activities@.take(i as int) =~= activities@);
    }
    ApprovalKeyOutcome::Ignored
}

proof fn lemma_first_index_update(
    acts: Seq<ConversationActivity>,
    p: spec_fn(ConversationActivity) -> bool,
    k: int,
    x: ConversationActivity,
)
    requires
        first_index(acts, p) == Some(k),
        p(x),
    ensures
        first_index(acts.update(k, x), p) == Some(k),
    decreases acts.len(),
{
    lemma_first_index(acts, p);
    let u = acts.update(k, x);
    if k < acts.len() - 1 {
        assert(u.drop_last() =~= acts.drop_last().update(k, x));
        if first_index(acts.drop_last(), p) is None {
            lemma_first_index(acts.drop_last(), p);
            assert(acts.drop_last()[k] == acts[k]);
        }
        lemma_first_index_update(acts.drop_last(), p, k, x);
    } else {
        assert(u.drop_last() =~= acts.drop_last());
        lemma_first_index(acts.drop_last(), p);
        if let Some(j) = first_index(acts.drop_last(), p) {
            assert(acts.drop_last()[j] == acts[j]);
        }
    }
}

/// Once answering an approval card has been reported, whether it reached
/// the server or failed, the card takes no second decision: a repeated
/// click or key changes nothing and sends nothing.
pub proof fn lemma_answered_card_takes_no_second_decision(
    acts: Seq<ConversationActivity>,
    id: Seq<char>,
    first: ApprovalDecision,
    second: ApprovalDecision,
    reported: ApprovalCardStatus,
)
    requires
        approval_event_effect(acts, id, ApprovalCardEvent::Decision(first)).1 is Some,
        reported == ApprovalCardStatus::Submitting || reported == ApprovalCardStatus::Failed,
    ensures
        ({
            let i = first_index(acts, approval_for(id))->0;
            let m = acts[i]->Approval_0;
            let sent = acts.update(
                i,
                ConversationActivity::Approval(ApprovalCardViewModel { status: reported, ..m }),
            );
            approval_event_effect(sent, id, ApprovalCardEvent::Decision(second)) == (sent, None::<
                CommandApprovalChoice,
            >)
        }),
{
    let p = approval_for(id);
    lemma_first_index(acts, p);
    let i = first_index(acts, p)->0;
    let m = acts[i]->Approval_0;
    let x = ConversationActivity::Approval(ApprovalCardViewModel { status: reported, ..m });
    lemma_first_index_update(acts, p, i, x);
}

/// The index of the card a keystroke acts on, if any.
pub open spec fn key_target(acts: Seq<ConversationActivity>, key: Seq<char>, shift: bool) -> Option<
    int,
> {
    match first_index(acts, visible_card()) {
        Some(i) => match acts[i] {
            ConversationActivity::Approval(m) => if m.status == ApprovalCardStatus::Pending
                && m.keyboard_spec(key_of(key), shift) is Some {
                first_index(acts, approval_for(m.request_id@))
            } else {
                None
            },
            ConversationActivity::FileApproval(m) => if m.keyboard_spec(key_of(key), shift) is Some {
                first_index(acts, file_approval_for(m.request_id@))
            } else {
                None
            },
            _ => None,
        },
        None => None,
    }
}

/// A keystroke changes at most one activity of the conversation: the card
/// it acts on; every other activity stays as it was.
pub proof fn lemma_key_reaches_at_most_one_card(
    acts: Seq<ConversationActivity>,
    key: Seq<char>,
    shift: bool,
)
    ensures
        ({
            let after = approval_key_effect(acts, key, shift).0;
            let target = key_target(acts, key, shift);
            &&& after.len() == acts.len()
            &&& forall|j: int|
                0 <= j < acts.len() && target != Some(j) ==> #[trigger] after[j] == acts[j]
        }),
{
    if let Some(i) = first_index(acts, visible_card()) {
        lemma_first_index(acts, visible_card());
        match acts[i] {
            ConversationActivity::Approval(m) => {
                lemma_first_index(acts, approval_for(m.request_id@));
            },
            ConversationActivity::FileApproval(m) => {
                lemma_first_index(acts, file_approval_for(m.request_id@));
            },
            _ => {},
        }
    }
}

/// The kinds of request cards that show over the conversation.
#[derive(Clone, Copy, Debug, PartialEq, Eq, Structural)]
pub enum RequestKind {
    Command,
    UserInput,
    File,
    Permissions,
}

/// A shown card of the given kind: it waits for an answer, or its answer
/// failed.
pub open spec fn shown_request(kind: RequestKind) -> spec_fn(ConversationActivity) -> bool {
    |a: ConversationActivity|
        match kind {
            RequestKind::Command => a matches ConversationActivity::Approval(m) && (m.status
                == ApprovalCardStatus::Pending || m.status == ApprovalCardStatus::Failed),
            RequestKind::UserInput => a matches ConversationActivity::UserInput(m) && (m.status
                == UserInputRequestStatus::Pending || m.status == UserInputRequestStatus::Failed),
            RequestKind::File => a matches ConversationActivity::FileApproval(m) && (m.status
                == FileApprovalStatus::Pending || m.status == FileApprovalStatus::Failed),
            RequestKind::Permissions => a matches ConversationActivity::PermissionsApproval(m) && (
            m.status == PermissionApprovalStatus::Pending || m.status
                == PermissionApprovalStatus::Failed),
        }
}

fn is_shown(a: &ConversationActivity, kind: RequestKind) -> (b: bool)
    ensures
        b == shown_request(kind)(*a),
{
    match (a, kind) {
        (ConversationActivity::Approval(m), RequestKind::Command) => m.should_render(),
        (ConversationActivity::UserInput(m), RequestKind::UserInput) => m.should_render(),
        (ConversationActivity::FileApproval(m), RequestKind::File) => m.should_render(),
        (ConversationActivity::PermissionsApproval(m), RequestKind::Permissions) => m.should_render(),
        _ => false,
    }
}

/// The first shown card of `kind`, if any.
pub fn first_shown(acts: &Vec<ConversationActivity>, kind: RequestKind) -> (r: Option<usize>)
    ensures
        opt_index(r) == first_index(acts@, shown_request(kind)),
{
    let ghost p = shown_request(kind);
    let mut i: usize = 0;
    proof {
        assert(acts@.take(0) =~= Seq::<ConversationActivity>::empty());
    }
    while i < acts.len()
        invariant
            i <= acts.len(),
            p == shown_request(kind),
            first_index(acts@.take(i as int), p) is None,
        decreases acts.len() - i,
    {
        proof {
            assert(acts@.take(i + 1).drop_last() =~= acts@.take(i as int));
            assert(acts@.take(i + 1).last() == acts@[i as int]);
        }
        if is_shown(&acts[i], kind) {
            proof {
                lemma_first_index_prefix(acts@, p, i + 1);
            }
            return Some(i);
        }
        i += 1;
    }
    proof {
        assert(acts@.take(i as int) =~= acts@);
    }
    None
}

/// The request cards shown over the conversation: of each kind only the
/// first shown one, so concurrent requests of a kind appear one at a time;
/// while any is shown the composer is hidden.
#[derive(Clone, Copy, Debug, PartialEq, Eq)]
pub struct ShownRequests {
    pub command: Option<usize>,
    pub user_input: Option<usize>,
    pub file: Option<usize>,
    pub permissions: Option<usize>,
    pub blocking: bool,
}

/// The request cards to show (see [`ShownRequests`]).
pub fn shown_requests(acts: &Vec<ConversationActivity>) -> (r: ShownRequests)
    ensures
        opt_index(r.command) == first_index(acts@, shown_request(RequestKind::Command)),
        opt_index(r.user_input) == first_index(acts@, shown_request(RequestKind::UserInput)),
        opt_index(r.file) == first_index(acts@, shown_request(RequestKind::File)),
        opt_index(r.permissions) == first_index(acts@, shown_request(RequestKind::Permissions)),
        r.blocking == (r.command is Some || r.user_input is Some || r.file is Some
            || r.permissions is Some),
{
    let command = first_shown(acts, RequestKind::Command);
    let user_input = first_shown(acts, RequestKind::UserInput);
    let file = first_shown(acts, RequestKind::File);
    let permissions = first_shown(acts, RequestKind::Permissions);
    ShownRequests {
        command,
        user_input,
        file,
        permissions,
        blocking: command.is_some() || user_input.is_some() || file.is_some()
            || permissions.is_some(),
    }
}

/// The activities after the server released request `id` for cards of
/// `kind`: the first such card with that id is resolved, and no longer
/// shown or answered. A permissions card settles when it is answered, so
/// the release leaves it as it is.
pub open spec fn resolved_kind(acts: Seq<ConversationActivity>, id: Seq<char>, kind: RequestKind) -> Seq<
    ConversationActivity,
> {
    match kind {
        RequestKind::Command => match first_index(acts, approval_for(id)) {
            Some(i) => acts.update(
                i,
                ConversationActivity::Approval(
                    ApprovalCardViewModel {
                        status: ApprovalCardStatus::Resolved,
                        ..acts[i]->Approval_0
                    },
                ),
            ),
            None => acts,
        },
        RequestKind::File => match first_index(acts, file_approval_for(id)) {
            Some(i) => acts.update(
                i,
                ConversationActivity::FileApproval(
                    FileApprovalPresentation {
                        status: FileApprovalStatus::Resolved,
                        ..acts[i]->FileApproval_0
                    },
                ),
            ),
            None => acts,
        },
        RequestKind::UserInput => match first_index(acts, user_input_for(id)) {
            Some(i) => acts.update(
                i,
                ConversationActivity::UserInput(
                    UserInputRequestPresentation {
                        status: UserInputRequestStatus::Resolved,
                        ..acts[i]->UserInput_0
                    },
                ),
            ),
            None => acts,
        },
        RequestKind::Permissions => acts,
    }
}

fn resolve_kind(activities: &mut Vec<ConversationActivity>, request_id: &str, kind: RequestKind)
    ensures
        final(activities)@ == resolved_kind(old(activities)@, request_id@, kind),
{
    let found = match kind {
        RequestKind::Command => approval_index(activities, request_id),
        RequestKind::File => file_approval_index(activities, request_id),
        RequestKind::UserInput => first_user_input(activities, request_id),
        RequestKind::Permissions => None,
    };
    let index = match found {
        Some(i) => i,
        None => {
            return ;
        },
    };
    proof {
        match kind {
            RequestKind::Command => lemma_first_index(activities@, approval_for(request_id@)),
            RequestKind::File => lemma_first_index(activities@, file_approval_for(request_id@)),
            RequestKind::UserInput => lemma_first_index(activities@, user_input_for(request_id@)),
            RequestKind::Permissions => {},
        }
    }
    let mut item = ConversationActivity::Error { message: String::new() };
    activities.set_and_swap(index, &mut item);
    let resolved = match item {
        ConversationActivity::Approval(mut m) => {
            m.status = ApprovalCardStatus::Resolved;
            ConversationActivity::Approval(m)
        },
        ConversationActivity::FileApproval(mut m) => {
            m.status = FileApprovalStatus::Resolved;
            ConversationActivity::FileApproval(m)
        },
        ConversationActivity::UserInput(mut m) => {
            m.status = UserInputRequestStatus::Resolved;
            ConversationActivity::UserInput(m)
        },
        other => other,
    };
    activities.set(index, resolved);
}

/// The activities after the server released request `id`: its command,
/// file or user input card is resolved (see `resolved_kind`).
pub open spec fn request_released(acts: Seq<ConversationActivity>, id: Seq<char>) -> Seq<
    ConversationActivity,
> {
    resolved_kind(
        resolved_kind(resolved_kind(acts, id, RequestKind::Command), id, RequestKind::File),
        id,
        RequestKind::UserInput,
    )
}

/// Applies the server's release of request `request_id` (see
/// `request_released`): the card it answered leaves the screen for good.
pub fn release_request(activities: &mut Vec<ConversationActivity>, request_id: &str)
    ensures
        final(activities)@ == request_released(old(activities)@, request_id@),
{
    resolve_kind(activities, request_id, RequestKind::Command);
    resolve_kind(activities, request_id, RequestKind::File);
    resolve_kind(activities, request_id, RequestKind::UserInput);
}

/// An activity once the turn stopped: a request card still shown (waiting
/// or failed) is resolved; everything else stays.
pub open spec fn stopped(a: ConversationActivity) -> ConversationActivity {
    match a {
        ConversationActivity::Approval(m) => if m.status == ApprovalCardStatus::Pending || m.status
            == ApprovalCardStatus::Failed {
            ConversationActivity::Approval(
                ApprovalCardViewModel { status: ApprovalCardStatus::Resolved, ..m },
            )
        } else {
            a
        },
        ConversationActivity::FileApproval(m) => if m.status == FileApprovalStatus::Pending
            || m.status == FileApprovalStatus::Failed {
            ConversationActivity::FileApproval(
                FileApprovalPresentation { status: FileApprovalStatus::Resolved, ..m },
            )
        } else {
            a
        },
        ConversationActivity::UserInput(m) => if m.status == UserInputRequestStatus::Pending
            || m.status == UserInputRequestStatus::Failed {
            ConversationActivity::UserInput(
                UserInputRequestPresentation { status: UserInputRequestStatus::Resolved, ..m },
            )
        } else {
            a
        },
        _ => a,
    }
}

/// Stopping the turn leaves every error state: all request cards still
/// shown, waiting or failed, are resolved and leave the screen.
pub fn stop_turn_requests(activities: &mut Vec<ConversationActivity>)
    ensures
        final(activities)@.len() == old(activities)@.len(),
        forall|j: int|
            0 <= j < old(activities)@.len() ==> #[trigger] final(activities)@[j] == stopped(
                old(activities)@[j],
            ),
{
    let ghost before = activities@;
    let mut i: usize = 0;
    while i < activities.len()
        invariant
            i <= activities.len(),
            activities@.len() == before.len(),
            forall|j: int| 0 <= j < i ==> #[trigger] activities@[j] == stopped(before[j]),
            forall|j: int| i <= j < before.len() ==> #[trigger] activities@[j] == before[j],
        decreases activities.len() - i,
    {
        let mut item = ConversationActivity::Error { message: String::new() };
        activities.set_and_swap(i, &mut item);
        let next = match item {
            ConversationActivity::Approval(mut m) => {
                if m.should_render() {
                    m.status = ApprovalCardStatus::Resolved;
                }
                ConversationActivity::Approval(m)
            },
            ConversationActivity::FileApproval(mut m) => {
                if m.should_render() {
                    m.status = FileApprovalStatus::Resolved;
                }
                ConversationActivity::FileApproval(m)
            },
            ConversationActivity::UserInput(mut m) => {
                if m.should_render() {
                    m.status = UserInputRequestStatus::Resolved;
                }
                ConversationActivity::UserInput(m)
            },
            other => other,
        };
        activities.set(i, next);
        i += 1;
    }
}

} // verus!
