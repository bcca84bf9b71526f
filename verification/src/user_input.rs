//! A request for user input: questions answered one at a time (an option,
//! an "Other" answer, or a skip), the events of its card, and how answering
//! the server went.

use vstd::prelude::*;

use crate::activity::ConversationActivity;
use crate::approval::ApprovalResponseOutcome;
use crate::requests::{
    appended, first_index, is_protocol_error, lemma_first_index, lemma_first_index_prefix,
    opt_index,
};
use crate::text::{concat2, concat3, opt_string, str_eq, to_owned_string};

verus! {

#[derive(Clone, Copy, Debug, Default, PartialEq, Eq, Structural)]
pub enum UserInputRequestStatus {
    #[default]
    Pending,
    /// The answers were handed to the server; the card is no longer shown.
    Submitting,
    /// Handing the answers to the server failed: the card stays shown with
    /// its failure message and takes no further event.
    Failed,
    Resolved,
}

/// A request for user input. `answers` holds one entry per question:
/// the saved answer, or none for a skipped or unanswered question.
#[derive(Clone, Debug, PartialEq, Eq)]
pub struct UserInputRequestPresentation {
    pub request_id: String,
    pub question_ids: Vec<String>,
    pub answers: Vec<Option<String>>,
    pub current: usize,
    /// The text typed into the "Other" field of the current question.
    pub other_answer: String,
    pub selected_option_index: Option<usize>,
    pub active_option_index: Option<usize>,
    pub other_focused: bool,
    pub status: UserInputRequestStatus,
    pub failure_message: Option<String>,
}

/// The request as plain values.
pub struct UserInputView {
    pub request_id: Seq<char>,
    pub question_ids: Seq<Seq<char>>,
    pub answers: Seq<Option<Seq<char>>>,
    pub current: int,
    pub other_answer: Seq<char>,
    pub selected_option_index: Option<usize>,
    pub active_option_index: Option<usize>,
    pub other_focused: bool,
    pub status: UserInputRequestStatus,
    pub failure_message: Option<Seq<char>>,
}

impl View for UserInputRequestPresentation {
    type V = UserInputView;

    open spec fn view(&self) -> UserInputView {
        UserInputView {
            request_id: self.request_id@,
            question_ids: self.question_ids@.map_values(|s: String| s@),
            answers: self.answers@.map_values(|a: Option<String>| opt_string(a)),
            current: self.current as int,
            other_answer: self.other_answer@,
            selected_option_index: self.selected_option_index,
            active_option_index: self.active_option_index,
            other_focused: self.other_focused,
            status: self.status,
            failure_message: opt_string(self.failure_message),
        }
    }
}

impl UserInputView {
    /// The id of the question shown.
    pub open spec fn current_id(self) -> Option<Seq<char>> {
        if 0 <= self.current < self.question_ids.len() {
            Some(self.question_ids[self.current])
        } else {
            None
        }
    }

    pub open spec fn is_multi_question(self) -> bool {
        self.question_ids.len() > 1
    }

    /// The request with the current question's answer set to `a`.
    pub open spec fn with_answer(self, a: Option<Seq<char>>) -> Self {
        if 0 <= self.current < self.answers.len() {
            UserInputView { answers: self.answers.update(self.current, a), ..self }
        } else {
            self
        }
    }

    /// Saves the option at `index`, labelled `label`, as the answer.
    pub open spec fn select(self, index: usize, label: Seq<char>) -> Self {
        UserInputView { selected_option_index: Some(index), ..self.with_answer(Some(label)) }
    }

    /// Saves the "Other" text as the answer.
    pub open spec fn save_other(self, answer: Seq<char>) -> Self {
        UserInputView {
            other_answer: answer,
            selected_option_index: None,
            ..self.with_answer(Some(answer))
        }
    }

    /// Skips the current question.
    pub open spec fn skip(self) -> Self {
        UserInputView { selected_option_index: None, ..self.with_answer(None) }
    }

    /// Keeps a typed "Other" draft as the answer before moving on.
    pub open spec fn persist(self) -> Self {
        if self.other_answer.len() > 0 {
            self.with_answer(Some(self.other_answer))
        } else {
            self
        }
    }

    /// The request showing question `index`, with a fresh selection.
    pub open spec fn at_question(self, index: int) -> Self {
        UserInputView {
            current: index,
            other_answer: Seq::empty(),
            selected_option_index: None,
            active_option_index: None,
            other_focused: false,
            ..self
        }
    }

    /// Moves to the next question if there is one, and tells whether it did.
    pub open spec fn next(self) -> (Self, bool) {
        if self.current + 1 < self.question_ids.len() {
            (self.at_question(self.current + 1), true)
        } else {
            (self, false)
        }
    }

    /// Moves to the previous question if there is one.
    pub open spec fn previous(self) -> Self {
        if self.current > 0 {
            self.at_question(self.current - 1)
        } else {
            self
        }
    }

    /// After an answer: submit unless another question follows.
    pub open spec fn advance(self) -> (Self, bool) {
        if !self.is_multi_question() {
            (self, true)
        } else {
            let (n, moved) = self.next();
            (n, !moved)
        }
    }

    /// The answers sent to the server: each question's id with its saved
    /// answer, or with no answer.
    pub open spec fn response_answers(self) -> Seq<(Seq<char>, Seq<Seq<char>>)> {
        Seq::new(
            self.question_ids.len(),
            |k: int|
                (
                    self.question_ids[k],
                    if k < self.answers.len() && self.answers[k] is Some {
                        seq![self.answers[k]->0]
                    } else {
                        Seq::empty()
                    },
                ),
        )
    }
}

impl UserInputRequestPresentation {
    /// A new request waiting on its first question.
    pub fn pending(request_id: String, question_ids: Vec<String>) -> (m: Self)
        ensures
            m@.request_id == request_id@,
            m@.question_ids == question_ids@.map_values(|s: String| s@),
            m@.answers.len() == question_ids@.len(),
            forall|k: int| 0 <= k < question_ids@.len() ==> #[trigger] m@.answers[k] is None,
            m@.current == 0,
            m@.other_answer.len() == 0,
            m@.selected_option_index is None,
            m@.active_option_index is None,
            !m@.other_focused,
            m@.status == UserInputRequestStatus::Pending,
            m@.failure_message is None,
    {
        let mut answers: Vec<Option<String>> = Vec::new();
        let mut k: usize = 0;
        while k < question_ids.len()
            invariant
                k <= question_ids.len(),
                answers@.len() == k,
                forall|j: int| 0 <= j < k ==> #[trigger] answers@[j] is None,
            decreases question_ids.len() - k,
        {
            answers.push(None);
            k += 1;
        }
        UserInputRequestPresentation {
            request_id,
            question_ids,
            answers,
            current: 0,
            other_answer: String::new(),
            selected_option_index: None,
            active_option_index: None,
            other_focused: false,
            status: UserInputRequestStatus::Pending,
            failure_message: None,
        }
    }

    /// Whether the card is shown: while it waits for answers, and after a
    /// failed reply.
    pub fn should_render(&self) -> (b: bool)
        ensures
            b == (self.status == UserInputRequestStatus::Pending || self.status
                == UserInputRequestStatus::Failed),
    {
        self.status == UserInputRequestStatus::Pending || self.status
            == UserInputRequestStatus::Failed
    }

    /// Whether the card takes events: only while it waits for answers.
    pub fn is_interactive(&self) -> (b: bool)
        ensures
            b == (self.status == UserInputRequestStatus::Pending),
    {
        self.status == UserInputRequestStatus::Pending
    }

    /// Whether the request asks more than one question.
    pub fn is_multi_question(&self) -> (b: bool)
        ensures
            b == self@.is_multi_question(),
    {
        self.question_ids.len() > 1
    }

    /// The id of the question shown, if any.
    pub fn current_question_id(&self) -> (r: Option<&String>)
        ensures
            match r {
                Some(s) => self@.current_id() == Some(s@),
                None => self@.current_id() is None,
            },
    {
        if self.current < self.question_ids.len() {
            Some(&self.question_ids[self.current])
        } else {
            None
        }
    }

    fn set_answer(&mut self, a: Option<String>)
        ensures
            final(self)@ == old(self)@.with_answer(opt_string(a)),
    {
        if self.current < self.answers.len() {
            let ghost before = self@;
            self.answers.set(self.current, a);
            proof {
                assert(self@.answers =~= before.answers.update(before.current, opt_string(a)));
            }
        }
    }

    /// Saves the option at `index`, labelled `label`, for the current
    /// question.
    pub fn save_selected_option(&mut self, index: usize, label: String)
        ensures
            final(self)@ == old(self)@.select(index, label@),
    {
        self.set_answer(Some(label));
        self.selected_option_index = Some(index);
    }

    /// Saves the "Other" text for the current question.
    pub fn save_other_answer(&mut self, answer: String)
        ensures
            final(self)@ == old(self)@.save_other(answer@),
    {
        self.other_answer = answer.clone();
        self.set_answer(Some(answer));
        self.selected_option_index = None;
    }

    /// Skips the current question.
    pub fn skip_current_question(&mut self)
        ensures
            final(self)@ == old(self)@.skip(),
    {
        self.set_answer(None);
        self.selected_option_index = None;
    }

    /// Keeps a typed "Other" draft as the current question's answer.
    pub fn persist_current_answer(&mut self)
        ensures
            final(self)@ == old(self)@.persist(),
    {
        if self.other_answer.unicode_len() > 0 {
            let draft = self.other_answer.clone();
            self.set_answer(Some(draft));
        }
    }

    fn show_question(&mut self, index: usize)
        ensures
            final(self)@ == old(self)@.at_question(index as int),
    {
        self.current = index;
        self.other_answer = String::new();
        self.selected_option_index = None;
        self.active_option_index = None;
        self.other_focused = false;
    }

    /// Moves to the next question if there is one; tells whether it did.
    pub fn next_question(&mut self) -> (moved: bool)
        ensures
            (final(self)@, moved) == old(self)@.next(),
    {
        if self.current < self.question_ids.len() && self.current + 1 < self.question_ids.len() {
            let next = self.current + 1;
            self.show_question(next);
            true
        } else {
            false
        }
    }

    /// Moves to the previous question if there is one.
    pub fn previous_question(&mut self)
        ensures
            final(self)@ == old(self)@.previous(),
    {
        if self.current > 0 {
            let previous = self.current - 1;
            self.show_question(previous);
        }
    }

    /// After an answer, moves on; tells whether the request is complete.
    fn advance(&mut self) -> (submit: bool)
        ensures
            (final(self)@, submit) == old(self)@.advance(),
    {
        !self.is_multi_question() || !self.next_question()
    }
}

/// An event of the user input card.
#[derive(Clone, Debug, PartialEq, Eq)]
pub enum UserInputRequestEvent {
    SelectOption { question_id: String, option_index: usize, label: String },
    BeginOtherAnswer { question_id: String },
    SubmitOtherAnswer { question_id: String, answer: String },
    Skip,
    PreviousQuestion,
    NextQuestion,
    Dismiss,
    ActiveOptionChanged(Option<usize>),
}

/// One question's answers as sent to the server.
#[derive(Clone, Debug, PartialEq, Eq)]
pub struct UserInputAnswer {
    pub question_id: String,
    pub answers: Vec<String>,
}

/// What the caller does after a user input event.
#[derive(Clone, Debug, PartialEq, Eq)]
pub enum UserInputAction {
    Nothing,
    /// Send these answers to the server, then report how it went with
    /// [`record_user_input_response`].
    Respond(Vec<UserInputAnswer>),
}

/// The answers as plain values.
pub open spec fn answers_view(a: Seq<UserInputAnswer>) -> Seq<(Seq<char>, Seq<Seq<char>>)> {
    a.map_values(|x: UserInputAnswer| (x.question_id@, x.answers@.map_values(|s: String| s@)))
}

/// An event on a waiting card: the request afterwards, whether the answers
/// go to the server now (and whether as a dismissal, with no answers), and,
/// for an event naming another question than the one shown, the kind of
/// event and the id it named.
pub struct UserInputStep {
    pub view: UserInputView,
    pub submit: bool,
    pub dismiss: bool,
    pub mismatch: Option<(Seq<char>, Seq<char>)>,
}

pub open spec fn plain_step(view: UserInputView, submit: bool) -> UserInputStep {
    UserInputStep { view, submit, dismiss: false, mismatch: None }
}

pub open spec fn mismatch_step(view: UserInputView, kind: Seq<char>, id: Seq<char>) -> UserInputStep {
    UserInputStep { view, submit: false, dismiss: false, mismatch: Some((kind, id)) }
}

/// What an event does to a waiting card: answering the shown question moves
/// on (submitting after the last one, or at once for a single question);
/// moving between questions keeps a typed draft; an event that names
/// another question than the one shown changes nothing.
pub open spec fn event_step(v: UserInputView, event: UserInputRequestEvent) -> UserInputStep {
    match event {
        UserInputRequestEvent::SelectOption { question_id, option_index, label } => if v.current_id()
            != Some(question_id@) {
            mismatch_step(v, "选择事件"@, question_id@)
        } else {
            let (n, submit) = v.select(option_index, label@).advance();
            plain_step(n, submit)
        },
        UserInputRequestEvent::BeginOtherAnswer { question_id } => if v.current_id() != Some(
            question_id@,
        ) {
            mismatch_step(v, "Other 事件"@, question_id@)
        } else {
            plain_step(UserInputView { active_option_index: None, other_focused: true, ..v }, false)
        },
        UserInputRequestEvent::SubmitOtherAnswer { question_id, answer } => if v.current_id()
            != Some(question_id@) {
            mismatch_step(v, "Other 提交"@, question_id@)
        } else {
            let (n, submit) = v.save_other(answer@).advance();
            plain_step(n, submit)
        },
        UserInputRequestEvent::Skip => {
            let (n, submit) = v.skip().advance();
            plain_step(n, submit)
        },
        UserInputRequestEvent::PreviousQuestion => plain_step(v.persist().previous(), false),
        UserInputRequestEvent::NextQuestion => {
            let (n, moved) = v.persist().next();
            plain_step(n, !moved)
        },
        UserInputRequestEvent::Dismiss => UserInputStep {
            view: v,
            submit: true,
            dismiss: true,
            mismatch: None,
        },
        UserInputRequestEvent::ActiveOptionChanged(index) => plain_step(
            UserInputView {
                active_option_index: match index {
                    Some(i) => Some(i),
                    None => v.selected_option_index,
                },
                ..v
            },
            false,
        ),
    }
}

/// `format!("{:?}", id)` of std for an optional question id.
pub uninterp spec fn std_debug_option_string(id: Option<Seq<char>>) -> Seq<char>;

/// Formats an optional question id with std's `Debug` (`format!("{:?}")`).
/// The contract names the text and states only that no id prints as
/// `None`, as the derived `Debug` of `Option` does; the quoting and
/// escaping of an id are left unsaid.
#[verifier::external_body]
fn debug_question_id(id: Option<&String>) -> (r: String)
    ensures
        r@ == std_debug_option_string(
            match id {
                Some(s) => Some(s@),
                None => None,
            },
        ),
        id is None ==> r@ == "None"@,
{
    format!("{:?}", id)
}

/// The details of the notice for an event of `kind` naming question `id`
/// while the question shown prints (with std's `Debug`) as `shown`.
pub open spec fn mismatch_message(kind: Seq<char>, id: Seq<char>, shown: Seq<char>) -> Seq<char> {
    kind + " question id `"@ + id + "` 与当前 question id "@ + shown + " 不一致"@
}

/// The details of the notice for an event naming the wrong question.
pub open spec fn mismatch_details(kind: Seq<char>, id: Seq<char>, current: Option<Seq<char>>) -> Seq<
    char,
> {
    mismatch_message(kind, id, std_debug_option_string(current))
}

/// The details of the notice for an event of `kind` naming question `id`,
/// given the `Debug` text of the question shown (see `mismatch_message`).
pub fn mismatch_message_text(kind: &str, id: &str, shown: &str) -> (t: String)
    ensures
        t@ == mismatch_message(kind@, id@, shown@),
{
    let head = concat3(kind, " question id `", id);
    let middle = concat3(head.as_str(), "` 与当前 question id ", shown);
    concat2(middle.as_str(), " 不一致")
}

fn mismatch_text(kind: &str, id: &str, current: Option<&String>) -> (t: String)
    ensures
        t@ == mismatch_details(
            kind@,
            id@,
            match current {
                Some(s) => Some(s@),
                None => None,
            },
        ),
{
    let shown = debug_question_id(current);
    mismatch_message_text(kind, id, shown.as_str())
}

/// The user input card for `id`.
pub open spec fn user_input_for(id: Seq<char>) -> spec_fn(ConversationActivity) -> bool {
    |a: ConversationActivity| a matches ConversationActivity::UserInput(m) && m.request_id@ == id
}

/// `after` is `before` with the user input card at `i` replaced by one
/// whose view is `v`.
pub open spec fn card_replaced(
    before: Seq<ConversationActivity>,
    after: Seq<ConversationActivity>,
    i: int,
    v: UserInputView,
) -> bool {
    &&& 0 <= i < before.len()
    &&& after.len() == before.len()
    &&& forall|j: int| 0 <= j < before.len() && j != i ==> #[trigger] after[j] == before[j]
    &&& after[i] matches ConversationActivity::UserInput(m) && m@ == v
}

/// The activities, and what the caller does, after `event` for the user
/// input card `id` (see [`handle_user_input_request_event`]).
pub open spec fn user_input_event_effect(
    before: Seq<ConversationActivity>,
    after: Seq<ConversationActivity>,
    id: Seq<char>,
    event: UserInputRequestEvent,
    action: UserInputAction,
) -> bool {
    match first_index(before, user_input_for(id)) {
        None => after == before && action == UserInputAction::Nothing,
        Some(i) => {
            let v = before[i]->UserInput_0@;
            if v.status != UserInputRequestStatus::Pending {
                after == before && action == UserInputAction::Nothing
            } else {
                let st = event_step(v, event);
                match st.mismatch {
                    Some((kind, qid)) => appended(before, after) && is_protocol_error(
                        after.last(),
                        "用户输入请求事件标识不一致"@,
                        Some(mismatch_details(kind, qid, v.current_id())),
                    ) && action == UserInputAction::Nothing,
                    None => card_replaced(before, after, i, st.view) && if st.submit {
                        action matches UserInputAction::Respond(answers) && answers_view(answers@)
                            == (if st.dismiss {
                            Seq::empty()
                        } else {
                            st.view.response_answers()
                        })
                    } else {
                        action == UserInputAction::Nothing
                    },
                }
            }
        },
    }
}

/// The index of the first user input card for `request_id`.
pub fn first_user_input(acts: &Vec<ConversationActivity>, request_id: &str) -> (r: Option<usize>)
    ensures
        opt_index(r) == first_index(acts@, user_input_for(request_id@)),
{
    let ghost p = user_input_for(request_id@);
    let mut i: usize = 0;
    proof {
        assert(acts@.take(0) =~= Seq::<ConversationActivity>::empty());
    }
    while i < acts.len()
        invariant
            i <= acts.len(),
            p == user_input_for(request_id@),
            first_index(acts@.take(i as int), p) is None,
        decreases acts.len() - i,
    {
        proof {
            assert(acts@.take(i + 1).drop_last() =~= acts@.take(i as int));
            assert(acts@.take(i + 1).last() == acts@[i as int]);
        }
        let found = match &acts[i] {
            ConversationActivity::UserInput(m) => str_eq(m.request_id.as_str(), request_id),
            _ => false,
        };
        if found {
            proof {
                lemma_first_index_prefix(acts@, p, i + 1);
            }
            return Some(i);
        }
        i += 1;
    }
    proof {
        assert(acts@.take(i as int) =~= acts@);
    }
    None
}

impl UserInputRequestPresentation {
    /// Whether `id` names the question shown.
    fn is_current(&self, id: &str) -> (b: bool)
        ensures
            b == (self@.current_id() == Some(id@)),
    {
        match self.current_question_id() {
            Some(c) => str_eq(c.as_str(), id),
            None => false,
        }
    }

    /// The answers to send (see `UserInputView::response_answers`).
    pub fn response_answers(&self) -> (r: Vec<UserInputAnswer>)
        ensures
            answers_view(r@) == self@.response_answers(),
    {
        let ghost target = self@.response_answers();
        let mut out: Vec<UserInputAnswer> = Vec::new();
        let mut k: usize = 0;
        while k < self.question_ids.len()
            invariant
                k <= self.question_ids.len(),
                target == self@.response_answers(),
                answers_view(out@) == target.take(k as int),
            decreases self.question_ids.len() - k,
        {
            let mut answers: Vec<String> = Vec::new();
            if k < self.answers.len() {
                match &self.answers[k] {
                    Some(a) => {
                        answers.push(a.clone());
                    },
                    None => {},
                }
            }
            let ghost before = out@;
            let ghost t = target[k as int];
            let qid = self.question_ids[k].clone();
            proof {
                assert(self@.question_ids[k as int] == self.question_ids@[k as int]@);
                if k < self.answers@.len() {
                    assert(self@.answers[k as int] == opt_string(self.answers@[k as int]));
                }
                assert(answers@.map_values(|s: String| s@) =~= t.1);
                assert(t.0 == qid@);
            }
            out.push(UserInputAnswer { question_id: qid, answers });
            proof {
                assert(answers_view(out@) =~= answers_view(before).push(t));
                assert(target.take(k + 1) =~= target.take(k as int).push(t));
            }
            k += 1;
        }
        proof {
            assert(target.take(k as int) =~= target);
        }
        out
    }

    /// Applies an event to a waiting card (see `event_step`); returns
    /// whether to submit, whether as a dismissal, and the mismatch notice.
    fn step(&mut self, event: UserInputRequestEvent) -> (r: (bool, bool, Option<String>))
        requires
            old(self)@.status == UserInputRequestStatus::Pending,
        ensures
            ({
                let st = event_step(old(self)@, event);
                &&& r.0 == st.submit
                &&& r.1 == st.dismiss
                &&& match st.mismatch {
                    Some((kind, qid)) => *final(self) == *old(self) && (r.2 matches Some(t) && t@
                        == mismatch_details(kind, qid, old(self)@.current_id())),
                    None => final(self)@ == st.view && r.2 is None,
                }
            }),
    {
        match event {
            UserInputRequestEvent::SelectOption { question_id, option_index, label } => {
                if !self.is_current(question_id.as_str()) {
                    let t = mismatch_text("选择事件", question_id.as_str(), self.current_question_id());
                    return (false, false, Some(t));
                }
                self.save_selected_option(option_index, label);
                (self.advance(), false, None)
            },
            UserInputRequestEvent::BeginOtherAnswer { question_id } => {
                if !self.is_current(question_id.as_str()) {
                    let t = mismatch_text("Other 事件", question_id.as_str(), self.current_question_id());
                    return (false, false, Some(t));
                }
                self.active_option_index = None;
                self.other_focused = true;
                (false, false, None)
            },
            UserInputRequestEvent::SubmitOtherAnswer { question_id, answer } => {
                if !self.is_current(question_id.as_str()) {
                    let t = mismatch_text("Other 提交", question_id.as_str(), self.current_question_id());
                    return (false, false, Some(t));
                }
                self.save_other_answer(answer);
                (self.advance(), false, None)
            },
            UserInputRequestEvent::Skip => {
                self.skip_current_question();
                (self.advance(), false, None)
            },
            UserInputRequestEvent::PreviousQuestion => {
                self.persist_current_answer();
                self.previous_question();
                (false, false, None)
            },
            UserInputRequestEvent::NextQuestion => {
                self.persist_current_answer();
                (!self.next_question(), false, None)
            },
            UserInputRequestEvent::Dismiss => (true, true, None),
            UserInputRequestEvent::ActiveOptionChanged(index) => {
                self.active_option_index = match index {
                    Some(i) => Some(i),
                    None => self.selected_option_index,
                };
                (false, false, None)
            },
        }
    }
}

/// Applies an event of the user input card for `request_id`. An event
/// naming another question than the one shown adds a protocol notice and
/// changes nothing else; otherwise the card moves on (see `event_step`),
/// and once it is complete, or dismissed, the answers to send are returned
/// for the caller, who reports the outcome with
/// [`record_user_input_response`]. Cards that are missing or no longer wait
/// for answers ignore the event.
pub fn handle_user_input_request_event(
    activities: &mut Vec<ConversationActivity>,
    request_id: &str,
    event: UserInputRequestEvent,
) -> (action: UserInputAction)
    ensures
        user_input_event_effect(old(activities)@, final(activities)@, request_id@, event, action),
{
    let index = match first_user_input(activities, request_id) {
        Some(i) => i,
        None => {
            return UserInputAction::Nothing;
        },
    };
    proof {
        lemma_first_index(activities@, user_input_for(request_id@));
    }
    let ghost before = activities@;
    let mut item = ConversationActivity::Error { message: String::new() };
    activities.set_and_swap(index, &mut item);
    match item {
        ConversationActivity::UserInput(mut model) => {
            if !model.is_interactive() {
                activities.set(index, ConversationActivity::UserInput(model));
                proof {
                    assert(activities@ =~= before);
                }
                return UserInputAction::Nothing;
            }
            let ghost m0 = model;
            let (submit, dismiss, mismatch) = model.step(event);
            let answers = if submit && !dismiss {
                model.response_answers()
            } else {
                Vec::new()
            };
            activities.set(index, ConversationActivity::UserInput(model));
            match mismatch {
                Some(details) => {
                    proof {
                        assert(model == m0);
                        assert(activities@ =~= before);
                    }
                    activities.push(
                        ConversationActivity::ProtocolError {
                            message: to_owned_string("用户输入请求事件标识不一致"),
                            details: Some(details),
                            will_retry: false,
                        },
                    );
                    proof {
                        assert(activities@.take(before.len() as int) =~= before);
                    }
                    UserInputAction::Nothing
                },
                None => {
                    proof {
                        assert(activities@.len() == before.len());
                        assert forall|j: int|
                            0 <= j < before.len() && j != index implies #[trigger] activities@[j]
                            == before[j] by {}
                        if dismiss {
                            assert(answers_view(answers@) =~= Seq::empty());
                        }
                    }
                    if submit {
                        UserInputAction::Respond(answers)
                    } else {
                        UserInputAction::Nothing
                    }
                },
            }
        },
        other => {
            activities.set(index, other);
            UserInputAction::Nothing
        },
    }
}

/// The request after reporting how handing its answers went: a delivered
/// reply (or one for a request the server no longer lists) unmounts it
/// until the server releases it; a failure leaves it shown as failed with
/// its message. Only a waiting request changes.
pub open spec fn response_view(v: UserInputView, outcome: ApprovalResponseOutcome) -> UserInputView {
    if v.status != UserInputRequestStatus::Pending {
        v
    } else {
        match outcome {
            ApprovalResponseOutcome::Sent => UserInputView {
                status: UserInputRequestStatus::Submitting,
                ..v
            },
            ApprovalResponseOutcome::Failed(_) => UserInputView {
                status: UserInputRequestStatus::Failed,
                failure_message: Some("无法写入用户输入响应"@),
                ..v
            },
            ApprovalResponseOutcome::NoResponder { request_known } => if request_known {
                UserInputView {
                    status: UserInputRequestStatus::Failed,
                    failure_message: Some("用户输入 responder 不存在"@),
                    ..v
                }
            } else {
                UserInputView { status: UserInputRequestStatus::Submitting, ..v }
            },
        }
    }
}

/// The details of the notice that reporting `outcome` adds, if any.
pub open spec fn response_notice(v: UserInputView, outcome: ApprovalResponseOutcome) -> Option<
    Option<Seq<char>>,
> {
    if v.status != UserInputRequestStatus::Pending {
        None
    } else {
        match outcome {
            ApprovalResponseOutcome::Sent => None,
            ApprovalResponseOutcome::Failed(e) => Some(Some(e@)),
            ApprovalResponseOutcome::NoResponder { request_known } => if request_known {
                Some(Some("用户输入 responder 不存在"@))
            } else {
                None
            },
        }
    }
}

/// Records how answering the server for the user input card `request_id`
/// went (see `response_view`); a failure also adds a protocol notice.
pub fn record_user_input_response(
    activities: &mut Vec<ConversationActivity>,
    request_id: &str,
    outcome: ApprovalResponseOutcome,
)
    ensures
        match first_index(old(activities)@, user_input_for(request_id@)) {
            None => final(activities)@ == old(activities)@,
            Some(i) => {
                let v = old(activities)@[i]->UserInput_0@;
                match response_notice(v, outcome) {
                    None => card_replaced(
                        old(activities)@,
                        final(activities)@,
                        i,
                        response_view(v, outcome),
                    ),
                    Some(d) => final(activities)@.len() == old(activities)@.len() + 1
                        && card_replaced(
                        old(activities)@,
                        final(activities)@.take(old(activities)@.len() as int),
                        i,
                        response_view(v, outcome),
                    ) && is_protocol_error(final(activities)@.last(), "无法回复用户输入请求"@, d),
                }
            },
        },
{
    let index = match first_user_input(activities, request_id) {
        Some(i) => i,
        None => {
            return ;
        },
    };
    proof {
        lemma_first_index(activities@, user_input_for(request_id@));
    }
    let ghost before = activities@;
    let mut item = ConversationActivity::Error { message: String::new() };
    activities.set_and_swap(index, &mut item);
    match item {
        ConversationActivity::UserInput(mut model) => {
            let mut notice: Option<Option<String>> = None;
            if model.is_interactive() {
                match outcome {
                    ApprovalResponseOutcome::Sent => {
                        model.status = UserInputRequestStatus::Submitting;
                    },
                    ApprovalResponseOutcome::Failed(error) => {
                        model.status = UserInputRequestStatus::Failed;
                        model.failure_message = Some(to_owned_string("无法写入用户输入响应"));
                        notice = Some(Some(error));
                    },
                    ApprovalResponseOutcome::NoResponder { request_known } => {
                        if request_known {
                            model.status = UserInputRequestStatus::Failed;
                            model.failure_message = Some(to_owned_string("用户输入 responder 不存在"));
                            notice = Some(Some(to_owned_string("用户输入 responder 不存在")));
                        } else {
                            model.status = UserInputRequestStatus::Submitting;
                        }
                    },
                }
            }
            activities.set(index, ConversationActivity::UserInput(model));
            let ghost updated = activities@;
            proof {
                assert forall|j: int|
                    0 <= j < before.len() && j != index implies #[trigger] updated[j] == before[j] by {}
            }
            match notice {
                Some(details) => {
                    activities.push(
                        ConversationActivity::ProtocolError {
                            message: to_owned_string("无法回复用户输入请求"),
                            details,
                            will_retry: false,
                        },
                    );
                    proof {
                        assert(activities@.take(updated.len() as int) =~= updated);
                    }
                },
                None => {},
            }
        },
        other => {
            activities.set(index, other);
        },
    }
}

/// A request whose reply failed stays shown and is answered no more: no
/// event changes the conversation or sends anything, until the turn stops.
pub proof fn lemma_failed_request_takes_no_answer(
    acts: Seq<ConversationActivity>,
    id: Seq<char>,
    event: UserInputRequestEvent,
    after: Seq<ConversationActivity>,
    action: UserInputAction,
)
    requires
        first_index(acts, user_input_for(id)) matches Some(i) && acts[i]->UserInput_0.status
            == UserInputRequestStatus::Failed,
        user_input_event_effect(acts, after, id, event, action),
    ensures
        after == acts,
        action == UserInputAction::Nothing,
{
}

/// Moving between questions keeps what was typed: with a non-empty
/// "Other" draft on the shown question, both PreviousQuestion and
/// NextQuestion store that draft as the shown question's answer, leave
/// every other answer as it was, and then move one question back or on
/// (NextQuestion on the last question submits instead; PreviousQuestion on
/// the first stays). With an empty draft no answer changes.
pub proof fn lemma_moving_keeps_the_draft(v: UserInputView, event: UserInputRequestEvent)
    requires
        event == UserInputRequestEvent::PreviousQuestion || event
            == UserInputRequestEvent::NextQuestion,
        0 <= v.current < v.answers.len(),
        v.answers.len() == v.question_ids.len(),
    ensures
        ({
            let st = event_step(v, event);
            &&& st.mismatch is None
            &&& !st.dismiss
            &&& st.view.answers.len() == v.answers.len()
            &&& forall|j: int|
                0 <= j < v.answers.len() && j != v.current ==> #[trigger] st.view.answers[j]
                    == v.answers[j]
            &&& st.view.answers[v.current] == (if v.other_answer.len() > 0 {
                Some(v.other_answer)
            } else {
                v.answers[v.current]
            })
            &&& event == UserInputRequestEvent::PreviousQuestion ==> {
                &&& !st.submit
                &&& st.view.current == (if v.current > 0 {
                    v.current - 1
                } else {
                    v.current
                })
            }
            &&& event == UserInputRequestEvent::NextQuestion ==> if v.current + 1
                < v.question_ids.len() {
                !st.submit && st.view.current == v.current + 1
            } else {
                st.submit && st.view.current == v.current
            }
        }),
{
}

/// Choosing an option of the shown question saves its label as that
/// question's answer (and no other), then moves to the next question, or
/// submits after the last one and at once for a single question. An option
/// of another question than the one shown changes nothing.
pub proof fn lemma_selecting_answers_the_shown_question(
    v: UserInputView,
    question_id: String,
    option_index: usize,
    label: String,
)
    requires
        0 <= v.current < v.answers.len(),
        v.answers.len() == v.question_ids.len(),
    ensures
        ({
            let st = event_step(
                v,
                UserInputRequestEvent::SelectOption { question_id, option_index, label },
            );
            if v.question_ids[v.current] == question_id@ {
                &&& st.mismatch is None
                &&& st.view.answers == v.answers.update(v.current, Some(label@))
                &&& st.submit == (v.current + 1 >= v.question_ids.len())
                &&& !st.submit ==> st.view.current == v.current + 1
            } else {
                &&& st.mismatch is Some
                &&& st.view == v
                &&& !st.submit
            }
        }),
{
}

} // verus!
