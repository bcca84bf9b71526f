//! The card that asks for additional permissions: its menu and focus
//! state, the answer a decision sends, and how answering went.

use vstd::prelude::*;

use crate::activity::ConversationActivity;
use crate::approval::ApprovalResponseOutcome;
use crate::requests::{
    appended, first_index, is_protocol_error, lemma_first_index, lemma_first_index_prefix,
    opt_index,
};
use crate::text::{opt_string, str_eq, to_owned_string};

verus! {

#[derive(Clone, Copy, Debug, Default, PartialEq, Eq, Structural)]
pub enum PermissionApprovalStatus {
    #[default]
    Pending,
    Approved,
    Declined,
    /// Handing the answer to the server failed: the card stays shown with
    /// its failure message and takes no further event.
    Failed,
}

#[derive(Clone, Copy, Debug, PartialEq, Eq, Structural)]
pub enum PermissionApprovalDecision {
    AllowOnce,
    AllowForConversation,
    Decline,
}

#[derive(Clone, Copy, Debug, PartialEq, Eq, Structural)]
pub enum PermissionApprovalMenuItem {
    AllowOnce,
    AllowForConversation,
}

#[derive(Clone, Copy, Debug, PartialEq, Eq, Structural)]
pub enum PermissionApprovalHover {
    Allow,
    Decline,
}

#[derive(Clone, Copy, Debug, PartialEq, Eq, Structural)]
pub enum PermissionApprovalKeyboardFocus {
    Decline,
    Allow,
    MenuToggle,
    MenuAllowOnce,
    MenuAllowForConversation,
}

#[derive(Clone, Copy, Debug, Default, PartialEq, Eq, Structural)]
pub enum PermissionApprovalVisualState {
    #[default]
    Default,
    AllowHovered,
    DeclineHovered,
    Menu { focused: Option<PermissionApprovalMenuItem> },
}

impl PermissionApprovalVisualState {
    pub fn menu_open(self) -> (b: bool)
        ensures
            b == (self is Menu),
    {
        matches!(self, PermissionApprovalVisualState::Menu { .. })
    }
}

#[derive(Clone, Copy, Debug, PartialEq, Eq, Structural)]
pub enum PermissionApprovalEvent {
    Decision(PermissionApprovalDecision),
    ToggleMenu,
    HoverChanged(Option<PermissionApprovalHover>),
    MenuFocusChanged(Option<PermissionApprovalMenuItem>),
    KeyboardFocusChanged(Option<PermissionApprovalKeyboardFocus>),
}

/// The answer sent to the app server for a permissions request.
#[derive(Clone, Copy, Debug, PartialEq, Eq, Structural)]
pub enum PermissionsApprovalChoice {
    AllowOnce,
    AllowForSession,
    Decline,
}

/// The answer a decision sends.
pub open spec fn permissions_choice_spec(d: PermissionApprovalDecision) -> PermissionsApprovalChoice {
    match d {
        PermissionApprovalDecision::AllowOnce => PermissionsApprovalChoice::AllowOnce,
        PermissionApprovalDecision::AllowForConversation => PermissionsApprovalChoice::AllowForSession,
        PermissionApprovalDecision::Decline => PermissionsApprovalChoice::Decline,
    }
}

#[derive(Clone, Debug, PartialEq, Eq)]
pub struct PermissionsApprovalPresentation {
    pub request_id: String,
    pub status: PermissionApprovalStatus,
    pub failure_message: Option<String>,
    pub visual_state: PermissionApprovalVisualState,
    pub keyboard_focus: Option<PermissionApprovalKeyboardFocus>,
}

impl PermissionsApprovalPresentation {
    /// A new request waiting for a decision.
    pub fn pending(request_id: &str) -> (m: Self)
        ensures
            m.request_id@ == request_id@,
            m.status == PermissionApprovalStatus::Pending,
            m.failure_message is None,
            m.visual_state == PermissionApprovalVisualState::Default,
            m.keyboard_focus is None,
    {
        PermissionsApprovalPresentation {
            request_id: to_owned_string(request_id),
            status: PermissionApprovalStatus::Pending,
            failure_message: None,
            visual_state: PermissionApprovalVisualState::Default,
            keyboard_focus: None,
        }
    }

    /// Whether the card is shown: while it waits for a decision, and after
    /// a failed answer.
    pub fn should_render(&self) -> (b: bool)
        ensures
            b == (self.status == PermissionApprovalStatus::Pending || self.status
                == PermissionApprovalStatus::Failed),
    {
        self.status == PermissionApprovalStatus::Pending || self.status
            == PermissionApprovalStatus::Failed
    }

    /// Whether the card takes events: only while it waits for a decision.
    pub fn is_interactive(&self) -> (b: bool)
        ensures
            b == (self.status == PermissionApprovalStatus::Pending),
    {
        self.status == PermissionApprovalStatus::Pending
    }

    /// The card after a menu, hover or focus event: toggling closes an open
    /// menu (a focused menu item hands focus back to the toggle) or opens
    /// it; hovering shows only while the menu is closed; focusing a menu
    /// item opens the menu on it. Decisions leave the card as it is.
    pub open spec fn interaction_spec(self, event: PermissionApprovalEvent) -> Self {
        match event {
            PermissionApprovalEvent::Decision(_) => self,
            PermissionApprovalEvent::ToggleMenu => if self.visual_state is Menu {
                PermissionsApprovalPresentation {
                    visual_state: PermissionApprovalVisualState::Default,
                    keyboard_focus: match self.keyboard_focus {
                        Some(PermissionApprovalKeyboardFocus::MenuAllowOnce) | Some(
                            PermissionApprovalKeyboardFocus::MenuAllowForConversation,
                        ) => Some(PermissionApprovalKeyboardFocus::MenuToggle),
                        other => other,
                    },
                    ..self
                }
            } else {
                PermissionsApprovalPresentation {
                    visual_state: PermissionApprovalVisualState::Menu { focused: None },
                    ..self
                }
            },
            PermissionApprovalEvent::HoverChanged(hovered) => if self.visual_state is Menu {
                self
            } else {
                PermissionsApprovalPresentation {
                    visual_state: match hovered {
                        Some(PermissionApprovalHover::Allow) => PermissionApprovalVisualState::AllowHovered,
                        Some(PermissionApprovalHover::Decline) => PermissionApprovalVisualState::DeclineHovered,
                        None => PermissionApprovalVisualState::Default,
                    },
                    ..self
                }
            },
            PermissionApprovalEvent::MenuFocusChanged(focused) => PermissionsApprovalPresentation {
                visual_state: PermissionApprovalVisualState::Menu { focused },
                ..self
            },
            PermissionApprovalEvent::KeyboardFocusChanged(focused) => PermissionsApprovalPresentation {
                keyboard_focus: focused,
                visual_state: match focused {
                    Some(PermissionApprovalKeyboardFocus::MenuAllowOnce) => PermissionApprovalVisualState::Menu {
                        focused: Some(PermissionApprovalMenuItem::AllowOnce),
                    },
                    Some(PermissionApprovalKeyboardFocus::MenuAllowForConversation) => PermissionApprovalVisualState::Menu {
                        focused: Some(PermissionApprovalMenuItem::AllowForConversation),
                    },
                    _ => self.visual_state,
                },
                ..self
            },
        }
    }

    /// Applies a menu, hover or focus event (see `interaction_spec`).
    pub fn apply_interaction(&mut self, event: PermissionApprovalEvent)
        ensures
            *final(self) == old(self).interaction_spec(event),
    {
        match event {
            PermissionApprovalEvent::Decision(_) => {},
            PermissionApprovalEvent::ToggleMenu => {
                if self.visual_state.menu_open() {
                    if matches!(
                        self.keyboard_focus,
                        Some(PermissionApprovalKeyboardFocus::MenuAllowOnce) | Some(
                            PermissionApprovalKeyboardFocus::MenuAllowForConversation,
                        )
                    ) {
                        self.keyboard_focus = Some(PermissionApprovalKeyboardFocus::MenuToggle);
                    }
                    self.visual_state = PermissionApprovalVisualState::Default;
                } else {
                    self.visual_state = PermissionApprovalVisualState::Menu { focused: None };
                }
            },
            PermissionApprovalEvent::HoverChanged(hovered) => {
                if !self.visual_state.menu_open() {
                    self.visual_state =
                    match hovered {
                        Some(PermissionApprovalHover::Allow) => PermissionApprovalVisualState::AllowHovered,
                        Some(PermissionApprovalHover::Decline) => PermissionApprovalVisualState::DeclineHovered,
                        None => PermissionApprovalVisualState::Default,
                    };
                }
            },
            PermissionApprovalEvent::MenuFocusChanged(focused) => {
                self.visual_state = PermissionApprovalVisualState::Menu { focused };
            },
            PermissionApprovalEvent::KeyboardFocusChanged(focused) => {
                self.keyboard_focus = focused;
                match focused {
                    Some(PermissionApprovalKeyboardFocus::MenuAllowOnce) => {
                        self.visual_state =
                        PermissionApprovalVisualState::Menu {
                            focused: Some(PermissionApprovalMenuItem::AllowOnce),
                        };
                    },
                    Some(PermissionApprovalKeyboardFocus::MenuAllowForConversation) => {
                        self.visual_state =
                        PermissionApprovalVisualState::Menu {
                            focused: Some(PermissionApprovalMenuItem::AllowForConversation),
                        };
                    },
                    _ => {},
                }
            },
        }
    }

    /// The status that reporting `outcome` for `decision` gives a waiting
    /// card: a delivered answer (or one for a request the server no longer
    /// lists) approves or declines it; a failure marks it failed.
    pub open spec fn response_status(
        self,
        decision: PermissionApprovalDecision,
        outcome: ApprovalResponseOutcome,
    ) -> PermissionApprovalStatus {
        let settled = if decision == PermissionApprovalDecision::Decline {
            PermissionApprovalStatus::Declined
        } else {
            PermissionApprovalStatus::Approved
        };
        if self.status != PermissionApprovalStatus::Pending {
            self.status
        } else {
            match outcome {
                ApprovalResponseOutcome::Sent => settled,
                ApprovalResponseOutcome::Failed(_) => PermissionApprovalStatus::Failed,
                ApprovalResponseOutcome::NoResponder { request_known } => if request_known {
                    PermissionApprovalStatus::Failed
                } else {
                    settled
                },
            }
        }
    }

    /// The details of the protocol notice that reporting `outcome` adds, if
    /// it adds one.
    pub open spec fn response_notice(self, outcome: ApprovalResponseOutcome) -> Option<
        Option<Seq<char>>,
    > {
        if self.status != PermissionApprovalStatus::Pending {
            None
        } else {
            match outcome {
                ApprovalResponseOutcome::Sent => None,
                ApprovalResponseOutcome::Failed(e) => Some(Some(e@)),
                ApprovalResponseOutcome::NoResponder { request_known } => if request_known {
                    Some(Some("权限审批 responder 不存在"@))
                } else {
                    None
                },
            }
        }
    }

    /// The card `c` after reporting: the status moves on, and a failure
    /// sets the failure message; nothing else changes.
    pub open spec fn response_card(
        self,
        decision: PermissionApprovalDecision,
        outcome: ApprovalResponseOutcome,
        c: Self,
    ) -> bool {
        &&& c.status == self.response_status(decision, outcome)
        &&& if self.status == PermissionApprovalStatus::Pending && c.status
            == PermissionApprovalStatus::Failed {
            &&& c == (PermissionsApprovalPresentation {
                status: PermissionApprovalStatus::Failed,
                failure_message: c.failure_message,
                ..self
            })
            &&& opt_string(c.failure_message) == Some(
                match outcome {
                    ApprovalResponseOutcome::Failed(_) => "无法写入权限审批响应"@,
                    _ => "权限审批 responder 不存在"@,
                },
            )
        } else {
            c == (PermissionsApprovalPresentation { status: c.status, ..self })
        }
    }
}

/// The permissions card for `id`.
pub open spec fn permissions_for(id: Seq<char>) -> spec_fn(ConversationActivity) -> bool {
    |a: ConversationActivity| a matches ConversationActivity::PermissionsApproval(m) && m.request_id@ == id
}

/// The index of the first permissions card for `request_id`.
pub fn first_permissions_card(acts: &Vec<ConversationActivity>, request_id: &str) -> (r: Option<
    usize,
>)
    ensures
        opt_index(r) == first_index(acts@, permissions_for(request_id@)),
{
    let ghost p = permissions_for(request_id@);
    let mut i: usize = 0;
    proof {
        assert(acts@.take(0) =~= Seq::<ConversationActivity>::empty());
    }
    while i < acts.len()
        invariant
            i <= acts.len(),
            p == permissions_for(request_id@),
            first_index(acts@.take(i as int), p) is None,
        decreases acts.len() - i,
    {
        proof {
            assert(acts@.take(i + 1).drop_last() =~= acts@.take(i as int));
            assert(acts@.take(i + 1).last() == acts@[i as int]);
        }
        let found = match &acts[i] {
            ConversationActivity::PermissionsApproval(m) => str_eq(m.request_id.as_str(), request_id),
            _ => false,
        };
        if found {
            proof {
                lemma_first_index_prefix(acts@, p, i + 1);
            }
            return Some(i);
        }
        i += 1;
    }
    proof {
        assert(acts@.take(i as int) =~= acts@);
    }
    None
}

/// The activities, and the answer to send, after an event of the
/// permissions card for `id` (see [`handle_permissions_approval_event`]).
pub open spec fn permissions_event_effect(
    acts: Seq<ConversationActivity>,
    id: Seq<char>,
    event: PermissionApprovalEvent,
) -> (Seq<ConversationActivity>, Option<PermissionsApprovalChoice>) {
    match first_index(acts, permissions_for(id)) {
        None => (acts, None),
        Some(i) => {
            let m = acts[i]->PermissionsApproval_0;
            if m.status != PermissionApprovalStatus::Pending {
                (acts, None)
            } else {
                match event {
                    PermissionApprovalEvent::Decision(d) => (acts, Some(permissions_choice_spec(d))),
                    _ => (
                        acts.update(
                            i,
                            ConversationActivity::PermissionsApproval(m.interaction_spec(event)),
                        ),
                        None,
                    ),
                }
            }
        },
    }
}

/// Applies an event of the permissions card for `request_id`. A decision
/// changes nothing yet: it returns the answer to send, after which the
/// caller reports the outcome with [`record_permissions_approval_response`].
/// Cards that are missing or no longer wait for a decision ignore the event.
pub fn handle_permissions_approval_event(
    activities: &mut Vec<ConversationActivity>,
    request_id: &str,
    event: PermissionApprovalEvent,
) -> (choice: Option<PermissionsApprovalChoice>)
    ensures
        (final(activities)@, choice) == permissions_event_effect(
            old(activities)@,
            request_id@,
            event,
        ),
{
    let index = match first_permissions_card(activities, request_id) {
        Some(i) => i,
        None => {
            return None;
        },
    };
    proof {
        lemma_first_index(activities@, permissions_for(request_id@));
    }
    let mut item = ConversationActivity::Error { message: String::new() };
    activities.set_and_swap(index, &mut item);
    match item {
        ConversationActivity::PermissionsApproval(mut model) => {
            let mut choice = None;
            if model.is_interactive() {
                match event {
                    PermissionApprovalEvent::Decision(decision) => {
                        choice =
                        Some(
                            match decision {
                                PermissionApprovalDecision::AllowOnce => PermissionsApprovalChoice::AllowOnce,
                                PermissionApprovalDecision::AllowForConversation => PermissionsApprovalChoice::AllowForSession,
                                PermissionApprovalDecision::Decline => PermissionsApprovalChoice::Decline,
                            },
                        );
                    },
                    _ => {
                        model.apply_interaction(event);
                    },
                }
            }
            activities.set(index, ConversationActivity::PermissionsApproval(model));
            choice
        },
        other => {
            activities.set(index, other);
            None
        },
    }
}

/// Records how answering the server with `decision` for the permissions
/// card `request_id` went: the card is approved or declined, or left shown
/// as failed with a protocol notice.
pub fn record_permissions_approval_response(
    activities: &mut Vec<ConversationActivity>,
    request_id: &str,
    decision: PermissionApprovalDecision,
    outcome: ApprovalResponseOutcome,
)
    ensures
        match first_index(old(activities)@, permissions_for(request_id@)) {
            None => final(activities)@ == old(activities)@,
            Some(i) => {
                let m = old(activities)@[i]->PermissionsApproval_0;
                let before = old(activities)@;
                let after = final(activities)@;
                &&& i < after.len()
                &&& after[i] is PermissionsApproval
                &&& m.response_card(decision, outcome, after[i]->PermissionsApproval_0)
                &&& match m.response_notice(outcome) {
                    None => after == before.update(i, after[i]),
                    Some(d) => appended(before.update(i, after[i]), after) && is_protocol_error(
                        after.last(),
                        "无法回复权限审批"@,
                        d,
                    ),
                }
            },
        },
{
    let index = match first_permissions_card(activities, request_id) {
        Some(i) => i,
        None => {
            return ;
        },
    };
    proof {
        lemma_first_index(activities@, permissions_for(request_id@));
    }
    let ghost before = activities@;
    let mut item = ConversationActivity::Error { message: String::new() };
    activities.set_and_swap(index, &mut item);
    match item {
        ConversationActivity::PermissionsApproval(mut model) => {
            let mut notice: Option<Option<String>> = None;
            if model.is_interactive() {
                let settled = if matches!(decision, PermissionApprovalDecision::Decline) {
                    PermissionApprovalStatus::Declined
                } else {
                    PermissionApprovalStatus::Approved
                };
                match outcome {
                    ApprovalResponseOutcome::Sent => {
                        model.status = settled;
                    },
                    ApprovalResponseOutcome::Failed(error) => {
                        model.status = PermissionApprovalStatus::Failed;
                        model.failure_message = Some(to_owned_string("无法写入权限审批响应"));
                        notice = Some(Some(error));
                    },
                    ApprovalResponseOutcome::NoResponder { request_known } => {
                        if request_known {
                            model.status = PermissionApprovalStatus::Failed;
                            model.failure_message = Some(to_owned_string("权限审批 responder 不存在"));
                            notice = Some(Some(to_owned_string("权限审批 responder 不存在")));
                        } else {
                            model.status = settled;
                        }
                    },
                }
            }
            activities.set(index, ConversationActivity::PermissionsApproval(model));
            let ghost updated = activities@;
            proof {
                assert(updated =~= before.update(
                    index as int,
                    ConversationActivity::PermissionsApproval(model),
                ));
            }
            match notice {
                Some(details) => {
                    activities.push(
                        ConversationActivity::ProtocolError {
                            message: to_owned_string("无法回复权限审批"),
                            details,
                            will_retry: false,
                        },
                    );
                    proof {
                        assert(activities@.take(updated.len() as int) =~= updated);
                        assert(activities@[index as int] == updated[index as int]);
                    }
                },
                None => {},
            }
        },
        other => {
            activities.set(index, other);
        },
    }
}

/// A permissions card whose answer failed stays shown and takes no second
/// decision: no event changes it or sends anything.
pub proof fn lemma_failed_permissions_take_no_answer(
    acts: Seq<ConversationActivity>,
    id: Seq<char>,
    event: PermissionApprovalEvent,
)
    requires
        first_index(acts, permissions_for(id)) matches Some(i) && acts[i]->PermissionsApproval_0.status
            == PermissionApprovalStatus::Failed,
    ensures
        permissions_event_effect(acts, id, event) == (acts, None::<PermissionsApprovalChoice>),
{
}

} // verus!
