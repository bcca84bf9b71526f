//! Command and network approval card: the presentation model, its keyboard
//! navigation, and how card events and server replies change it.
//!
//! The caller supplies a presentation model and translates
//! [`ApprovalCardEvent`] back into its own state machine.

use vstd::prelude::*;

use crate::keys::{Key, classify_key, key_of};
use crate::text::{concat3, is_blank, is_blank_str, to_owned_string, trim, trim_to_string};

verus! {

/// The approval surface is removed as soon as the user answered it or the
/// server resolved it.
#[derive(Clone, Copy, Debug, Default, PartialEq, Eq, Structural)]
pub enum ApprovalCardStatus {
    #[default]
    Pending,
    /// The answer was handed to the server; the card waits for
    /// `serverRequest/resolved` and is no longer rendered.
    Submitting,
    /// Handing the answer to the server failed: the card stays shown but
    /// takes no further decision.
    Failed,
    Resolved,
}

#[derive(Clone, Debug, PartialEq, Eq)]
pub enum ApprovalRequestPresentation {
    Command { command: String, reason: Option<String> },
    Network {
        destination: String,
        /// Network approvals can be attached to a command execution. When it
        /// is present, the card shows the command in the monospace preview.
        command: Option<String>,
        reason: Option<String>,
    },
}

impl ApprovalRequestPresentation {
    pub open spec fn reason_of(self) -> Option<String> {
        match self {
            ApprovalRequestPresentation::Command { reason, .. } => reason,
            ApprovalRequestPresentation::Network { reason, .. } => reason,
        }
    }

    pub open spec fn title_spec(self) -> Seq<char> {
        match self {
            ApprovalRequestPresentation::Command { .. } => "终端"@,
            ApprovalRequestPresentation::Network { .. } => "互联网访问"@,
        }
    }

    /// An explicit, non-blank reason (trimmed) wins; otherwise the default
    /// copy for the request kind.
    pub open spec fn question_spec(self) -> Seq<char> {
        if self.reason_of() is Some && !is_blank(self.reason_of()->0@) {
            trim(self.reason_of()->0@)
        } else {
            match self {
                ApprovalRequestPresentation::Command { .. } => "是否允许 ChatGPT 运行此命令？"@,
                ApprovalRequestPresentation::Network { destination, .. } => "是否允许 ChatGPT 连接到 "@
                    + destination@ + "？"@,
            }
        }
    }

    /// The command shown in the monospace preview, when it is not blank.
    pub open spec fn preview_spec(self) -> Option<Seq<char>> {
        match self {
            ApprovalRequestPresentation::Command { command, .. } => if is_blank(command@) {
                None
            } else {
                Some(command@)
            },
            ApprovalRequestPresentation::Network { command, .. } => match command {
                Some(c) => if is_blank(c@) {
                    None
                } else {
                    Some(c@)
                },
                None => None,
            },
        }
    }

    pub open spec fn default_scope_spec(self) -> ApprovalScope {
        match self {
            ApprovalRequestPresentation::Command { .. } => ApprovalScope::SimilarCommands,
            ApprovalRequestPresentation::Network { .. } => ApprovalScope::InternetAccess,
        }
    }

    pub fn command(command: &str, reason: Option<String>) -> (r: Self)
        ensures
            r matches ApprovalRequestPresentation::Command { command: c, reason: rr } && c@
                == command@ && rr == reason,
    {
        ApprovalRequestPresentation::Command { command: to_owned_string(command), reason }
    }

    pub fn network(destination: &str, command: Option<String>, reason: Option<String>) -> (r:
        Self)
        ensures
            r matches ApprovalRequestPresentation::Network {
                destination: d,
                command: c,
                reason: rr,
            } && d@ == destination@ && c == command && rr == reason,
    {
        ApprovalRequestPresentation::Network {
            destination: to_owned_string(destination),
            command,
            reason,
        }
    }

    pub fn title(&self) -> (t: &'static str)
        ensures
            t@ == self.title_spec(),
    {
        match self {
            ApprovalRequestPresentation::Command { .. } => "终端",
            ApprovalRequestPresentation::Network { .. } => "互联网访问",
        }
    }

    pub fn question(&self) -> (q: String)
        ensures
            q@ == self.question_spec(),
    {
        let reason = match self {
            ApprovalRequestPresentation::Command { reason, .. } => reason,
            ApprovalRequestPresentation::Network { reason, .. } => reason,
        };
        if let Some(reason) = reason {
            if !is_blank_str(reason.as_str()) {
                return trim_to_string(reason.as_str());
            }
        }
        match self {
            ApprovalRequestPresentation::Command { .. } => to_owned_string(
                "是否允许 ChatGPT 运行此命令？",
            ),
            ApprovalRequestPresentation::Network { destination, .. } => concat3(
                "是否允许 ChatGPT 连接到 ",
                destination.as_str(),
                "？",
            ),
        }
    }

    pub fn preview(&self) -> (p: Option<&str>)
        ensures
            p matches Some(s) ==> self.preview_spec() == Some(s@),
            p is None <==> self.preview_spec() is None,
    {
        match self {
            ApprovalRequestPresentation::Command { command, .. } => non_empty(command.as_str()),
            ApprovalRequestPresentation::Network { command, .. } => match command {
                Some(c) => non_empty(c.as_str()),
                None => None,
            },
        }
    }

    pub fn default_scope(&self) -> (s: ApprovalScope)
        ensures
            s == self.default_scope_spec(),
    {
        match self {
            ApprovalRequestPresentation::Command { .. } => ApprovalScope::SimilarCommands,
            ApprovalRequestPresentation::Network { .. } => ApprovalScope::InternetAccess,
        }
    }
}

fn non_empty(value: &str) -> (r: Option<&str>)
    ensures
        r matches Some(s) ==> s@ == value@ && !is_blank(value@),
        r is None <==> is_blank(value@),
{
    if is_blank_str(value) {
        None
    } else {
        Some(value)
    }
}

#[derive(Clone, Copy, Debug, PartialEq, Eq, Structural)]
pub enum ApprovalScope {
    SimilarCommands,
    InternetAccess,
}

impl ApprovalScope {
    pub open spec fn label_spec(self) -> Seq<char> {
        match self {
            ApprovalScope::SimilarCommands => "允许类似命令"@,
            ApprovalScope::InternetAccess => "互联网访问"@,
        }
    }

    pub fn label(self) -> (l: &'static str)
        ensures
            l@ == self.label_spec(),
    {
        match self {
            ApprovalScope::SimilarCommands => "允许类似命令",
            ApprovalScope::InternetAccess => "互联网访问",
        }
    }
}

#[derive(Clone, Copy, Debug, PartialEq, Eq, Structural)]
pub enum ApprovalDecision {
    AllowOnce,
    AllowScoped(ApprovalScope),
    Decline,
}

#[derive(Clone, Copy, Debug, PartialEq, Eq, Structural)]
pub enum ApprovalMenuItem {
    AllowOnce,
    Scoped(ApprovalScope),
}

#[derive(Clone, Copy, Debug, PartialEq, Eq, Structural)]
pub enum ApprovalKeyboardFocus {
    Decline,
    AllowOnce,
    MenuToggle,
    MenuAllowOnce,
    MenuScoped(ApprovalScope),
}

#[derive(Clone, Copy, Debug, Default, PartialEq, Eq, Structural)]
pub enum ApprovalVisualState {
    #[default]
    Default,
    ApproveHovered,
    DeclineHovered,
    SplitMenu { focused: Option<ApprovalMenuItem> },
}

impl ApprovalVisualState {
    pub open spec fn is_menu_open(self) -> bool {
        self is SplitMenu
    }

    pub open spec fn focused_item(self) -> Option<ApprovalMenuItem> {
        match self {
            ApprovalVisualState::SplitMenu { focused } => focused,
            _ => None,
        }
    }

    pub fn menu_open(self) -> (b: bool)
        ensures
            b == self.is_menu_open(),
    {
        matches!(self, ApprovalVisualState::SplitMenu { .. })
    }

    pub fn focused_menu_item(self) -> (f: Option<ApprovalMenuItem>)
        ensures
            f == self.focused_item(),
    {
        match self {
            ApprovalVisualState::SplitMenu { focused } => focused,
            _ => None,
        }
    }
}

/// How the attempt to hand a decision to the server went.
#[derive(Clone, Debug, PartialEq, Eq)]
pub enum ApprovalResponseOutcome {
    /// The responder accepted the answer.
    Sent,
    /// The responder failed with this error.
    Failed(String),
    /// No responder exists for the request; `request_known` tells whether the
    /// server still lists the request as open.
    NoResponder { request_known: bool },
}

/// A protocol problem to show in the conversation.
#[derive(Clone, Debug, PartialEq, Eq)]
pub struct ProtocolErrorNotice {
    pub message: String,
    pub details: Option<String>,
}

/// The answer sent to the app server for a command approval.
#[derive(Clone, Copy, Debug, PartialEq, Eq, Structural)]
pub enum CommandApprovalChoice {
    Accept,
    Decline,
    AcceptWithExecpolicyAmendment,
}

/// The protocol answer for a decision; scoped internet access has none.
pub open spec fn command_choice_spec(decision: ApprovalDecision) -> Option<CommandApprovalChoice> {
    match decision {
        ApprovalDecision::AllowOnce => Some(CommandApprovalChoice::Accept),
        ApprovalDecision::Decline => Some(CommandApprovalChoice::Decline),
        ApprovalDecision::AllowScoped(ApprovalScope::SimilarCommands) => Some(
            CommandApprovalChoice::AcceptWithExecpolicyAmendment,
        ),
        ApprovalDecision::AllowScoped(ApprovalScope::InternetAccess) => None,
    }
}

pub fn command_approval_choice(decision: ApprovalDecision) -> (c: Option<CommandApprovalChoice>)
    ensures
        c == command_choice_spec(decision),
{
    match decision {
        ApprovalDecision::AllowOnce => Some(CommandApprovalChoice::Accept),
        ApprovalDecision::Decline => Some(CommandApprovalChoice::Decline),
        ApprovalDecision::AllowScoped(ApprovalScope::SimilarCommands) => Some(
            CommandApprovalChoice::AcceptWithExecpolicyAmendment,
        ),
        ApprovalDecision::AllowScoped(ApprovalScope::InternetAccess) => None,
    }
}

#[derive(Clone, Debug, PartialEq, Eq)]
pub struct ApprovalCardViewModel {
    pub request_id: String,
    pub request: ApprovalRequestPresentation,
    pub status: ApprovalCardStatus,
    /// Whether the server listed `accept` in `availableDecisions`.
    pub allow_once: bool,
    /// Whether the server listed `decline` in `availableDecisions`.
    pub decline: bool,
    /// Whether the server listed `cancel` in `availableDecisions`. The card
    /// shows Reject for it, while sending `decline` to keep the turn running.
    pub cancel: bool,
    /// `None` renders a single Allow button. A value renders the split
    /// button and its two-row menu.
    pub scoped_approval: Option<ApprovalScope>,
    /// Deterministic interaction state.
    pub visual_state: ApprovalVisualState,
    /// Logical focus within the blocking surface.
    pub keyboard_focus: Option<ApprovalKeyboardFocus>,
}

#[derive(Clone, Copy, Debug, PartialEq, Eq, Structural)]
pub enum ApprovalCardEvent {
    Decision(ApprovalDecision),
    ToggleMenu,
    MenuFocusChanged(Option<ApprovalMenuItem>),
    KeyboardFocusChanged(Option<ApprovalKeyboardFocus>),
}

impl ApprovalCardViewModel {
    pub open spec fn can_reject_spec(self) -> bool {
        self.decline || self.cancel
    }

    pub open spec fn has_allow(self) -> bool {
        self.allow_once || self.scoped_approval is Some
    }

    pub open spec fn has_menu_toggle(self) -> bool {
        self.allow_once && self.scoped_approval is Some
    }

    /// Tab order of the closed card: Reject, Allow, and the split toggle,
    /// each present only when the server offers it.
    pub open spec fn focus_order(self) -> Seq<ApprovalKeyboardFocus> {
        (if self.can_reject_spec() {
            seq![ApprovalKeyboardFocus::Decline]
        } else {
            seq![]
        }) + (if self.has_allow() {
            seq![ApprovalKeyboardFocus::AllowOnce]
        } else {
            seq![]
        }) + (if self.has_menu_toggle() {
            seq![ApprovalKeyboardFocus::MenuToggle]
        } else {
            seq![]
        })
    }

    /// Position of `f` in [`Self::focus_order`].
    pub open spec fn order_index(self, f: ApprovalKeyboardFocus) -> Option<int> {
        let r: int = if self.can_reject_spec() {
            1
        } else {
            0
        };
        let a: int = if self.has_allow() {
            1
        } else {
            0
        };
        match f {
            ApprovalKeyboardFocus::Decline => if self.can_reject_spec() {
                Some(0)
            } else {
                None
            },
            ApprovalKeyboardFocus::AllowOnce => if self.has_allow() {
                Some(r)
            } else {
                None
            },
            ApprovalKeyboardFocus::MenuToggle => if self.has_menu_toggle() {
                Some(r + a)
            } else {
                None
            },
            _ => None,
        }
    }

    /// The scoped menu row when a scope is offered, else the Allow-once row.
    pub open spec fn scoped_menu_focus(self) -> ApprovalKeyboardFocus {
        match self.scoped_approval {
            Some(scope) => ApprovalKeyboardFocus::MenuScoped(scope),
            None => ApprovalKeyboardFocus::MenuAllowOnce,
        }
    }

    pub open spec fn closed_tab_target(self, shift: bool) -> Option<ApprovalKeyboardFocus> {
        let order = self.focus_order();
        let len = order.len() as int;
        if len == 0 {
            None
        } else {
            let current = match self.keyboard_focus {
                Some(f) => self.order_index(f),
                None => None,
            };
            let next: int = match current {
                Some(i) => if !shift {
                    (i + 1) % len
                } else if i == 0 {
                    len - 1
                } else {
                    i - 1
                },
                None => if shift {
                    len - 1
                } else {
                    0
                },
            };
            Some(order[next])
        }
    }

    pub open spec fn menu_tab_target(self, shift: bool) -> ApprovalKeyboardFocus {
        match self.keyboard_focus {
            Some(ApprovalKeyboardFocus::MenuAllowOnce) => self.scoped_menu_focus(),
            Some(ApprovalKeyboardFocus::MenuScoped(_)) => ApprovalKeyboardFocus::MenuAllowOnce,
            _ => if shift {
                self.scoped_menu_focus()
            } else {
                ApprovalKeyboardFocus::MenuAllowOnce
            },
        }
    }

    pub open spec fn activate_spec(self) -> Option<ApprovalCardEvent> {
        let menu_open = self.visual_state.is_menu_open();
        match self.keyboard_focus {
            Some(ApprovalKeyboardFocus::Decline) => if self.can_reject_spec() {
                Some(ApprovalCardEvent::Decision(ApprovalDecision::Decline))
            } else {
                None
            },
            Some(ApprovalKeyboardFocus::MenuToggle) => Some(ApprovalCardEvent::ToggleMenu),
            Some(ApprovalKeyboardFocus::MenuAllowOnce) => Some(
                ApprovalCardEvent::Decision(ApprovalDecision::AllowOnce),
            ),
            Some(ApprovalKeyboardFocus::MenuScoped(scope)) => Some(
                ApprovalCardEvent::Decision(ApprovalDecision::AllowScoped(scope)),
            ),
            _ => if menu_open {
                None
            } else if self.allow_once {
                Some(ApprovalCardEvent::Decision(ApprovalDecision::AllowOnce))
            } else {
                match self.scoped_approval {
                    Some(scope) => Some(
                        ApprovalCardEvent::Decision(ApprovalDecision::AllowScoped(scope)),
                    ),
                    None => None,
                }
            },
        }
    }

    /// The event a keystroke produces on this card.
    pub open spec fn keyboard_spec(self, key: Key, shift: bool) -> Option<ApprovalCardEvent> {
        let menu_open = self.visual_state.is_menu_open();
        match key {
            Key::Tab => if menu_open {
                Some(ApprovalCardEvent::KeyboardFocusChanged(Some(self.menu_tab_target(shift))))
            } else {
                match self.closed_tab_target(shift) {
                    Some(f) => Some(ApprovalCardEvent::KeyboardFocusChanged(Some(f))),
                    None => None,
                }
            },
            Key::Escape => if menu_open {
                Some(ApprovalCardEvent::ToggleMenu)
            } else if self.can_reject_spec() {
                Some(ApprovalCardEvent::Decision(ApprovalDecision::Decline))
            } else {
                None
            },
            Key::Enter | Key::Space => self.activate_spec(),
            Key::Down => if menu_open {
                Some(
                    ApprovalCardEvent::KeyboardFocusChanged(
                        Some(
                            match self.keyboard_focus {
                                Some(ApprovalKeyboardFocus::MenuAllowOnce) => self.scoped_menu_focus(),
                                _ => ApprovalKeyboardFocus::MenuAllowOnce,
                            },
                        ),
                    ),
                )
            } else {
                None
            },
            Key::Up => if menu_open {
                Some(
                    ApprovalCardEvent::KeyboardFocusChanged(
                        Some(
                            match self.keyboard_focus {
                                Some(ApprovalKeyboardFocus::MenuScoped(_)) => ApprovalKeyboardFocus::MenuAllowOnce,
                                _ => self.scoped_menu_focus(),
                            },
                        ),
                    ),
                )
            } else {
                None
            },
            _ => None,
        }
    }

    /// The model after a non-decision card event (decisions are answered
    /// through [`command_approval_choice`] and [`Self::apply_response`]).
    pub open spec fn interaction_spec(self, event: ApprovalCardEvent) -> Self {
        if self.status != ApprovalCardStatus::Pending {
            self
        } else {
            match event {
                ApprovalCardEvent::Decision(_) => self,
                ApprovalCardEvent::ToggleMenu => if self.visual_state.is_menu_open() {
                    ApprovalCardViewModel {
                        visual_state: ApprovalVisualState::Default,
                        keyboard_focus: match self.keyboard_focus {
                            Some(ApprovalKeyboardFocus::MenuAllowOnce) | Some(
                                ApprovalKeyboardFocus::MenuScoped(_),
                            ) => Some(ApprovalKeyboardFocus::MenuToggle),
                            other => other,
                        },
                        ..self
                    }
                } else {
                    ApprovalCardViewModel {
                        visual_state: ApprovalVisualState::SplitMenu { focused: None },
                        ..self
                    }
                },
                ApprovalCardEvent::MenuFocusChanged(focused) => ApprovalCardViewModel {
                    visual_state: ApprovalVisualState::SplitMenu { focused },
                    ..self
                },
                ApprovalCardEvent::KeyboardFocusChanged(focused) => ApprovalCardViewModel {
                    keyboard_focus: focused,
                    visual_state: match focused {
                        Some(ApprovalKeyboardFocus::MenuAllowOnce) => ApprovalVisualState::SplitMenu {
                            focused: Some(ApprovalMenuItem::AllowOnce),
                        },
                        Some(ApprovalKeyboardFocus::MenuScoped(scope)) => ApprovalVisualState::SplitMenu {
                            focused: Some(ApprovalMenuItem::Scoped(scope)),
                        },
                        _ => self.visual_state,
                    },
                    ..self
                },
            }
        }
    }

    pub fn pending(request_id: &str, request: ApprovalRequestPresentation) -> (m: Self)
        ensures
            m.request_id@ == request_id@,
            m.request == request,
            m.status == ApprovalCardStatus::Pending,
            m.allow_once,
            m.decline,
            !m.cancel,
            m.scoped_approval == Some(request.default_scope_spec()),
            m.visual_state == ApprovalVisualState::Default,
            m.keyboard_focus is None,
    {
        let scoped_approval = Some(request.default_scope());
        ApprovalCardViewModel {
            request_id: to_owned_string(request_id),
            request,
            status: ApprovalCardStatus::Pending,
            allow_once: true,
            decline: true,
            cancel: false,
            scoped_approval,
            visual_state: ApprovalVisualState::Default,
            keyboard_focus: None,
        }
    }

    /// Whether the card is shown: while it waits for a decision, and after
    /// a failed answer.
    pub fn should_render(&self) -> (b: bool)
        ensures
            b == (self.status == ApprovalCardStatus::Pending || self.status
                == ApprovalCardStatus::Failed),
    {
        self.status == ApprovalCardStatus::Pending || self.status == ApprovalCardStatus::Failed
    }

    pub fn set_available_decisions(
        &mut self,
        allow_once: bool,
        decline: bool,
        cancel: bool,
        scoped_approval: Option<ApprovalScope>,
    )
        ensures
            *final(self) == (ApprovalCardViewModel {
                allow_once,
                decline,
                cancel,
                scoped_approval,
                ..*old(self)
            }),
    {
        self.allow_once = allow_once;
        self.decline = decline;
        self.cancel = cancel;
        self.scoped_approval = scoped_approval;
    }

    pub fn rejection_decision(&self) -> (d: Option<ApprovalDecision>)
        ensures
            d == (if self.can_reject_spec() {
                Some(ApprovalDecision::Decline)
            } else {
                None
            }),
    {
        if self.decline || self.cancel {
            Some(ApprovalDecision::Decline)
        } else {
            None
        }
    }

    pub fn can_reject(&self) -> (b: bool)
        ensures
            b == self.can_reject_spec(),
    {
        self.rejection_decision().is_some()
    }

    fn scoped_menu_focus_exec(&self) -> (f: ApprovalKeyboardFocus)
        ensures
            f == self.scoped_menu_focus(),
    {
        match self.scoped_approval {
            Some(scope) => ApprovalKeyboardFocus::MenuScoped(scope),
            None => ApprovalKeyboardFocus::MenuAllowOnce,
        }
    }

    fn closed_tab(&self, shift: bool) -> (f: Option<ApprovalKeyboardFocus>)
        ensures
            f == self.closed_tab_target(shift),
    {
        let can_reject = self.can_reject();
        let has_allow = self.allow_once || self.scoped_approval.is_some();
        let has_toggle = self.allow_once && self.scoped_approval.is_some();
        let mut focus_order: Vec<ApprovalKeyboardFocus> = Vec::new();
        if can_reject {
            focus_order.push(ApprovalKeyboardFocus::Decline);
        }
        if has_allow {
            focus_order.push(ApprovalKeyboardFocus::AllowOnce);
        }
        if has_toggle {
            focus_order.push(ApprovalKeyboardFocus::MenuToggle);
        }
        proof {
            assert(focus_order@ =~= self.focus_order());
        }
        let len = focus_order.len();
        if len == 0 {
            return None;
        }
        let r: usize = if can_reject {
            1
        } else {
            0
        };
        let a: usize = if has_allow {
            1
        } else {
            0
        };
        let current: Option<usize> = match self.keyboard_focus {
            Some(ApprovalKeyboardFocus::Decline) => if can_reject {
                Some(0)
            } else {
                None
            },
            Some(ApprovalKeyboardFocus::AllowOnce) => if has_allow {
                Some(r)
            } else {
                None
            },
            Some(ApprovalKeyboardFocus::MenuToggle) => if has_toggle {
                Some(r + a)
            } else {
                None
            },
            _ => None,
        };
        let next = match current {
            Some(index) => if !shift {
                (index + 1) % len
            } else if index == 0 {
                len - 1
            } else {
                index - 1
            },
            None => if shift {
                len - 1
            } else {
                0
            },
        };
        Some(focus_order[next])
    }

    fn activate(&self) -> (e: Option<ApprovalCardEvent>)
        ensures
            e == self.activate_spec(),
    {
        let menu_open = self.visual_state.menu_open();
        match self.keyboard_focus {
            Some(ApprovalKeyboardFocus::Decline) => if self.can_reject() {
                Some(ApprovalCardEvent::Decision(ApprovalDecision::Decline))
            } else {
                None
            },
            Some(ApprovalKeyboardFocus::MenuToggle) => Some(ApprovalCardEvent::ToggleMenu),
            Some(ApprovalKeyboardFocus::MenuAllowOnce) => Some(
                ApprovalCardEvent::Decision(ApprovalDecision::AllowOnce),
            ),
            Some(ApprovalKeyboardFocus::MenuScoped(scope)) => Some(
                ApprovalCardEvent::Decision(ApprovalDecision::AllowScoped(scope)),
            ),
            _ => if menu_open {
                None
            } else if self.allow_once {
                Some(ApprovalCardEvent::Decision(ApprovalDecision::AllowOnce))
            } else {
                match self.scoped_approval {
                    Some(scope) => Some(
                        ApprovalCardEvent::Decision(ApprovalDecision::AllowScoped(scope)),
                    ),
                    None => None,
                }
            },
        }
    }

    /// The event produced by the keystroke `key` (with Shift held or not).
    pub fn keyboard_event(&self, key: &str, shift: bool) -> (e: Option<ApprovalCardEvent>)
        ensures
            e == self.keyboard_spec(key_of(key@), shift),
    {
        let menu_open = self.visual_state.menu_open();
        match classify_key(key) {
            Key::Tab => {
                if menu_open {
                    let next = match self.keyboard_focus {
                        Some(ApprovalKeyboardFocus::MenuAllowOnce) => self.scoped_menu_focus_exec(),
                        Some(ApprovalKeyboardFocus::MenuScoped(_)) => ApprovalKeyboardFocus::MenuAllowOnce,
                        _ => if shift {
                            self.scoped_menu_focus_exec()
                        } else {
                            ApprovalKeyboardFocus::MenuAllowOnce
                        },
                    };
                    Some(ApprovalCardEvent::KeyboardFocusChanged(Some(next)))
                } else {
                    match self.closed_tab(shift) {
                        Some(f) => Some(ApprovalCardEvent::KeyboardFocusChanged(Some(f))),
                        None => None,
                    }
                }
            },
            Key::Escape => {
                if menu_open {
                    Some(ApprovalCardEvent::ToggleMenu)
                } else if self.can_reject() {
                    Some(ApprovalCardEvent::Decision(ApprovalDecision::Decline))
                } else {
                    None
                }
            },
            Key::Enter | Key::Space => self.activate(),
            Key::Down => {
                if menu_open {
                    let next = match self.keyboard_focus {
                        Some(ApprovalKeyboardFocus::MenuAllowOnce) => self.scoped_menu_focus_exec(),
                        _ => ApprovalKeyboardFocus::MenuAllowOnce,
                    };
                    Some(ApprovalCardEvent::KeyboardFocusChanged(Some(next)))
                } else {
                    None
                }
            },
            Key::Up => {
                if menu_open {
                    let next = match self.keyboard_focus {
                        Some(ApprovalKeyboardFocus::MenuScoped(_)) => ApprovalKeyboardFocus::MenuAllowOnce,
                        _ => self.scoped_menu_focus_exec(),
                    };
                    Some(ApprovalCardEvent::KeyboardFocusChanged(Some(next)))
                } else {
                    None
                }
            },
            _ => None,
        }
    }

    /// Applies a menu or focus event to a pending card. Decisions leave the
    /// model as it is: the caller answers the server and then reports the
    /// outcome through [`Self::apply_response`].
    pub fn apply_interaction(&mut self, event: ApprovalCardEvent)
        ensures
            *final(self) == old(self).interaction_spec(event),
    {
        if self.status != ApprovalCardStatus::Pending {
            return;
        }
        match event {
            ApprovalCardEvent::Decision(_) => {},
            ApprovalCardEvent::ToggleMenu => {
                if self.visual_state.menu_open() {
                    if matches!(
                        self.keyboard_focus,
                        Some(ApprovalKeyboardFocus::MenuAllowOnce) | Some(
                            ApprovalKeyboardFocus::MenuScoped(_),
                        )
                    ) {
                        self.keyboard_focus = Some(ApprovalKeyboardFocus::MenuToggle);
                    }
                    self.visual_state = ApprovalVisualState::Default;
                } else {
                    self.visual_state = ApprovalVisualState::SplitMenu { focused: None };
                }
            },
            ApprovalCardEvent::MenuFocusChanged(focused) => {
                self.visual_state = ApprovalVisualState::SplitMenu { focused };
            },
            ApprovalCardEvent::KeyboardFocusChanged(focused) => {
                self.keyboard_focus = focused;
                match focused {
                    Some(ApprovalKeyboardFocus::MenuAllowOnce) => {
                        self.visual_state =
                        ApprovalVisualState::SplitMenu { focused: Some(ApprovalMenuItem::AllowOnce) };
                    },
                    Some(ApprovalKeyboardFocus::MenuScoped(scope)) => {
                        self.visual_state =
                        ApprovalVisualState::SplitMenu {
                            focused: Some(ApprovalMenuItem::Scoped(scope)),
                        };
                    },
                    _ => {},
                }
            },
        }
    }

    /// Records how handing a decision to the server went. A delivered answer
    /// (or one for a request the server no longer lists) unmounts the card
    /// while the server stays authoritative; a failure marks the card failed
    /// (still shown, answered no more) and returns the notice to show.
    pub fn apply_response(&mut self, outcome: ApprovalResponseOutcome) -> (notice: Option<
        ProtocolErrorNotice,
    >)
        ensures
            old(self).status != ApprovalCardStatus::Pending ==> *final(self) == *old(self)
                && notice is None,
            old(self).status == ApprovalCardStatus::Pending ==> match outcome {
                ApprovalResponseOutcome::Sent => *final(self) == (ApprovalCardViewModel {
                    status: ApprovalCardStatus::Submitting,
                    ..*old(self)
                }) && notice is None,
                ApprovalResponseOutcome::Failed(error) => *final(self) == (ApprovalCardViewModel {
                    status: ApprovalCardStatus::Failed,
                    ..*old(self)
                }) && (notice
                    matches Some(n) && n.message@ == "无法回复命令审批"@ && n.details == Some(
                    error,
                )),
                ApprovalResponseOutcome::NoResponder { request_known } => if request_known {
                    *final(self) == (ApprovalCardViewModel {
                        status: ApprovalCardStatus::Failed,
                        ..*old(self)
                    }) && (notice matches Some(n) && n.message@
                        == "无法回复命令审批"@ && (n.details matches Some(d) && d@
                        == "命令审批 responder 不存在"@))
                } else {
                    *final(self) == (ApprovalCardViewModel {
                        status: ApprovalCardStatus::Submitting,
                        ..*old(self)
                    }) && notice is None
                },
            },
    {
        if self.status != ApprovalCardStatus::Pending {
            return None;
        }
        match outcome {
            ApprovalResponseOutcome::Sent => {
                self.status = ApprovalCardStatus::Submitting;
                None
            },
            ApprovalResponseOutcome::Failed(error) => {
                self.status = ApprovalCardStatus::Failed;
                Some(
                    ProtocolErrorNotice {
                        message: to_owned_string("无法回复命令审批"),
                        details: Some(error),
                    },
                )
            },
            ApprovalResponseOutcome::NoResponder { request_known } => {
                if request_known {
                    self.status = ApprovalCardStatus::Failed;
                    Some(
                        ProtocolErrorNotice {
                            message: to_owned_string("无法回复命令审批"),
                            details: Some(to_owned_string("命令审批 responder 不存在")),
                        },
                    )
                } else {
                    self.status = ApprovalCardStatus::Submitting;
                    None
                }
            },
        }
    }
}

/// `order_index` names exactly the positions of [`ApprovalCardViewModel::focus_order`].
pub proof fn lemma_order_index(m: ApprovalCardViewModel, f: ApprovalKeyboardFocus)
    ensures
        m.order_index(f) matches Some(i) ==> 0 <= i < m.focus_order().len() && m.focus_order()[i]
            == f,
        forall|i: int|
            0 <= i < m.focus_order().len() && m.focus_order()[i] == f ==> m.order_index(f) == Some(
                i,
            ),
{
    let o = m.focus_order();
    assert(o.len() <= 3);
    if m.can_reject_spec() {
        assert(o[0] == ApprovalKeyboardFocus::Decline);
    }
}

/// On a card with its menu closed, whatever its status, Tab moves focus
/// from `f` to the next stop of the focus order (wrapping to the first),
/// and Shift-Tab from there returns it to `f`.
pub proof fn lemma_tab_then_shift_tab_restores_focus(
    m: ApprovalCardViewModel,
    f: ApprovalKeyboardFocus,
)
    requires
        !m.visual_state.is_menu_open(),
        m.keyboard_focus == Some(f),
        m.order_index(f) is Some,
    ensures
        ({
            let o = m.focus_order();
            let g = o[(m.order_index(f)->0 + 1) % (o.len() as int)];
            &&& m.keyboard_spec(Key::Tab, false) == Some(
                ApprovalCardEvent::KeyboardFocusChanged(Some(g)),
            )
            &&& (ApprovalCardViewModel { keyboard_focus: Some(g), ..m }).keyboard_spec(Key::Tab, true)
                == Some(ApprovalCardEvent::KeyboardFocusChanged(Some(f)))
        }),
{
    let o = m.focus_order();
    lemma_order_index(m, f);
    let i = m.order_index(f)->0;
    let len = o.len() as int;
    let j = (i + 1) % len;
    if i + 1 < len {
        vstd::arithmetic::div_mod::lemma_small_mod((i + 1) as nat, len as nat);
    } else {
        vstd::arithmetic::div_mod::lemma_mod_self_0(len);
    }
    let g = o[j];
    assert(g == ApprovalKeyboardFocus::Decline || g == ApprovalKeyboardFocus::AllowOnce || g
        == ApprovalKeyboardFocus::MenuToggle);
    lemma_order_index(m, g);
    let m2 = ApprovalCardViewModel { keyboard_focus: Some(g), ..m };
    assert(m2.focus_order() == o);
    assert(m2.order_index(g) == m.order_index(g));
    if m.can_reject_spec() {
        assert(o[0] == ApprovalKeyboardFocus::Decline);
    }
    assert(m.order_index(g) == Some(j));
}

/// While the split menu is open, Tab, Up and Down only move focus between
/// the two menu rows and Escape only closes the menu: none of them answers.
pub proof fn lemma_open_menu_traps_navigation(m: ApprovalCardViewModel, shift: bool)
    requires
        m.visual_state.is_menu_open(),
    ensures
        forall|k: Key|
            (k == Key::Tab || k == Key::Up || k == Key::Down) ==> ((#[trigger] m.keyboard_spec(
                k,
                shift,
            )) matches Some(ApprovalCardEvent::KeyboardFocusChanged(Some(f))) && (f
                == ApprovalKeyboardFocus::MenuAllowOnce || f is MenuScoped)),
        m.keyboard_spec(Key::Escape, shift) == Some(ApprovalCardEvent::ToggleMenu),
{
}

/// Opening the split menu and closing it again leaves the card with a closed
/// menu and a focus outside the menu rows.
pub proof fn lemma_toggle_menu_twice_closes(m: ApprovalCardViewModel)
    requires
        m.status == ApprovalCardStatus::Pending,
        !m.visual_state.is_menu_open(),
    ensures
        ({
            let once = m.interaction_spec(ApprovalCardEvent::ToggleMenu);
            let twice = once.interaction_spec(ApprovalCardEvent::ToggleMenu);
            &&& once.visual_state == ApprovalVisualState::SplitMenu { focused: None }
            &&& twice.visual_state == ApprovalVisualState::Default
            &&& !(twice.keyboard_focus matches Some(ApprovalKeyboardFocus::MenuAllowOnce))
            &&& !(twice.keyboard_focus matches Some(ApprovalKeyboardFocus::MenuScoped(_)))
            &&& twice.request == m.request && twice.status == m.status
        }),
{
}

/// A keystroke declines only when the server offers a way to reject, and on
/// a closed card it approves only with a decision the server offers.
pub proof fn lemma_keyboard_decisions_are_offered(m: ApprovalCardViewModel, k: Key, shift: bool)
    ensures
        m.keyboard_spec(k, shift) == Some(ApprovalCardEvent::Decision(ApprovalDecision::Decline))
            ==> m.decline || m.cancel,
        !m.visual_state.is_menu_open() && !(m.keyboard_focus matches Some(
            ApprovalKeyboardFocus::MenuAllowOnce,
        )) && !(m.keyboard_focus matches Some(ApprovalKeyboardFocus::MenuScoped(_))) ==> (
        m.keyboard_spec(k, shift) == Some(ApprovalCardEvent::Decision(ApprovalDecision::AllowOnce))
            ==> m.allow_once),
        !m.visual_state.is_menu_open() && !(m.keyboard_focus matches Some(
            ApprovalKeyboardFocus::MenuAllowOnce,
        )) && !(m.keyboard_focus matches Some(ApprovalKeyboardFocus::MenuScoped(_))) ==> forall|
            s: ApprovalScope,
        |
            m.keyboard_spec(k, shift) == Some(
                ApprovalCardEvent::Decision(ApprovalDecision::AllowScoped(s)),
            ) ==> m.scoped_approval == Some(s),
{
}

/// In the open split menu of a card that offers a scope, the arrow keys
/// and Tab move between the two menu rows: from the allow-once row, Down,
/// Up and Tab reach the row of that scope, and from a scoped row they come
/// back to the allow-once row. Enter or Space on a row answers with that
/// row's decision.
pub proof fn lemma_menu_rows_reach_each_other(
    m: ApprovalCardViewModel,
    scope: ApprovalScope,
    shift: bool,
)
    requires
        m.visual_state.is_menu_open(),
        m.scoped_approval == Some(scope),
    ensures
        m.keyboard_focus == Some(ApprovalKeyboardFocus::MenuAllowOnce) ==> {
            &&& m.keyboard_spec(Key::Down, shift) == Some(
                ApprovalCardEvent::KeyboardFocusChanged(
                    Some(ApprovalKeyboardFocus::MenuScoped(scope)),
                ),
            )
            &&& m.keyboard_spec(Key::Up, shift) == Some(
                ApprovalCardEvent::KeyboardFocusChanged(
                    Some(ApprovalKeyboardFocus::MenuScoped(scope)),
                ),
            )
            &&& m.keyboard_spec(Key::Tab, shift) == Some(
                ApprovalCardEvent::KeyboardFocusChanged(
                    Some(ApprovalKeyboardFocus::MenuScoped(scope)),
                ),
            )
            &&& m.keyboard_spec(Key::Enter, shift) == Some(
                ApprovalCardEvent::Decision(ApprovalDecision::AllowOnce),
            )
            &&& m.keyboard_spec(Key::Space, shift) == Some(
                ApprovalCardEvent::Decision(ApprovalDecision::AllowOnce),
            )
        },
        m.keyboard_focus == Some(ApprovalKeyboardFocus::MenuScoped(scope)) ==> {
            &&& m.keyboard_spec(Key::Down, shift) == Some(
                ApprovalCardEvent::KeyboardFocusChanged(Some(ApprovalKeyboardFocus::MenuAllowOnce)),
            )
            &&& m.keyboard_spec(Key::Up, shift) == Some(
                ApprovalCardEvent::KeyboardFocusChanged(Some(ApprovalKeyboardFocus::MenuAllowOnce)),
            )
            &&& m.keyboard_spec(Key::Tab, shift) == Some(
                ApprovalCardEvent::KeyboardFocusChanged(Some(ApprovalKeyboardFocus::MenuAllowOnce)),
            )
            &&& m.keyboard_spec(Key::Enter, shift) == Some(
                ApprovalCardEvent::Decision(ApprovalDecision::AllowScoped(scope)),
            )
        },
{
}

/// Down followed by Up in the open split menu returns focus to the row it
/// started from, and so does Up followed by Down.
pub proof fn lemma_menu_arrows_undo_each_other(
    m: ApprovalCardViewModel,
    scope: ApprovalScope,
    first: Key,
    second: Key,
)
    requires
        m.status == ApprovalCardStatus::Pending,
        m.visual_state.is_menu_open(),
        m.scoped_approval == Some(scope),
        m.keyboard_focus == Some(ApprovalKeyboardFocus::MenuAllowOnce) || m.keyboard_focus == Some(
            ApprovalKeyboardFocus::MenuScoped(scope),
        ),
        (first == Key::Down && second == Key::Up) || (first == Key::Up && second == Key::Down),
    ensures
        m.keyboard_spec(first, false) matches Some(e) && m.interaction_spec(e).keyboard_spec(
            second,
            false,
        ) == Some(ApprovalCardEvent::KeyboardFocusChanged(m.keyboard_focus)),
{
}

/// Enter or Space on the focused Reject button of a card that can reject
/// declines, and so does Escape on a card whose menu is closed; a card
/// that cannot reject answers neither way.
pub proof fn lemma_reject_button_declines(m: ApprovalCardViewModel, shift: bool)
    ensures
        m.keyboard_focus == Some(ApprovalKeyboardFocus::Decline) ==> {
            &&& m.keyboard_spec(Key::Enter, shift) == (if m.decline || m.cancel {
                Some(ApprovalCardEvent::Decision(ApprovalDecision::Decline))
            } else {
                None
            })
            &&& m.keyboard_spec(Key::Space, shift) == m.keyboard_spec(Key::Enter, shift)
        },
        !m.visual_state.is_menu_open() ==> m.keyboard_spec(Key::Escape, shift) == (if m.decline
            || m.cancel {
            Some(ApprovalCardEvent::Decision(ApprovalDecision::Decline))
        } else {
            None
        }),
{
}

} // verus!
