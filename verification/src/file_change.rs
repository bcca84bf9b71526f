//! File approval card and the completed file-change activity row.

use vstd::prelude::*;

use crate::keys::{Key, classify_key, key_of};
use crate::paths::{byte_len, split_directory_and_name, split_index, splits_on_char_boundary};
use crate::review::{
    DiffFilePresentation, DiffFileVisualState, DiffFileView, DiffLinePresentation,
    DiffReviewPresentation, DiffReviewView, added_line, files_view, sum_additions, sum_deletions,
};
use crate::approval::{ApprovalResponseOutcome, ProtocolErrorNotice};
use crate::theme::ThemeMode;
use crate::text::{
    append_decimal, chars_of, concat2, decimal, digit_char, ends_with, is_blank, opt_string,
    skip_ws, skip_ws_back, starts_with, str_eq, to_owned_string, trim, trim_start,
    vec_ends_with, vec_starts_with,
};

verus! {

#[derive(Clone, Copy, Debug, Default, PartialEq, Eq, Structural)]
pub enum FileApprovalStatus {
    #[default]
    Pending,
    /// The answer was handed to the server, which has yet to release the
    /// request; the card is no longer shown.
    Submitting,
    /// Handing the answer to the server failed: the card stays shown with
    /// its failure message and takes no further decision.
    Failed,
    Resolved,
}

/// The answer sent to the app server for a file approval.
#[derive(Clone, Copy, Debug, PartialEq, Eq, Structural)]
pub enum FileApprovalChoice {
    Accept,
    AcceptForSession,
    Decline,
}

/// What the caller does after a file approval event.
#[derive(Clone, Copy, Debug, PartialEq, Eq, Structural)]
pub enum FileApprovalAction {
    Nothing,
    /// Send this answer to the server, then report how it went.
    Answer(FileApprovalChoice),
    /// Stop the current turn, first declining the request when `decline`.
    StopTurn { decline: bool },
}

/// The answer a decision sends.
pub open spec fn file_choice_spec(d: FileApprovalDecision) -> FileApprovalChoice {
    match d {
        FileApprovalDecision::AllowOnce => FileApprovalChoice::Accept,
        FileApprovalDecision::AllowAllEdits => FileApprovalChoice::AcceptForSession,
        FileApprovalDecision::Decline => FileApprovalChoice::Decline,
    }
}

/// The answer a decision sends (see `file_choice_spec`).
pub fn file_approval_choice(d: FileApprovalDecision) -> (c: FileApprovalChoice)
    ensures
        c == file_choice_spec(d),
{
    match d {
        FileApprovalDecision::AllowOnce => FileApprovalChoice::Accept,
        FileApprovalDecision::AllowAllEdits => FileApprovalChoice::AcceptForSession,
        FileApprovalDecision::Decline => FileApprovalChoice::Decline,
    }
}

#[derive(Clone, Copy, Debug, PartialEq, Eq, Structural)]
pub enum FileApprovalDecision {
    AllowOnce,
    AllowAllEdits,
    Decline,
}

#[derive(Clone, Copy, Debug, PartialEq, Eq, Structural)]
pub enum FileApprovalMenuItem {
    AllowOnce,
    AllowAllEdits,
}

#[derive(Clone, Copy, Debug, PartialEq, Eq, Structural)]
pub enum FileApprovalKeyboardFocus {
    Decline,
    AllowOnce,
    MenuToggle,
    MenuAllowOnce,
    MenuAllowAllEdits,
}

#[derive(Clone, Copy, Debug, Default, PartialEq, Eq, Structural)]
pub enum FileApprovalVisualState {
    #[default]
    Default,
    AllowHovered,
    DeclineHovered,
    SplitMenu { focused: Option<FileApprovalMenuItem> },
}

impl FileApprovalVisualState {
    pub open spec fn is_menu_open(self) -> bool {
        self is SplitMenu
    }

    pub fn menu_open(self) -> (b: bool)
        ensures
            b == self.is_menu_open(),
    {
        matches!(self, FileApprovalVisualState::SplitMenu { .. })
    }

    pub fn focused_menu_item(self) -> (f: Option<FileApprovalMenuItem>)
        ensures
            f == (match self {
                FileApprovalVisualState::SplitMenu { focused } => focused,
                _ => None,
            }),
    {
        match self {
            FileApprovalVisualState::SplitMenu { focused } => focused,
            _ => None,
        }
    }
}

#[derive(Clone, Debug, PartialEq, Eq)]
pub struct FileApprovalPathPresentation {
    pub path: String,
    pub additions: u32,
    pub deletions: u32,
}

impl FileApprovalPathPresentation {
    pub fn new(path: &str, additions: u32, deletions: u32) -> (p: Self)
        ensures
            p.path@ == path@,
            p.additions == additions,
            p.deletions == deletions,
    {
        FileApprovalPathPresentation { path: to_owned_string(path), additions, deletions }
    }

    /// The accessible label of the file's row: its path with the line
    /// counts.
    pub fn accessible_label(&self) -> (l: String)
        ensures
            l@ == line_counts_label(self.path@, self.additions, self.deletions),
    {
        line_counts_label_text(self.path.as_str(), self.additions, self.deletions)
    }

    /// The directory (regular weight) and file name (bold) of the path.
    pub fn directory_and_name(&self) -> (r: (&str, &str))
        requires
            splits_on_char_boundary(self.path@),
            byte_len(self.path@) <= usize::MAX,
        ensures
            r.0@ == self.path@.subrange(0, split_index(self.path@)),
            r.1@ == self.path@.subrange(split_index(self.path@), self.path@.len() as int),
    {
        split_directory_and_name(self.path.as_str())
    }
}

#[derive(Clone, Copy, Debug, PartialEq, Eq, Structural)]
pub enum FileApprovalEvent {
    Decision(FileApprovalDecision),
    ToggleMenu,
    MenuFocusChanged(Option<FileApprovalMenuItem>),
    KeyboardFocusChanged(Option<FileApprovalKeyboardFocus>),
    /// Stop the current turn (Shift+Esc), declining a pending request.
    StopTurn,
}

#[derive(Clone, Debug, PartialEq, Eq)]
pub struct FileApprovalPresentation {
    pub request_id: String,
    pub files: Vec<FileApprovalPathPresentation>,
    pub reason: Option<String>,
    pub status: FileApprovalStatus,
    pub failure_message: Option<String>,
    /// Whether the patch this request is about has arrived; until then the
    /// card approves nothing.
    pub patch_seen: bool,
    pub visual_state: FileApprovalVisualState,
    pub keyboard_focus: Option<FileApprovalKeyboardFocus>,
}

impl FileApprovalPresentation {
    /// The question the card asks: an explicit, non-blank reason (trimmed),
    /// else the default copy.
    pub open spec fn question_spec(self) -> Seq<char> {
        if self.reason is Some && !is_blank(self.reason->0@) {
            trim(self.reason->0@)
        } else {
            "是否允许 ChatGPT 编辑以下文件？"@
        }
    }

    pub open spec fn tab_target(self, shift: bool) -> FileApprovalKeyboardFocus {
        if self.visual_state.is_menu_open() {
            match self.keyboard_focus {
                Some(FileApprovalKeyboardFocus::MenuAllowOnce) => FileApprovalKeyboardFocus::MenuAllowAllEdits,
                Some(FileApprovalKeyboardFocus::MenuAllowAllEdits) => FileApprovalKeyboardFocus::MenuAllowOnce,
                _ => if shift {
                    FileApprovalKeyboardFocus::MenuAllowAllEdits
                } else {
                    FileApprovalKeyboardFocus::MenuAllowOnce
                },
            }
        } else {
            match (self.keyboard_focus, shift) {
                (Some(FileApprovalKeyboardFocus::Decline), false) => FileApprovalKeyboardFocus::AllowOnce,
                (Some(FileApprovalKeyboardFocus::AllowOnce), false) => FileApprovalKeyboardFocus::MenuToggle,
                (Some(FileApprovalKeyboardFocus::MenuToggle), false) => FileApprovalKeyboardFocus::Decline,
                (Some(FileApprovalKeyboardFocus::Decline), true) => FileApprovalKeyboardFocus::MenuToggle,
                (Some(FileApprovalKeyboardFocus::AllowOnce), true) => FileApprovalKeyboardFocus::Decline,
                (Some(FileApprovalKeyboardFocus::MenuToggle), true) => FileApprovalKeyboardFocus::AllowOnce,
                (_, true) => FileApprovalKeyboardFocus::MenuToggle,
                _ => FileApprovalKeyboardFocus::Decline,
            }
        }
    }

    /// The event a keystroke produces on this card. A pending card takes
    /// the card keys, Shift+Esc (with the menu closed) rejecting and stopping
    /// the turn; a failed card only takes Shift+Esc, which stops the turn;
    /// other cards take nothing.
    pub open spec fn keyboard_spec(self, key: Key, shift: bool) -> Option<FileApprovalEvent> {
        if self.status == FileApprovalStatus::Failed {
            if key is Escape && shift {
                Some(FileApprovalEvent::StopTurn)
            } else {
                None
            }
        } else if self.status != FileApprovalStatus::Pending {
            None
        } else {
            self.pending_keyboard_spec(key, shift)
        }
    }

    pub open spec fn pending_keyboard_spec(self, key: Key, shift: bool) -> Option<FileApprovalEvent> {
        let menu_open = self.visual_state.is_menu_open();
        match key {
            Key::Tab => Some(FileApprovalEvent::KeyboardFocusChanged(Some(self.tab_target(shift)))),
            Key::Escape => if menu_open {
                Some(FileApprovalEvent::ToggleMenu)
            } else if shift {
                Some(FileApprovalEvent::StopTurn)
            } else {
                Some(FileApprovalEvent::Decision(FileApprovalDecision::Decline))
            },
            Key::Enter | Key::Space => match self.keyboard_focus {
                Some(FileApprovalKeyboardFocus::Decline) => Some(
                    FileApprovalEvent::Decision(FileApprovalDecision::Decline),
                ),
                Some(FileApprovalKeyboardFocus::MenuToggle) => Some(FileApprovalEvent::ToggleMenu),
                Some(FileApprovalKeyboardFocus::MenuAllowOnce) => Some(
                    FileApprovalEvent::Decision(FileApprovalDecision::AllowOnce),
                ),
                Some(FileApprovalKeyboardFocus::MenuAllowAllEdits) => Some(
                    FileApprovalEvent::Decision(FileApprovalDecision::AllowAllEdits),
                ),
                _ => if menu_open {
                    None
                } else {
                    Some(FileApprovalEvent::Decision(FileApprovalDecision::AllowOnce))
                },
            },
            Key::Down => if menu_open {
                Some(
                    FileApprovalEvent::KeyboardFocusChanged(
                        Some(
                            match self.keyboard_focus {
                                Some(FileApprovalKeyboardFocus::MenuAllowOnce) => FileApprovalKeyboardFocus::MenuAllowAllEdits,
                                _ => FileApprovalKeyboardFocus::MenuAllowOnce,
                            },
                        ),
                    ),
                )
            } else {
                None
            },
            Key::Up => if menu_open {
                Some(
                    FileApprovalEvent::KeyboardFocusChanged(
                        Some(
                            match self.keyboard_focus {
                                Some(FileApprovalKeyboardFocus::MenuAllowAllEdits) => FileApprovalKeyboardFocus::MenuAllowOnce,
                                _ => FileApprovalKeyboardFocus::MenuAllowAllEdits,
                            },
                        ),
                    ),
                )
            } else {
                None
            },
            _ => None,
        }
    }

    /// The card after an event, and what the caller does next. A pending
    /// card answers a decision (an approval only once its patch has
    /// arrived) without changing until the outcome is reported, and stops
    /// the turn with a rejection on `StopTurn`; a submitted or failed card
    /// only stops the turn, which unmounts it; a resolved card ignores
    /// everything.
    pub open spec fn event_spec(self, event: FileApprovalEvent) -> (Self, FileApprovalAction) {
        match self.status {
            FileApprovalStatus::Pending => match event {
                FileApprovalEvent::Decision(d) => (
                    self,
                    if self.patch_seen || d == FileApprovalDecision::Decline {
                        FileApprovalAction::Answer(file_choice_spec(d))
                    } else {
                        FileApprovalAction::Nothing
                    },
                ),
                FileApprovalEvent::StopTurn => (
                    FileApprovalPresentation { status: FileApprovalStatus::Resolved, ..self },
                    FileApprovalAction::StopTurn { decline: true },
                ),
                _ => (self.interaction_spec(event), FileApprovalAction::Nothing),
            },
            FileApprovalStatus::Submitting | FileApprovalStatus::Failed => match event {
                FileApprovalEvent::StopTurn => (
                    FileApprovalPresentation { status: FileApprovalStatus::Resolved, ..self },
                    FileApprovalAction::StopTurn { decline: false },
                ),
                _ => (self, FileApprovalAction::Nothing),
            },
            FileApprovalStatus::Resolved => (self, FileApprovalAction::Nothing),
        }
    }

    /// A menu or focus event on the card.
    pub open spec fn interaction_spec(self, event: FileApprovalEvent) -> Self {
        match event {
            FileApprovalEvent::Decision(_) | FileApprovalEvent::StopTurn => self,
            FileApprovalEvent::ToggleMenu => if self.visual_state.is_menu_open() {
                FileApprovalPresentation {
                    visual_state: FileApprovalVisualState::Default,
                    keyboard_focus: match self.keyboard_focus {
                        Some(FileApprovalKeyboardFocus::MenuAllowOnce) | Some(
                            FileApprovalKeyboardFocus::MenuAllowAllEdits,
                        ) => Some(FileApprovalKeyboardFocus::MenuToggle),
                        other => other,
                    },
                    ..self
                }
            } else {
                FileApprovalPresentation {
                    visual_state: FileApprovalVisualState::SplitMenu { focused: None },
                    ..self
                }
            },
            FileApprovalEvent::MenuFocusChanged(focused) => FileApprovalPresentation {
                visual_state: FileApprovalVisualState::SplitMenu { focused },
                ..self
            },
            FileApprovalEvent::KeyboardFocusChanged(focused) => FileApprovalPresentation {
                keyboard_focus: focused,
                visual_state: match focused {
                    Some(FileApprovalKeyboardFocus::MenuAllowOnce) => FileApprovalVisualState::SplitMenu {
                        focused: Some(FileApprovalMenuItem::AllowOnce),
                    },
                    Some(FileApprovalKeyboardFocus::MenuAllowAllEdits) => FileApprovalVisualState::SplitMenu {
                        focused: Some(FileApprovalMenuItem::AllowAllEdits),
                    },
                    _ => self.visual_state,
                },
                ..self
            },
        }
    }

    pub fn pending(
        request_id: &str,
        files: Vec<FileApprovalPathPresentation>,
        reason: Option<String>,
    ) -> (m: Self)
        ensures
            m.request_id@ == request_id@,
            m.files == files,
            m.reason == reason,
            m.status == FileApprovalStatus::Pending,
            m.failure_message is None,
            !m.patch_seen,
            m.visual_state == FileApprovalVisualState::Default,
            m.keyboard_focus is None,
    {
        FileApprovalPresentation {
            request_id: to_owned_string(request_id),
            files,
            reason,
            status: FileApprovalStatus::Pending,
            failure_message: None,
            patch_seen: false,
            visual_state: FileApprovalVisualState::Default,
            keyboard_focus: None,
        }
    }

    pub fn question(&self) -> (q: &str)
        ensures
            q@ == self.question_spec(),
    {
        if let Some(reason) = &self.reason {
            let v = chars_of(reason.as_str());
            let lo = skip_ws(&v, 0, v.len());
            let hi = skip_ws_back(&v, lo, v.len());
            proof {
                assert(v@.subrange(0, v@.len() as int) == v@);
                assert(trim_start(v@) == v@.subrange(lo as int, v@.len() as int));
                crate::text::lemma_blank_iff_trim_empty(v@);
            }
            if lo < hi {
                return reason.as_str().substring_char(lo, hi);
            }
        }
        "是否允许 ChatGPT 编辑以下文件？"
    }

    /// Whether the card is shown: while it waits for a decision, and after
    /// a failed answer.
    pub fn should_render(&self) -> (b: bool)
        ensures
            b == (self.status == FileApprovalStatus::Pending || self.status
                == FileApprovalStatus::Failed),
    {
        self.status == FileApprovalStatus::Pending || self.status == FileApprovalStatus::Failed
    }

    /// Records that the request's patch has arrived.
    pub fn patch_arrived(&mut self)
        ensures
            *final(self) == (FileApprovalPresentation { patch_seen: true, ..*old(self) }),
    {
        self.patch_seen = true;
    }

    /// The status after reporting how handing the answer went.
    pub open spec fn response_status(self, outcome: ApprovalResponseOutcome) -> FileApprovalStatus {
        if self.status != FileApprovalStatus::Pending {
            self.status
        } else {
            match outcome {
                ApprovalResponseOutcome::Sent => FileApprovalStatus::Submitting,
                ApprovalResponseOutcome::Failed(_) => FileApprovalStatus::Failed,
                ApprovalResponseOutcome::NoResponder { request_known } => if request_known {
                    FileApprovalStatus::Failed
                } else {
                    FileApprovalStatus::Submitting
                },
            }
        }
    }

    /// The card `c` after reporting `outcome`: the status moves on, and a
    /// failure sets the failure message; nothing else changes.
    pub open spec fn response_card(self, outcome: ApprovalResponseOutcome, c: Self) -> bool {
        &&& c.status == self.response_status(outcome)
        &&& if self.status == FileApprovalStatus::Pending && c.status == FileApprovalStatus::Failed {
            &&& c == (FileApprovalPresentation {
                status: FileApprovalStatus::Failed,
                failure_message: c.failure_message,
                ..self
            })
            &&& opt_string(c.failure_message) == Some(
                match outcome {
                    ApprovalResponseOutcome::Failed(_) => "无法写入文件审批响应"@,
                    _ => "文件审批 responder 不存在"@,
                },
            )
        } else {
            c == (FileApprovalPresentation { status: c.status, ..self })
        }
    }

    /// The details of the protocol notice that reporting `outcome` adds to
    /// the conversation, if it adds one.
    pub open spec fn response_notice(self, outcome: ApprovalResponseOutcome) -> Option<
        Option<Seq<char>>,
    > {
        if self.status != FileApprovalStatus::Pending {
            None
        } else {
            match outcome {
                ApprovalResponseOutcome::Sent => None,
                ApprovalResponseOutcome::Failed(e) => Some(Some(e@)),
                ApprovalResponseOutcome::NoResponder { request_known } => if request_known {
                    Some(Some("文件审批 responder 不存在"@))
                } else {
                    None
                },
            }
        }
    }

    /// Records how handing the answer of a pending card to the server went:
    /// a delivered answer (or one for a request the server no longer lists)
    /// unmounts the card until the server releases the request; a failure
    /// leaves the card shown as failed with its message, and returns the
    /// notice for the conversation. Other cards stay as they are.
    pub fn apply_response(&mut self, outcome: ApprovalResponseOutcome) -> (notice: Option<
        ProtocolErrorNotice,
    >)
        ensures
            old(self).response_card(outcome, *final(self)),
            match old(self).response_notice(outcome) {
                None => notice is None,
                Some(d) => notice matches Some(n) && n.message@ == "无法回复文件审批"@ && opt_string(
                    n.details,
                ) == d,
            },
            final(self).status == old(self).response_status(outcome),
            old(self).status != FileApprovalStatus::Pending ==> *final(self) == *old(self)
                && notice is None,
            old(self).status == FileApprovalStatus::Pending ==> match outcome {
                ApprovalResponseOutcome::Sent => *final(self) == (FileApprovalPresentation {
                    status: FileApprovalStatus::Submitting,
                    ..*old(self)
                }) && notice is None,
                ApprovalResponseOutcome::Failed(error) => *final(self) == (FileApprovalPresentation {
                    status: FileApprovalStatus::Failed,
                    failure_message: final(self).failure_message,
                    ..*old(self)
                }) && opt_string(final(self).failure_message) == Some("无法写入文件审批响应"@) && (
                notice matches Some(n) && n.message@ == "无法回复文件审批"@ && n.details == Some(
                    error,
                )),
                ApprovalResponseOutcome::NoResponder { request_known } => if request_known {
                    *final(self) == (FileApprovalPresentation {
                        status: FileApprovalStatus::Failed,
                        failure_message: final(self).failure_message,
                        ..*old(self)
                    }) && opt_string(final(self).failure_message) == Some(
                        "文件审批 responder 不存在"@,
                    ) && (notice matches Some(n) && n.message@ == "无法回复文件审批"@ && opt_string(
                        n.details,
                    ) == Some("文件审批 responder 不存在"@))
                } else {
                    *final(self) == (FileApprovalPresentation {
                        status: FileApprovalStatus::Submitting,
                        ..*old(self)
                    }) && notice is None
                },
            },
    {
        if self.status != FileApprovalStatus::Pending {
            return None;
        }
        match outcome {
            ApprovalResponseOutcome::Sent => {
                self.status = FileApprovalStatus::Submitting;
                None
            },
            ApprovalResponseOutcome::Failed(error) => {
                self.status = FileApprovalStatus::Failed;
                self.failure_message = Some(to_owned_string("无法写入文件审批响应"));
                Some(
                    ProtocolErrorNotice {
                        message: to_owned_string("无法回复文件审批"),
                        details: Some(error),
                    },
                )
            },
            ApprovalResponseOutcome::NoResponder { request_known } => {
                if request_known {
                    self.status = FileApprovalStatus::Failed;
                    self.failure_message = Some(to_owned_string("文件审批 responder 不存在"));
                    Some(
                        ProtocolErrorNotice {
                            message: to_owned_string("无法回复文件审批"),
                            details: Some(to_owned_string("文件审批 responder 不存在")),
                        },
                    )
                } else {
                    self.status = FileApprovalStatus::Submitting;
                    None
                }
            },
        }
    }

    /// The event produced by the keystroke `key` (with Shift held or not).
    pub fn keyboard_event(&self, key: &str, shift: bool) -> (e: Option<FileApprovalEvent>)
        ensures
            e == self.keyboard_spec(key_of(key@), shift),
    {
        if self.status == FileApprovalStatus::Failed {
            return match classify_key(key) {
                Key::Escape => if shift {
                    Some(FileApprovalEvent::StopTurn)
                } else {
                    None
                },
                _ => None,
            };
        }
        if self.status != FileApprovalStatus::Pending {
            return None;
        }
        let menu_open = self.visual_state.menu_open();
        match classify_key(key) {
            Key::Tab => {
                let next = if menu_open {
                    match self.keyboard_focus {
                        Some(FileApprovalKeyboardFocus::MenuAllowOnce) => FileApprovalKeyboardFocus::MenuAllowAllEdits,
                        Some(FileApprovalKeyboardFocus::MenuAllowAllEdits) => FileApprovalKeyboardFocus::MenuAllowOnce,
                        _ => if shift {
                            FileApprovalKeyboardFocus::MenuAllowAllEdits
                        } else {
                            FileApprovalKeyboardFocus::MenuAllowOnce
                        },
                    }
                } else {
                    match (self.keyboard_focus, shift) {
                        (Some(FileApprovalKeyboardFocus::Decline), false) => FileApprovalKeyboardFocus::AllowOnce,
                        (Some(FileApprovalKeyboardFocus::AllowOnce), false) => FileApprovalKeyboardFocus::MenuToggle,
                        (Some(FileApprovalKeyboardFocus::MenuToggle), false) => FileApprovalKeyboardFocus::Decline,
                        (Some(FileApprovalKeyboardFocus::Decline), true) => FileApprovalKeyboardFocus::MenuToggle,
                        (Some(FileApprovalKeyboardFocus::AllowOnce), true) => FileApprovalKeyboardFocus::Decline,
                        (Some(FileApprovalKeyboardFocus::MenuToggle), true) => FileApprovalKeyboardFocus::AllowOnce,
                        (_, true) => FileApprovalKeyboardFocus::MenuToggle,
                        _ => FileApprovalKeyboardFocus::Decline,
                    }
                };
                Some(FileApprovalEvent::KeyboardFocusChanged(Some(next)))
            },
            Key::Escape => {
                if menu_open {
                    Some(FileApprovalEvent::ToggleMenu)
                } else if shift {
                    Some(FileApprovalEvent::StopTurn)
                } else {
                    Some(FileApprovalEvent::Decision(FileApprovalDecision::Decline))
                }
            },
            Key::Enter | Key::Space => match self.keyboard_focus {
                Some(FileApprovalKeyboardFocus::Decline) => Some(
                    FileApprovalEvent::Decision(FileApprovalDecision::Decline),
                ),
                Some(FileApprovalKeyboardFocus::MenuToggle) => Some(FileApprovalEvent::ToggleMenu),
                Some(FileApprovalKeyboardFocus::MenuAllowOnce) => Some(
                    FileApprovalEvent::Decision(FileApprovalDecision::AllowOnce),
                ),
                Some(FileApprovalKeyboardFocus::MenuAllowAllEdits) => Some(
                    FileApprovalEvent::Decision(FileApprovalDecision::AllowAllEdits),
                ),
                _ => if menu_open {
                    None
                } else {
                    Some(FileApprovalEvent::Decision(FileApprovalDecision::AllowOnce))
                },
            },
            Key::Down => {
                if menu_open {
                    let next = match self.keyboard_focus {
                        Some(FileApprovalKeyboardFocus::MenuAllowOnce) => FileApprovalKeyboardFocus::MenuAllowAllEdits,
                        _ => FileApprovalKeyboardFocus::MenuAllowOnce,
                    };
                    Some(FileApprovalEvent::KeyboardFocusChanged(Some(next)))
                } else {
                    None
                }
            },
            Key::Up => {
                if menu_open {
                    let next = match self.keyboard_focus {
                        Some(FileApprovalKeyboardFocus::MenuAllowAllEdits) => FileApprovalKeyboardFocus::MenuAllowOnce,
                        _ => FileApprovalKeyboardFocus::MenuAllowAllEdits,
                    };
                    Some(FileApprovalEvent::KeyboardFocusChanged(Some(next)))
                } else {
                    None
                }
            },
            _ => None,
        }
    }

    /// Applies a card event and returns what the caller does next (see
    /// `event_spec`).
    pub fn apply_event(&mut self, event: FileApprovalEvent) -> (a: FileApprovalAction)
        ensures
            (*final(self), a) == old(self).event_spec(event),
    {
        if self.status == FileApprovalStatus::Resolved {
            return FileApprovalAction::Nothing;
        }
        if self.status != FileApprovalStatus::Pending {
            return match event {
                FileApprovalEvent::StopTurn => {
                    self.status = FileApprovalStatus::Resolved;
                    FileApprovalAction::StopTurn { decline: false }
                },
                _ => FileApprovalAction::Nothing,
            };
        }
        match event {
            FileApprovalEvent::Decision(d) => {
                return if self.patch_seen || matches!(d, FileApprovalDecision::Decline) {
                    FileApprovalAction::Answer(file_approval_choice(d))
                } else {
                    FileApprovalAction::Nothing
                };
            },
            FileApprovalEvent::StopTurn => {
                self.status = FileApprovalStatus::Resolved;
                return FileApprovalAction::StopTurn { decline: true };
            },
            FileApprovalEvent::ToggleMenu => {
                if self.visual_state.menu_open() {
                    if matches!(
                        self.keyboard_focus,
                        Some(FileApprovalKeyboardFocus::MenuAllowOnce) | Some(
                            FileApprovalKeyboardFocus::MenuAllowAllEdits,
                        )
                    ) {
                        self.keyboard_focus = Some(FileApprovalKeyboardFocus::MenuToggle);
                    }
                    self.visual_state = FileApprovalVisualState::Default;
                } else {
                    self.visual_state = FileApprovalVisualState::SplitMenu { focused: None };
                }
            },
            FileApprovalEvent::MenuFocusChanged(focused) => {
                self.visual_state = FileApprovalVisualState::SplitMenu { focused };
            },
            FileApprovalEvent::KeyboardFocusChanged(focused) => {
                self.keyboard_focus = focused;
                match focused {
                    Some(FileApprovalKeyboardFocus::MenuAllowOnce) => {
                        self.visual_state =
                        FileApprovalVisualState::SplitMenu {
                            focused: Some(FileApprovalMenuItem::AllowOnce),
                        };
                    },
                    Some(FileApprovalKeyboardFocus::MenuAllowAllEdits) => {
                        self.visual_state =
                        FileApprovalVisualState::SplitMenu {
                            focused: Some(FileApprovalMenuItem::AllowAllEdits),
                        };
                    },
                    _ => {},
                }
            },
        }
        FileApprovalAction::Nothing
    }
}

/// On the closed card, Tab walks Reject → Allow → options toggle and back
/// to Reject; Shift-Tab walks the same cycle backwards.
pub proof fn lemma_file_tab_cycle(m: FileApprovalPresentation, f: FileApprovalKeyboardFocus)
    requires
        m.status == FileApprovalStatus::Pending,
        !m.visual_state.is_menu_open(),
        f == FileApprovalKeyboardFocus::Decline || f == FileApprovalKeyboardFocus::AllowOnce || f
            == FileApprovalKeyboardFocus::MenuToggle,
    ensures
        ({
            let m0 = FileApprovalPresentation { keyboard_focus: Some(f), ..m };
            let g = m0.tab_target(false);
            let m1 = m0.event_spec(FileApprovalEvent::KeyboardFocusChanged(Some(g))).0;
            let m2 = m1.event_spec(
                FileApprovalEvent::KeyboardFocusChanged(Some(m1.tab_target(false))),
            ).0;
            let m3 = m2.event_spec(
                FileApprovalEvent::KeyboardFocusChanged(Some(m2.tab_target(false))),
            ).0;
            &&& m1.tab_target(true) == f
            &&& m3.keyboard_focus == Some(f)
        }),
{
}

/// A file card hands the server at most one answer: only a pending card
/// answers, no approval leaves before the patch has arrived, and whatever
/// became of the answer the card is no longer pending afterwards.
pub proof fn lemma_file_card_answers_once(
    m: FileApprovalPresentation,
    e: FileApprovalEvent,
    o: ApprovalResponseOutcome,
)
    ensures
        m.status != FileApprovalStatus::Pending ==> !(m.event_spec(e).1 is Answer),
        !m.patch_seen && m.event_spec(e).1 is Answer ==> m.event_spec(e).1
            == FileApprovalAction::Answer(FileApprovalChoice::Decline),
        m.status == FileApprovalStatus::Pending ==> m.response_status(o)
            != FileApprovalStatus::Pending,
{
}

/// A failed card stays shown until the turn is stopped, and stopping the
/// turn unmounts any shown card, declining it only if it still waited for
/// a decision.
pub proof fn lemma_stop_turn_leaves_failure(m: FileApprovalPresentation)
    requires
        m.status == FileApprovalStatus::Pending || m.status == FileApprovalStatus::Failed,
    ensures
        m.event_spec(FileApprovalEvent::StopTurn).0.status == FileApprovalStatus::Resolved,
        m.event_spec(FileApprovalEvent::StopTurn).1 == (FileApprovalAction::StopTurn {
            decline: m.status == FileApprovalStatus::Pending,
        }),
        m.status == FileApprovalStatus::Failed ==> forall|d: FileApprovalDecision|
            #[trigger] m.event_spec(FileApprovalEvent::Decision(d)) == (m, FileApprovalAction::Nothing),
{
}

#[derive(Clone, Copy, Debug, Default, PartialEq, Eq, Structural)]
pub enum FileChangeActivityVisualState {
    #[default]
    Default,
    HeaderHovered,
}

/// Where a file change stands.
#[derive(Clone, Copy, Debug, PartialEq, Eq, Structural)]
pub enum FileChangeStatus {
    InProgress,
    Completed,
    Failed,
}

#[derive(Clone, Debug, PartialEq, Eq)]
pub struct FileChangeActivityPresentation {
    pub item_id: String,
    pub status: FileChangeStatus,
    pub path: String,
    pub additions: u32,
    pub deletions: u32,
    pub visual_state: FileChangeActivityVisualState,
    pub details_expanded: bool,
    pub review: DiffReviewPresentation,
}

impl FileChangeActivityPresentation {
    /// A completed edit of one file.
    pub fn edited(item_id: &str, path: &str, additions: u32, deletions: u32) -> (a: Self)
        ensures
            a.item_id@ == item_id@,
            a.status == FileChangeStatus::Completed,
            a.path@ == path@,
            a.additions == additions,
            a.deletions == deletions,
            a.visual_state == FileChangeActivityVisualState::Default,
            !a.details_expanded,
            a.review@ == (DiffReviewView {
                review_id: "file-change-"@ + item_id@,
                turn_label: "上一轮"@,
                files: seq![
                    DiffFileView {
                        path: path@,
                        resolved_path: Some(path@),
                        additions,
                        deletions,
                        lines: seq![],
                        visual_state: DiffFileVisualState::Expanded,
                    },
                ],
                show_summary: false,
                show_file_tree: true,
                raw_diff: None,
            }),
    {
        let review_id = concat2("file-change-", item_id);
        let file = DiffFilePresentation {
            path: to_owned_string(path),
            resolved_path: Some(to_owned_string(path)),
            additions,
            deletions,
            lines: Vec::new(),
            visual_state: DiffFileVisualState::Expanded,
        };
        let mut files: Vec<DiffFilePresentation> = Vec::new();
        files.push(file);
        let review = DiffReviewPresentation::new(review_id.as_str(), "上一轮", files);
        proof {
            assert(review@.files[0].lines =~= Seq::<crate::review::DiffLineView>::empty());
            assert(review@.files =~= seq![review@.files[0]]);
        }
        FileChangeActivityPresentation {
            item_id: to_owned_string(item_id),
            status: FileChangeStatus::Completed,
            path: to_owned_string(path),
            additions,
            deletions,
            visual_state: FileChangeActivityVisualState::Default,
            details_expanded: false,
            review,
        }
    }

    /// Adopts a full review: a single file names the row, totals become the
    /// per-file sums, and multi-file reviews open their file list.
    pub fn with_review(self, review: DiffReviewPresentation) -> (a: Self)
        requires
            sum_additions(review@.files) <= u32::MAX,
            sum_deletions(review@.files) <= u32::MAX,
        ensures
            a.path@ == (if review@.files.len() == 1 {
                review@.files[0].path
            } else {
                self.path@
            }),
            a.additions == sum_additions(review@.files),
            a.deletions == sum_deletions(review@.files),
            a.details_expanded == (review@.files.len() > 1),
            a.review == review,
            a.item_id == self.item_id,
            a.status == self.status,
            a.visual_state == self.visual_state,
    {
        let mut a = self;
        if review.files.len() == 1 {
            a.path = review.files[0].path.clone();
        }
        a.additions = review.total_additions();
        a.deletions = review.total_deletions();
        a.details_expanded = review.files.len() > 1;
        a.review = review;
        a
    }

    /// Title of the row: the file count for multi-file edits, else the
    /// edited file's name.
    pub open spec fn title_spec(self) -> Seq<char> {
        if self.review.files.len() > 1 {
            "已编辑 "@ + decimal(self.review.files.len() as nat) + " 个文件"@
        } else {
            "已编辑 "@ + self.path@.subrange(split_index(self.path@), self.path@.len() as int)
        }
    }

    /// Title of the row (see `title_spec`).
    pub fn title(&self) -> (t: String)
        requires
            self.review.files.len() > 1 || (splits_on_char_boundary(self.path@) && byte_len(
                self.path@,
            ) <= usize::MAX),
        ensures
            t@ == self.title_spec(),
    {
        if self.review.files.len() > 1 {
            let mut t = to_owned_string("已编辑 ");
            append_decimal(&mut t, self.review.files.len() as u64);
            t.append(" 个文件");
            return t;
        }
        let (dir, name) = split_directory_and_name(self.path.as_str());
        concat2("已编辑 ", name)
    }

    /// The accessible label of the row: its title with the line counts.
    pub fn accessible_label(&self) -> (l: String)
        requires
            self.review.files.len() > 1 || (splits_on_char_boundary(self.path@) && byte_len(
                self.path@,
            ) <= usize::MAX),
        ensures
            l@ == line_counts_label(self.title_spec(), self.additions, self.deletions),
    {
        let title = self.title();
        line_counts_label_text(title.as_str(), self.additions, self.deletions)
    }
}

/// `text` followed by the added and removed line counts, as the accessible
/// labels of file rows read.
pub open spec fn line_counts_label(text: Seq<char>, additions: u32, deletions: u32) -> Seq<char> {
    text + "，增加 "@ + decimal(additions as nat) + " 行，删除 "@ + decimal(deletions as nat)
        + " 行"@
}

/// The text of `line_counts_label`.
pub fn line_counts_label_text(text: &str, additions: u32, deletions: u32) -> (l: String)
    ensures
        l@ == line_counts_label(text@, additions, deletions),
{
    let mut l = concat2(text, "，增加 ");
    append_decimal(&mut l, additions as u64);
    l.append(" 行，删除 ");
    append_decimal(&mut l, deletions as u64);
    l.append(" 行");
    l
}

/// The two files of the captured multi-file edit.
pub open spec fn captured_file(path: Seq<char>, content: Seq<char>) -> DiffFileView {
    DiffFileView {
        path,
        resolved_path: Some(path),
        additions: 1,
        deletions: 0,
        lines: seq![added_line(1, content)],
        visual_state: DiffFileVisualState::Expanded,
    }
}

fn captured_diff_file(path: &str, content: &str) -> (f: DiffFilePresentation)
    ensures
        f@ == captured_file(path@, content@),
{
    let mut lines: Vec<DiffLinePresentation> = Vec::new();
    lines.push(DiffLinePresentation::added(1, content));
    let f = DiffFilePresentation {
        path: to_owned_string(path),
        resolved_path: Some(to_owned_string(path)),
        additions: 1,
        deletions: 0,
        lines,
        visual_state: DiffFileVisualState::Expanded,
    };
    proof {
        assert(f@.lines =~= seq![added_line(1, content@)]);
    }
    f
}

/// The completed two-file edit used to exercise the activity row; hover
/// states hover its header and collapsed states close its file list.
pub fn captured_file_change_activity_fixture(state: &str) -> (a: FileChangeActivityPresentation)
    ensures
        a.item_id@ == "file-change-ui-capture"@,
        a.path@ == "/Users/zp/Desktop/codex-cdp-multifile-approval-20260830-a.txt"@,
        a.additions == 2,
        a.deletions == 0,
        a.review@ == (DiffReviewView {
            review_id: "file-change-ui-capture-review"@,
            turn_label: "上一轮"@,
            files: seq![
                captured_file(
                    "/Users/zp/Desktop/codex-cdp-multifile-approval-20260830-a.txt"@,
                    "APPROVAL_A"@,
                ),
                captured_file(
                    "/Users/zp/Desktop/codex-cdp-multifile-approval-20260830-b.txt"@,
                    "APPROVAL_B"@,
                ),
            ],
            show_summary: false,
            show_file_tree: true,
            raw_diff: None,
        }),
        a.visual_state == (if state@ == "hover"@ || state@ == "header-hover"@ || state@
            == "completed-hover"@ {
            FileChangeActivityVisualState::HeaderHovered
        } else {
            FileChangeActivityVisualState::Default
        }),
        a.details_expanded == !(state@ == "collapsed"@ || state@ == "completed-collapsed"@),
{
    let mut files: Vec<DiffFilePresentation> = Vec::new();
    files.push(
        captured_diff_file(
            "/Users/zp/Desktop/codex-cdp-multifile-approval-20260830-a.txt",
            "APPROVAL_A",
        ),
    );
    files.push(
        captured_diff_file(
            "/Users/zp/Desktop/codex-cdp-multifile-approval-20260830-b.txt",
            "APPROVAL_B",
        ),
    );
    let review = DiffReviewPresentation::new("file-change-ui-capture-review", "上一轮", files);
    proof {
        let fv = review@.files;
        assert(fv =~= seq![
            captured_file(
                "/Users/zp/Desktop/codex-cdp-multifile-approval-20260830-a.txt"@,
                "APPROVAL_A"@,
            ),
            captured_file(
                "/Users/zp/Desktop/codex-cdp-multifile-approval-20260830-b.txt"@,
                "APPROVAL_B"@,
            ),
        ]);
        assert(fv.len() == 2);
        assert(fv[0].additions == 1 && fv[1].additions == 1);
        assert(fv[0].deletions == 0 && fv[1].deletions == 0);
        assert(fv.drop_last().drop_last() =~= Seq::<DiffFileView>::empty());
        assert(sum_additions(fv.drop_last().drop_last()) == 0);
        assert(sum_deletions(fv.drop_last().drop_last()) == 0);
        assert(fv.drop_last().last() == fv[0]);
        assert(sum_additions(fv.drop_last()) == 1);
        assert(sum_additions(fv) == 2);
        assert(sum_deletions(fv.drop_last()) == 0);
        assert(sum_deletions(fv) == 0);
    }
    let additions = review.total_additions();
    let deletions = review.total_deletions();
    let mut model = FileChangeActivityPresentation::edited(
        "file-change-ui-capture",
        review.files[0].path.as_str(),
        additions,
        deletions,
    ).with_review(review);
    if str_eq(state, "hover") || str_eq(state, "header-hover") || str_eq(state, "completed-hover") {
        model.visual_state = FileChangeActivityVisualState::HeaderHovered;
    }
    if str_eq(state, "collapsed") || str_eq(state, "completed-collapsed") {
        model.details_expanded = false;
    }
    model
}

/// The captured single-file approval path for each theme.
pub open spec fn probe_path(mode: ThemeMode) -> Seq<char> {
    match mode {
        ThemeMode::Light => "/Users/zp/Desktop/codex-cdp-file-approval-probe.txt"@,
        ThemeMode::Dark => "/Users/zp/Desktop/codex-cdp-file-approval-dark-probe.txt"@,
    }
}

/// `n` (below 100) as two decimal digits.
pub open spec fn two_digits(n: nat) -> Seq<char> {
    seq![digit_char(n / 10), digit_char(n % 10)]
}

/// The paths of the captured file approval for a state: two files for
/// `multifile-` states, eight numbered files for `many-` states, else the
/// theme's probe file.
pub open spec fn fixture_paths(mode: ThemeMode, state: Seq<char>) -> Seq<Seq<char>> {
    if starts_with(state, "multifile-"@) {
        seq![
            "/Users/zp/Desktop/codex-cdp-multifile-approval-20260830-a.txt"@,
            "/Users/zp/Desktop/codex-cdp-multifile-approval-20260830-b.txt"@,
        ]
    } else if starts_with(state, "many-"@) {
        Seq::new(
            8,
            |i: int|
                "/Users/zp/Desktop/codex-cdp-multifile-scroll-20260830-"@ + two_digits(
                    (i + 1) as nat,
                ) + ".txt"@,
        )
    } else {
        seq![probe_path(mode)]
    }
}

pub open spec fn fixture_visual_state(state: Seq<char>) -> FileApprovalVisualState {
    if ends_with(state, "allow-hover"@) {
        FileApprovalVisualState::AllowHovered
    } else if ends_with(state, "decline-hover"@) {
        FileApprovalVisualState::DeclineHovered
    } else if ends_with(state, "options-focus"@) {
        FileApprovalVisualState::SplitMenu { focused: Some(FileApprovalMenuItem::AllowOnce) }
    } else if ends_with(state, "options"@) {
        FileApprovalVisualState::SplitMenu { focused: None }
    } else {
        FileApprovalVisualState::Default
    }
}

pub open spec fn is_or_ends(state: Seq<char>, word: Seq<char>, suffix: Seq<char>) -> bool {
    state == word || ends_with(state, suffix)
}

/// The states in which the captured approval has already been answered.
pub open spec fn fixture_resolved(state: Seq<char>) -> bool {
    ||| is_or_ends(state, "approved"@, "-approved"@)
    ||| is_or_ends(state, "declined"@, "-declined"@)
    ||| is_or_ends(state, "declined-immediate"@, "-declined-immediate"@)
    ||| is_or_ends(state, "declined-resolved"@, "-declined-resolved"@)
    ||| is_or_ends(state, "resolved"@, "-resolved"@)
    ||| is_or_ends(state, "timeout"@, "-timeout"@)
}

fn is_or_ends_with(state: &str, v: &Vec<char>, word: &str, suffix: &str) -> (b: bool)
    requires
        v@ == state@,
    ensures
        b == is_or_ends(state@, word@, suffix@),
{
    str_eq(state, word) || vec_ends_with(v, suffix)
}

/// The file approval used to exercise the card in a named state.
pub fn captured_file_approval_fixture(mode: ThemeMode, state: &str) -> (m: FileApprovalPresentation)
    ensures
        m.request_id@ == "file-approval-ui-capture"@,
        m.reason is None,
        m.files@.len() == fixture_paths(mode, state@).len(),
        forall|i: int|
            0 <= i < m.files@.len() ==> (#[trigger] m.files@[i]).path@ == fixture_paths(
                mode,
                state@,
            )[i] && m.files@[i].additions == 1 && m.files@[i].deletions == 0,
        m.visual_state == fixture_visual_state(state@),
        m.status == (if fixture_resolved(state@) {
            FileApprovalStatus::Resolved
        } else {
            FileApprovalStatus::Pending
        }),
        m.keyboard_focus is None,
{
    let v = chars_of(state);
    let mut files: Vec<FileApprovalPathPresentation> = Vec::new();
    if vec_starts_with(&v, "multifile-") {
        files.push(
            FileApprovalPathPresentation::new(
                "/Users/zp/Desktop/codex-cdp-multifile-approval-20260830-a.txt",
                1,
                0,
            ),
        );
        files.push(
            FileApprovalPathPresentation::new(
                "/Users/zp/Desktop/codex-cdp-multifile-approval-20260830-b.txt",
                1,
                0,
            ),
        );
    } else if vec_starts_with(&v, "many-") {
        let mut index: u64 = 1;
        while index <= 8
            invariant
                1 <= index <= 9,
                files@.len() == index - 1,
                forall|i: int|
                    0 <= i < files@.len() ==> (#[trigger] files@[i]).path@
                        == "/Users/zp/Desktop/codex-cdp-multifile-scroll-20260830-"@ + two_digits(
                        (i + 1) as nat,
                    ) + ".txt"@ && files@[i].additions == 1 && files@[i].deletions == 0,
            decreases 9 - index,
        {
            let mut path = to_owned_string("/Users/zp/Desktop/codex-cdp-multifile-scroll-20260830-");
            append_decimal(&mut path, index / 10);
            append_decimal(&mut path, index % 10);
            path.append(".txt");
            proof {
                assert(decimal((index / 10) as nat) == seq![digit_char((index / 10) as nat)]);
                assert(decimal((index % 10) as nat) == seq![digit_char((index % 10) as nat)]);
                assert(path@ =~= "/Users/zp/Desktop/codex-cdp-multifile-scroll-20260830-"@
                    + two_digits(index as nat) + ".txt"@);
            }
            files.push(FileApprovalPathPresentation::new(path.as_str(), 1, 0));
            index += 1;
        }
    } else {
        let path = match mode {
            ThemeMode::Light => "/Users/zp/Desktop/codex-cdp-file-approval-probe.txt",
            ThemeMode::Dark => "/Users/zp/Desktop/codex-cdp-file-approval-dark-probe.txt",
        };
        files.push(FileApprovalPathPresentation::new(path, 1, 0));
    }
    let mut model = FileApprovalPresentation::pending("file-approval-ui-capture", files, None);
    model.visual_state = if vec_ends_with(&v, "allow-hover") {
        FileApprovalVisualState::AllowHovered
    } else if vec_ends_with(&v, "decline-hover") {
        FileApprovalVisualState::DeclineHovered
    } else if vec_ends_with(&v, "options-focus") {
        FileApprovalVisualState::SplitMenu { focused: Some(FileApprovalMenuItem::AllowOnce) }
    } else if vec_ends_with(&v, "options") {
        FileApprovalVisualState::SplitMenu { focused: None }
    } else {
        FileApprovalVisualState::Default
    };
    if is_or_ends_with(state, &v, "approved", "-approved") || is_or_ends_with(
        state,
        &v,
        "declined",
        "-declined",
    ) || is_or_ends_with(state, &v, "declined-immediate", "-declined-immediate")
        || is_or_ends_with(state, &v, "declined-resolved", "-declined-resolved")
        || is_or_ends_with(state, &v, "resolved", "-resolved") || is_or_ends_with(
        state,
        &v,
        "timeout",
        "-timeout",
    ) {
        model.status = FileApprovalStatus::Resolved;
    }
    model
}

/// On a pending file approval card, Enter and Space on the focused Reject
/// button decline, on the Allow button or with no focus (menu closed)
/// approve once, and on the menu rows answer with that row; Escape with
/// the menu closed declines, and with Shift also stops the turn.
pub proof fn lemma_file_card_keys_answer_the_focused_button(
    m: FileApprovalPresentation,
    shift: bool,
)
    requires
        m.status == FileApprovalStatus::Pending,
    ensures
        forall|k: Key|
            (k == Key::Enter || k == Key::Space) ==> {
                &&& m.keyboard_focus == Some(FileApprovalKeyboardFocus::Decline) ==> #[trigger] m.keyboard_spec(
                    k,
                    shift,
                ) == Some(FileApprovalEvent::Decision(FileApprovalDecision::Decline))
                &&& m.keyboard_focus == Some(FileApprovalKeyboardFocus::MenuAllowOnce)
                    ==> m.keyboard_spec(k, shift) == Some(
                    FileApprovalEvent::Decision(FileApprovalDecision::AllowOnce),
                )
                &&& m.keyboard_focus == Some(FileApprovalKeyboardFocus::MenuAllowAllEdits)
                    ==> m.keyboard_spec(k, shift) == Some(
                    FileApprovalEvent::Decision(FileApprovalDecision::AllowAllEdits),
                )
                &&& (m.keyboard_focus == Some(FileApprovalKeyboardFocus::AllowOnce)
                    || m.keyboard_focus is None) && !m.visual_state.is_menu_open()
                    ==> m.keyboard_spec(k, shift) == Some(
                    FileApprovalEvent::Decision(FileApprovalDecision::AllowOnce),
                )
                &&& m.keyboard_focus == Some(FileApprovalKeyboardFocus::MenuToggle)
                    ==> m.keyboard_spec(k, shift) == Some(FileApprovalEvent::ToggleMenu)
            },
        !m.visual_state.is_menu_open() ==> m.keyboard_spec(Key::Escape, shift) == Some(
            if shift {
                FileApprovalEvent::StopTurn
            } else {
                FileApprovalEvent::Decision(FileApprovalDecision::Decline)
            },
        ),
{
}

/// A decision answers the server with its own choice: declining sends
/// Decline, allowing once sends Accept, allowing all edits sends
/// AcceptForSession; an approval waits for the patch, a rejection never
/// does.
pub proof fn lemma_file_decisions_send_their_choice(
    m: FileApprovalPresentation,
    d: FileApprovalDecision,
)
    requires
        m.status == FileApprovalStatus::Pending,
    ensures
        d == FileApprovalDecision::Decline ==> m.event_spec(FileApprovalEvent::Decision(d)).1
            == FileApprovalAction::Answer(FileApprovalChoice::Decline),
        m.patch_seen && d == FileApprovalDecision::AllowOnce ==> m.event_spec(
            FileApprovalEvent::Decision(d),
        ).1 == FileApprovalAction::Answer(FileApprovalChoice::Accept),
        m.patch_seen && d == FileApprovalDecision::AllowAllEdits ==> m.event_spec(
            FileApprovalEvent::Decision(d),
        ).1 == FileApprovalAction::Answer(FileApprovalChoice::AcceptForSession),
        !m.patch_seen && d != FileApprovalDecision::Decline ==> m.event_spec(
            FileApprovalEvent::Decision(d),
        ).1 == FileApprovalAction::Nothing,
        m.event_spec(FileApprovalEvent::Decision(d)).0 == m,
{
}

} // verus!
