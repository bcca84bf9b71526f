//! Decisions of the prompt composer: the permission menu, dictation, prompt
//! submission, and which particle layers the send button animates.

use vstd::prelude::*;

use crate::activity::ConversationActivity;
use crate::keys::{Key, classify_key, key_of};
use crate::text::{concat2, is_blank, is_blank_str, to_owned_string};

verus! {

/// The permission mode of the composer, in menu order.
#[derive(Clone, Copy, Debug, PartialEq, Eq, Structural)]
pub enum PermissionMode {
    Request,
    Assist,
    Full,
    Custom,
}

/// The permission mode as the agent backend names it.
#[derive(Clone, Copy, Debug, PartialEq, Eq, Structural)]
pub enum AgentPermissionMode {
    Request,
    Assist,
    Full,
    Custom,
}

impl PermissionMode {
    pub open spec fn at_index_spec(index: usize) -> PermissionMode {
        if index == 0 {
            PermissionMode::Request
        } else if index == 1 {
            PermissionMode::Assist
        } else if index == 2 {
            PermissionMode::Full
        } else {
            PermissionMode::Custom
        }
    }

    /// The mode of menu row `index`; rows past the third are Custom.
    pub fn at_menu_index(index: usize) -> (m: PermissionMode)
        ensures
            m == Self::at_index_spec(index),
    {
        match index {
            0 => PermissionMode::Request,
            1 => PermissionMode::Assist,
            2 => PermissionMode::Full,
            _ => PermissionMode::Custom,
        }
    }

    pub fn agent_mode(self) -> (m: AgentPermissionMode)
        ensures
            m == (match self {
                PermissionMode::Request => AgentPermissionMode::Request,
                PermissionMode::Assist => AgentPermissionMode::Assist,
                PermissionMode::Full => AgentPermissionMode::Full,
                PermissionMode::Custom => AgentPermissionMode::Custom,
            }),
    {
        match self {
            PermissionMode::Request => AgentPermissionMode::Request,
            PermissionMode::Assist => AgentPermissionMode::Assist,
            PermissionMode::Full => AgentPermissionMode::Full,
            PermissionMode::Custom => AgentPermissionMode::Custom,
        }
    }

    pub open spec fn name_spec(self) -> Seq<char> {
        match self {
            PermissionMode::Request => "request"@,
            PermissionMode::Assist => "assist"@,
            PermissionMode::Full => "full"@,
            PermissionMode::Custom => "custom"@,
        }
    }

    /// The mode's short identifier.
    pub fn name(self) -> (n: &'static str)
        ensures
            n@ == self.name_spec(),
    {
        match self {
            PermissionMode::Request => "request",
            PermissionMode::Assist => "assist",
            PermissionMode::Full => "full",
            PermissionMode::Custom => "custom",
        }
    }

    pub open spec fn label_spec(self) -> (Seq<char>, Seq<char>) {
        match self {
            PermissionMode::Request => ("请求批准"@, "permission-request"@),
            PermissionMode::Assist => ("帮我批准"@, "permission-assist"@),
            PermissionMode::Full => ("完全访问"@, "permission"@),
            PermissionMode::Custom => ("自定义"@, "permission-custom"@),
        }
    }

    /// The trigger's label and icon for the mode.
    pub fn label(self) -> (l: (&'static str, &'static str))
        ensures
            (l.0@, l.1@) == self.label_spec(),
    {
        match self {
            PermissionMode::Request => ("请求批准", "permission-request"),
            PermissionMode::Assist => ("帮我批准", "permission-assist"),
            PermissionMode::Full => ("完全访问", "permission"),
            PermissionMode::Custom => ("自定义", "permission-custom"),
        }
    }
}

/// Which of the model picker's submenus is open.
#[derive(Clone, Copy, Debug, PartialEq, Eq, Structural)]
pub enum PickerSubmenu {
    Model,
    Effort,
    ServiceTier,
}

/// The composer state the permission menu reads and changes.
#[derive(Clone, Copy, Debug, PartialEq, Eq, Structural)]
pub struct PermissionMenuState {
    pub ui_enabled: bool,
    pub open: bool,
    pub keyboard_focus: bool,
    pub focused_item: usize,
    pub mode: PermissionMode,
    pub model_menu_open: bool,
    pub submenu: Option<PickerSubmenu>,
}

/// What the composer must do after the permission menu handled a key.
#[derive(Clone, Copy, Debug, PartialEq, Eq, Structural)]
pub enum PermissionKeyOutcome {
    /// The key is not the menu's; let it propagate.
    Ignored,
    /// The menu opened and takes window focus.
    Opened,
    /// The key was consumed.
    Handled,
    /// Tab closed the menu; the key keeps propagating.
    ClosedByTab,
    /// The focused row was activated.
    Activated(PermissionActivation),
}

/// What activating a permission mode asks of the composer.
#[derive(Clone, Copy, Debug, PartialEq, Eq, Structural)]
pub enum PermissionActivation {
    /// The permission UI is off; nothing happens.
    Disabled,
    /// Switching to full access first asks for confirmation.
    ConfirmFullAccess,
    /// The mode is applied (locally, or by asking the server for a thread).
    Request(PermissionMode),
}

impl PermissionMenuState {
    pub open spec fn activation_spec(self, mode: PermissionMode) -> (PermissionMenuState, PermissionActivation) {
        if !self.ui_enabled {
            (self, PermissionActivation::Disabled)
        } else {
            let closed = PermissionMenuState { open: false, keyboard_focus: false, ..self };
            if mode == PermissionMode::Full && self.mode != PermissionMode::Full {
                (closed, PermissionActivation::ConfirmFullAccess)
            } else {
                (closed, PermissionActivation::Request(mode))
            }
        }
    }

    pub open spec fn key_spec(self, key: Key) -> (PermissionMenuState, PermissionKeyOutcome) {
        if !self.ui_enabled {
            (self, PermissionKeyOutcome::Ignored)
        } else if !self.open {
            if key == Key::Enter || key == Key::Space || key == Key::Down || key == Key::Up {
                (
                    PermissionMenuState {
                        model_menu_open: false,
                        submenu: None,
                        open: true,
                        keyboard_focus: key == Key::Down || key == Key::Up,
                        focused_item: if key == Key::Up {
                            3
                        } else {
                            0
                        },
                        ..self
                    },
                    PermissionKeyOutcome::Opened,
                )
            } else {
                (self, PermissionKeyOutcome::Ignored)
            }
        } else {
            match key {
                Key::Down => (
                    PermissionMenuState {
                        focused_item: if self.keyboard_focus {
                            ((self.focused_item + 1) % 4) as usize
                        } else {
                            0
                        },
                        keyboard_focus: true,
                        ..self
                    },
                    PermissionKeyOutcome::Handled,
                ),
                Key::Up => (
                    PermissionMenuState {
                        focused_item: if self.keyboard_focus {
                            ((self.focused_item + 3) % 4) as usize
                        } else {
                            3
                        },
                        keyboard_focus: true,
                        ..self
                    },
                    PermissionKeyOutcome::Handled,
                ),
                Key::Home => (
                    PermissionMenuState { focused_item: 0, keyboard_focus: true, ..self },
                    PermissionKeyOutcome::Handled,
                ),
                Key::End => (
                    PermissionMenuState { focused_item: 3, keyboard_focus: true, ..self },
                    PermissionKeyOutcome::Handled,
                ),
                Key::Enter | Key::Space => if self.keyboard_focus {
                    let (next, activation) = self.activation_spec(
                        PermissionMode::at_index_spec(self.focused_item),
                    );
                    (next, PermissionKeyOutcome::Activated(activation))
                } else {
                    (self, PermissionKeyOutcome::Ignored)
                },
                Key::Escape => (
                    PermissionMenuState { open: false, keyboard_focus: false, ..self },
                    PermissionKeyOutcome::Handled,
                ),
                Key::Tab => (
                    PermissionMenuState { open: false, keyboard_focus: false, ..self },
                    PermissionKeyOutcome::ClosedByTab,
                ),
                _ => (self, PermissionKeyOutcome::Ignored),
            }
        }
    }

    /// Activates `mode` from the menu: closes the menu, and asks for
    /// confirmation before switching to full access.
    pub fn activate(&mut self, mode: PermissionMode) -> (a: PermissionActivation)
        ensures
            (*final(self), a) == old(self).activation_spec(mode),
    {
        if !self.ui_enabled {
            return PermissionActivation::Disabled;
        }
        self.open = false;
        self.keyboard_focus = false;
        if mode == PermissionMode::Full && self.mode != PermissionMode::Full {
            PermissionActivation::ConfirmFullAccess
        } else {
            PermissionActivation::Request(mode)
        }
    }

    /// Handles a keystroke while the permission trigger or menu has focus.
    pub fn handle_key(&mut self, key: &str) -> (o: PermissionKeyOutcome)
        requires
            old(self).focused_item <= usize::MAX - 3,
        ensures
            (*final(self), o) == old(self).key_spec(key_of(key@)),
    {
        if !self.ui_enabled {
            return PermissionKeyOutcome::Ignored;
        }
        let k = classify_key(key);
        if !self.open {
            match k {
                Key::Enter | Key::Space | Key::Down | Key::Up => {
                    self.model_menu_open = false;
                    self.submenu = None;
                    self.open = true;
                    self.keyboard_focus = k == Key::Down || k == Key::Up;
                    self.focused_item = if k == Key::Up {
                        3
                    } else {
                        0
                    };
                    return PermissionKeyOutcome::Opened;
                },
                _ => return PermissionKeyOutcome::Ignored,
            }
        }
        match k {
            Key::Down => {
                self.focused_item = if self.keyboard_focus {
                    (self.focused_item + 1) % 4
                } else {
                    0
                };
                self.keyboard_focus = true;
                PermissionKeyOutcome::Handled
            },
            Key::Up => {
                self.focused_item = if self.keyboard_focus {
                    (self.focused_item + 3) % 4
                } else {
                    3
                };
                self.keyboard_focus = true;
                PermissionKeyOutcome::Handled
            },
            Key::Home => {
                self.focused_item = 0;
                self.keyboard_focus = true;
                PermissionKeyOutcome::Handled
            },
            Key::End => {
                self.focused_item = 3;
                self.keyboard_focus = true;
                PermissionKeyOutcome::Handled
            },
            Key::Enter | Key::Space => {
                if self.keyboard_focus {
                    let mode = PermissionMode::at_menu_index(self.focused_item);
                    let activation = self.activate(mode);
                    PermissionKeyOutcome::Activated(activation)
                } else {
                    PermissionKeyOutcome::Ignored
                }
            },
            Key::Escape => {
                self.open = false;
                self.keyboard_focus = false;
                PermissionKeyOutcome::Handled
            },
            Key::Tab => {
                self.open = false;
                self.keyboard_focus = false;
                PermissionKeyOutcome::ClosedByTab
            },
            _ => PermissionKeyOutcome::Ignored,
        }
    }
}

/// Four Down presses from any keyboard-focused row return to that row, and
/// Down followed by Up does too.
pub proof fn lemma_permission_menu_wraps(s: PermissionMenuState)
    requires
        s.ui_enabled,
        s.open,
        s.keyboard_focus,
        s.focused_item < 4,
    ensures
        ({
            let d1 = s.key_spec(Key::Down).0;
            let d2 = d1.key_spec(Key::Down).0;
            let d3 = d2.key_spec(Key::Down).0;
            let d4 = d3.key_spec(Key::Down).0;
            &&& d4 == s
            &&& d1.key_spec(Key::Up).0 == s
        }),
{
}

/// Permission state that outlives a single key press: the mode, the counter
/// that identifies the newest server update, and the last error.
#[derive(Clone, Debug, PartialEq, Eq)]
pub struct PermissionUpdateState {
    pub mode: PermissionMode,
    pub update_cycle: u64,
    pub error: Option<String>,
}

/// How a mode change is carried out.
#[derive(Clone, Copy, Debug, PartialEq, Eq, Structural)]
pub enum PermissionRequest {
    /// No thread yet: the mode is applied locally.
    AppliedLocally,
    /// The server is asked to change the thread's mode; the reply carries
    /// this cycle.
    SentToServer { cycle: u64 },
}

impl PermissionUpdateState {
    /// Requests `mode`: without a thread it applies at once and clears the
    /// error; with one, a new update cycle starts and the server is asked.
    pub fn request_mode(&mut self, mode: PermissionMode, has_thread: bool) -> (r: PermissionRequest)
        ensures
            !has_thread ==> final(self).mode == mode && final(self).error is None
                && final(self).update_cycle == old(self).update_cycle && r
                == PermissionRequest::AppliedLocally,
            has_thread ==> final(self).mode == old(self).mode && final(self).error == old(
                self,
            ).error && final(self).update_cycle == old(self).update_cycle.wrapping_add(1) && r
                == (PermissionRequest::SentToServer { cycle: final(self).update_cycle }),
    {
        if !has_thread {
            self.mode = mode;
            self.error = None;
            return PermissionRequest::AppliedLocally;
        }
        self.update_cycle = self.update_cycle.wrapping_add(1);
        PermissionRequest::SentToServer { cycle: self.update_cycle }
    }

    /// Abandons pending updates (closing a side chat): later replies are stale.
    pub fn abandon_updates(&mut self)
        ensures
            final(self).update_cycle == old(self).update_cycle.wrapping_add(1),
            final(self).mode == old(self).mode,
            final(self).error == old(self).error,
    {
        self.update_cycle = self.update_cycle.wrapping_add(1);
    }

    /// Applies the server's reply for update `cycle`. A reply from an older
    /// cycle is ignored. A success sets the mode and hands back the thread
    /// settings the server returned, for the caller to apply; a failure
    /// records the error and adds it to the conversation.
    pub fn finish_update<S>(
        &mut self,
        cycle: u64,
        mode: PermissionMode,
        result: Result<S, String>,
        activities: &mut Vec<ConversationActivity>,
    ) -> (settings: Option<S>)
        ensures
            cycle != old(self).update_cycle ==> *final(self) == *old(self) && final(activities)@
                == old(activities)@ && settings is None,
            cycle == old(self).update_cycle ==> match result {
                Ok(s) => final(self).mode == mode && final(self).error == old(self).error
                    && final(self).update_cycle == old(self).update_cycle && final(activities)@
                    == old(activities)@ && settings == Some(s),
                Err(e) => final(self).mode == old(self).mode && final(self).update_cycle == old(
                    self,
                ).update_cycle && settings is None && (final(self).error matches Some(m) && m@
                    == "无法更新权限模式："@ + e@ && final(activities)@.len() == old(
                    activities,
                )@.len() + 1 && final(activities)@.take(old(activities)@.len() as int) == old(
                    activities,
                )@ && (final(activities)@.last() matches ConversationActivity::Error { message }
                    && message@ == m@)),
            },
    {
        if cycle != self.update_cycle {
            return None;
        }
        match result {
            Ok(settings) => {
                self.mode = mode;
                Some(settings)
            },
            Err(error) => {
                let message = concat2("无法更新权限模式：", error.as_str());
                self.error = Some(message.clone());
                let ghost before = activities@;
                activities.push(ConversationActivity::Error { message });
                proof {
                    assert(activities@.take(before.len() as int) =~= before);
                }
                None
            },
        }
    }
}

/// State of dictation in the composer.
#[derive(Clone, Copy, Debug, Default, PartialEq, Eq, Structural)]
pub enum DictationState {
    #[default]
    Idle,
    Recording,
    Transcribing,
}

/// Dictation state with the counter that invalidates pending timers.
#[derive(Clone, Copy, Debug, PartialEq, Eq, Structural)]
pub struct Dictation {
    pub state: DictationState,
    pub cycle: u64,
}

impl DictationState {
    pub open spec fn name_spec(self) -> Seq<char> {
        match self {
            DictationState::Idle => "idle"@,
            DictationState::Recording => "recording"@,
            DictationState::Transcribing => "transcribing"@,
        }
    }

    pub fn name(self) -> (n: &'static str)
        ensures
            n@ == self.name_spec(),
    {
        match self {
            DictationState::Idle => "idle",
            DictationState::Recording => "recording",
            DictationState::Transcribing => "transcribing",
        }
    }
}

impl Dictation {
    /// Starts recording (and, for the caller, closes the model menu).
    pub fn start(&mut self)
        ensures
            final(self).state == DictationState::Recording,
            final(self).cycle == old(self).cycle.wrapping_add(1),
    {
        self.cycle = self.cycle.wrapping_add(1);
        self.state = DictationState::Recording;
    }

    /// Cancels dictation at once.
    pub fn cancel(&mut self)
        ensures
            final(self).state == DictationState::Idle,
            final(self).cycle == old(self).cycle.wrapping_add(1),
    {
        self.cycle = self.cycle.wrapping_add(1);
        self.state = DictationState::Idle;
    }

    /// Stops recording and starts transcribing; returns the cycle the
    /// transcription timer must report back. Outside recording nothing
    /// changes.
    pub fn stop(&mut self) -> (timer: Option<u64>)
        ensures
            old(self).state != DictationState::Recording ==> *final(self) == *old(self)
                && timer is None,
            old(self).state == DictationState::Recording ==> final(self).state
                == DictationState::Transcribing && final(self).cycle == old(
                self,
            ).cycle.wrapping_add(1) && timer == Some(final(self).cycle),
    {
        if self.state != DictationState::Recording {
            return None;
        }
        self.state = DictationState::Transcribing;
        self.cycle = self.cycle.wrapping_add(1);
        Some(self.cycle)
    }

    /// The transcription timer for `cycle` fired: the composer returns to
    /// idle only if nothing else happened meanwhile.
    pub fn transcription_finished(&mut self, cycle: u64)
        ensures
            old(self).state == DictationState::Transcribing && old(self).cycle == cycle
                ==> final(self).state == DictationState::Idle && final(self).cycle == old(
                self,
            ).cycle,
            !(old(self).state == DictationState::Transcribing && old(self).cycle == cycle)
                ==> *final(self) == *old(self),
    {
        if self.state == DictationState::Transcribing && self.cycle == cycle {
            self.state = DictationState::Idle;
        }
    }
}

/// The phase of the conversation a composer drives.
#[derive(Clone, Copy, Debug, PartialEq, Eq, Structural)]
pub enum ConversationPhase {
    Empty,
    Starting,
    Thinking,
    Streaming,
    Stopping,
    Complete,
    Failed,
}

impl ConversationPhase {
    pub open spec fn is_running_spec(self) -> bool {
        self == ConversationPhase::Starting || self == ConversationPhase::Thinking || self
            == ConversationPhase::Streaming || self == ConversationPhase::Stopping
    }

    /// A turn is in flight.
    pub fn is_running(self) -> (b: bool)
        ensures
            b == self.is_running_spec(),
    {
        matches!(
            self,
            ConversationPhase::Starting | ConversationPhase::Thinking | ConversationPhase::Streaming
                | ConversationPhase::Stopping
        )
    }
}

/// The status line shown under the conversation for a phase.
pub fn conversation_status(phase: ConversationPhase) -> (s: Option<&'static str>)
    ensures
        phase == ConversationPhase::Thinking ==> (s matches Some(t) && t@ == "正在思考"@),
        phase != ConversationPhase::Thinking ==> s is None,
{
    match phase {
        ConversationPhase::Thinking => Some("正在思考"),
        _ => None,
    }
}

/// Whether the conversation ends with the "thinking" line: while the turn
/// thinks and no reasoning item is streaming.
pub fn show_thinking_tail(phase: ConversationPhase, activities: &Vec<ConversationActivity>) -> (b:
    bool)
    ensures
        b == (phase == ConversationPhase::Thinking && !exists|i: int|
            0 <= i < activities@.len() && (#[trigger] activities@[i] matches ConversationActivity::Reasoning(
                r,
            ) && r.completed_at_ms is None)),
{
    if conversation_status(phase).is_none() {
        return false;
    }
    let mut i: usize = 0;
    while i < activities.len()
        invariant
            i <= activities.len(),
            forall|j: int|
                0 <= j < i ==> !(#[trigger] activities@[j] matches ConversationActivity::Reasoning(r)
                    && r.completed_at_ms is None),
        decreases activities.len() - i,
    {
        match &activities[i] {
            ConversationActivity::Reasoning(r) => {
                if r.is_active() {
                    return false;
                }
            },
            _ => {},
        }
        i += 1;
    }
    true
}

/// Number of discrete phases of the thinking shimmer per sweep.
pub const THINKING_SHIMMER_STEPS: u64 = 48;

/// The thinking status shimmer: the counter that invalidates stale frame
/// timers, whether it runs, and the phase step last shown (0 before the
/// first frame; the shown progress is `step / THINKING_SHIMMER_STEPS`).
#[derive(Clone, Copy, Debug, PartialEq, Eq, Structural)]
pub struct ThinkingShimmer {
    pub cycle: u64,
    pub running: bool,
    pub step: u64,
}

/// What keeping the shimmer in step with the conversation asks for.
#[derive(Clone, Copy, Debug, PartialEq, Eq, Structural)]
pub enum ShimmerAction {
    /// Nothing changes.
    Keep,
    /// A new frame timer must run for this cycle.
    Start { cycle: u64 },
    /// The shimmer stopped and returned to its first phase.
    Stop,
}

impl ThinkingShimmer {
    /// Runs the shimmer exactly while the conversation is thinking.
    pub fn sync(&mut self, phase: ConversationPhase) -> (a: ShimmerAction)
        ensures
            phase == ConversationPhase::Thinking && !old(self).running ==> *final(self) == (
            ThinkingShimmer {
                cycle: old(self).cycle.wrapping_add(1),
                running: true,
                step: 0,
            }) && a == (ShimmerAction::Start { cycle: final(self).cycle }),
            phase == ConversationPhase::Thinking && old(self).running ==> *final(self) == *old(
                self,
            ) && a == ShimmerAction::Keep,
            phase != ConversationPhase::Thinking && (old(self).running || old(self).step != 0)
                ==> *final(self) == (ThinkingShimmer {
                cycle: old(self).cycle.wrapping_add(1),
                running: false,
                step: 0,
            }) && a == ShimmerAction::Stop,
            phase != ConversationPhase::Thinking && !old(self).running && old(self).step == 0
                ==> *final(self) == *old(self) && a == ShimmerAction::Keep,
    {
        if phase == ConversationPhase::Thinking {
            if !self.running {
                self.cycle = self.cycle.wrapping_add(1);
                self.step = 0;
                self.running = true;
                return ShimmerAction::Start { cycle: self.cycle };
            }
            ShimmerAction::Keep
        } else if self.running || self.step != 0 {
            self.cycle = self.cycle.wrapping_add(1);
            self.step = 0;
            self.running = false;
            ShimmerAction::Stop
        } else {
            ShimmerAction::Keep
        }
    }

    /// A frame timer of `cycle` fired: while that cycle still runs, the
    /// shimmer advances one phase (after the last it starts over) and the
    /// timer continues; otherwise the timer ends.
    pub fn tick(&mut self, cycle: u64) -> (continues: bool)
        ensures
            continues == (cycle == old(self).cycle && old(self).running),
            continues ==> *final(self) == (ThinkingShimmer {
                step: (old(self).step % THINKING_SHIMMER_STEPS + 1) as u64,
                ..*old(self)
            }),
            !continues ==> *final(self) == *old(self),
    {
        if self.cycle != cycle || !self.running {
            return false;
        }
        self.step = self.step % THINKING_SHIMMER_STEPS + 1;
        true
    }
}

/// Every frame of a running shimmer shows one of the phases 1 to 48.
pub proof fn lemma_shimmer_steps_stay_in_range(s: ThinkingShimmer)
    ensures
        1 <= s.step % THINKING_SHIMMER_STEPS + 1 <= THINKING_SHIMMER_STEPS,
{
}

/// What submitting a prompt leads to.
#[derive(Clone, Debug, PartialEq, Eq)]
pub enum PromptSubmission {
    /// Blank prompt or a turn already running: nothing happens.
    Ignored,
    /// No model can run the prompt; the message becomes the failed turn's
    /// answer.
    Failed(String),
    /// The prompt is sent with the selected model and effort.
    Run,
}

/// Decides what submitting `prompt` does.
pub fn prompt_submission(
    prompt: &str,
    phase: ConversationPhase,
    selected_model: &str,
    selected_effort: &str,
    catalog_error: Option<&str>,
) -> (r: PromptSubmission)
    ensures
        is_blank(prompt@) || phase.is_running_spec() ==> r == PromptSubmission::Ignored,
        !(is_blank(prompt@) || phase.is_running_spec()) ==> if selected_model@.len() == 0
            || selected_effort@.len() == 0 {
            r matches PromptSubmission::Failed(m) && m@ == (match catalog_error {
                Some(e) => e@,
                None => "没有可用的 Codex 模型"@,
            })
        } else {
            r == PromptSubmission::Run
        },
{
    if is_blank_str(prompt) || phase.is_running() {
        return PromptSubmission::Ignored;
    }
    if selected_model.is_empty() || selected_effort.is_empty() {
        let message = match catalog_error {
            Some(e) => to_owned_string(e),
            None => to_owned_string("没有可用的 Codex 模型"),
        };
        return PromptSubmission::Failed(message);
    }
    PromptSubmission::Run
}

/// Which particle layers the send button shows: the fast layer while
/// accelerated, the drifting max layer only in ultra mode without it.
pub fn particle_layers(ultra_mode: bool, accelerated: bool) -> (r: (bool, bool))
    ensures
        r == (ultra_mode && !accelerated, accelerated),
{
    let show_fast_particles = accelerated;
    let show_max_particles = ultra_mode && !accelerated;
    (show_max_particles, show_fast_particles)
}

pub open spec fn noise_hash(index: usize, step: u32, channel: u32) -> u32 {
    let a = vstd::wrapping::u32_specs::wrapping_add(
        vstd::wrapping::u32_specs::wrapping_add(
            vstd::wrapping::u32_specs::wrapping_mul((index as u32 + 1) as u32, 0x9e37_79b9),
            vstd::wrapping::u32_specs::wrapping_mul(step, 0x85eb_ca6b),
        ),
        vstd::wrapping::u32_specs::wrapping_mul(channel, 0xc2b2_ae35),
    );
    let b = a ^ (a >> 16u32);
    let c = vstd::wrapping::u32_specs::wrapping_mul(b, 0x7feb_352d);
    let d = c ^ (c >> 15u32);
    let e = vstd::wrapping::u32_specs::wrapping_mul(d, 0x846c_a68b);
    e ^ (e >> 16u32)
}

/// The integer hash behind a particle's noise value (the noise is this
/// value divided by `u32::MAX`).
pub fn particle_noise_bits(index: usize, step: u32, channel: u32) -> (v: u32)
    requires
        (index as u32) < u32::MAX,
    ensures
        v == noise_hash(index, step, channel),
{
    let mut value = (index as u32 + 1).wrapping_mul(0x9e37_79b9).wrapping_add(
        step.wrapping_mul(0x85eb_ca6b),
    ).wrapping_add(channel.wrapping_mul(0xc2b2_ae35));
    value = value ^ (value >> 16u32);
    value = value.wrapping_mul(0x7feb_352d);
    value = value ^ (value >> 15u32);
    value = value.wrapping_mul(0x846c_a68b);
    value = value ^ (value >> 16u32);
    value
}

} // verus!
