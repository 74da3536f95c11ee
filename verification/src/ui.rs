//! The terminal interface's state: the input line and its cursor, the
//! conversation shown, the progress of the active run, and what each key
//! does. Drawing is left to the terminal front end.
use vstd::prelude::*;
use crate::events::{sat_add, RunEvent, TokenUsage};
use crate::models::{Conversation, Message, MessageView, Role, Timestamp};
use crate::text::{chars_of, copy_str, string_from_chars, trim, trim_chars};

verus! {

/// The most trace lines kept.
pub const MAX_TRACE_LINES: usize = 30;

/// A part of the interface state, as the contracts see it.
#[derive(Clone, Copy, Debug, PartialEq, Eq, Structural)]
pub enum Part {
    Input,
    Cursor,
    Messages,
    Conversations,
    Current,
    Loading,
    ActiveRun,
    Trace,
    Usage,
    Stage,
    Error,
    Retryable,
    LastQuery,
    LastFailed,
    Scroll,
}

/// The interface state.
pub struct App {
    input: Vec<char>,
    cursor: usize,
    messages: Vec<Message>,
    conversations: Vec<Conversation>,
    current_conv_id: Option<u128>,
    is_loading: bool,
    active_run: Option<u128>,
    trace_log: Vec<String>,
    token_usage: TokenUsage,
    stage: Option<(String, usize, usize)>,
    error_message: Option<String>,
    error_retryable: bool,
    last_query: Option<String>,
    last_failed_query: Option<String>,
    scroll_offset: u16,
}

impl App {
    // -- what the contracts see ------------------------------------------------
    pub closed spec fn input_spec(&self) -> Seq<char> {
        self.input@
    }

    /// The cursor, as a character position in the input.
    pub closed spec fn cursor_spec(&self) -> nat {
        self.cursor as nat
    }

    pub closed spec fn messages_spec(&self) -> Seq<MessageView> {
        crate::models::messages_view(self.messages@)
    }

    /// The conversations listed: identifier, title and creation of each.
    pub closed spec fn conversations_spec(&self) -> Seq<(u128, Seq<char>, Timestamp)> {
        crate::models::conversations_view(self.conversations@)
    }

    /// The identifiers of the conversations listed.
    pub open spec fn conversation_ids(&self) -> Seq<u128> {
        Seq::new(self.conversations_spec().len(), |i: int| self.conversations_spec()[i].0)
    }

    pub closed spec fn current_spec(&self) -> Option<u128> {
        self.current_conv_id
    }

    pub closed spec fn loading_spec(&self) -> bool {
        self.is_loading
    }

    pub closed spec fn active_run_spec(&self) -> Option<u128> {
        self.active_run
    }

    pub closed spec fn trace_spec(&self) -> Seq<Seq<char>> {
        crate::models::strings_view(self.trace_log@)
    }

    pub closed spec fn usage_spec(&self) -> TokenUsage {
        self.token_usage
    }

    pub closed spec fn stage_spec(&self) -> Option<(Seq<char>, nat, nat)> {
        match self.stage {
            Some((a, c, t)) => Some((a@, c as nat, t as nat)),
            None => None,
        }
    }

    pub closed spec fn error_spec(&self) -> Option<Seq<char>> {
        crate::models::opt_view(self.error_message)
    }

    pub closed spec fn retryable_spec(&self) -> bool {
        self.error_retryable
    }

    pub closed spec fn last_query_spec(&self) -> Option<Seq<char>> {
        crate::models::opt_view(self.last_query)
    }

    pub closed spec fn last_failed_spec(&self) -> Option<Seq<char>> {
        crate::models::opt_view(self.last_failed_query)
    }

    /// How many wrapped lines the chat is scrolled up from the latest.
    pub closed spec fn scroll_spec(&self) -> u16 {
        self.scroll_offset
    }

    /// `self` agrees with `other` on every part outside `changed`.
    pub open spec fn keeps(&self, other: &App, changed: Set<Part>) -> bool {
        &&& !changed.contains(Part::Input) ==> self.input_spec() == other.input_spec()
        &&& !changed.contains(Part::Cursor) ==> self.cursor_spec() == other.cursor_spec()
        &&& !changed.contains(Part::Messages) ==> self.messages_spec() == other.messages_spec()
        &&& !changed.contains(Part::Conversations) ==> self.conversations_spec()
            == other.conversations_spec()
        &&& !changed.contains(Part::Current) ==> self.current_spec() == other.current_spec()
        &&& !changed.contains(Part::Loading) ==> self.loading_spec() == other.loading_spec()
        &&& !changed.contains(Part::ActiveRun) ==> self.active_run_spec() == other.active_run_spec()
        &&& !changed.contains(Part::Trace) ==> self.trace_spec() == other.trace_spec()
        &&& !changed.contains(Part::Usage) ==> self.usage_spec() == other.usage_spec()
        &&& !changed.contains(Part::Stage) ==> self.stage_spec() == other.stage_spec()
        &&& !changed.contains(Part::Error) ==> self.error_spec() == other.error_spec()
        &&& !changed.contains(Part::Retryable) ==> self.retryable_spec() == other.retryable_spec()
        &&& !changed.contains(Part::LastQuery) ==> self.last_query_spec() == other.last_query_spec()
        &&& !changed.contains(Part::LastFailed) ==> self.last_failed_spec() == other.last_failed_spec()
        &&& !changed.contains(Part::Scroll) ==> self.scroll_spec() == other.scroll_spec()
    }

    /// The cursor is within the input, and the trace is bounded.
    pub closed spec fn wf(&self) -> bool {
        &&& self.cursor <= self.input@.len()
        &&& self.trace_log@.len() <= MAX_TRACE_LINES
    }

    // -- construction and reading ----------------------------------------------
    /// The state on start-up: the first conversation listed is shown.
    pub fn new(conversations: Vec<Conversation>, messages: Vec<Message>) -> (a: App)
        ensures
            a.wf(),
            a.input_spec().len() == 0,
            a.cursor_spec() == 0,
            a.current_spec() == (if conversations@.len() > 0 {
                Some(conversations@[0].id)
            } else {
                None
            }),
            a.conversations_spec() == crate::models::conversations_view(conversations@),
            a.messages_spec() == crate::models::messages_view(messages@),
            !a.loading_spec(),
            a.active_run_spec() is None,
            a.trace_spec().len() == 0,
            a.usage_spec() == (TokenUsage { prompt_tokens: 0, completion_tokens: 0 }),
            a.stage_spec() is None,
            a.error_spec() is None,
            !a.retryable_spec(),
            a.last_query_spec() is None,
            a.last_failed_spec() is None,
            a.scroll_spec() == 0,
    {
        let current = if conversations.len() > 0 {
            Some(conversations[0].id)
        } else {
            None
        };
        App {
            input: Vec::new(),
            cursor: 0,
            messages,
            conversations,
            current_conv_id: current,
            is_loading: false,
            active_run: None,
            trace_log: Vec::new(),
            token_usage: TokenUsage::new(),
            stage: None,
            error_message: None,
            error_retryable: false,
            last_query: None,
            last_failed_query: None,
            scroll_offset: 0,
        }
    }

    /// The input line.
    pub fn input_text(&self) -> (s: String)
        ensures
            s@ == self.input_spec(),
    {
        string_from_chars(self.input.as_slice())
    }

    /// The cursor's character position in the input.
    pub fn cursor(&self) -> (c: usize)
        ensures
            c == self.cursor_spec(),
    {
        self.cursor
    }

    pub fn messages(&self) -> (m: &Vec<Message>)
        ensures
            crate::models::messages_view(m@) == self.messages_spec(),
    {
        &self.messages
    }

    pub fn conversations(&self) -> (c: &Vec<Conversation>)
        ensures
            crate::models::conversations_view(c@) == self.conversations_spec(),
    {
        &self.conversations
    }

    pub fn current_conversation(&self) -> (c: Option<u128>)
        ensures
            c == self.current_spec(),
    {
        self.current_conv_id
    }

    pub fn is_loading(&self) -> (b: bool)
        ensures
            b == self.loading_spec(),
    {
        self.is_loading
    }

    pub fn trace_log(&self) -> (t: &Vec<String>)
        ensures
            crate::models::strings_view(t@) == self.trace_spec(),
    {
        &self.trace_log
    }

    pub fn token_usage(&self) -> (u: TokenUsage)
        ensures
            u == self.usage_spec(),
    {
        self.token_usage
    }

    pub fn stage(&self) -> (s: &Option<(String, usize, usize)>)
        ensures
            self.stage_spec() == match *s {
                Some((a, c, t)) => Some((a@, c as nat, t as nat)),
                None => None,
            },
    {
        &self.stage
    }

    pub fn error_message(&self) -> (e: &Option<String>)
        ensures
            crate::models::opt_view(*e) == self.error_spec(),
    {
        &self.error_message
    }

    pub fn scroll_offset(&self) -> (s: u16)
        ensures
            s == self.scroll_spec(),
    {
        self.scroll_offset
    }

    pub fn error_retryable(&self) -> (b: bool)
        ensures
            b == self.retryable_spec(),
    {
        self.error_retryable
    }

    // -- editing the input -----------------------------------------------------
    /// Inserts a character at the cursor and moves past it.
    pub fn insert_char(&mut self, c: char)
        requires
            old(self).wf(),
        ensures
            final(self).wf(),
            final(self).keeps(old(self), set![Part::Input, Part::Cursor]),
            final(self).input_spec() == old(self).input_spec().insert(
                old(self).cursor_spec() as int,
                c,
            ),
            final(self).cursor_spec() == old(self).cursor_spec() + 1,
    {
        self.input.insert(self.cursor, c);
        let n = self.input.len();
        assert(self.cursor < n);
        self.cursor = self.cursor + 1;
    }

    /// Deletes the character before the cursor.
    pub fn delete_backward(&mut self)
        requires
            old(self).wf(),
        ensures
            final(self).wf(),
            final(self).keeps(old(self), set![Part::Input, Part::Cursor]),
            old(self).cursor_spec() == 0 ==> final(self).input_spec() == old(self).input_spec()
                && final(self).cursor_spec() == 0,
            old(self).cursor_spec() > 0 ==> final(self).input_spec() == old(self).input_spec().remove(
                old(self).cursor_spec() - 1,
            ) && final(self).cursor_spec() == old(self).cursor_spec() - 1,
    {
        if self.cursor == 0 {
            return;
        }
        self.input.remove(self.cursor - 1);
        self.cursor = self.cursor - 1;
    }

    /// Deletes the character at the cursor.
    pub fn delete_forward(&mut self)
        requires
            old(self).wf(),
        ensures
            final(self).wf(),
            final(self).keeps(old(self), set![Part::Input, Part::Cursor]),
            final(self).cursor_spec() == old(self).cursor_spec(),
            old(self).cursor_spec() < old(self).input_spec().len() ==> final(self).input_spec()
                == old(self).input_spec().remove(old(self).cursor_spec() as int),
            old(self).cursor_spec() >= old(self).input_spec().len() ==> final(self).input_spec()
                == old(self).input_spec(),
    {
        if self.cursor >= self.input.len() {
            return;
        }
        self.input.remove(self.cursor);
    }

    /// Moves the cursor one character left, if it can.
    pub fn move_cursor_left(&mut self)
        requires
            old(self).wf(),
        ensures
            final(self).wf(),
            final(self).keeps(old(self), set![Part::Cursor]),
            final(self).input_spec() == old(self).input_spec(),
            final(self).cursor_spec() == if old(self).cursor_spec() > 0 {
                (old(self).cursor_spec() - 1) as nat
            } else {
                0
            },
    {
        if self.cursor > 0 {
            self.cursor = self.cursor - 1;
        }
    }

    /// Moves the cursor one character right, if it can.
    pub fn move_cursor_right(&mut self)
        requires
            old(self).wf(),
        ensures
            final(self).wf(),
            final(self).keeps(old(self), set![Part::Cursor]),
            final(self).input_spec() == old(self).input_spec(),
            final(self).cursor_spec() == if old(self).cursor_spec() < old(self).input_spec().len() {
                old(self).cursor_spec() + 1
            } else {
                old(self).cursor_spec()
            },
    {
        if self.cursor < self.input.len() {
            self.cursor = self.cursor + 1;
        }
    }

    /// Moves the cursor to the start of the input.
    pub fn cursor_home(&mut self)
        requires
            old(self).wf(),
        ensures
            final(self).wf(),
            final(self).keeps(old(self), set![Part::Cursor]),
            final(self).input_spec() == old(self).input_spec(),
            final(self).cursor_spec() == 0,
    {
        self.cursor = 0;
    }

    /// Moves the cursor to the end of the input.
    pub fn cursor_end(&mut self)
        requires
            old(self).wf(),
        ensures
            final(self).wf(),
            final(self).keeps(old(self), set![Part::Cursor]),
            final(self).input_spec() == old(self).input_spec(),
            final(self).cursor_spec() == old(self).input_spec().len(),
    {
        self.cursor = self.input.len();
    }

    /// Empties the input.
    pub fn clear_input(&mut self)
        requires
            old(self).wf(),
        ensures
            final(self).wf(),
            final(self).keeps(old(self), set![Part::Input, Part::Cursor]),
            final(self).input_spec().len() == 0,
            final(self).cursor_spec() == 0,
    {
        self.input = Vec::new();
        self.cursor = 0;
    }
}


/// A key as the interface reads it.
#[derive(Clone, Copy, Debug, PartialEq, Eq, Structural)]
pub enum Key {
    Esc,
    Enter,
    Backspace,
    Delete,
    Left,
    Right,
    Home,
    End,
    Tab,
    Up,
    Down,
    PageUp,
    PageDown,
    Char(char),
    F(u8),
    Other,
}

/// The outside work a key asks for.
#[derive(Clone, Copy, Debug, PartialEq, Eq, Structural)]
pub enum KeyAction {
    Nothing,
    /// Leave the interface (the active run was cancelled).
    Quit,
    /// Send the query that failed again.
    Retry,
    /// Send the input as a query.
    Send,
    /// Show the next conversation.
    NextConversation,
    /// Start a new conversation (the active run was cancelled).
    NewConversation,
    /// Delete the shown conversation (the active run was cancelled).
    DeleteConversation,
    /// Forget the user's profile (the active run was cancelled).
    ResetProfile,
}

/// What a key asks for, given whether an error is shown and can be retried.
pub open spec fn key_action(key: Key, control: bool, error_shown: bool, retryable: bool) -> KeyAction {
    if key == Key::Esc || (key == Key::Char('c') && control) {
        KeyAction::Quit
    } else if error_shown {
        if key == Key::Char('r') && retryable {
            KeyAction::Retry
        } else {
            KeyAction::Nothing
        }
    } else {
        match key {
            Key::Enter => KeyAction::Send,
            Key::Tab => KeyAction::NextConversation,
            Key::F(n) => if n == 2 {
                KeyAction::NewConversation
            } else if n == 4 {
                KeyAction::DeleteConversation
            } else if n == 5 {
                KeyAction::ResetProfile
            } else {
                KeyAction::Nothing
            },
            _ => KeyAction::Nothing,
        }
    }
}

/// `a + b` capped at `u16::MAX`.
pub open spec fn sat_add16(a: u16, b: u16) -> u16 {
    if a + b <= u16::MAX {
        (a + b) as u16
    } else {
        u16::MAX
    }
}

/// `a - b` floored at zero.
pub open spec fn sat_sub16(a: u16, b: u16) -> u16 {
    if a >= b {
        (a - b) as u16
    } else {
        0
    }
}

/// The trace after appending `line`, keeping the last thirty lines.
pub open spec fn trace_after(log: Seq<Seq<char>>, line: Seq<char>) -> Seq<Seq<char>> {
    if log.len() + 1 > MAX_TRACE_LINES {
        log.push(line).drop_first()
    } else {
        log.push(line)
    }
}

impl App {
    /// The state is left as it was.
    pub open spec fn unchanged(&self, other: &App) -> bool {
        *self == *other
    }

    /// The active run ended or was dropped.
    pub open spec fn run_dropped(&self, before: &App) -> bool {
        &&& !self.loading_spec()
        &&& self.active_run_spec() is None
        &&& self.stage_spec() is None
    }

    /// Stops following the active run (the front end cancels it).
    pub fn cancel_active_run(&mut self)
        requires
            old(self).wf(),
        ensures
            final(self).wf(),
            final(self).keeps(old(self), set![Part::Loading, Part::ActiveRun, Part::Stage]),
            final(self).run_dropped(old(self)),
            final(self).input_spec() == old(self).input_spec(),
            final(self).cursor_spec() == old(self).cursor_spec(),
            final(self).error_spec() == old(self).error_spec(),
            final(self).messages_spec() == old(self).messages_spec(),
            final(self).current_spec() == old(self).current_spec(),
            final(self).scroll_spec() == old(self).scroll_spec(),
    {
        self.active_run = None;
        self.is_loading = false;
        self.stage = None;
    }

    /// Hides the error and forgets the failed query.
    pub fn dismiss_error(&mut self)
        requires
            old(self).wf(),
        ensures
            final(self).wf(),
            final(self).keeps(old(self), set![Part::Error, Part::Retryable, Part::LastFailed]),
            final(self).error_spec() is None,
            !final(self).retryable_spec(),
            final(self).last_failed_spec() is None,
            final(self).input_spec() == old(self).input_spec(),
            final(self).cursor_spec() == old(self).cursor_spec(),
            final(self).active_run_spec() == old(self).active_run_spec(),
            final(self).messages_spec() == old(self).messages_spec(),
    {
        self.error_message = None;
        self.error_retryable = false;
        self.last_failed_query = None;
    }

    /// A query can be sent: the input is not blank and no run is going on.
    pub fn can_send(&self) -> (b: bool)
        ensures
            b == (trim(self.input_spec()).len() > 0 && !self.loading_spec()),
    {
        let t = trim_chars(self.input.as_slice());
        t.len() > 0 && !self.is_loading
    }

    /// Sends the input as a query in `conversation_id`, followed as run
    /// `run_id`: the trimmed input becomes the user's message (with the given
    /// identifier and instant) and the returned query; the input, error,
    /// usage, stage and trace start afresh.
    pub fn begin_send(
        &mut self,
        conversation_id: u128,
        run_id: u128,
        message_id: u128,
        now: Timestamp,
    ) -> (query: String)
        requires
            old(self).wf(),
            trim(old(self).input_spec()).len() > 0 && !old(self).loading_spec(),
        ensures
            final(self).wf(),
            final(self).keeps(old(self), set![Part::Input, Part::Cursor, Part::LastQuery, Part::Messages, Part::Error, Part::Retryable, Part::Usage, Part::Stage, Part::Loading, Part::Trace, Part::ActiveRun, Part::Current, Part::Scroll]),
            query@ == trim(old(self).input_spec()),
            final(self).input_spec().len() == 0,
            final(self).cursor_spec() == 0,
            final(self).last_query_spec() == Some(query@),
            final(self).messages_spec() == old(self).messages_spec().push(
                MessageView {
                    id: message_id,
                    conversation_id,
                    role: Role::User,
                    content: query@,
                    created_at: now,
                    thinking: None,
                },
            ),
            final(self).error_spec() is None,
            !final(self).retryable_spec(),
            final(self).usage_spec() == (TokenUsage { prompt_tokens: 0, completion_tokens: 0 }),
            final(self).stage_spec() is None,
            final(self).loading_spec(),
            final(self).trace_spec().len() == 0,
            final(self).active_run_spec() == Some(run_id),
            final(self).current_spec() == Some(conversation_id),
            final(self).scroll_spec() == 0,
    {
        let t = trim_chars(self.input.as_slice());
        let query = string_from_chars(t.as_slice());
        self.input = Vec::new();
        self.cursor = 0;
        self.last_query = Some(query.clone());
        let ghost before = self.messages@;
        self.messages.push(
            Message {
                id: message_id,
                conversation_id,
                role: Role::User,
                content: query.clone(),
                created_at: now,
                thinking: None,
            },
        );
        assert(crate::models::messages_view(self.messages@) =~= crate::models::messages_view(
            before,
        ).push(self.messages@.last()@));
        self.error_message = None;
        self.error_retryable = false;
        self.token_usage = TokenUsage::new();
        self.stage = None;
        self.is_loading = true;
        self.trace_log = Vec::new();
        assert(crate::models::strings_view(self.trace_log@) =~= Seq::<Seq<char>>::empty());
        self.active_run = Some(run_id);
        self.current_conv_id = Some(conversation_id);
        self.scroll_offset = 0;
        query
    }

    /// Puts the failed query back in the input, ready to be sent again;
    /// false when there is none.
    pub fn take_retry_query(&mut self) -> (b: bool)
        requires
            old(self).wf(),
        ensures
            final(self).wf(),
            b == old(self).last_failed_spec() is Some,
            b ==> final(self).keeps(old(self), set![Part::Input, Part::Cursor]),
            b ==> final(self).input_spec() == old(self).last_failed_spec().unwrap()
                && final(self).cursor_spec() == final(self).input_spec().len(),
            !b ==> final(self).unchanged(old(self)),
    {
        match &self.last_failed_query {
            Some(q) => {
                self.input = chars_of(q.as_str());
                self.cursor = self.input.len();
                true
            },
            None => false,
        }
    }

    /// Follows an event of a run: events of other runs, or of runs of
    /// another conversation where that matters, change nothing.
    pub fn apply_event(&mut self, event: RunEvent)
        requires
            old(self).wf(),
        ensures
            final(self).wf(),
            match event {
                RunEvent::Started { run_id, conversation_id } => if old(self).active_run_spec()
                    == Some(run_id) && old(self).current_spec() == Some(conversation_id) {
                    final(self).loading_spec() && final(self).active_run_spec() == Some(run_id)
                        && final(self).keeps(old(self), set![Part::Loading])
                } else {
                    final(self).unchanged(old(self))
                },
                RunEvent::Trace { run_id, message } => if old(self).active_run_spec() == Some(
                    run_id,
                ) {
                    final(self).trace_spec() == trace_after(old(self).trace_spec(), message@)
                        && final(self).keeps(old(self), set![Part::Trace])
                } else {
                    final(self).unchanged(old(self))
                },
                RunEvent::Usage { run_id, usage } => if old(self).active_run_spec() == Some(run_id) {
                    final(self).usage_spec().prompt_tokens == sat_add(
                        old(self).usage_spec().prompt_tokens,
                        usage.prompt_tokens,
                    ) && final(self).usage_spec().completion_tokens == sat_add(
                        old(self).usage_spec().completion_tokens,
                        usage.completion_tokens,
                    ) && final(self).keeps(old(self), set![Part::Usage])
                } else {
                    final(self).unchanged(old(self))
                },
                RunEvent::Stage { run_id, agent, current, total } => if old(self).active_run_spec()
                    == Some(run_id) {
                    final(self).stage_spec() == Some((agent@, current as nat, total as nat))
                        && final(self).keeps(old(self), set![Part::Stage])
                } else {
                    final(self).unchanged(old(self))
                },
                RunEvent::Completed { run_id, conversation_id } => if old(self).active_run_spec()
                    == Some(run_id) && old(self).current_spec() == Some(conversation_id) {
                    final(self).run_dropped(old(self)) && final(self).last_failed_spec() is None
                        && final(self).keeps(old(self), set![Part::Loading, Part::ActiveRun, Part::Stage, Part::LastFailed])
                } else {
                    final(self).unchanged(old(self))
                },
                RunEvent::Failed { run_id, conversation_id, message, retryable } => if old(self).active_run_spec() == Some(run_id) && old(self).current_spec() == Some(
                    conversation_id,
                ) {
                    final(self).run_dropped(old(self)) && final(self).error_spec() == Some(message@)
                        && final(self).retryable_spec() == retryable && final(self).last_failed_spec() == old(self).last_query_spec()
                        && final(self).keeps(old(self), set![Part::Loading, Part::ActiveRun, Part::Stage, Part::Error, Part::Retryable, Part::LastFailed])
                } else {
                    final(self).unchanged(old(self))
                },
            },
    {
        match event {
            RunEvent::Started { run_id, conversation_id } => {
                if self.active_run == Some(run_id) && self.current_conv_id == Some(conversation_id) {
                    self.is_loading = true;
                }
            },
            RunEvent::Trace { run_id, message } => {
                if self.active_run == Some(run_id) {
                    let ghost before = crate::models::strings_view(self.trace_log@);
                    let ghost line = message@;
                    self.trace_log.push(message);
                    assert(crate::models::strings_view(self.trace_log@) =~= before.push(line));
                    if self.trace_log.len() > MAX_TRACE_LINES {
                        self.trace_log.remove(0);
                        assert(crate::models::strings_view(self.trace_log@) =~= before.push(
                            line,
                        ).drop_first());
                    }
                }
            },
            RunEvent::Usage { run_id, usage } => {
                if self.active_run == Some(run_id) {
                    self.token_usage.add_assign(&usage);
                }
            },
            RunEvent::Stage { run_id, agent, current, total } => {
                if self.active_run == Some(run_id) {
                    self.stage = Some((agent, current, total));
                }
            },
            RunEvent::Completed { run_id, conversation_id } => {
                if self.active_run == Some(run_id) && self.current_conv_id == Some(conversation_id) {
                    self.is_loading = false;
                    self.active_run = None;
                    self.stage = None;
                    self.last_failed_query = None;
                }
            },
            RunEvent::Failed { run_id, conversation_id, message, retryable } => {
                if self.active_run == Some(run_id) && self.current_conv_id == Some(conversation_id) {
                    self.is_loading = false;
                    self.active_run = None;
                    self.stage = None;
                    self.error_message = Some(message);
                    self.error_retryable = retryable;
                    self.last_failed_query = match &self.last_query {
                        Some(q) => Some(q.clone()),
                        None => None,
                    };
                }
            },
        }
    }

    /// Shows newer messages of the conversation, when there are more of
    /// them than shown.
    pub fn refresh_messages(&mut self, fresh: Vec<Message>)
        requires
            old(self).wf(),
        ensures
            final(self).wf(),
            fresh@.len() > old(self).messages_spec().len() ==> final(self).messages_spec()
                == crate::models::messages_view(fresh@) && final(self).keeps(old(self), set![Part::Messages]),
            fresh@.len() <= old(self).messages_spec().len() ==> final(self).unchanged(old(self)),
    {
        if fresh.len() > self.messages.len() {
            self.messages = fresh;
        }
    }

    /// The position of the conversation to show after the current one
    /// (wrapping around; from the first when none is current).
    pub fn next_conversation_index(&self) -> (r: Option<usize>)
        ensures
            self.conversation_ids().len() == 0 ==> r is None,
            self.conversation_ids().len() > 0 ==> (r matches Some(i) && i == (match self.position_of_current() {
                Some(p) => p,
                None => 0,
            } + 1) % (self.conversation_ids().len() as int)),
    {
        let n = self.conversations.len();
        if n == 0 {
            return None;
        }
        let mut idx: usize = 0;
        let mut found = false;
        let mut k: usize = 0;
        while k < n
            invariant
                k <= n == self.conversations@.len(),
                !found ==> forall|j: int| 0 <= j < k ==> Some(#[trigger] self.conversation_ids()[j])
                    != self.current_conv_id,
                found ==> self.position_of_current() == Some(idx as int),
                idx < n,
                !found ==> idx == 0,
                self.conversation_ids().len() == n,
            decreases n - k,
        {
            if !found && Some(self.conversations[k].id) == self.current_conv_id {
                assert(self.conversation_ids()[k as int] == self.conversations@[k as int].id);
                proof {
                    self.lemma_position_of_current_first(k as int);
                }
                idx = k;
                found = true;
            }
            k += 1;
        }
        if !found {
            proof {
                self.lemma_position_of_current_none();
            }
        }
        Some((idx + 1) % n)
    }

    /// The first position of the current conversation in the list.
    pub closed spec fn position_of_current(&self) -> Option<int> {
        if exists|j: int|
            0 <= j < self.conversation_ids().len() && Some(self.conversation_ids()[j])
                == self.current_conv_id {
            Some(
                choose|j: int|
                    0 <= j < self.conversation_ids().len() && Some(self.conversation_ids()[j])
                        == self.current_conv_id && forall|i: int|
                        0 <= i < j ==> Some(#[trigger] self.conversation_ids()[i])
                            != self.current_conv_id,
            )
        } else {
            None
        }
    }

    proof fn lemma_position_of_current_first(&self, k: int)
        requires
            0 <= k < self.conversation_ids().len(),
            Some(self.conversation_ids()[k]) == self.current_conv_id,
            forall|j: int| 0 <= j < k ==> Some(#[trigger] self.conversation_ids()[j])
                != self.current_conv_id,
        ensures
            self.position_of_current() == Some(k),
    {
        let ids = self.conversation_ids();
        let c = choose|j: int|
            0 <= j < ids.len() && Some(ids[j]) == self.current_conv_id && forall|i: int|
                0 <= i < j ==> Some(#[trigger] ids[i]) != self.current_conv_id;
        assert(0 <= c < ids.len() && Some(ids[c]) == self.current_conv_id && forall|i: int|
            0 <= i < c ==> Some(#[trigger] ids[i]) != self.current_conv_id);
        if c < k {
        } else if c > k {
        }
    }

    proof fn lemma_position_of_current_none(&self)
        requires
            forall|j: int|
                0 <= j < self.conversation_ids().len() ==> Some(#[trigger] self.conversation_ids()[j])
                    != self.current_conv_id,
        ensures
            self.position_of_current() is None,
    {
    }

    /// Shows another conversation with its messages: the active run is
    /// dropped (the front end cancels it) and the trace is cleared.
    pub fn show_conversation(&mut self, id: u128, messages: Vec<Message>)
        requires
            old(self).wf(),
        ensures
            final(self).wf(),
            final(self).keeps(old(self), set![Part::Loading, Part::ActiveRun, Part::Stage, Part::Current, Part::Messages, Part::Trace]),
            final(self).run_dropped(old(self)),
            final(self).current_spec() == Some(id),
            final(self).messages_spec() == crate::models::messages_view(messages@),
            final(self).trace_spec().len() == 0,
            final(self).input_spec() == old(self).input_spec(),
            final(self).cursor_spec() == old(self).cursor_spec(),
    {
        self.cancel_active_run();
        self.current_conv_id = Some(id);
        self.messages = messages;
        self.trace_log = Vec::new();
        assert(crate::models::strings_view(self.trace_log@) =~= Seq::<Seq<char>>::empty());
    }

    /// Empties the trace.
    pub fn clear_trace(&mut self)
        requires
            old(self).wf(),
        ensures
            final(self).wf(),
            final(self).keeps(old(self), set![Part::Trace]),
            final(self).trace_spec().len() == 0,
            final(self).current_spec() == old(self).current_spec(),
            final(self).messages_spec() == old(self).messages_spec(),
            final(self).conversations_spec() == old(self).conversations_spec(),
            final(self).input_spec() == old(self).input_spec(),
            final(self).cursor_spec() == old(self).cursor_spec(),
    {
        self.trace_log = Vec::new();
        assert(crate::models::strings_view(self.trace_log@) =~= Seq::<Seq<char>>::empty());
    }

    /// Takes in the stored list of conversations, showing `current` with
    /// `messages`.
    pub fn set_conversations(
        &mut self,
        conversations: Vec<Conversation>,
        current: Option<u128>,
        messages: Vec<Message>,
    )
        requires
            old(self).wf(),
        ensures
            final(self).wf(),
            final(self).keeps(old(self), set![Part::Conversations, Part::Current, Part::Messages]),
            final(self).conversations_spec() == crate::models::conversations_view(conversations@),
            final(self).current_spec() == current,
            final(self).messages_spec() == crate::models::messages_view(messages@),
            final(self).trace_spec() == old(self).trace_spec(),
            final(self).input_spec() == old(self).input_spec(),
            final(self).cursor_spec() == old(self).cursor_spec(),
    {
        self.conversations = conversations;
        self.current_conv_id = current;
        self.messages = messages;
    }

    /// Adds a system note (the profile was reset) to the shown messages.
    pub fn note_profile_reset(&mut self, id: u128, now: Timestamp)
        requires
            old(self).wf(),
        ensures
            final(self).wf(),
            final(self).keeps(old(self), set![Part::Messages]),
            final(self).messages_spec() == old(self).messages_spec().push(
                MessageView {
                    id,
                    conversation_id: match old(self).current_spec() {
                        Some(c) => c,
                        None => 0,
                    },
                    role: Role::System,
                    content: "⚠️ Perfil reiniciado. En la próxima consulta se volverá a pedir información si es necesario."@,
                    created_at: now,
                    thinking: None,
                },
            ),
    {
        let conversation_id = match self.current_conv_id {
            Some(c) => c,
            None => 0,
        };
        let ghost before = self.messages@;
        self.messages.push(
            Message {
                id,
                conversation_id,
                role: Role::System,
                content: copy_str(
                    "⚠️ Perfil reiniciado. En la próxima consulta se volverá a pedir información si es necesario.",
                ),
                created_at: now,
                thinking: None,
            },
        );
        assert(crate::models::messages_view(self.messages@) =~= crate::models::messages_view(
            before,
        ).push(self.messages@.last()@));
    }

    /// Reacts to a key: edits and scrolling are done here, and the outside
    /// work the key asks for is returned.
    pub fn handle_key(&mut self, key: Key, control: bool) -> (action: KeyAction)
        requires
            old(self).wf(),
        ensures
            final(self).wf(),
            action == key_action(
                key,
                control,
                old(self).error_spec() is Some,
                old(self).retryable_spec(),
            ),
            (action == KeyAction::Quit || action == KeyAction::NewConversation || action
                == KeyAction::DeleteConversation || action == KeyAction::ResetProfile) ==> final(self).run_dropped(old(self))
                && final(self).keeps(old(self), set![Part::Loading, Part::ActiveRun, Part::Stage]),
            (action == KeyAction::Retry || action == KeyAction::Send || action
                == KeyAction::NextConversation) ==> final(self).unchanged(old(self)),
            action == KeyAction::Nothing ==> ({
                let o = *old(self);
                let f = *final(self);
                if o.error_spec() is Some {
                    if key == Key::Char('d') {
                        f.error_spec() is None && f.last_failed_spec() is None && !f.retryable_spec()
                            && f.keeps(&o, set![Part::Error, Part::Retryable, Part::LastFailed])
                    } else {
                        f.unchanged(&o)
                    }
                } else {
                    &&& match key {
                        Key::Char(_) | Key::Backspace | Key::Delete => f.keeps(&o, set![Part::Input, Part::Cursor]),
                        Key::Up | Key::Down | Key::PageUp | Key::PageDown => f.keeps(&o, set![Part::Scroll]),
                        Key::Home | Key::End | Key::Left | Key::Right => f.keeps(&o, set![Part::Cursor]),
                        _ => true,
                    }
                    &&& match key {
                        Key::Char(c) => if control && c == 'u' {
                            f.input_spec().len() == 0 && f.cursor_spec() == 0
                        } else {
                            f.input_spec() == o.input_spec().insert(o.cursor_spec() as int, c)
                                && f.cursor_spec() == o.cursor_spec() + 1
                        },
                        Key::Up => f.scroll_spec() == sat_add16(o.scroll_spec(), 1),
                        Key::Down => f.scroll_spec() == sat_sub16(o.scroll_spec(), 1),
                        Key::PageUp => f.scroll_spec() == sat_add16(o.scroll_spec(), 10),
                        Key::PageDown => f.scroll_spec() == sat_sub16(o.scroll_spec(), 10),
                        Key::Home => f.cursor_spec() == 0 && f.input_spec() == o.input_spec(),
                        Key::End => f.cursor_spec() == o.input_spec().len() && f.input_spec()
                            == o.input_spec(),
                        Key::Left => f.input_spec() == o.input_spec() && f.cursor_spec() == (if o.cursor_spec() > 0 {
                            (o.cursor_spec() - 1) as nat
                        } else {
                            0
                        }),
                        Key::Right => f.input_spec() == o.input_spec() && f.cursor_spec() == (if o.cursor_spec()
                            < o.input_spec().len() {
                            o.cursor_spec() + 1
                        } else {
                            o.cursor_spec()
                        }),
                        Key::Backspace => if o.cursor_spec() > 0 {
                            f.input_spec() == o.input_spec().remove(o.cursor_spec() - 1)
                                && f.cursor_spec() == o.cursor_spec() - 1
                        } else {
                            f.input_spec() == o.input_spec()
                        },
                        Key::Delete => if o.cursor_spec() < o.input_spec().len() {
                            f.input_spec() == o.input_spec().remove(o.cursor_spec() as int)
                        } else {
                            f.input_spec() == o.input_spec()
                        },
                        _ => f.unchanged(&o),
                    }
                }
            }),
    {
        if key == Key::Esc || (key == Key::Char('c') && control) {
            self.cancel_active_run();
            return KeyAction::Quit;
        }
        if self.error_message.is_some() {
            if key == Key::Char('r') && self.error_retryable {
                return KeyAction::Retry;
            }
            if key == Key::Char('d') {
                self.dismiss_error();
            }
            return KeyAction::Nothing;
        }
        match key {
            Key::Enter => KeyAction::Send,
            Key::Char(c) => {
                if control && c == 'u' {
                    self.clear_input();
                } else {
                    self.insert_char(c);
                }
                KeyAction::Nothing
            },
            Key::Backspace => {
                self.delete_backward();
                KeyAction::Nothing
            },
            Key::Delete => {
                self.delete_forward();
                KeyAction::Nothing
            },
            Key::Left => {
                self.move_cursor_left();
                KeyAction::Nothing
            },
            Key::Right => {
                self.move_cursor_right();
                KeyAction::Nothing
            },
            Key::Home => {
                self.cursor_home();
                KeyAction::Nothing
            },
            Key::End => {
                self.cursor_end();
                KeyAction::Nothing
            },
            Key::Tab => KeyAction::NextConversation,
            Key::F(n) => {
                if n == 2 {
                    self.cancel_active_run();
                    KeyAction::NewConversation
                } else if n == 4 {
                    self.cancel_active_run();
                    KeyAction::DeleteConversation
                } else if n == 5 {
                    self.cancel_active_run();
                    KeyAction::ResetProfile
                } else {
                    KeyAction::Nothing
                }
            },
            Key::Up => {
                self.scroll_offset = self.scroll_offset.saturating_add(1);
                KeyAction::Nothing
            },
            Key::Down => {
                self.scroll_offset = self.scroll_offset.saturating_sub(1);
                KeyAction::Nothing
            },
            Key::PageUp => {
                self.scroll_offset = self.scroll_offset.saturating_add(10);
                KeyAction::Nothing
            },
            Key::PageDown => {
                self.scroll_offset = self.scroll_offset.saturating_sub(10);
                KeyAction::Nothing
            },
            Key::Esc => KeyAction::Nothing,
            Key::Other => KeyAction::Nothing,
        }
    }
}

/// In every state the interface reaches, the cursor lies within the input
/// and the trace holds at most thirty lines.
pub proof fn lemma_state_bounds(a: App)
    requires
        a.wf(),
    ensures
        a.cursor_spec() <= a.input_spec().len(),
        a.trace_spec().len() <= MAX_TRACE_LINES,
{
}

/// The trace never holds more than thirty lines, whatever the events.
pub proof fn lemma_trace_bounded(log: Seq<Seq<char>>, line: Seq<char>)
    requires
        log.len() <= MAX_TRACE_LINES,
    ensures
        trace_after(log, line).len() <= MAX_TRACE_LINES,
        trace_after(log, line).last() == line,
{
}

} // verus!
