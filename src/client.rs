//! The event reducer: the only place where the session state changes.
use vstd::prelude::*;
use vstd::string::StrSliceExecFns;
use vstd::string::StringExecFns;
use crate::api::{self, Channel, Guild, User};
use crate::state::{lists_channel, AppState, UserStatus};
use crate::text::{blank, is_blank};

verus! {

/// Events: user input, and the results of requests coming back.
#[derive(Debug)]
pub enum Message {
    TokenInputChanged(String),
    Login,
    LoginResult(Result<User, String>),
    GuildsLoaded(Result<Vec<Guild>, String>),
    SelectGuild(String),
    ChannelsLoaded(Result<Vec<Channel>, String>),
    SelectChannel(String),
    MessagesLoaded(Result<Vec<api::Message>, String>),
    MessageInputChanged(String),
    SendMessage,
    MessageSent(Result<(), String>),
    ToggleStatusMenu,
    ChangeStatus(UserStatus),
    StatusChanged(Result<(), String>),
}

/// A request to the platform, carrying copies of what it needs; its result
/// comes back as a `Message`.
#[derive(Clone, Debug)]
pub enum Request {
    /// Answered by `LoginResult`.
    VerifyToken { token: String },
    /// Answered by `GuildsLoaded`.
    FetchGuilds { token: String },
    /// Answered by `ChannelsLoaded`.
    FetchChannels { token: String, guild_id: String },
    /// Answered by `MessagesLoaded`.
    FetchMessages { token: String, channel_id: String },
    /// Answered by `MessageSent`.
    SendMessage { token: String, channel_id: String, content: String },
    /// Answered by `StatusChanged`.
    SetStatus { token: String, status: UserStatus },
}

/// `t` is `s` with the error set to `prefix` followed by `e`.
pub open spec fn failed(s: AppState, t: AppState, prefix: Seq<char>, e: String) -> bool {
    &&& t == AppState { error: t.error, ..s }
    &&& t.error is Some
    &&& t.error->Some_0@ == prefix + e@
}

/// The token a successful login signs in with: the one submitted.
pub open spec fn login_token(s: AppState) -> String {
    match s.pending_login {
        Some(p) => p,
        None => s.token_input,
    }
}

/// Handling `m` in state `s` leads to state `t` and issues `r`.
pub open spec fn transition(s: AppState, m: Message, t: AppState, r: Option<Request>) -> bool {
    match m {
        Message::TokenInputChanged(text) => t == AppState { token_input: text, ..s } && r is None,
        Message::Login => if s.token_input@.len() > 0 {
            &&& t == AppState { pending_login: Some(s.token_input), ..s }
            &&& r == Some(Request::VerifyToken { token: s.token_input })
        } else {
            t == s && r is None
        },
        Message::LoginResult(res) => match res {
            Ok(user) => {
                &&& t == AppState {
                    logged_in: true,
                    current_user: Some(user),
                    token: Some(login_token(s)),
                    error: None,
                    ..s
                }
                &&& r == Some(Request::FetchGuilds { token: login_token(s) })
            },
            Err(e) => failed(s, t, "Login failed: "@, e) && r is None,
        },
        Message::GuildsLoaded(res) => match res {
            Ok(gs) => t == AppState { guilds: gs, error: None, ..s } && r is None,
            Err(e) => failed(s, t, "Failed to load guilds: "@, e) && r is None,
        },
        Message::SelectGuild(id) => match s.token {
            Some(tok) => {
                &&& t == AppState {
                    selected_guild: Some(id),
                    selected_channel: None,
                    messages: t.messages,
                    ..s
                }
                &&& t.messages@.len() == 0
                &&& r == Some(Request::FetchChannels { token: tok, guild_id: id })
            },
            None => t == s && r is None,
        },
        Message::ChannelsLoaded(res) => match res {
            Ok(cs) => {
                let keep = match s.selected_channel {
                    Some(c) => lists_channel(cs@, c@),
                    None => false,
                };
                &&& t == AppState {
                    channels: cs,
                    selected_channel: if keep {
                        s.selected_channel
                    } else {
                        None
                    },
                    error: None,
                    ..s
                }
                &&& r is None
            },
            Err(e) => failed(s, t, "Failed to load channels: "@, e) && r is None,
        },
        Message::SelectChannel(id) => match s.token {
            Some(tok) => if s.selected_guild is Some && lists_channel(s.channels@, id@) {
                &&& t == AppState { selected_channel: Some(id), ..s }
                &&& r == Some(Request::FetchMessages { token: tok, channel_id: id })
            } else {
                t == s && r is None
            },
            None => t == s && r is None,
        },
        Message::MessagesLoaded(res) => match res {
            Ok(ms) => t == AppState { messages: ms, error: None, ..s } && r is None,
            Err(e) => failed(s, t, "Failed to load messages: "@, e) && r is None,
        },
        Message::MessageInputChanged(text) => t == AppState { message_input: text, ..s }
            && r is None,
        Message::SendMessage => match (s.token, s.selected_channel) {
            (Some(tok), Some(ch)) => if !blank(s.message_input@) {
                &&& t == AppState { message_input: t.message_input, ..s }
                &&& t.message_input@.len() == 0
                &&& r == Some(
                    Request::SendMessage { token: tok, channel_id: ch, content: s.message_input },
                )
            } else {
                t == s && r is None
            },
            _ => t == s && r is None,
        },
        Message::MessageSent(res) => match res {
            Ok(_) => {
                &&& t == AppState { error: None, ..s }
                &&& r == match (s.token, s.selected_channel) {
                    (Some(tok), Some(ch)) => Some(
                        Request::FetchMessages { token: tok, channel_id: ch },
                    ),
                    _ => None,
                }
            },
            Err(e) => failed(s, t, "Failed to send message: "@, e) && r is None,
        },
        Message::ToggleStatusMenu => t == AppState { status_menu_open: !s.status_menu_open, ..s }
            && r is None,
        Message::ChangeStatus(st) => {
            &&& t == AppState { status_menu_open: false, current_status: st, ..s }
            &&& r == match s.token {
                Some(tok) => Some(Request::SetStatus { token: tok, status: st }),
                None => None,
            }
        },
        Message::StatusChanged(res) => match res {
            Ok(_) => t == AppState { error: None, ..s } && r is None,
            Err(e) => failed(s, t, "Failed to change status: "@, e) && r is None,
        },
    }
}

/// `prefix` followed by `e`.
fn failure(prefix: &str, e: &String) -> (r: String)
    ensures
        r@ == prefix@ + e@,
{
    String::from_str(prefix).concat(e.as_str())
}

/// Whether a channel of `cs` has id `id`.
fn has_channel(cs: &Vec<Channel>, id: &String) -> (r: bool)
    ensures
        r == lists_channel(cs@, id@),
{
    let mut i: usize = 0;
    while i < cs.len()
        invariant
            i <= cs.len(),
            forall|j: int| 0 <= j < i ==> cs@[j].id@ != id@,
        decreases cs.len() - i,
    {
        if cs[i].id == *id {
            assert(cs@[i as int].id@ == id@);
            return true;
        }
        i = i + 1;
    }
    false
}

impl AppState {
    /// Handles one event: changes the state as the event calls for and
    /// returns the request to send, if any.
    pub fn apply(&mut self, message: Message) -> (r: Option<Request>)
        ensures
            transition(*old(self), message, *final(self), r),
            old(self).wf() ==> final(self).wf(),
    {
        match message {
            Message::TokenInputChanged(text) => {
                self.token_input = text;
                None
            },
            Message::Login => {
                if self.token_input.as_str().unicode_len() == 0 {
                    return None;
                }
                let token = self.token_input.clone();
                self.pending_login = Some(self.token_input.clone());
                Some(Request::VerifyToken { token })
            },
            Message::LoginResult(res) => match res {
                Ok(user) => {
                    let token = match &self.pending_login {
                        Some(p) => p.clone(),
                        None => self.token_input.clone(),
                    };
                    self.logged_in = true;
                    self.current_user = Some(user);
                    self.token = Some(token.clone());
                    self.error = None;
                    Some(Request::FetchGuilds { token })
                },
                Err(e) => {
                    self.error = Some(failure("Login failed: ", &e));
                    None
                },
            },
            Message::GuildsLoaded(res) => match res {
                Ok(gs) => {
                    self.guilds = gs;
                    self.error = None;
                    None
                },
                Err(e) => {
                    self.error = Some(failure("Failed to load guilds: ", &e));
                    None
                },
            },
            Message::SelectGuild(id) => match &self.token {
                Some(tok) => {
                    let token = tok.clone();
                    self.selected_guild = Some(id.clone());
                    self.selected_channel = None;
                    self.messages = Vec::new();
                    Some(Request::FetchChannels { token, guild_id: id })
                },
                None => None,
            },
            Message::ChannelsLoaded(res) => match res {
                Ok(cs) => {
                    let keep = match &self.selected_channel {
                        Some(c) => has_channel(&cs, c),
                        None => false,
                    };
                    self.channels = cs;
                    if !keep {
                        self.selected_channel = None;
                    }
                    self.error = None;
                    None
                },
                Err(e) => {
                    self.error = Some(failure("Failed to load channels: ", &e));
                    None
                },
            },
            Message::SelectChannel(id) => match &self.token {
                Some(tok) => {
                    if self.selected_guild.is_none() || !has_channel(&self.channels, &id) {
                        return None;
                    }
                    let token = tok.clone();
                    self.selected_channel = Some(id.clone());
                    Some(Request::FetchMessages { token, channel_id: id })
                },
                None => None,
            },
            Message::MessagesLoaded(res) => match res {
                Ok(ms) => {
                    self.messages = ms;
                    self.error = None;
                    None
                },
                Err(e) => {
                    self.error = Some(failure("Failed to load messages: ", &e));
                    None
                },
            },
            Message::MessageInputChanged(text) => {
                self.message_input = text;
                None
            },
            Message::SendMessage => match (&self.token, &self.selected_channel) {
                (Some(tok), Some(ch)) => {
                    if is_blank(self.message_input.as_str()) {
                        return None;
                    }
                    let token = tok.clone();
                    let channel_id = ch.clone();
                    let content = self.message_input.clone();
                    self.message_input = String::new();
                    Some(Request::SendMessage { token, channel_id, content })
                },
                _ => None,
            },
            Message::MessageSent(res) => match res {
                Ok(_) => {
                    self.error = None;
                    match (&self.token, &self.selected_channel) {
                        (Some(tok), Some(ch)) => Some(
                            Request::FetchMessages { token: tok.clone(), channel_id: ch.clone() },
                        ),
                        _ => None,
                    }
                },
                Err(e) => {
                    self.error = Some(failure("Failed to send message: ", &e));
                    None
                },
            },
            Message::ToggleStatusMenu => {
                self.status_menu_open = !self.status_menu_open;
                None
            },
            Message::ChangeStatus(st) => {
                self.status_menu_open = false;
                self.current_status = st;
                match &self.token {
                    Some(tok) => Some(Request::SetStatus { token: tok.clone(), status: st }),
                    None => None,
                }
            },
            Message::StatusChanged(res) => match res {
                Ok(_) => {
                    self.error = None;
                    None
                },
                Err(e) => {
                    self.error = Some(failure("Failed to change status: ", &e));
                    None
                },
            },
        }
    }
}

} // verus!

verus! {

/// The client: the session state, changed only by `update`.
pub struct DiscordLite {
    state: AppState,
}

impl DiscordLite {
    /// The session state held.
    pub closed spec fn current(&self) -> AppState {
        self.state
    }

    pub fn new() -> (r: Self)
        ensures
            r.current().is_initial(),
            r.current().wf(),
    {
        DiscordLite { state: AppState::new() }
    }

    pub fn title(&self) -> (r: String)
        ensures
            r@ == "Discord Lite"@,
    {
        String::from_str("Discord Lite")
    }

    pub fn state(&self) -> (r: &AppState)
        ensures
            *r == self.current(),
    {
        &self.state
    }

    /// Handles one event, returning the request to send, if any.
    pub fn update(&mut self, message: Message) -> (r: Option<Request>)
        ensures
            transition(old(self).current(), message, final(self).current(), r),
            old(self).current().wf() ==> final(self).current().wf(),
    {
        self.state.apply(message)
    }
}

/// No event can leave a selected channel outside the loaded channel list, or
/// selected without a selected guild.
pub proof fn lemma_transition_keeps_wf(s: AppState, m: Message, t: AppState, r: Option<Request>)
    requires
        s.wf(),
        transition(s, m, t, r),
    ensures
        t.wf(),
{
}

/// Selecting a guild empties the messages and clears the channel selection
/// at once, before the guild's channels arrive, and asks for those channels.
pub proof fn lemma_select_guild_resets(s: AppState, id: String, t: AppState, r: Option<Request>)
    requires
        s.token is Some,
        transition(s, Message::SelectGuild(id), t, r),
    ensures
        t.messages@.len() == 0,
        t.selected_channel is None,
        t.selected_guild == Some(id),
        r == Some(Request::FetchChannels { token: s.token->Some_0, guild_id: id }),
{
}

/// After a message is sent and the send fails, the message field stays
/// empty, nothing is fetched again, the messages stay as they were and the
/// failure is reported.
pub proof fn lemma_failed_send_not_restored(
    s: AppState,
    s1: AppState,
    r1: Option<Request>,
    e: String,
    s2: AppState,
    r2: Option<Request>,
)
    requires
        transition(s, Message::SendMessage, s1, r1),
        r1 is Some,
        transition(s1, Message::MessageSent(Err(e)), s2, r2),
    ensures
        s2.message_input@.len() == 0,
        r2 is None,
        s2.messages == s.messages,
        s2.error is Some,
        s2.error->Some_0@ == "Failed to send message: "@ + e@,
{
}

} // verus!
