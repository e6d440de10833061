//! The session's presence states and its mutable snapshot.
use vstd::prelude::*;
use crate::api::{Channel, Guild, Message, User};

verus! {

/// Presence states a user can choose.
#[derive(Clone, Copy, Debug, PartialEq, Eq, Structural)]
pub enum UserStatus {
    Online,
    Idle,
    DoNotDisturb,
    Invisible,
}

impl UserStatus {
    /// The token the platform uses for this status.
    pub open spec fn wire_token(self) -> Seq<char> {
        match self {
            UserStatus::Online => "online"@,
            UserStatus::Idle => "idle"@,
            UserStatus::DoNotDisturb => "dnd"@,
            UserStatus::Invisible => "invisible"@,
        }
    }

    /// The label shown to the user.
    pub open spec fn label(self) -> Seq<char> {
        match self {
            UserStatus::Online => "Online"@,
            UserStatus::Idle => "Idle"@,
            UserStatus::DoNotDisturb => "Do Not Disturb"@,
            UserStatus::Invisible => "Invisible"@,
        }
    }

    pub fn as_str(&self) -> (r: &str)
        ensures
            r@ == self.wire_token(),
    {
        match self {
            UserStatus::Online => "online",
            UserStatus::Idle => "idle",
            UserStatus::DoNotDisturb => "dnd",
            UserStatus::Invisible => "invisible",
        }
    }

    pub fn display_name(&self) -> (r: &str)
        ensures
            r@ == self.label(),
    {
        match self {
            UserStatus::Online => "Online",
            UserStatus::Idle => "Idle",
            UserStatus::DoNotDisturb => "Do Not Disturb",
            UserStatus::Invisible => "Invisible",
        }
    }
}

/// Whether some channel of `cs` has id `id`.
pub open spec fn lists_channel(cs: Seq<Channel>, id: Seq<char>) -> bool {
    exists|i: int| 0 <= i < cs.len() && #[trigger] cs[i].id@ == id
}

/// Everything the client knows and shows.
pub struct AppState {
    /// What the login field holds.
    pub token_input: String,
    /// The token of the signed-in session.
    pub token: Option<String>,
    pub logged_in: bool,
    pub current_user: Option<User>,
    /// The token sent with the last login attempt.
    pub pending_login: Option<String>,
    pub guilds: Vec<Guild>,
    /// Channels of the selected guild.
    pub channels: Vec<Channel>,
    /// Messages of the selected channel, oldest first.
    pub messages: Vec<Message>,
    pub selected_guild: Option<String>,
    pub selected_channel: Option<String>,
    /// What the message field holds.
    pub message_input: String,
    pub current_status: UserStatus,
    pub status_menu_open: bool,
    /// The last failure, shown until an operation succeeds.
    pub error: Option<String>,
}

impl AppState {
    /// A selected channel belongs to the channel list of a selected guild.
    pub open spec fn wf(&self) -> bool {
        match self.selected_channel {
            Some(c) => self.selected_guild is Some && lists_channel(self.channels@, c@),
            None => true,
        }
    }

    /// Nothing entered, loaded or selected; presence online; no error.
    pub open spec fn is_initial(&self) -> bool {
        &&& self.token_input@.len() == 0
        &&& self.token is None
        &&& !self.logged_in
        &&& self.current_user is None
        &&& self.pending_login is None
        &&& self.guilds@.len() == 0
        &&& self.channels@.len() == 0
        &&& self.messages@.len() == 0
        &&& self.selected_guild is None
        &&& self.selected_channel is None
        &&& self.message_input@.len() == 0
        &&& self.current_status == UserStatus::Online
        &&& !self.status_menu_open
        &&& self.error is None
    }

    /// The state at start-up.
    pub fn new() -> (r: Self)
        ensures
            r.is_initial(),
            r.wf(),
    {
        AppState {
            token_input: String::new(),
            token: None,
            logged_in: false,
            current_user: None,
            pending_login: None,
            guilds: Vec::new(),
            channels: Vec::new(),
            messages: Vec::new(),
            selected_guild: None,
            selected_channel: None,
            message_input: String::new(),
            current_status: UserStatus::Online,
            status_menu_open: false,
            error: None,
        }
    }
}

} // verus!
