//! Records exchanged with the chat platform.
use vstd::prelude::*;

verus! {

/// Channel kind code of a text channel.
pub const TEXT_CHANNEL: i32 = 0;

/// Channel kind code of a voice channel.
pub const VOICE_CHANNEL: i32 = 2;

/// Channel kind code of a category, which groups other channels.
pub const CATEGORY_CHANNEL: i32 = 4;

/// An account on the platform.
#[derive(Clone, Debug)]
pub struct User {
    pub id: String,
    pub username: String,
    pub discriminator: String,
    pub avatar: Option<String>,
}

/// A server the user belongs to.
#[derive(Clone, Debug)]
pub struct Guild {
    pub id: String,
    pub name: String,
    pub icon: Option<String>,
}

/// A channel of a guild; `channel_type` holds the platform's kind code.
#[derive(Clone, Debug)]
pub struct Channel {
    pub id: String,
    pub channel_type: i32,
    pub name: Option<String>,
    pub position: i32,
    pub parent_id: Option<String>,
}

/// A message posted in a channel.
#[derive(Clone, Debug)]
pub struct Message {
    pub id: String,
    pub content: String,
    pub author: User,
    pub timestamp: String,
}

#[verifier::external_type_specification]
#[verifier::external_body]
pub struct ExJsonValue(serde_json::Value);

/// A user-defined group of guilds in the sidebar.
#[derive(Debug)]
pub struct GuildFolder {
    pub guild_ids: Vec<String>,
    pub id: Option<serde_json::Value>,
    pub name: Option<String>,
}

/// The part of the user's saved settings that orders guilds.
#[derive(Debug)]
pub struct UserSettings {
    pub guild_positions: Vec<String>,
    pub guild_folders: Vec<GuildFolder>,
}

} // verus!

verus! {

/// Puts a page of messages, which the platform lists newest first, oldest first.
pub fn oldest_first(messages: Vec<Message>) -> (r: Vec<Message>)
    ensures
        r@ == messages@.reverse(),
{
    let ghost s = messages@;
    let n = messages.len();
    let mut rest = messages;
    let mut out: Vec<Message> = Vec::new();
    let mut i: usize = 0;
    while i < n
        invariant
            n == s.len(),
            i <= n,
            rest@ == s.take(n - i),
            out.len() == i,
            forall|j: int| 0 <= j < i ==> out@[j] == s[n - 1 - j],
        decreases n - i,
    {
        let m = rest.pop().unwrap();
        assert(s.take(n - i).drop_last() =~= s.take(n - i - 1));
        out.push(m);
        i = i + 1;
    }
    assert(out@ =~= s.reverse());
    out
}

} // verus!
