use discord_lite::api::{oldest_first, Channel, Guild, Message as ChatMessage, User, TEXT_CHANNEL};
use discord_lite::client::{DiscordLite, Message, Request};
use discord_lite::state::{AppState, UserStatus};
use discord_lite::text::{format_timestamp, is_blank};

fn user(id: &str) -> User {
    User {
        id: id.to_string(),
        username: format!("user{}", id),
        discriminator: "0001".to_string(),
        avatar: None,
    }
}

fn text_channel(id: &str) -> Channel {
    Channel {
        id: id.to_string(),
        channel_type: TEXT_CHANNEL,
        name: Some(id.to_string()),
        position: 0,
        parent_id: None,
    }
}

fn chat(id: &str) -> ChatMessage {
    ChatMessage {
        id: id.to_string(),
        content: format!("text {}", id),
        author: user("7"),
        timestamp: "2023-01-01T00:00:00.000000+00:00".to_string(),
    }
}

/// A client signed in with token "tok", in guild "g1", channel "c1".
fn in_channel() -> DiscordLite {
    let mut app = DiscordLite::new();
    app.update(Message::TokenInputChanged("tok".to_string()));
    app.update(Message::Login);
    app.update(Message::LoginResult(Ok(user("1"))));
    app.update(Message::SelectGuild("g1".to_string()));
    app.update(Message::ChannelsLoaded(Ok(vec![text_channel("c1"), text_channel("c2")])));
    app.update(Message::SelectChannel("c1".to_string()));
    app.update(Message::MessagesLoaded(Ok(vec![chat("m1"), chat("m2")])));
    app
}

#[test]
fn start_state_is_empty() {
    let app = DiscordLite::new();
    let s = app.state();
    assert!(s.token.is_none() && !s.logged_in && s.guilds.is_empty());
    assert_eq!(s.current_status, UserStatus::Online);
    assert!(!s.status_menu_open && s.error.is_none());
    assert_eq!(app.title(), "Discord Lite");
    let fresh = AppState::new();
    assert!(fresh.message_input.is_empty() && fresh.selected_guild.is_none());
}

#[test]
fn login_flow_issues_requests() {
    let mut app = DiscordLite::new();
    assert!(app.update(Message::Login).is_none());
    app.update(Message::TokenInputChanged("secret".to_string()));
    match app.update(Message::Login) {
        Some(Request::VerifyToken { token }) => assert_eq!(token, "secret"),
        other => panic!("unexpected {:?}", other),
    }
    app.update(Message::TokenInputChanged("changed".to_string()));
    match app.update(Message::LoginResult(Ok(user("1")))) {
        Some(Request::FetchGuilds { token }) => assert_eq!(token, "secret"),
        other => panic!("unexpected {:?}", other),
    }
    let s = app.state();
    assert!(s.logged_in);
    assert_eq!(s.token.as_deref(), Some("secret"));
    assert_eq!(s.current_user.as_ref().map(|u| u.id.as_str()), Some("1"));
}

#[test]
fn login_failure_sets_error() {
    let mut app = DiscordLite::new();
    app.update(Message::TokenInputChanged("bad".to_string()));
    app.update(Message::Login);
    assert!(app.update(Message::LoginResult(Err("401".to_string()))).is_none());
    assert_eq!(app.state().error.as_deref(), Some("Login failed: 401"));
    assert!(!app.state().logged_in);
}

#[test]
fn guild_load_results() {
    let mut app = DiscordLite::new();
    app.update(Message::GuildsLoaded(Err("timeout".to_string())));
    assert_eq!(app.state().error.as_deref(), Some("Failed to load guilds: timeout"));
    let g = Guild { id: "g".to_string(), name: "G".to_string(), icon: None };
    app.update(Message::GuildsLoaded(Ok(vec![g])));
    assert_eq!(app.state().guilds.len(), 1);
    assert!(app.state().error.is_none());
}

#[test]
fn select_guild_clears_channel_and_messages() {
    let mut app = in_channel();
    assert_eq!(app.state().messages.len(), 2);
    match app.update(Message::SelectGuild("g2".to_string())) {
        Some(Request::FetchChannels { token, guild_id }) => {
            assert_eq!(token, "tok");
            assert_eq!(guild_id, "g2");
        }
        other => panic!("unexpected {:?}", other),
    }
    let s = app.state();
    assert!(s.messages.is_empty());
    assert!(s.selected_channel.is_none());
    assert_eq!(s.selected_guild.as_deref(), Some("g2"));
}

#[test]
fn select_guild_needs_login() {
    let mut app = DiscordLite::new();
    assert!(app.update(Message::SelectGuild("g".to_string())).is_none());
    assert!(app.state().selected_guild.is_none());
}

#[test]
fn select_channel_fetches_messages() {
    let mut app = in_channel();
    match app.update(Message::SelectChannel("c2".to_string())) {
        Some(Request::FetchMessages { token, channel_id }) => {
            assert_eq!(token, "tok");
            assert_eq!(channel_id, "c2");
        }
        other => panic!("unexpected {:?}", other),
    }
    assert_eq!(app.state().selected_channel.as_deref(), Some("c2"));
    assert!(app.update(Message::SelectChannel("missing".to_string())).is_none());
    assert_eq!(app.state().selected_channel.as_deref(), Some("c2"));
}

#[test]
fn channel_reload_drops_vanished_selection() {
    let mut app = in_channel();
    app.update(Message::ChannelsLoaded(Ok(vec![text_channel("c2")])));
    assert!(app.state().selected_channel.is_none());
    app.update(Message::ChannelsLoaded(Err("gone".to_string())));
    assert_eq!(app.state().error.as_deref(), Some("Failed to load channels: gone"));
    assert_eq!(app.state().channels.len(), 1);
}

#[test]
fn messages_load_failure_keeps_messages() {
    let mut app = in_channel();
    app.update(Message::MessagesLoaded(Err("500".to_string())));
    assert_eq!(app.state().error.as_deref(), Some("Failed to load messages: 500"));
    assert_eq!(app.state().messages.len(), 2);
}

#[test]
fn send_clears_input_and_refetches_on_success() {
    let mut app = in_channel();
    app.update(Message::MessageInputChanged("hello".to_string()));
    match app.update(Message::SendMessage) {
        Some(Request::SendMessage { token, channel_id, content }) => {
            assert_eq!((token.as_str(), channel_id.as_str(), content.as_str()), ("tok", "c1", "hello"));
        }
        other => panic!("unexpected {:?}", other),
    }
    assert!(app.state().message_input.is_empty());
    match app.update(Message::MessageSent(Ok(()))) {
        Some(Request::FetchMessages { channel_id, .. }) => assert_eq!(channel_id, "c1"),
        other => panic!("unexpected {:?}", other),
    }
    assert!(app.state().error.is_none());
}

#[test]
fn failed_send_does_not_restore_input() {
    let mut app = in_channel();
    app.update(Message::MessageInputChanged("hello".to_string()));
    assert!(app.update(Message::SendMessage).is_some());
    assert!(app.update(Message::MessageSent(Err("403".to_string()))).is_none());
    let s = app.state();
    assert!(s.message_input.is_empty());
    assert_eq!(s.error.as_deref(), Some("Failed to send message: 403"));
    assert_eq!(s.messages.len(), 2);
}

#[test]
fn blank_message_is_not_sent() {
    let mut app = in_channel();
    app.update(Message::MessageInputChanged("  \t ".to_string()));
    assert!(app.update(Message::SendMessage).is_none());
    assert_eq!(app.state().message_input, "  \t ");
}

#[test]
fn presence_changes_optimistically() {
    let mut app = in_channel();
    app.update(Message::ToggleStatusMenu);
    assert!(app.state().status_menu_open);
    match app.update(Message::ChangeStatus(UserStatus::DoNotDisturb)) {
        Some(Request::SetStatus { token, status }) => {
            assert_eq!(token, "tok");
            assert_eq!(status, UserStatus::DoNotDisturb);
        }
        other => panic!("unexpected {:?}", other),
    }
    assert!(!app.state().status_menu_open);
    app.update(Message::StatusChanged(Err("429".to_string())));
    assert_eq!(app.state().current_status, UserStatus::DoNotDisturb);
    assert_eq!(app.state().error.as_deref(), Some("Failed to change status: 429"));
    app.update(Message::StatusChanged(Ok(())));
    assert!(app.state().error.is_none());
}

#[test]
fn status_tokens_and_labels() {
    assert_eq!(UserStatus::Online.as_str(), "online");
    assert_eq!(UserStatus::Idle.as_str(), "idle");
    assert_eq!(UserStatus::DoNotDisturb.as_str(), "dnd");
    assert_eq!(UserStatus::Invisible.as_str(), "invisible");
    assert_eq!(UserStatus::DoNotDisturb.display_name(), "Do Not Disturb");
    assert_eq!(UserStatus::Idle.display_name(), "Idle");
}

#[test]
fn timestamp_shows_time_with_leading_space() {
    assert_eq!(format_timestamp("2023-01-01T12:34:56.000000+00:00"), " 12:34:56");
    assert_eq!(format_timestamp("2023-01-01T08:00:00+00:00"), " 08:00:00+00:00");
    assert_eq!(format_timestamp("no time here"), "");
    assert_eq!(format_timestamp(""), "");
}

#[test]
fn blank_detection() {
    assert!(is_blank(""));
    assert!(is_blank("   "));
    assert!(is_blank("\t\r\n\u{3000}"));
    assert!(!is_blank(" a "));
}

#[test]
fn messages_put_oldest_first() {
    let ms = oldest_first(vec![chat("3"), chat("2"), chat("1")]);
    let ids: Vec<&str> = ms.iter().map(|m| m.id.as_str()).collect();
    assert_eq!(ids, vec!["1", "2", "3"]);
}
