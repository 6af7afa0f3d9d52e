use webcord::bot::{
    contents_reply, list_channels, member_listing, Action, BotState, ChannelInfo, ChannelKind,
    GuildListing, RawChannel, RawMessage, CONTENTS_LIMIT,
};
use webcord::links::LinkMarkup;
use webcord::shared::{DMChannel, Message};

fn raw(id: u64, name: &str, kind: ChannelKind) -> RawChannel {
    RawChannel { id, name: name.to_string(), kind }
}

fn dm(id: u64, name: &str) -> DMChannel {
    DMChannel::new(id, name.to_string())
}

#[test]
fn new_bot_has_no_channel() {
    let bot = BotState::new(vec![dm(1, "a")]);
    assert_eq!(bot.channel(), None);
    assert_eq!(bot.dm_channels().len(), 1);
}

#[test]
fn loop_starts_only_on_first_ready() {
    let mut bot = BotState::new(vec![]);
    assert!(bot.on_ready());
    assert!(!bot.on_ready());
    let _ = bot.handle(Some(Message::Kill));
    assert!(!bot.on_ready());
}

#[test]
fn send_without_channel_reports_it() {
    let mut bot = BotState::new(vec![]);
    assert!(matches!(bot.handle(Some(Message::Send("hi".to_string()))), Action::NoChannel));
}

#[test]
fn send_after_change_posts_in_that_channel() {
    let mut bot = BotState::new(vec![]);
    assert!(matches!(bot.handle(Some(Message::ChangeChannel(77))), Action::Nothing));
    assert_eq!(bot.channel(), Some(77));
    match bot.handle(Some(Message::Send("hello".to_string()))) {
        Action::Post { channel, content } => {
            assert_eq!(channel, 77);
            assert_eq!(content, "hello");
        }
        other => panic!("unexpected {:?}", other),
    }
}

#[test]
fn kill_and_closed_front_end_stop_the_bot() {
    let mut bot = BotState::new(vec![]);
    assert!(matches!(bot.handle(Some(Message::Kill)), Action::Stop));
    assert!(matches!(bot.handle(None), Action::Stop));
}

#[test]
fn listing_requests_ask_for_work() {
    let mut bot = BotState::new(vec![]);
    assert!(matches!(bot.handle(Some(Message::RequestChannels)), Action::ListChannels));
    assert!(matches!(bot.handle(Some(Message::RequestMemebers)), Action::ListMembers));
    assert!(matches!(
        bot.handle(Some(Message::MakeDirectMessageChannel(12))),
        Action::OpenDirectMessage { user: 12 }
    ));
}

#[test]
fn contents_without_channel_answer_nothing() {
    let mut bot = BotState::new(vec![]);
    match bot.handle(Some(Message::RequestChannelContents)) {
        Action::NoContents { reply } => assert!(reply.channel.is_none()),
        other => panic!("unexpected {:?}", other),
    }
}

#[test]
fn contents_after_change_fetch_recent_messages() {
    let mut bot = BotState::new(vec![]);
    let _ = bot.handle(Some(Message::ChangeChannel(5)));
    match bot.handle(Some(Message::RequestChannelContents)) {
        Action::FetchContents { channel, limit } => {
            assert_eq!(channel, 5);
            assert_eq!(limit, 25);
            assert_eq!(CONTENTS_LIMIT, 25);
        }
        other => panic!("unexpected {:?}", other),
    }
}

#[test]
fn requests_leave_dm_channels_alone() {
    let mut bot = BotState::new(vec![dm(1, "a"), dm(2, "b")]);
    let _ = bot.handle(Some(Message::ChangeChannel(5)));
    let _ = bot.handle(Some(Message::RequestChannels));
    let _ = bot.handle(Some(Message::MakeDirectMessageChannel(3)));
    assert_eq!(bot.dm_channels().len(), 2);
}

#[test]
fn opening_a_dm_selects_it_and_remembers_the_user_once() {
    let mut bot = BotState::new(vec![dm(1, "a")]);
    bot.dm_opened(2, "b".to_string(), 900);
    assert_eq!(bot.channel(), Some(900));
    assert_eq!(bot.dm_channels().len(), 2);
    assert_eq!(bot.dm_channels()[1].id, 2);
    assert_eq!(bot.dm_channels()[1].name, "b");
    bot.dm_opened(2, "renamed".to_string(), 901);
    assert_eq!(bot.channel(), Some(901));
    assert_eq!(bot.dm_channels().len(), 2);
    assert_eq!(bot.dm_channels()[1].name, "b");
    bot.dm_opened(1, "a".to_string(), 902);
    assert_eq!(bot.dm_channels().len(), 2);
}

#[test]
fn channel_listing_shows_text_and_voice_channels_in_order() {
    let bot = BotState::new(vec![dm(4, "d")]);
    let guilds = vec![
        GuildListing {
            name: "one".to_string(),
            channels: Some(vec![
                raw(1, "rules", ChannelKind::Text),
                raw(2, "stage", ChannelKind::Other),
                raw(3, "talk", ChannelKind::Voice),
            ]),
        },
        GuildListing { name: "broken".to_string(), channels: None },
        GuildListing { name: "empty".to_string(), channels: Some(vec![]) },
    ];
    let m = bot.channel_listing(&guilds);
    assert_eq!(m.servers.len(), 2);
    assert_eq!(m.servers[0].name, "one");
    assert_eq!(m.servers[0].channels.len(), 2);
    assert_eq!(m.servers[0].channels[0].id, 1);
    assert!(!m.servers[0].channels[0].is_voice);
    assert_eq!(m.servers[0].channels[1].id, 3);
    assert_eq!(m.servers[0].channels[1].name, "talk");
    assert!(m.servers[0].channels[1].is_voice);
    assert_eq!(m.servers[1].name, "empty");
    assert_eq!(m.dms.len(), 1);
    assert_eq!(m.dms[0].id, 4);
}

#[test]
fn list_channels_of_no_channels_is_empty() {
    assert!(list_channels(&vec![]).is_empty());
    assert!(list_channels(&vec![raw(1, "x", ChannelKind::Other)]).is_empty());
}

#[test]
fn member_listing_keeps_first_of_each_id_without_the_bot() {
    let members = vec![
        Some(vec![dm(1, "a"), dm(99, "bot"), dm(2, "b")]),
        None,
        Some(vec![dm(2, "b-again"), dm(3, "c"), dm(1, "a")]),
    ];
    let u = member_listing(99, &members);
    let ids: Vec<u64> = u.users.iter().map(|d| d.id).collect();
    assert_eq!(ids, vec![1, 2, 3]);
    assert_eq!(u.users[1].name, "b");
}

#[test]
fn member_listing_of_nothing_is_empty() {
    assert!(member_listing(1, &vec![]).users.is_empty());
    assert!(member_listing(1, &vec![Some(vec![dm(1, "me")])]).users.is_empty());
}

fn msg(content: &str) -> RawMessage {
    RawMessage {
        content: content.to_string(),
        author: "ann".to_string(),
        attachments: vec!["https://cdn/f.png".to_string()],
    }
}

#[test]
fn contents_of_a_server_channel() {
    let markup = LinkMarkup::new().unwrap();
    let r = contents_reply(
        &markup,
        Some(vec![msg("look https://a.io"), msg("plain")]),
        Some(ChannelInfo::Guild { name: "general".to_string(), server: Some("home".to_string()) }),
    )
    .unwrap();
    let fc = r.channel.unwrap();
    assert_eq!(fc.name, "general");
    assert_eq!(fc.server, Some("home".to_string()));
    assert!(!fc.is_dm);
    assert_eq!(fc.messages.len(), 2);
    assert_eq!(fc.messages[0].content, "look <a href=\"https://a.io\">https://a.io</a>");
    assert_eq!(fc.messages[0].author, "ann");
    assert_eq!(fc.messages[0].attachments, vec!["https://cdn/f.png".to_string()]);
    assert_eq!(fc.messages[1].content, "plain");
}

#[test]
fn contents_of_a_server_channel_without_server_name() {
    let markup = LinkMarkup::new().unwrap();
    let r = contents_reply(
        &markup,
        Some(vec![]),
        Some(ChannelInfo::Guild { name: "general".to_string(), server: None }),
    )
    .unwrap();
    let fc = r.channel.unwrap();
    assert_eq!(fc.server, None);
    assert!(fc.messages.is_empty());
}

#[test]
fn contents_of_a_direct_message_channel() {
    let markup = LinkMarkup::new().unwrap();
    let r = contents_reply(
        &markup,
        Some(vec![msg("hey")]),
        Some(ChannelInfo::Private { recipient: "bob".to_string() }),
    )
    .unwrap();
    let fc = r.channel.unwrap();
    assert_eq!(fc.name, "bob");
    assert!(fc.is_dm);
    assert_eq!(fc.server, None);
}

#[test]
fn contents_of_other_channels_and_failures() {
    let markup = LinkMarkup::new().unwrap();
    let other = contents_reply(&markup, Some(vec![msg("x")]), Some(ChannelInfo::Other)).unwrap();
    assert!(other.channel.is_none());
    let failed_fetch = contents_reply(&markup, None, None).unwrap();
    assert!(failed_fetch.channel.is_none());
    assert!(contents_reply(&markup, Some(vec![msg("x")]), None).is_none());
}
