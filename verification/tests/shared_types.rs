use webcord::shared::{
    Channel, ChannelMessage, DMChannel, DiscordMessage, FullChannel, Message, Server,
    UsersMessage, ViewChannelMessage,
};

#[test]
fn channel_new_keeps_fields() {
    let c = Channel::new(42, "general".to_string(), false);
    assert_eq!(c.id, 42);
    assert_eq!(c.name, "general");
    assert!(!c.is_voice);
    let v = Channel::new(7, "lounge".to_string(), true);
    assert!(v.is_voice);
}

#[test]
fn server_new_keeps_fields() {
    let s = Server::new(
        "home".to_string(),
        vec![Channel::new(1, "a".to_string(), false), Channel::new(2, "b".to_string(), true)],
    );
    assert_eq!(s.name, "home");
    assert_eq!(s.channels.len(), 2);
    assert_eq!(s.channels[1].id, 2);
}

#[test]
fn channel_message_new_keeps_fields() {
    let m = ChannelMessage::new(
        vec![Server::new("home".to_string(), vec![])],
        vec![DMChannel::new(5, "ann".to_string())],
    );
    assert_eq!(m.servers.len(), 1);
    assert_eq!(m.dms[0].id, 5);
    assert_eq!(m.dms[0].name, "ann");
}

#[test]
fn discord_message_new_keeps_fields() {
    let d = DiscordMessage::new(
        "hi".to_string(),
        "bob".to_string(),
        vec!["https://cdn/x.png".to_string()],
    );
    assert_eq!(d.content, "hi");
    assert_eq!(d.author, "bob");
    assert_eq!(d.attachments, vec!["https://cdn/x.png".to_string()]);
}

#[test]
fn full_channel_new_keeps_fields() {
    let f = FullChannel::new("general".to_string(), vec![], false, Some("home".to_string()));
    assert_eq!(f.name, "general");
    assert!(f.messages.is_empty());
    assert!(!f.is_dm);
    assert_eq!(f.server, Some("home".to_string()));
}

#[test]
fn view_channel_message_new_keeps_fields() {
    let v = ViewChannelMessage::new(None);
    assert!(v.channel.is_none());
    let w = ViewChannelMessage::new(Some(FullChannel::new("dm".to_string(), vec![], true, None)));
    assert!(w.channel.unwrap().is_dm);
}

#[test]
fn dm_channel_new_keeps_fields() {
    let d = DMChannel::new(9, "cat".to_string());
    assert_eq!(d.id, 9);
    assert_eq!(d.name, "cat");
}

#[test]
fn dm_channels_are_equal_by_id_alone() {
    assert!(DMChannel::new(9, "cat".to_string()) == DMChannel::new(9, "dog".to_string()));
    assert!(DMChannel::new(9, "cat".to_string()) != DMChannel::new(10, "cat".to_string()));
}

#[test]
fn dm_channel_clone_is_equal_in_every_field() {
    let d = DMChannel::new(3, "eve".to_string());
    let c = d.clone();
    assert_eq!(c.id, 3);
    assert_eq!(c.name, "eve");
}

#[test]
fn users_message_new_keeps_fields() {
    let u = UsersMessage::new(vec![DMChannel::new(1, "a".to_string())]);
    assert_eq!(u.users.len(), 1);
    assert_eq!(u.users[0].name, "a");
}

#[test]
fn message_variants_carry_their_values() {
    assert!(matches!(Message::Send("x".to_string()), Message::Send(s) if s == "x"));
    assert!(matches!(Message::ChangeChannel(4), Message::ChangeChannel(4)));
    assert!(matches!(Message::MakeDirectMessageChannel(8), Message::MakeDirectMessageChannel(8)));
}
