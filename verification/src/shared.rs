//! The values that the Discord side and the web side hand each other.
use vstd::prelude::*;
use vstd::std_specs::cmp::PartialEqSpecImpl;

verus! {

/// A request from the web front-end to the bot.
#[derive(Debug)]
pub enum Message {
    Send(String),
    ChangeChannel(u64),
    Kill,
    RequestChannels,
    MakeDirectMessageChannel(u64),
    RequestChannelContents,
    RequestMemebers,
}

/// A text or voice channel of a server.
#[derive(Debug)]
pub struct Channel {
    pub id: u64,
    pub name: String,
    pub is_voice: bool,
}

impl Channel {
    pub fn new(id: u64, name: String, is_voice: bool) -> (r: Self)
        ensures
            r.id == id,
            r.name == name,
            r.is_voice == is_voice,
    {
        Self { id, name, is_voice }
    }
}

/// A server (guild) with the channels it lists.
#[derive(Debug)]
pub struct Server {
    pub name: String,
    pub channels: Vec<Channel>,
}

/// What a server is, with its channels taken as a sequence.
pub struct ServerView {
    pub name: String,
    pub channels: Seq<Channel>,
}

impl View for Server {
    type V = ServerView;

    open spec fn view(&self) -> ServerView {
        ServerView { name: self.name, channels: self.channels@ }
    }
}

impl Server {
    pub fn new(name: String, channels: Vec<Channel>) -> (r: Self)
        ensures
            r.name == name,
            r.channels == channels,
    {
        Self { name, channels }
    }
}

/// The answer to a request for the channels: the servers and the direct-message channels.
#[derive(Debug)]
pub struct ChannelMessage {
    pub servers: Vec<Server>,
    pub dms: Vec<DMChannel>,
}

impl ChannelMessage {
    pub fn new(servers: Vec<Server>, dms: Vec<DMChannel>) -> (r: Self)
        ensures
            r.servers == servers,
            r.dms == dms,
    {
        Self { servers, dms }
    }
}

/// One message of a channel as the web front-end shows it.
#[derive(Debug)]
pub struct DiscordMessage {
    pub content: String,
    pub author: String,
    pub attachments: Vec<String>,
}

impl DiscordMessage {
    pub fn new(content: String, author: String, attachments: Vec<String>) -> (r: Self)
        ensures
            r.content == content,
            r.author == author,
            r.attachments == attachments,
    {
        Self { content, author, attachments }
    }
}

/// A channel with its recent messages.
#[derive(Debug)]
pub struct FullChannel {
    pub name: String,
    pub messages: Vec<DiscordMessage>,
    pub is_dm: bool,
    pub server: Option<String>,
}

impl FullChannel {
    pub fn new(
        name: String,
        messages: Vec<DiscordMessage>,
        is_dm: bool,
        server: Option<String>,
    ) -> (r: Self)
        ensures
            r.name == name,
            r.messages == messages,
            r.is_dm == is_dm,
            r.server == server,
    {
        Self { name, messages, is_dm, server }
    }
}

/// The answer to a request for the contents of the selected channel.
#[derive(Debug)]
pub struct ViewChannelMessage {
    pub channel: Option<FullChannel>,
}

impl ViewChannelMessage {
    pub fn new(channel: Option<FullChannel>) -> (r: Self)
        ensures
            r.channel == channel,
    {
        Self { channel }
    }
}

/// A user to whom the bot can write directly; two of them are the same user
/// when their ids agree, whatever their names.
#[derive(Debug, Eq, PartialOrd, Ord)]
pub struct DMChannel {
    pub id: u64,
    pub name: String,
}

impl PartialEq for DMChannel {
    fn eq(&self, other: &Self) -> (r: bool) {
        self.id == other.id
    }
}

impl PartialEqSpecImpl for DMChannel {
    open spec fn obeys_eq_spec() -> bool {
        true
    }

    open spec fn eq_spec(&self, other: &DMChannel) -> bool {
        self.id == other.id
    }
}

impl Clone for DMChannel {
    fn clone(&self) -> (r: Self)
        ensures
            r == *self,
    {
        DMChannel { id: self.id, name: self.name.clone() }
    }
}

impl DMChannel {
    pub fn new(id: u64, name: String) -> (r: Self)
        ensures
            r.id == id,
            r.name == name,
    {
        Self { id, name }
    }
}

/// The answer to a request for the members of the bot's servers.
#[derive(Debug)]
pub struct UsersMessage {
    pub users: Vec<DMChannel>,
}

impl UsersMessage {
    pub fn new(users: Vec<DMChannel>) -> (r: Self)
        ensures
            r.users == users,
    {
        Self { users }
    }
}

} // verus!
