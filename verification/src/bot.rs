//! The bot's decisions: what each request from the web front-end does to the bot's
//! state, which work on Discord it asks for, and how the answers are put together
//! from what Discord returned.
use vstd::prelude::*;

use crate::links::{marked_up, LinkMarkup};
use crate::shared::{
    Channel, ChannelMessage, DMChannel, DiscordMessage, FullChannel, Message, Server, ServerView,
    UsersMessage, ViewChannelMessage,
};

verus! {

/// How many of a channel's most recent messages are shown.
pub const CONTENTS_LIMIT: u64 = 25;

/// The kind of a channel of a server, as far as the listing cares.
#[derive(Debug, Clone, Copy)]
pub enum ChannelKind {
    Text,
    Voice,
    Other,
}

/// A channel of a server as Discord reports it.
#[derive(Debug)]
pub struct RawChannel {
    pub id: u64,
    pub name: String,
    pub kind: ChannelKind,
}

/// A server as Discord reports it: its name and, where fetching them worked, its channels.
#[derive(Debug)]
pub struct GuildListing {
    pub name: String,
    pub channels: Option<Vec<RawChannel>>,
}

/// A message of a channel as Discord reports it, with the links of its attachments.
#[derive(Debug)]
pub struct RawMessage {
    pub content: String,
    pub author: String,
    pub attachments: Vec<String>,
}

/// What Discord says the selected channel is.
#[derive(Debug)]
pub enum ChannelInfo {
    /// A channel of a server; `server` is the server's name where it could be fetched.
    Guild { name: String, server: Option<String> },
    /// A direct-message channel with one user.
    Private { recipient: String },
    /// Anything else.
    Other,
}

/// The work on Discord that a request calls for.
#[derive(Debug)]
pub enum Action {
    /// Post `content` in the channel `channel`.
    Post { channel: u64, content: String },
    /// A message was to be posted but no channel is selected.
    NoChannel,
    /// Shut the bot's connections down.
    Stop,
    /// Fetch the servers and their channels, then answer with `channel_listing`.
    ListChannels,
    /// Look the user up and open a direct-message channel, then report it with `dm_opened`.
    OpenDirectMessage { user: u64 },
    /// Fetch at most `limit` recent messages of `channel`, then answer with `contents_reply`.
    FetchContents { channel: u64, limit: u64 },
    /// No channel is selected: answer the request for contents with `reply`.
    NoContents { reply: ViewChannelMessage },
    /// Fetch the members of every server, then answer with `member_listing`.
    ListMembers,
    /// Nothing to do on Discord.
    Nothing,
}

/// The bot's state: the selected channel, the users it writes to directly, and whether
/// its request loop has been started.
pub struct BotState {
    channel: Option<u64>,
    dm_channels: Vec<DMChannel>,
    loop_running: bool,
}

/// The bot's state as values.
pub struct BotView {
    pub channel: Option<u64>,
    pub dm_channels: Seq<DMChannel>,
    pub loop_running: bool,
}

impl View for BotState {
    type V = BotView;

    closed spec fn view(&self) -> BotView {
        BotView { channel: self.channel, dm_channels: self.dm_channels@, loop_running: self.loop_running }
    }
}

/// What a request does: the next state and the work it calls for. The channel closing
/// (no request) stops the bot.
pub open spec fn step(s: BotView, event: Option<Message>) -> (BotView, Action) {
    match event {
        None => (s, Action::Stop),
        Some(m) => match m {
            Message::Send(content) => match s.channel {
                Some(c) => (s, Action::Post { channel: c, content }),
                None => (s, Action::NoChannel),
            },
            Message::ChangeChannel(id) => (BotView { channel: Some(id), ..s }, Action::Nothing),
            Message::Kill => (s, Action::Stop),
            Message::RequestChannels => (s, Action::ListChannels),
            Message::MakeDirectMessageChannel(user) => (s, Action::OpenDirectMessage { user }),
            Message::RequestChannelContents => match s.channel {
                Some(c) => (s, Action::FetchContents { channel: c, limit: CONTENTS_LIMIT }),
                None => (s, Action::NoContents { reply: ViewChannelMessage { channel: None } }),
            },
            Message::RequestMemebers => (s, Action::ListMembers),
        },
    }
}

/// What the bot's connecting does: the next state, and whether the request loop starts.
pub open spec fn ready(s: BotView) -> (BotView, bool) {
    (BotView { loop_running: true, ..s }, !s.loop_running)
}

/// Whether some user of `list` has the id `id`.
pub open spec fn lists_id(list: Seq<DMChannel>, id: u64) -> bool {
    exists|k: int| 0 <= k < list.len() && (#[trigger] list[k]).id == id
}

/// No two users of `list` share an id.
pub open spec fn unique_ids(list: Seq<DMChannel>) -> bool {
    forall|i: int, j: int|
        0 <= i < list.len() && 0 <= j < list.len() && i != j ==> (#[trigger] list[i]).id
            != (#[trigger] list[j]).id
}

/// The list after opening a direct-message channel with `dm`: the user is added at the end
/// unless a user with the same id is already there.
pub open spec fn with_dm(list: Seq<DMChannel>, dm: DMChannel) -> Seq<DMChannel> {
    if lists_id(list, dm.id) {
        list
    } else {
        list.push(dm)
    }
}

/// The channels of a server that the listing shows: the text and voice ones, in order.
pub open spec fn listed_channels(cs: Seq<RawChannel>) -> Seq<Channel>
    decreases cs.len(),
{
    if cs.len() == 0 {
        seq![]
    } else {
        let rest = listed_channels(cs.drop_last());
        let c = cs.last();
        match c.kind {
            ChannelKind::Other => rest,
            _ => rest.push(Channel { id: c.id, name: c.name, is_voice: c.kind is Voice }),
        }
    }
}

/// The servers that the listing shows: those whose channels could be fetched, in order.
pub open spec fn listed_servers(gs: Seq<GuildListing>) -> Seq<ServerView>
    decreases gs.len(),
{
    if gs.len() == 0 {
        seq![]
    } else {
        let rest = listed_servers(gs.drop_last());
        let g = gs.last();
        match g.channels {
            Some(cs) => rest.push(ServerView { name: g.name, channels: listed_channels(cs@) }),
            None => rest,
        }
    }
}

/// The servers as values.
pub open spec fn server_views(servers: Seq<Server>) -> Seq<ServerView> {
    Seq::new(servers.len(), |i: int| servers[i]@)
}

/// Every message's text can be marked up.
pub open spec fn renders_all(ms: Seq<RawMessage>) -> bool {
    forall|i: int| 0 <= i < ms.len() ==> (#[trigger] marked_up(ms[i].content@)) is Some
}

/// `out` shows the messages `ms`, in order, with the links of their text marked up.
pub open spec fn shows_messages(out: Seq<DiscordMessage>, ms: Seq<RawMessage>) -> bool {
    &&& out.len() == ms.len()
    &&& forall|i: int|
        0 <= i < ms.len() ==> {
            &&& marked_up(ms[i].content@) == Some((#[trigger] out[i]).content@)
            &&& out[i].author == ms[i].author
            &&& out[i].attachments@ == ms[i].attachments@
        }
}

/// The users of all servers whose members could be fetched, server after server.
pub open spec fn fetched_members(gs: Seq<Option<Vec<DMChannel>>>) -> Seq<DMChannel>
    decreases gs.len(),
{
    if gs.len() == 0 {
        seq![]
    } else {
        fetched_members(gs.drop_last()) + match gs.last() {
            Some(v) => v@,
            None => seq![],
        }
    }
}

/// The user at `i` is listed: it is not the bot, and no earlier user has its id.
pub open spec fn first_of_its_id(s: Seq<DMChannel>, bot: u64, i: int) -> bool {
    &&& s[i].id != bot
    &&& forall|j: int| 0 <= j < i ==> (#[trigger] s[j]).id != s[i].id
}

/// The members that the listing shows: the first user with each id, leaving out the bot.
pub open spec fn first_members(s: Seq<DMChannel>, bot: u64) -> Seq<DMChannel>
    decreases s.len(),
{
    if s.len() == 0 {
        seq![]
    } else {
        let rest = first_members(s.drop_last(), bot);
        if first_of_its_id(s, bot, s.len() - 1) {
            rest.push(s.last())
        } else {
            rest
        }
    }
}

/// Whether some user of `list` has the id `id`.
fn has_id(list: &Vec<DMChannel>, id: u64) -> (r: bool)
    ensures
        r == lists_id(list@, id),
{
    let mut k: usize = 0;
    while k < list.len()
        invariant
            k <= list.len(),
            forall|j: int| 0 <= j < k ==> (#[trigger] list@[j]).id != id,
        decreases list.len() - k,
    {
        if list[k].id == id {
            return true;
        }
        k = k + 1;
    }
    false
}

impl BotState {
    /// A bot with no channel selected, writing directly to the users `dm_channels`.
    pub fn new(dm_channels: Vec<DMChannel>) -> (r: BotState)
        ensures
            r@ == (BotView { channel: None, dm_channels: dm_channels@, loop_running: false }),
    {
        BotState { channel: None, dm_channels, loop_running: false }
    }

    /// The selected channel.
    pub fn channel(&self) -> (r: Option<u64>)
        ensures
            r == self@.channel,
    {
        self.channel
    }

    /// The users the bot writes to directly.
    pub fn dm_channels(&self) -> (r: &Vec<DMChannel>)
        ensures
            r@ == self@.dm_channels,
    {
        &self.dm_channels
    }

    /// The bot is connected: the request loop is to be started, unless it already was.
    pub fn on_ready(&mut self) -> (start: bool)
        ensures
            (final(self)@, start) == ready(old(self)@),
    {
        let start = !self.loop_running;
        self.loop_running = true;
        start
    }

    /// Takes one request (`None` when the front-end is gone) and says what it calls for.
    pub fn handle(&mut self, event: Option<Message>) -> (a: Action)
        ensures
            (final(self)@, a) == step(old(self)@, event),
    {
        match event {
            None => Action::Stop,
            Some(Message::Send(content)) => match self.channel {
                Some(c) => Action::Post { channel: c, content },
                None => Action::NoChannel,
            },
            Some(Message::ChangeChannel(id)) => {
                self.channel = Some(id);
                Action::Nothing
            },
            Some(Message::Kill) => Action::Stop,
            Some(Message::RequestChannels) => Action::ListChannels,
            Some(Message::MakeDirectMessageChannel(user)) => Action::OpenDirectMessage { user },
            Some(Message::RequestChannelContents) => match self.channel {
                Some(c) => Action::FetchContents { channel: c, limit: CONTENTS_LIMIT },
                None => Action::NoContents { reply: ViewChannelMessage::new(None) },
            },
            Some(Message::RequestMemebers) => Action::ListMembers,
        }
    }

    /// A direct-message channel with `user` (named `name`) was opened as `dm_channel`:
    /// it becomes the selected channel, and the user is remembered unless already known.
    pub fn dm_opened(&mut self, user: u64, name: String, dm_channel: u64)
        ensures
            final(self)@ == (BotView {
                channel: Some(dm_channel),
                dm_channels: with_dm(old(self)@.dm_channels, DMChannel { id: user, name }),
                loop_running: old(self)@.loop_running,
            }),
    {
        self.channel = Some(dm_channel);
        let dm = DMChannel::new(user, name);
        if !has_id(&self.dm_channels, user) {
            self.dm_channels.push(dm);
        }
    }

    /// The answer to a request for the channels, from the servers Discord reported.
    pub fn channel_listing(&self, guilds: &Vec<GuildListing>) -> (r: ChannelMessage)
        ensures
            server_views(r.servers@) == listed_servers(guilds@),
            r.dms@ == self@.dm_channels,
    {
        let servers = list_servers(guilds);
        let dms = self.dm_channels.clone();
        proof {
            assert(dms@ =~= self.dm_channels@);
        }
        ChannelMessage::new(servers, dms)
    }
}

/// The channel of the listing for a channel Discord reported, if it is shown.
fn listed_channel(c: &RawChannel) -> (r: Option<Channel>)
    ensures
        match c.kind {
            ChannelKind::Other => r is None,
            _ => r == Some(Channel { id: c.id, name: c.name, is_voice: c.kind is Voice }),
        },
{
    match c.kind {
        ChannelKind::Text => Some(Channel::new(c.id, c.name.clone(), false)),
        ChannelKind::Voice => Some(Channel::new(c.id, c.name.clone(), true)),
        ChannelKind::Other => None,
    }
}

/// The shown channels of a server, in order.
pub fn list_channels(cs: &Vec<RawChannel>) -> (r: Vec<Channel>)
    ensures
        r@ == listed_channels(cs@),
{
    let mut out: Vec<Channel> = Vec::new();
    let mut i: usize = 0;
    while i < cs.len()
        invariant
            i <= cs.len(),
            out@ == listed_channels(cs@.take(i as int)),
        decreases cs.len() - i,
    {
        proof {
            assert(cs@.take(i + 1).drop_last() =~= cs@.take(i as int));
        }
        match listed_channel(&cs[i]) {
            Some(c) => out.push(c),
            None => {},
        }
        i = i + 1;
    }
    proof {
        assert(cs@.take(cs.len() as int) =~= cs@);
    }
    out
}

/// The server of the listing for a server Discord reported, if its channels could be fetched.
pub fn server_listing(g: &GuildListing) -> (r: Option<Server>)
    ensures
        match g.channels {
            Some(cs) => r matches Some(s) && s@ == (ServerView {
                name: g.name,
                channels: listed_channels(cs@),
            }),
            None => r is None,
        },
{
    match &g.channels {
        Some(cs) => Some(Server::new(g.name.clone(), list_channels(cs))),
        None => None,
    }
}

/// The shown servers, in order.
pub fn list_servers(gs: &Vec<GuildListing>) -> (r: Vec<Server>)
    ensures
        server_views(r@) == listed_servers(gs@),
{
    let mut out: Vec<Server> = Vec::new();
    let mut i: usize = 0;
    while i < gs.len()
        invariant
            i <= gs.len(),
            server_views(out@) == listed_servers(gs@.take(i as int)),
        decreases gs.len() - i,
    {
        proof {
            assert(gs@.take(i + 1).drop_last() =~= gs@.take(i as int));
        }
        let ghost before = out@;
        match server_listing(&gs[i]) {
            Some(s) => {
                out.push(s);
                proof {
                    assert(server_views(out@) =~= server_views(before).push(out@.last()@));
                }
            },
            None => {},
        }
        i = i + 1;
    }
    proof {
        assert(gs@.take(gs.len() as int) =~= gs@);
    }
    out
}

/// The message of the contents view for a message Discord reported: its text with the
/// links marked up; `None` where the markup failed.
fn shown_message(markup: &LinkMarkup, m: &RawMessage) -> (r: Option<DiscordMessage>)
    ensures
        match r {
            Some(d) => marked_up(m.content@) == Some(d.content@) && d.author == m.author
                && d.attachments@ == m.attachments@,
            None => marked_up(m.content@) is None,
        },
{
    match markup.render(m.content.as_str()) {
        Some(content) => {
            let attachments = m.attachments.clone();
            proof {
                assert(attachments@ =~= m.attachments@);
            }
            Some(DiscordMessage::new(content, m.author.clone(), attachments))
        },
        None => None,
    }
}

/// The messages of the contents view, in order; `None` where the markup failed on any.
pub fn shown_messages(markup: &LinkMarkup, ms: &Vec<RawMessage>) -> (r: Option<Vec<DiscordMessage>>)
    ensures
        match r {
            Some(out) => renders_all(ms@) && shows_messages(out@, ms@),
            None => !renders_all(ms@),
        },
{
    let mut out: Vec<DiscordMessage> = Vec::new();
    let mut i: usize = 0;
    while i < ms.len()
        invariant
            i <= ms.len(),
            renders_all(ms@.take(i as int)),
            shows_messages(out@, ms@.take(i as int)),
        decreases ms.len() - i,
    {
        match shown_message(markup, &ms[i]) {
            Some(d) => {
                out.push(d);
                proof {
                    assert forall|k: int| 0 <= k < i + 1 implies (#[trigger] marked_up(
                        ms@.take(i + 1)[k].content@,
                    )) is Some by {
                        if k < i {
                            assert(ms@.take(i + 1)[k] == ms@.take(i as int)[k]);
                        }
                    }
                    assert forall|k: int| 0 <= k < i + 1 implies {
                        &&& marked_up(ms@.take(i + 1)[k].content@) == Some(
                            (#[trigger] out@[k]).content@,
                        )
                        &&& out@[k].author == ms@.take(i + 1)[k].author
                        &&& out@[k].attachments@ == ms@.take(i + 1)[k].attachments@
                    } by {
                        if k < i {
                            assert(ms@.take(i + 1)[k] == ms@.take(i as int)[k]);
                        }
                    }
                }
            },
            None => {
                proof {
                    assert(!(marked_up(ms@[i as int].content@) is Some));
                }
                return None;
            },
        }
        i = i + 1;
    }
    proof {
        assert(ms@.take(ms.len() as int) =~= ms@);
    }
    Some(out)
}

/// The answer to a request for the contents of the selected channel, from what Discord
/// returned: its recent messages (`None` where fetching them failed) and what the channel
/// is (`None` where that lookup failed, after which no answer is given).
pub fn contents_reply(
    markup: &LinkMarkup,
    messages: Option<Vec<RawMessage>>,
    info: Option<ChannelInfo>,
) -> (r: Option<ViewChannelMessage>)
    ensures
        match messages {
            None => r == Some(ViewChannelMessage { channel: None }),
            Some(ms) => if !renders_all(ms@) {
                r is None
            } else {
                match info {
                    None => r is None,
                    Some(ChannelInfo::Other) => r == Some(ViewChannelMessage { channel: None }),
                    Some(ChannelInfo::Guild { name, server }) => r matches Some(v) && v.channel
                        matches Some(fc) && fc.name == name && fc.server == server && !fc.is_dm
                        && shows_messages(fc.messages@, ms@),
                    Some(ChannelInfo::Private { recipient }) => r matches Some(v) && v.channel
                        matches Some(fc) && fc.name == recipient && fc.server is None && fc.is_dm
                        && shows_messages(fc.messages@, ms@),
                }
            },
        },
{
    match messages {
        None => Some(ViewChannelMessage::new(None)),
        Some(ms) => match shown_messages(markup, &ms) {
            None => None,
            Some(shown) => match info {
                None => None,
                Some(ChannelInfo::Other) => Some(ViewChannelMessage::new(None)),
                Some(ChannelInfo::Guild { name, server }) => Some(
                    ViewChannelMessage::new(Some(FullChannel::new(name, shown, false, server))),
                ),
                Some(ChannelInfo::Private { recipient }) => Some(
                    ViewChannelMessage::new(Some(FullChannel::new(recipient, shown, true, None))),
                ),
            },
        },
    }
}

/// Every user that fetching the members of the servers returned, server after server.
fn gather_members(gs: &Vec<Option<Vec<DMChannel>>>) -> (r: Vec<DMChannel>)
    ensures
        r@ == fetched_members(gs@),
{
    let mut out: Vec<DMChannel> = Vec::new();
    let mut i: usize = 0;
    while i < gs.len()
        invariant
            i <= gs.len(),
            out@ == fetched_members(gs@.take(i as int)),
        decreases gs.len() - i,
    {
        proof {
            assert(gs@.take(i + 1).drop_last() =~= gs@.take(i as int));
        }
        match &gs[i] {
            Some(members) => {
                let ghost start = out@;
                let mut j: usize = 0;
                while j < members.len()
                    invariant
                        j <= members.len(),
                        out@ == start + members@.take(j as int),
                    decreases members.len() - j,
                {
                    out.push(members[j].clone());
                    proof {
                        assert(members@.take(j + 1) =~= members@.take(j as int).push(members@[j as int]));
                        assert(out@ =~= start + members@.take(j + 1));
                    }
                    j = j + 1;
                }
                proof {
                    assert(members@.take(members.len() as int) =~= members@);
                }
            },
            None => {
                proof {
                    assert(out@ =~= out@ + Seq::<DMChannel>::empty());
                }
            },
        }
        i = i + 1;
    }
    proof {
        assert(gs@.take(gs.len() as int) =~= gs@);
    }
    out
}

/// The first user with each id, in order, leaving out the bot.
pub fn keep_first_members(bot: u64, s: &Vec<DMChannel>) -> (r: Vec<DMChannel>)
    ensures
        r@ == first_members(s@, bot),
{
    let mut out: Vec<DMChannel> = Vec::new();
    let mut i: usize = 0;
    while i < s.len()
        invariant
            i <= s.len(),
            out@ == first_members(s@.take(i as int), bot),
            forall|id: u64|
                lists_id(out@, id) <==> (id != bot && exists|j: int|
                    0 <= j < i && (#[trigger] s@[j]).id == id),
        decreases s.len() - i,
    {
        let ghost t = s@.take(i + 1);
        proof {
            assert(t.drop_last() =~= s@.take(i as int));
            assert(t.last() == s@[i as int]);
            assert forall|j: int| 0 <= j < i implies t[j] == s@[j] by {}
        }
        let m = &s[i];
        if m.id != bot && !has_id(&out, m.id) {
            proof {
                assert(first_of_its_id(t, bot, i as int)) by {
                    assert forall|j: int| 0 <= j < i implies (#[trigger] t[j]).id != t[i as int].id by {
                        if t[j].id == t[i as int].id {
                            assert(s@[j].id == m.id);
                        }
                    }
                }
            }
            let ghost before = out@;
            out.push(m.clone());
            proof {
                assert forall|id: u64|
                    lists_id(out@, id) <==> (id != bot && exists|j: int|
                        0 <= j < i + 1 && (#[trigger] s@[j]).id == id) by {
                    if lists_id(out@, id) {
                        let k = choose|k: int| 0 <= k < out@.len() && (#[trigger] out@[k]).id == id;
                        if k < before.len() {
                            assert(before[k] == out@[k]);
                            assert(lists_id(before, id));
                        } else {
                            assert(s@[i as int].id == id);
                        }
                    }
                    if id != bot && exists|j: int| 0 <= j < i + 1 && (#[trigger] s@[j]).id == id {
                        let j = choose|j: int| 0 <= j < i + 1 && (#[trigger] s@[j]).id == id;
                        if j < i {
                            assert(lists_id(before, id));
                            let k = choose|k: int| 0 <= k < before.len() && (#[trigger] before[k]).id == id;
                            assert(out@[k] == before[k]);
                        } else {
                            assert(out@[before.len() as int].id == id);
                        }
                    }
                }
            }
        } else {
            proof {
                if m.id != bot {
                    let j = choose|j: int| 0 <= j < i && (#[trigger] s@[j]).id == m.id;
                    assert(t[j].id == t[i as int].id);
                }
                assert(!first_of_its_id(t, bot, i as int));
                assert forall|id: u64|
                    lists_id(out@, id) <==> (id != bot && exists|j: int|
                        0 <= j < i + 1 && (#[trigger] s@[j]).id == id) by {
                    if id != bot && exists|j: int| 0 <= j < i + 1 && (#[trigger] s@[j]).id == id {
                        let j = choose|j: int| 0 <= j < i + 1 && (#[trigger] s@[j]).id == id;
                        if j == i {
                            assert(lists_id(out@, m.id));
                        }
                    }
                }
            }
        }
        i = i + 1;
    }
    proof {
        assert(s@.take(s.len() as int) =~= s@);
    }
    out
}

/// The answer to a request for the members: every user of the servers whose members could
/// be fetched, each id once (its first user), leaving out the bot itself.
pub fn member_listing(bot: u64, guild_members: &Vec<Option<Vec<DMChannel>>>) -> (r: UsersMessage)
    ensures
        r.users@ == first_members(fetched_members(guild_members@), bot),
{
    let all = gather_members(guild_members);
    UsersMessage::new(keep_first_members(bot, &all))
}

/// The request loop is started at most once: once the bot has connected, connecting again
/// starts nothing, and no request stops the loop from counting as started.
pub proof fn lemma_loop_starts_once(s: BotView, event: Option<Message>)
    ensures
        !ready(ready(s).0).1,
        step(ready(s).0, event).0.loop_running,
{
}

/// No request changes the users the bot writes to directly; only opening a
/// direct-message channel does.
pub proof fn lemma_requests_keep_dm_channels(s: BotView, event: Option<Message>)
    ensures
        step(s, event).0.dm_channels == s.dm_channels,
        step(s, event).0.loop_running == s.loop_running,
{
}

/// After switching to a channel, a message to send is posted in that channel.
pub proof fn lemma_send_after_change(s: BotView, id: u64, content: String)
    ensures
        step(step(s, Some(Message::ChangeChannel(id))).0, Some(Message::Send(content))).1
            == (Action::Post { channel: id, content }),
{
}

/// After switching to a channel, a request for the contents fetches the most recent
/// messages of that channel.
pub proof fn lemma_contents_after_change(s: BotView, id: u64)
    ensures
        step(step(s, Some(Message::ChangeChannel(id))).0, Some(Message::RequestChannelContents)).1
            == (Action::FetchContents { channel: id, limit: CONTENTS_LIMIT }),
        CONTENTS_LIMIT == 25,
{
}

/// The front-end going away, or asking the bot to die, stops the bot and leaves its
/// state as it was.
pub proof fn lemma_stop(s: BotView)
    ensures
        step(s, None) == (s, Action::Stop),
        step(s, Some(Message::Kill)) == (s, Action::Stop),
{
}

/// Opening a direct-message channel keeps the remembered users, in order, and afterwards
/// a user with that id is remembered.
pub proof fn lemma_dm_opened_keeps_users(list: Seq<DMChannel>, dm: DMChannel)
    ensures
        with_dm(list, dm).take(list.len() as int) == list,
        lists_id(with_dm(list, dm), dm.id),
{
    assert(with_dm(list, dm).take(list.len() as int) =~= list);
    if !lists_id(list, dm.id) {
        assert(with_dm(list, dm)[list.len() as int] == dm);
    }
}

/// Opening a direct-message channel never lets two remembered users share an id.
pub proof fn lemma_dm_opened_keeps_ids_unique(list: Seq<DMChannel>, dm: DMChannel)
    requires
        unique_ids(list),
    ensures
        unique_ids(with_dm(list, dm)),
{
    if !lists_id(list, dm.id) {
        let l2 = with_dm(list, dm);
        assert forall|i: int, j: int|
            0 <= i < l2.len() && 0 <= j < l2.len() && i != j implies (#[trigger] l2[i]).id
            != (#[trigger] l2[j]).id by {
            if i == list.len() {
                assert(list[j] == l2[j]);
            } else if j == list.len() {
                assert(list[i] == l2[i]);
            } else {
                assert(list[i] == l2[i] && list[j] == l2[j]);
            }
        }
    }
}

/// Opening a direct-message channel with a user already remembered, under whatever name,
/// leaves the remembered users as they are.
pub proof fn lemma_dm_opened_twice(list: Seq<DMChannel>, dm: DMChannel, again: DMChannel)
    requires
        again.id == dm.id,
    ensures
        with_dm(with_dm(list, dm), again) == with_dm(list, dm),
{
    lemma_dm_opened_keeps_users(list, dm);
}

/// The member listing never names the bot, names each id at most once, and names every
/// id of the fetched users other than the bot's.
pub proof fn lemma_member_listing(s: Seq<DMChannel>, bot: u64)
    ensures
        unique_ids(first_members(s, bot)),
        forall|k: int|
            0 <= k < first_members(s, bot).len() ==> (#[trigger] first_members(s, bot)[k]).id
                != bot,
        forall|id: u64|
            lists_id(first_members(s, bot), id) <==> (id != bot && exists|j: int|
                0 <= j < s.len() && (#[trigger] s[j]).id == id),
    decreases s.len(),
{
    if s.len() > 0 {
        let t = s.drop_last();
        lemma_member_listing(t, bot);
        let rest = first_members(t, bot);
        let out = first_members(s, bot);
        let x = s.last();
        assert forall|j: int| 0 <= j < t.len() implies t[j] == s[j] by {}
        if first_of_its_id(s, bot, s.len() - 1) {
            assert(out == rest.push(x));
            assert(!lists_id(rest, x.id)) by {
                if lists_id(rest, x.id) {
                    let j = choose|j: int| 0 <= j < t.len() && (#[trigger] t[j]).id == x.id;
                    assert(s[j].id == s[s.len() - 1].id);
                }
            }
            assert forall|i: int, j: int|
                0 <= i < out.len() && 0 <= j < out.len() && i != j implies (#[trigger] out[i]).id
                != (#[trigger] out[j]).id by {
                if i == rest.len() {
                    assert(rest[j] == out[j]);
                } else if j == rest.len() {
                    assert(rest[i] == out[i]);
                } else {
                    assert(rest[i] == out[i] && rest[j] == out[j]);
                }
            }
            assert forall|k: int| 0 <= k < out.len() implies (#[trigger] out[k]).id != bot by {
                if k < rest.len() {
                    assert(rest[k] == out[k]);
                }
            }
            assert forall|id: u64|
                lists_id(out, id) <==> (id != bot && exists|j: int|
                    0 <= j < s.len() && (#[trigger] s[j]).id == id) by {
                if lists_id(out, id) {
                    let k = choose|k: int| 0 <= k < out.len() && (#[trigger] out[k]).id == id;
                    if k < rest.len() {
                        assert(rest[k] == out[k]);
                        assert(lists_id(rest, id));
                        let j = choose|j: int| 0 <= j < t.len() && (#[trigger] t[j]).id == id;
                        assert(s[j].id == id);
                    } else {
                        assert(s[s.len() - 1].id == id);
                    }
                }
                if id != bot && exists|j: int| 0 <= j < s.len() && (#[trigger] s[j]).id == id {
                    let j = choose|j: int| 0 <= j < s.len() && (#[trigger] s[j]).id == id;
                    if j < t.len() {
                        assert(t[j].id == id);
                        assert(lists_id(rest, id));
                        let k = choose|k: int| 0 <= k < rest.len() && (#[trigger] rest[k]).id == id;
                        assert(out[k] == rest[k]);
                    } else {
                        assert(out[rest.len() as int].id == id);
                    }
                }
            }
        } else {
            assert(out == rest);
            assert forall|id: u64|
                lists_id(out, id) <==> (id != bot && exists|j: int|
                    0 <= j < s.len() && (#[trigger] s[j]).id == id) by {
                if lists_id(out, id) {
                    let j = choose|j: int| 0 <= j < t.len() && (#[trigger] t[j]).id == id;
                    assert(s[j].id == id);
                }
                if id != bot && exists|j: int| 0 <= j < s.len() && (#[trigger] s[j]).id == id {
                    let j = choose|j: int| 0 <= j < s.len() && (#[trigger] s[j]).id == id;
                    if j == s.len() - 1 {
                        let j2 = choose|j2: int|
                            0 <= j2 < s.len() - 1 && !((#[trigger] s[j2]).id != s[s.len() - 1].id);
                        assert(t[j2].id == id);
                    } else {
                        assert(t[j].id == id);
                    }
                }
            }
        }
    }
}

/// Every channel of a listing is a text or voice channel of the server, with its id and
/// name, and counts as a voice channel exactly when it is one.
pub proof fn lemma_listed_channels_shown_kinds(cs: Seq<RawChannel>)
    ensures
        forall|k: int|
            0 <= k < listed_channels(cs).len() ==> exists|j: int|
                0 <= j < cs.len() && #[trigger] listed_channels(cs)[k] == (Channel {
                    id: cs[j].id,
                    name: cs[j].name,
                    is_voice: cs[j].kind is Voice,
                }) && !(cs[j].kind is Other),
    decreases cs.len(),
{
    if cs.len() > 0 {
        let t = cs.drop_last();
        lemma_listed_channels_shown_kinds(t);
        let rest = listed_channels(t);
        let out = listed_channels(cs);
        assert forall|k: int| 0 <= k < out.len() implies exists|j: int|
            0 <= j < cs.len() && #[trigger] out[k] == (Channel {
                id: cs[j].id,
                name: cs[j].name,
                is_voice: cs[j].kind is Voice,
            }) && !(cs[j].kind is Other) by {
            if k < rest.len() {
                assert(out[k] == rest[k]);
                let j = choose|j: int|
                    0 <= j < t.len() && #[trigger] rest[k] == (Channel {
                        id: t[j].id,
                        name: t[j].name,
                        is_voice: t[j].kind is Voice,
                    }) && !(t[j].kind is Other);
                assert(t[j] == cs[j]);
            } else {
                assert(out[k] == (Channel {
                    id: cs[cs.len() - 1].id,
                    name: cs[cs.len() - 1].name,
                    is_voice: cs[cs.len() - 1].kind is Voice,
                }));
            }
        }
    }
}

/// Connecting starts the request loop exactly when it is not running yet, whatever the
/// selected channel and the remembered users; afterwards the loop counts as running and
/// nothing else has changed.
pub proof fn lemma_ready_starts_loop(s: BotView)
    ensures
        ready(s).1 <==> !s.loop_running,
        ready(s).0.loop_running,
        ready(s).0.channel == s.channel,
        ready(s).0.dm_channels == s.dm_channels,
{
}

/// Posting a message leaves the bot's state as it was, and posts in the selected channel;
/// so after switching to a channel, every message sent is posted there.
pub proof fn lemma_send_keeps_state(s: BotView, content: String)
    ensures
        step(s, Some(Message::Send(content))).0 == s,
        s.channel matches Some(c) ==> step(s, Some(Message::Send(content))).1 == (Action::Post {
            channel: c,
            content,
        }),
        s.channel is None ==> step(s, Some(Message::Send(content))).1 == Action::NoChannel,
{
}

/// A sequence of sends after switching to channel `id` posts each of them in `id`.
pub proof fn lemma_sends_after_change(s: BotView, id: u64, first: String, second: String)
    ensures
        ({
            let s1 = step(s, Some(Message::ChangeChannel(id))).0;
            let s2 = step(s1, Some(Message::Send(first))).0;
            &&& s2.channel == Some(id)
            &&& step(s1, Some(Message::Send(first))).1 == (Action::Post { channel: id, content: first })
            &&& step(s2, Some(Message::Send(second))).1 == (Action::Post {
                channel: id,
                content: second,
            })
        }),
{
}

/// The contents view shows every fetched message, in order, each by its author, with its
/// attachments, and with its text marked up.
pub proof fn lemma_shown_messages_complete(out: Seq<DiscordMessage>, ms: Seq<RawMessage>, i: int)
    requires
        shows_messages(out, ms),
        0 <= i < ms.len(),
    ensures
        out.len() == ms.len(),
        out[i].author == ms[i].author,
        out[i].attachments@ == ms[i].attachments@,
        marked_up(ms[i].content@) == Some(out[i].content@),
{
}

/// Every member of every server whose members were fetched is gathered, server after
/// server; a server whose members could not be fetched adds nobody.
pub proof fn lemma_fetched_members_push(gs: Seq<Option<Vec<DMChannel>>>, v: Vec<DMChannel>)
    ensures
        fetched_members(gs.push(Some(v))) == fetched_members(gs) + v@,
        fetched_members(gs.push(None)) == fetched_members(gs),
{
    assert(gs.push(Some(v)).drop_last() =~= gs);
    assert(gs.push(None).drop_last() =~= gs);
    assert(fetched_members(gs) + Seq::<DMChannel>::empty() =~= fetched_members(gs));
}

/// Each member of a fetched server occurs among the gathered members.
pub proof fn lemma_fetched_members_complete(gs: Seq<Option<Vec<DMChannel>>>, i: int, k: int)
    requires
        0 <= i < gs.len(),
        gs[i] is Some,
        0 <= k < gs[i]->0@.len(),
    ensures
        exists|j: int|
            0 <= j < fetched_members(gs).len() && #[trigger] fetched_members(gs)[j] == gs[i]->0@[k],
    decreases gs.len(),
{
    let t = gs.drop_last();
    let rest = fetched_members(t);
    let tail = match gs.last() {
        Some(v) => v@,
        None => seq![],
    };
    assert(fetched_members(gs) == rest + tail);
    if i < gs.len() - 1 {
        assert(t[i] == gs[i]);
        lemma_fetched_members_complete(t, i, k);
        let j = choose|j: int| 0 <= j < rest.len() && #[trigger] rest[j] == gs[i]->0@[k];
        assert(fetched_members(gs)[j] == rest[j]);
    } else {
        assert(fetched_members(gs)[rest.len() + k] == tail[k]);
    }
}

/// The member listing names every member of every fetched server, except the bot.
pub proof fn lemma_member_listing_complete(
    gs: Seq<Option<Vec<DMChannel>>>,
    bot: u64,
    i: int,
    k: int,
)
    requires
        0 <= i < gs.len(),
        gs[i] is Some,
        0 <= k < gs[i]->0@.len(),
        gs[i]->0@[k].id != bot,
    ensures
        lists_id(first_members(fetched_members(gs), bot), gs[i]->0@[k].id),
{
    lemma_fetched_members_complete(gs, i, k);
    let s = fetched_members(gs);
    let j = choose|j: int| 0 <= j < s.len() && #[trigger] s[j] == gs[i]->0@[k];
    lemma_member_listing(s, bot);
    assert(s[j].id == gs[i]->0@[k].id);
}

/// Listing one more channel: a text or voice channel is added at the end, flagged as voice
/// exactly when it is one; a channel of another kind is left out.
pub proof fn lemma_listed_channels_push(cs: Seq<RawChannel>, c: RawChannel)
    ensures
        !(c.kind is Other) ==> listed_channels(cs.push(c)) == listed_channels(cs).push(
            Channel { id: c.id, name: c.name, is_voice: c.kind is Voice },
        ),
        c.kind is Other ==> listed_channels(cs.push(c)) == listed_channels(cs),
{
    assert(cs.push(c).drop_last() =~= cs);
}

/// The channel listing of a server is complete: every text or voice channel occurs in it.
pub proof fn lemma_listed_channels_complete(cs: Seq<RawChannel>, j: int)
    requires
        0 <= j < cs.len(),
        !(cs[j].kind is Other),
    ensures
        exists|k: int|
            0 <= k < listed_channels(cs).len() && #[trigger] listed_channels(cs)[k] == (Channel {
                id: cs[j].id,
                name: cs[j].name,
                is_voice: cs[j].kind is Voice,
            }),
    decreases cs.len(),
{
    let t = cs.drop_last();
    assert(cs == t.push(cs.last()));
    lemma_listed_channels_push(t, cs.last());
    let rest = listed_channels(t);
    if j < cs.len() - 1 {
        assert(t[j] == cs[j]);
        lemma_listed_channels_complete(t, j);
        let k = choose|k: int| 0 <= k < rest.len() && #[trigger] rest[k] == (Channel {
            id: t[j].id,
            name: t[j].name,
            is_voice: t[j].kind is Voice,
        });
        assert(listed_channels(cs)[k] == rest[k]);
    } else {
        assert(listed_channels(cs)[rest.len() as int] == (Channel {
            id: cs[j].id,
            name: cs[j].name,
            is_voice: cs[j].kind is Voice,
        }));
    }
}

/// Listing one more server: one whose channels were fetched is added at the end with its
/// listed channels; one whose channels could not be fetched is left out.
pub proof fn lemma_listed_servers_push(gs: Seq<GuildListing>, g: GuildListing)
    ensures
        g.channels matches Some(cs) ==> listed_servers(gs.push(g)) == listed_servers(gs).push(
            ServerView { name: g.name, channels: listed_channels(cs@) },
        ),
        g.channels is None ==> listed_servers(gs.push(g)) == listed_servers(gs),
{
    assert(gs.push(g).drop_last() =~= gs);
}

} // verus!
