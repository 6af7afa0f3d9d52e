# webcord

A Discord bot driven from a small web page: the page asks the bot to post in a
channel, switch channels, open direct messages, and show channels, members and
recent messages.

- `src/` is the verified library (Verus):
  - `shared.rs`: the values the bot and the web side exchange.
  - `bot.rs`: the bot's state and decisions: what each request does and which
    Discord work it calls for, and how channel listings, member listings and
    channel contents are put together from what Discord returned; with the laws
    that hold across requests.
  - `regex.rs`: a compiled `fancy_regex` regex paired with the pattern it was
    compiled from; its two trusted wrappers are the only calls into `fancy_regex`.
  - `links.rs`: marking up links in message text with the compiled link pattern.
  - `web.rs`: reading the web page's requests, including the channel id.
- `app/` is the program around it: configuration, the save file, the Rocket web
  server and the Serenity event loop that performs the work the library asks for.
- `tests/` runs the library on concrete values.
