# Plantita Ayudante

A Discord bot with moderation tools (protected user and role, `@everyone`
pings, link spam across channels, warnings and time outs), reaction roles,
out-of-context screenshots, tweet announcements, a music player's buttons and
an AI translation command.

## Layout

- `src/` is the bot's logic as a Verus library: the moderation, spam, ranking,
  reaction, button, screenshot, tweet and translation decisions, and the
  stored setting records, as functions over plain values whose
  `requires`/`ensures` contracts Verus proves.
  - `text.rs`: character sequences, substring search, whitespace trimming,
    decimal rendering and parsing of ids and numbers.
  - `links.rs`: link detection and the cross-channel spam tracker.
  - `moderation.rs`: admin exceptions, protected mentions, `@everyone`,
    warnings, the texts sent with them, and the order in which a sanction
    is carried out.
  - `ranking.rs`: the `top` command's ranking of users by word use.
  - `config.rs`: the per-server setting records and the setting commands'
    decisions.
  - `buttons.rs`, `messages.rs`, `reactions.rs`, `sanctions.rs`,
    `twitter.rs`, `screenshot.rs`, `translate.rs`: the remaining handlers and
    commands.
- `tests/` runs the library on concrete values.
- `app/` is the bot itself: the Discord gateway, the database, the music
  player, the image generation and the other services. It calls the library
  for the decisions above; what is only storage stays there, such as the
  setting commands' choice between creating and updating a record, writing
  the joke's new state, and looking up the out-of-context channel.

The trusted items are small wrappers whose contracts are stated next to them:
`text::push_char` (`String::push`), and the three calls into the `regex`
crate, `links::regex_find_link`, `reactions::regex_emoji_id` (with the name
`emoji_id_capture` for its result) and `translate::regex_strip_think`.
