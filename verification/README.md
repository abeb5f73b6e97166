# kamekichi

A Discord bot framework, with no async runtime and no Discord SDK, whose logic
is verified with [Verus](https://github.com/verus-lang/verus).

The library does no I/O. Whatever has to talk to a stream, a file or a clock is
a task: it says what is to be done next, and is resumed with the outcome. Every
function states in its contract what it does; what holds of the library as a
whole is stated in proof functions whose names begin with `law_`.

## Layout

- `src/ws/`: a WebSocket (RFC 6455) client. Buffers, frames, the opening
  handshake, reading and sending; `laws.rs` and the files that end in `_laws.rs`
  hold the laws.
- `src/discord/`: the gateway (URLs, payloads, heartbeat, connecting, polling)
  and the REST API (requests, responses, chunked bodies, retries).
- `src/bot/`: references by ID or stable name, the state file, the event log,
  the host that handlers act through, and the runner.
- `src/bots/`: bots. `kippe` keeps managed messages and reaction roles; the
  others are small.
- `src/text.rs`, `src/bytes.rs`: numbers, strings and byte strings.
- `src/ext.rs`, `src/digest.rs`, `src/json.rs`: calls into `std`, `base64`,
  `ring` and `serde_json`, with what is taken on trust of each.
- `app/`: the program. TLS, sockets, files, JSON types and the loops that carry
  out what tasks ask for.
- `tests/`: the library over scripted streams.

## Configuration

`config.json` holds `token` and `guild_id`, optionally `intents`, `user_agent`
and `log_file`, and the bot's own part under `bot`. For `kippe`:

```json
{
  "token": "YOUR_BOT_TOKEN",
  "guild_id": "SERVER_ID",
  "log_file": "bot.log",
  "bot": {
    "managed_messages": [
      {
        "message": "stablename:welcome",
        "channel": "stablename:general",
        "content": "Welcome to the server!"
      }
    ],
    "reaction_roles": [
      {
        "message": "stablename:welcome",
        "emoji": "x",
        "role": "id:ROLE_ID",
        "seed_reaction": true
      }
    ]
  }
}
```

Changes apply within five seconds while the bot is running. What the bot
remembers is kept in `state.dat`.

## Log format

Tab-separated, one event per line: seconds since the epoch, the event type
(`MESSAGE`, `EDIT`, `DELETE`, `REACTION_ADD`, `REACTION_REMOVE`), and its
fields.
