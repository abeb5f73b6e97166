//! References, state, host, runner and bots.
use kamekichi::bot::config::{intent_of, log_file_of, FullConfig, PlatformConfig, Watcher};
use kamekichi::bot::host::{Bot, Host, MAX_ACTIONS};
use kamekichi::bot::logger::{format_entry, log_line};
use kamekichi::bot::names::NameMap;
use kamekichi::bot::refs::{
    ChannelRef, MessageRef, Ref, RefError, RefRegistry, RefTable, RoleRef, UserRef,
};
use kamekichi::bot::runner::{
    state_file, FatalError, Follow, Plan, Runner, SessionExit, SessionStart, SkipReason,
};
use kamekichi::bot::sessions::{
    AfterSession, Execution, ExecutionEvent, SessionEvent, SessionStep,
};
use kamekichi::bot::state::{content_hash, load, save, ManagedMsg, State};
use kamekichi::bot::tracker::{ChannelRoleTracker, Lookup};
use kamekichi::bot::tsv::{escape_tsv, unescape_tsv};
use kamekichi::bot::types::{Action, Event, LogEntry};
use kamekichi::bots;
use kamekichi::bots::greeter::lowered_word_greets;
use kamekichi::discord::error::Error;
use kamekichi::discord::gateway::SessData;
use kamekichi::discord::http::Method;
use kamekichi::discord::intent;
use kamekichi::discord::message;
use kamekichi::discord::session::PollError;

fn msg(content: &str) -> Event {
    Event::MessageCreate {
        message_id: MessageRef::from_id(1),
        channel: ChannelRef::from_id(100),
        author: UserRef::from_id(10),
        author_name: "alice".into(),
        content: content.into(),
    }
}

#[test]
fn echo_repeats_message() {
    let bot = bots::echo::Echo {};
    let mut host = Host::empty();
    bot.handle_event(&msg("hello"), &mut host).unwrap();
    assert_eq!(host.actions().len(), 1);
    assert!(matches!(
        &host.actions()[0],
        Action::SendMessage { channel, .. } if host.eq(*channel, ChannelRef::from_id(100))
    ));
}

#[test]
fn sentinel_alerts_on_delete() {
    let bot = bots::sentinel::Sentinel {
        watched_cn: ChannelRef::from_id(100),
        alert_ch: ChannelRef::from_id(999),
    };
    let event = Event::MessageDelete {
        message: MessageRef::from_id(1),
        channel: ChannelRef::from_id(100),
    };
    let mut host = Host::empty();
    bot.handle_event(&event, &mut host).unwrap();
    assert_eq!(host.actions().len(), 1);
    assert!(matches!(
        &host.actions()[0],
        Action::SendMessage { channel, .. } if host.eq(*channel, ChannelRef::from_id(999))
    ));
}

#[test]
fn sentinel_ignores_unwatched_channel() {
    let bot = bots::sentinel::Sentinel {
        watched_cn: ChannelRef::from_id(100),
        alert_ch: ChannelRef::from_id(999),
    };
    let event = Event::MessageDelete {
        message: MessageRef::from_id(1),
        channel: ChannelRef::from_id(200),
    };
    let mut host = Host::empty();
    bot.handle_event(&event, &mut host).unwrap();
    assert!(host.actions().is_empty());
}

#[test]
fn greeter_says_hello() {
    let bot = bots::greeter::Greeter {};
    let mut host = Host::empty();
    bot.handle_event(&msg("hello there"), &mut host).unwrap();
    assert_eq!(host.actions().len(), 1);
    assert!(matches!(
        &host.actions()[0],
        Action::SendMessage { content, .. } if content.contains("alice")
    ));
}

#[test]
fn shibboleth_grants_role() {
    let bot = bots::shibboleth::Shibboleth {
        passphrase: "open sesame".into(),
        role: RoleRef::from_id(300),
    };
    let mut host = Host::empty();
    bot.handle_event(&msg("open sesame"), &mut host).unwrap();
    assert_eq!(host.actions().len(), 1);
    assert!(matches!(
        &host.actions()[0],
        Action::AddRole { role, .. } if host.eq(*role, RoleRef::from_id(300))
    ));
}

#[test]
fn shibboleth_ignores_wrong_phrase() {
    let bot = bots::shibboleth::Shibboleth {
        passphrase: "open sesame".into(),
        role: RoleRef::from_id(300),
    };
    let mut host = Host::empty();
    bot.handle_event(&msg("close sesame"), &mut host).unwrap();
    assert!(host.actions().is_empty());
}

// ---- More of the bots ----

fn own(content: &str) -> Event {
    Event::MessageCreate {
        message_id: MessageRef::from_id(1),
        channel: ChannelRef::from_id(100),
        author: UserRef::from_id(0),
        author_name: "bot".into(),
        content: content.into(),
    }
}

fn actions(bot: &impl Bot, event: &Event) -> Vec<String> {
    let mut host = Host::empty();
    bot.handle_event(event, &mut host).unwrap();
    host.actions().iter().map(|a| format!("{a:?}")).collect()
}

#[test]
fn bots_do_not_answer_themselves() {
    assert!(actions(&bots::echo::Echo {}, &own("hello")).is_empty());
    assert!(actions(&bots::greeter::Greeter {}, &own("hello")).is_empty());
    let shibboleth = bots::shibboleth::Shibboleth {
        passphrase: "hello".into(),
        role: RoleRef::from_id(1),
    };
    assert!(actions(&shibboleth, &own("hello")).is_empty());
    assert!(actions(&bots::echo::Echo {}, &msg("")).is_empty());
    assert!(actions(&bots::logger::Logger {}, &msg("x")).is_empty());
}

#[test]
fn greeter_hears_words() {
    let greets = |s| !actions(&bots::greeter::Greeter {}, &msg(s)).is_empty();
    assert!(greets("well, HELLO!"));
    assert!(greets("\u{a0}\u{3000}(hi)\tthere"));
    assert!(greets("... \u{ab}Hey\u{bb} ..."));
    assert!(!greets("hellothere"));
    assert!(!greets("oh hi-ho"));
    assert!(!greets(""));
    assert!(!greets("   "));
    let a = actions(&bots::greeter::Greeter {}, &msg("hey"));
    assert!(a[0].contains("\"Hey there, alice!\""));
}

#[test]
fn shibboleth_trims() {
    let bot = bots::shibboleth::Shibboleth {
        passphrase: "open sesame".into(),
        role: RoleRef::from_id(300),
    };
    assert_eq!(actions(&bot, &msg(" \u{2003}open sesame\n")).len(), 1);
    assert_eq!(actions(&bot, &msg("open  sesame")).len(), 0);
}

#[test]
fn sentinel_reports() {
    let bot = bots::sentinel::Sentinel {
        watched_cn: ChannelRef::from_id(100),
        alert_ch: ChannelRef::from_id(999),
    };
    let message = MessageRef::from_id(1);
    let channel = ChannelRef::from_id(100);
    let mut host = Host::empty();
    bot.handle_event(&Event::MessageDelete { message, channel }, &mut host).unwrap();
    let edit = Event::MessageUpdate { message, channel, content: Some("new".into()) };
    bot.handle_event(&edit, &mut host).unwrap();
    let none = Event::MessageUpdate { message, channel, content: None };
    bot.handle_event(&none, &mut host).unwrap();
    assert_eq!(host.actions().len(), 2);
    match (&host.actions()[0], &host.actions()[1]) {
        (Action::SendMessage { content: a, .. }, Action::SendMessage { content: b, .. }) => {
            assert_eq!(a, &format!("Message {message:?} was deleted in {channel:?}"));
            assert_eq!(b, &format!("Message {message:?} edited in {channel:?}: new"));
        }
        other => panic!("expected two messages, got {other:?}"),
    }
}

fn kippe() -> bots::kippe::Kippe {
    bots::kippe::Kippe {
        reaction_roles: vec![
            bots::kippe::ReactionRoleMapping {
                message: MessageRef::from_id(5),
                emoji: "x".into(),
                role: RoleRef::from_id(50),
                seed_reaction: true,
            },
            bots::kippe::ReactionRoleMapping {
                message: MessageRef::from_id(6),
                emoji: "y".into(),
                role: RoleRef::from_id(60),
                seed_reaction: false,
            },
        ],
        managed_messages: vec![bots::kippe::ManagedMessage {
            message: MessageRef::from_id(5),
            channel: ChannelRef::from_id(7),
            content: "welcome".into(),
        }],
    }
}

#[test]
fn kippe_starts_with_messages_and_reactions() {
    let mut host = Host::empty();
    kippe().handle_event(&Event::Started, &mut host).unwrap();
    match host.actions() {
        [Action::UpsertMessage { message, channel, content }, Action::AddReaction { channel: c, message: m, emoji }] => {
            assert_eq!(*message, MessageRef::from_id(5));
            assert_eq!(*channel, ChannelRef::from_id(7));
            assert_eq!(content, "welcome");
            assert_eq!(*c, ChannelRef::from_id(7));
            assert_eq!(*m, MessageRef::from_id(5));
            assert_eq!(emoji, "x");
        }
        other => panic!("unexpected actions {other:?}"),
    }
}

#[test]
fn kippe_gives_and_takes_roles() {
    let reaction = |message, emoji: &str, added, user| Event::Reaction {
        user: UserRef::from_id(user),
        channel: ChannelRef::from_id(7),
        message: MessageRef::from_id(message),
        emoji: emoji.into(),
        added,
    };
    let roles = |event| {
        let mut host = Host::empty();
        kippe().handle_event(&event, &mut host).unwrap();
        host.actions()
            .iter()
            .map(|a| match a {
                Action::AddRole { role, .. } => (true, *role),
                Action::RemoveRole { role, .. } => (false, *role),
                other => panic!("unexpected action {other:?}"),
            })
            .collect::<Vec<_>>()
    };
    let (r50, r60) = (RoleRef::from_id(50), RoleRef::from_id(60));
    assert_eq!(roles(reaction(5, "x", true, 1)), [(true, r50)]);
    assert_eq!(roles(reaction(5, "x", false, 1)), [(false, r50)]);
    assert_eq!(roles(reaction(6, "y", true, 1)), [(true, r60)]);
    // Another emoji, another message, or the bot itself: nothing happens.
    assert_eq!(roles(reaction(5, "y", true, 1)), []);
    assert_eq!(roles(reaction(9, "x", true, 1)), []);
    assert_eq!(roles(reaction(9, "x", false, 1)), []);
    assert_eq!(roles(reaction(5, "x", true, 0)), []);
}

// ---- References ----

#[test]
fn references() {
    let mut registry = RefRegistry::new();
    assert_eq!(ChannelRef::from_id(77).resolve(&registry), Some(77));
    assert_eq!(UserRef::from_id(0).resolve(&registry), Some(0));
    assert_eq!(RoleRef::parse("12").unwrap(), RoleRef::from_id(12));
    assert!(RoleRef::parse("x").is_none());
    let general = ChannelRef::from_stablename("general", &mut registry);
    let other = ChannelRef::from_stablename("other", &mut registry);
    assert_eq!(ChannelRef::from_stablename("general", &mut registry), general);
    assert_ne!(general, other);
    assert_eq!(general.resolve(&registry), None);
    let mut channels = NameMap::new();
    channels.insert("general".to_string(), 5);
    registry.normalize(&channels, &NameMap::new(), &NameMap::new());
    assert_eq!(general.resolve(&registry), Some(5));
    assert_eq!(other.resolve(&registry), None);
    assert_eq!(registry.channel_names(), ["general", "other"]);
}

#[test]
fn references_in_the_configuration() {
    let mut registry = RefRegistry::new();
    assert_eq!(
        MessageRef::from_config("id:9", &mut registry).unwrap(),
        MessageRef::from_id(9)
    );
    let rules = MessageRef::from_config("stablename:rules", &mut registry).unwrap();
    assert_eq!(registry.message_name(rules), Some("rules"));
    assert_eq!(registry.message_name(MessageRef::from_id(9)), None);
    assert_eq!(MessageRef::from_config("id:", &mut registry), Err(RefError::InvalidId));
    assert_eq!(
        MessageRef::from_config("stablename:a\tb", &mut registry),
        Err(RefError::InvalidName)
    );
    assert_eq!(MessageRef::from_config("rules", &mut registry), Err(RefError::InvalidForm));
    assert_eq!(UserRef::from_config("id:4").unwrap(), UserRef::from_id(4));
    assert_eq!(UserRef::from_config("stablename:x"), Err(RefError::NotAnId));
    assert_eq!(UserRef::from_config("id:x"), Err(RefError::InvalidId));
    assert_eq!(RefError::InvalidId.message(), "invalid snowflake id");
}

// ---- State ----

#[test]
fn tsv_round_trip() {
    for s in ["", "plain", "a\tb\nc\rd\\e", "\\", "\\t", "tab\\\ttab", "\u{e4}\u{1f44d}"] {
        assert_eq!(unescape_tsv(&escape_tsv(s)), s);
    }
    assert_eq!(escape_tsv("a\tb\\"), "a\\tb\\\\");
    assert_eq!(unescape_tsv("\\x\\"), "\\x\\");
}

fn state() -> State {
    let mut s = State::new();
    s.managed.insert(
        "we\tird\r\n\\name".to_string(),
        ManagedMsg { message_id: 1, channel_id: 2, content_hash: u64::MAX },
    );
    s.managed.insert(
        "a".to_string(),
        ManagedMsg { message_id: 3, channel_id: 4, content_hash: 0 },
    );
    s.channels.insert("general".to_string(), 10);
    s.channels.insert("bot".to_string(), 20);
    s.roles.insert("".to_string(), 30);
    s
}

#[test]
fn state_file_is_sorted() {
    assert_eq!(
        save(&state()),
        "# version: 1\n\
         MESSAGE\ta\tmsg_id:3\tch_id:4\thash:0\n\
         MESSAGE\twe\\tird\\r\\n\\\\name\tmsg_id:1\tch_id:2\thash:18446744073709551615\n\
         CHANNEL\tbot\tch_id:20\n\
         CHANNEL\tgeneral\tch_id:10\n\
         ROLE\t\trole_id:30\n"
    );
}

#[test]
fn saved_state_is_loaded() {
    let s = load(&save(&state()));
    assert_eq!(s.managed.len(), 2);
    assert_eq!(s.managed.get("we\tird\r\n\\name").unwrap().content_hash, u64::MAX);
    assert_eq!(s.channels.get("bot"), Some(&20));
    assert_eq!(s.roles.get(""), Some(&30));
    assert_eq!(save(&s), save(&state()));
}

#[test]
fn state_lines_that_are_not_understood_are_ignored() {
    let s = load(
        "junk\nCHANNEL\tx\tch_id:1\r\nCHANNEL\tx\tch_id:2\nCHANNEL\ty\trole_id:3\n\
         ROLE\tr\trole_id:+4\nROLE\tr2\trole_id:-4\nMESSAGE\tm\tmsg_id:1\tch_id:2\n\
         MESSAGE\tm\tmsg_id:1\tch_id:2\thash:3\textra\nROLE\tlast\trole_id:9",
    );
    assert_eq!(s.channels.len(), 1);
    assert_eq!(s.channels.get("x"), Some(&2));
    assert_eq!(s.roles.len(), 2);
    assert_eq!(s.roles.get("r"), Some(&4));
    assert_eq!(s.roles.get("last"), Some(&9));
    assert_eq!(s.managed.len(), 0);
    assert_eq!(load("").channels.len(), 0);
}

#[test]
fn content_hashes() {
    // SHA-256 of nothing begins with e3 b0 c4 42 98 fc 1c 14.
    assert_eq!(content_hash(""), u64::from_le_bytes([0xe3, 0xb0, 0xc4, 0x42, 0x98, 0xfc, 0x1c, 0x14]));
    assert_ne!(content_hash("a"), content_hash("b"));
}

#[test]
fn names_are_kept_in_order() {
    let mut m = NameMap::new();
    for (i, name) in ["b", "a", "ab", "", "b", "\u{10000}", "\u{ffff}"].iter().enumerate() {
        m.insert(name.to_string(), i);
    }
    let names: Vec<&str> = (0..m.len()).map(|i| m.name_at(i)).collect();
    let mut sorted = vec!["", "a", "ab", "b", "\u{ffff}", "\u{10000}"];
    sorted.sort();
    assert_eq!(names, sorted);
    assert_eq!(m.get("b"), Some(&4));
    assert!(!m.contains_key("c"));
}

// ---- Log ----

#[test]
fn log_lines() {
    let registry = RefRegistry::new();
    let line = |event: &Event| LogEntry::from_event(event, &registry).map(|e| format_entry(&e));
    assert_eq!(line(&Event::Started), None);
    assert_eq!(line(&msg("a\tb\nc")).unwrap(), "MESSAGE\t100\t1\t10\talice\ta\\tb\\nc");
    let reaction = |added| Event::Reaction {
        user: UserRef::from_id(1),
        channel: ChannelRef::from_id(2),
        message: MessageRef::from_id(3),
        emoji: "x".into(),
        added,
    };
    assert_eq!(line(&reaction(true)).unwrap(), "REACTION_ADD\t2\t3\t1\tx");
    assert_eq!(line(&reaction(false)).unwrap(), "REACTION_REMOVE\t2\t3\t1\tx");
    let (message, channel) = (MessageRef::from_id(3), ChannelRef::from_id(2));
    assert_eq!(line(&Event::MessageDelete { message, channel }).unwrap(), "DELETE\t2\t3");
    let edit = |content: Option<&str>| Event::MessageUpdate {
        message,
        channel,
        content: content.map(|s| s.to_string()),
    };
    assert_eq!(line(&edit(Some("n"))).unwrap(), "EDIT\t2\t3\tn");
    assert_eq!(line(&edit(None)), None);
    assert_eq!(log_line(12, "DELETE\t2\t3"), "12\tDELETE\t2\t3\n");
}

#[test]
fn host_collects_the_log() {
    let (managed, registry) = (NameMap::new(), RefRegistry::new());
    let mut host = Host::new(&managed, &registry, UserRef::from_id(1));
    bots::logger::Logger {}.handle_event(&msg("x"), &mut host).unwrap();
    let (actions, lines) = host.into_actions();
    assert!(actions.is_empty());
    assert_eq!(lines, ["MESSAGE\t100\t1\t10\talice\tx"]);
    let mut host = Host::empty();
    host.log(&msg("x"));
    assert!(host.into_actions().1.is_empty());
}

// ---- Host ----

#[test]
fn action_queue_is_limited() {
    let mut host = Host::empty();
    for i in 0..150 {
        host.send_message(ChannelRef::from_id(i), "x");
    }
    assert_eq!(host.actions().len(), MAX_ACTIONS);
    assert_eq!(host.dropped(), 50);
    assert!(matches!(
        host.actions()[99],
        Action::SendMessage { channel, .. } if channel == ChannelRef::from_id(99)
    ));
}

#[test]
fn unresolved_references_are_equal_only_to_themselves() {
    let mut registry = RefRegistry::new();
    let a = ChannelRef::from_stablename("a", &mut registry);
    let b = ChannelRef::from_stablename("b", &mut registry);
    let managed = NameMap::new();
    let host = Host::new(&managed, &registry, UserRef::from_id(1));
    assert!(host.eq(a, a));
    assert!(!host.eq(a, b));
    assert!(!host.eq(a, ChannelRef::from_id(0)));
}

// ---- Configuration ----

fn platform(intents: &[&str]) -> PlatformConfig {
    PlatformConfig {
        token: "t".to_string(),
        guild_id: 1,
        intents: intents.iter().map(|s| s.to_string()).collect(),
        user_agent: None,
    }
}

#[test]
fn intents() {
    assert_eq!(platform(&[]).intent_bits(), 1 | 1 << 9 | 1 << 10 | 1 << 15);
    assert_eq!(
        platform(&["Guilds", "GUILD_MESSAGE_POLLS", "nonsense"]).intent_bits(),
        intent::GUILDS | intent::GUILD_MESSAGE_POLLS
    );
    assert_eq!(platform(&["nonsense"]).intent_bits(), 0);
    assert_eq!(intent::DIRECT_MESSAGE_POLLS, 1 << 25);
    assert_eq!(intent::AUTO_MODERATION_CONFIGURATION, 1 << 20);
}

#[test]
fn restart_is_needed_for_platform_changes() {
    let config = |token: &str, guild_id, intents: &[&str], log: Option<&str>| FullConfig {
        platform: PlatformConfig { token: token.to_string(), guild_id, ..platform(intents) },
        log_file: log.map(|s| s.to_string()),
    };
    let running = config("t", 1, &["guilds"], Some("log"));
    assert!(!config("t", 1, &["GUILDS"], Some("log")).needs_restart(&running));
    assert!(config("u", 1, &["guilds"], Some("log")).needs_restart(&running));
    assert!(config("t", 2, &["guilds"], Some("log")).needs_restart(&running));
    assert!(config("t", 1, &[], Some("log")).needs_restart(&running));
    assert!(config("t", 1, &["guilds"], None).needs_restart(&running));
}

#[test]
fn watcher_looks_every_five_seconds() {
    let s = 1_000_000_000;
    let mut w = Watcher::new(Some(7), 100 * s);
    assert!(!w.poll(104 * s));
    assert!(w.poll(105 * s));
    assert!(!w.poll(109 * s));
    assert!(!w.is_changed(Some(7)));
    assert!(!w.is_changed(None));
    assert!(w.is_changed(Some(8)));
    // A file that cannot be loaded, or is gone, is tried again.
    assert!(!w.finish_poll(Some(8), false));
    assert!(!w.finish_poll(None, true));
    assert!(!w.finish_poll(Some(7), true));
    assert_eq!(w.mtime, 7);
    assert!(w.is_changed(Some(8)));
    assert!(w.finish_poll(Some(8), true));
    assert_eq!(w.mtime, 8);
    assert!(!w.is_changed(Some(8)));
    assert!(w.poll(110 * s));
}

#[test]
fn log_file_is_taken_from_the_text() {
    assert_eq!(log_file_of("{\"log_file\": \"bot.log\"}"), Ok(Some("bot.log".to_string())));
    assert_eq!(log_file_of("{\"log_file\": 3}"), Ok(None));
    assert_eq!(log_file_of("{}"), Ok(None));
    assert!(log_file_of("{").is_err());
}

#[test]
fn unknown_intents_are_told() {
    let p = platform(&["GUILDS", "Nonsense", "guild_messages", "other"]);
    assert_eq!(p.unknown_intents(), ["nonsense", "other"]);
    assert_eq!(p.intent_bits(), intent::GUILDS | intent::GUILD_MESSAGES);
    assert!(platform(&[]).unknown_intents().is_empty());
}

// ---- Runner ----

fn channel(id: u64, name: &str) -> message::Channel {
    message::Channel { id, name: name.to_string() }
}

fn role(id: u64, name: &str) -> message::Role {
    message::Role { id, name: name.to_string() }
}

#[test]
fn tracker_notices_ambiguous_names() {
    let mut t = ChannelRoleTracker::new();
    t.load_guild(
        &[channel(1, "a"), channel(2, "b"), channel(3, "b"), channel(1, "renamed")],
        &[role(4, "a")],
    );
    assert_eq!(t.channels.len(), 3);
    assert_eq!(t.channels.lookup("a"), Lookup::One(1));
    assert_eq!(t.channels.lookup("b"), Lookup::Ambiguous);
    assert_eq!(t.channels.lookup("renamed"), Lookup::Unknown);
    assert_eq!(t.roles.lookup("a"), Lookup::One(4));
    t.clear();
    assert_eq!(t.channels.lookup("a"), Lookup::Unknown);
}

#[test]
fn start_seeds_names_from_the_guild() {
    let mut registry = RefRegistry::new();
    let known = ChannelRef::from_stablename("known", &mut registry);
    let found = ChannelRef::from_stablename("found", &mut registry);
    let twice = ChannelRef::from_stablename("twice", &mut registry);
    let r = RoleRef::from_stablename("role", &mut registry);
    let mut state = State::new();
    state.channels.insert("known".to_string(), 5);
    let mut runner = Runner::new(registry, state, 1);
    let guild = |id| {
        message::Event::GuildCreate(message::GuildCreate {
            id,
            channels: vec![channel(9, "known"), channel(6, "found"), channel(7, "twice"), channel(8, "twice")],
            roles: vec![role(3, "role")],
        })
    };
    assert!(runner.on_event(&guild(2)).is_none());
    assert!(matches!(runner.on_event(&guild(1)), Some(Event::Started)));
    assert!(runner.start());
    assert_eq!(known.resolve(&runner.registry), Some(5));
    assert_eq!(found.resolve(&runner.registry), Some(6));
    assert_eq!(twice.resolve(&runner.registry), None);
    assert_eq!(r.resolve(&runner.registry), Some(3));
    assert_eq!(runner.state.channels.get("found"), Some(&6));
    assert!(!runner.start());
}

#[test]
fn events_are_converted() {
    let mut runner = Runner::new(RefRegistry::new(), State::new(), 1);
    assert!(matches!(runner.on_event(&message::Event::Resumed), Some(Event::Started)));
    let created = message::Event::MessageCreate(message::MessageCreate {
        id: 1,
        channel_id: 2,
        author: message::Author { id: 3, username: "u".to_string() },
        content: "c".to_string(),
    });
    match runner.on_event(&created) {
        Some(Event::MessageCreate { message_id, channel, author, author_name, content }) => {
            assert_eq!(message_id, MessageRef::from_id(1));
            assert_eq!(channel, ChannelRef::from_id(2));
            assert_eq!(author, UserRef::from_id(3));
            assert_eq!((author_name.as_str(), content.as_str()), ("u", "c"));
        }
        other => panic!("unexpected {other:?}"),
    }
    let removed = message::Event::ReactionRemove(message::Reaction {
        user_id: 1,
        channel_id: 2,
        message_id: 3,
        emoji: message::Emoji { name: Some("kame".to_string()), id: Some(9) },
    });
    match runner.on_event(&removed) {
        Some(Event::Reaction { emoji, added, .. }) => {
            assert_eq!(emoji, "kame:9");
            assert!(!added);
        }
        other => panic!("unexpected {other:?}"),
    }
}

fn sess_data() -> SessData {
    SessData {
        session_id: "s".to_string(),
        resume_gateway_url: "wss://x".to_string(),
        sequence: 1,
        bot_user_id: 2,
        guild_ids: vec![1],
    }
}

#[test]
fn sessions_are_resumed_or_restarted() {
    let mut runner = Runner::new(RefRegistry::new(), State::new(), 1);
    assert!(matches!(runner.begin_session(), SessionStart::Connect));
    assert!(runner.check_guild(&[5, 1]).is_ok());
    match runner.check_guild(&[5]) {
        Err(SessionExit::Fatal(e)) => {
            assert_eq!(e.message(), "guild 1 not found in READY guilds list")
        }
        other => panic!("unexpected {other:?}"),
    }
    runner.on_event(&message::Event::GuildCreate(message::GuildCreate {
        id: 1,
        channels: vec![channel(1, "a")],
        roles: vec![],
    }));
    let resume = PollError::Resume { error: Error::Reconnect, session: Box::new(sess_data()) };
    assert!(matches!(runner.on_poll_error(resume), Some(SessionExit::Retry(Error::Reconnect))));
    assert_eq!(runner.retry_delay(), 1);
    assert_eq!(runner.tracker.channels.len(), 1);
    assert!(matches!(runner.begin_session(), SessionStart::Resume(_)));
    assert!(matches!(
        runner.on_poll_error(PollError::Reconnect(Error::ConnectionZombied)),
        Some(SessionExit::Retry(_))
    ));
    assert_eq!(runner.retry_delay(), 5);
    assert_eq!(runner.tracker.channels.len(), 0);
    assert!(runner.on_poll_error(PollError::Transient(Error::UnexpectedBinary)).is_none());
    assert!(matches!(
        runner.on_poll_error(PollError::Fatal(Error::ConnectionClosed)),
        Some(SessionExit::Fatal(_))
    ));
    match runner.on_poll_error(PollError::NotConnected) {
        Some(SessionExit::Fatal(e)) => assert_eq!(e.message(), "not connected"),
        other => panic!("unexpected {other:?}"),
    }
}

fn call(plan: Plan) -> (Method, String, Option<String>, Follow) {
    match plan {
        Plan::Call { request, follow } => (request.method, request.path, request.body, follow),
        other => panic!("expected a call, got {other:?}"),
    }
}

#[test]
fn actions_are_planned() {
    let mut registry = RefRegistry::new();
    let nowhere = ChannelRef::from_stablename("nowhere", &mut registry);
    let nothing = MessageRef::from_stablename("nothing", &mut registry);
    let norole = RoleRef::from_stablename("norole", &mut registry);
    let runner = Runner::new(registry, State::new(), 1);
    let skipped = |action| match runner.plan(&action) {
        Plan::Skip(reason) => reason,
        other => panic!("expected Skip, got {other:?}"),
    };
    let (c, m, u) = (ChannelRef::from_id(2), MessageRef::from_id(3), UserRef::from_id(4));
    let content = || "x".to_string();
    assert_eq!(
        skipped(Action::SendMessage { channel: nowhere, content: content() }),
        SkipReason::UnresolvedChannel
    );
    assert_eq!(
        skipped(Action::EditMessage { channel: c, message: nothing, content: content() }),
        SkipReason::UnresolvedMessage
    );
    assert_eq!(
        skipped(Action::AddRole { user: u, role: norole }),
        SkipReason::UnresolvedRole
    );
    assert_eq!(
        skipped(Action::UpsertMessage { message: m, channel: c, content: content() }),
        SkipReason::UnresolvedMessage
    );
    assert_eq!(
        skipped(Action::UpsertMessage { message: nothing, channel: nowhere, content: content() }),
        SkipReason::UnresolvedChannel
    );
    let (method, path, body, follow) =
        call(runner.plan(&Action::EditMessage { channel: c, message: m, content: content() }));
    assert_eq!((method, path.as_str()), (Method::Patch, "/api/v10/channels/2/messages/3"));
    assert_eq!(body.unwrap(), r#"{"content":"x"}"#);
    assert!(matches!(follow, Follow::Nothing));
    let (method, path, body, _) =
        call(runner.plan(&Action::RemoveRole { user: u, role: RoleRef::from_id(5) }));
    assert_eq!((method, path.as_str()), (Method::Delete, "/api/v10/guilds/1/members/4/roles/5"));
    assert!(body.is_none());
    let (_, path, _, _) = call(runner.plan(&Action::AddReaction {
        channel: c,
        message: m,
        emoji: "a b".to_string(),
    }));
    assert_eq!(path, "/api/v10/channels/2/messages/3/reactions/a%20b/@me");
    let (_, _, _, follow) =
        call(runner.plan(&Action::SendMessage { channel: c, content: content() }));
    assert!(matches!(follow, Follow::Message));
}

#[test]
fn managed_messages_are_posted_then_edited_then_left_alone() {
    let mut registry = RefRegistry::new();
    let message = MessageRef::from_stablename("rules", &mut registry);
    let mut runner = Runner::new(registry, State::new(), 1);
    let channel = ChannelRef::from_id(2);
    let upsert = |content: &str| Action::UpsertMessage { message, channel, content: content.to_string() };
    let wants = |runner: &Runner, content: &str| {
        let mut host = Host::new(&runner.state.managed, &runner.registry, UserRef::from_id(9));
        host.upsert_message(message, channel, content);
        host.actions().len() == 1
    };
    assert!(wants(&runner, "v1"));
    let (method, _, _, follow) = call(runner.plan(&upsert("v1")));
    assert_eq!(method, Method::Post);
    assert!(matches!(follow, Follow::Posted { .. }));
    // Without an ID nothing is remembered.
    let (_, _, _, again) = call(runner.plan(&upsert("v1")));
    assert_eq!(runner.finish(again, Ok((200, "{}".to_string()))).unwrap(), false);
    assert!(wants(&runner, "v1"));
    assert_eq!(runner.finish(follow, Ok((200, r#"{"id":"55"}"#.to_string()))).unwrap(), true);
    assert_eq!(message.resolve(&runner.registry), Some(55));
    assert!(!wants(&runner, "v1"));
    assert!(wants(&runner, "v2"));
    let (method, path, _, follow) = call(runner.plan(&upsert("v2")));
    assert_eq!((method, path.as_str()), (Method::Patch, "/api/v10/channels/2/messages/55"));
    let (_, _, _, failing) = call(runner.plan(&upsert("v2")));
    assert!(matches!(
        runner.finish(failing, Ok((403, String::new()))),
        Err(Error::ApiError { status: 403 })
    ));
    assert!(wants(&runner, "v2"));
    assert_eq!(runner.finish(follow, Ok((200, String::new()))).unwrap(), true);
    assert!(!wants(&runner, "v2"));
    // It is never moved to another channel.
    let moved = Action::UpsertMessage {
        message,
        channel: ChannelRef::from_id(3),
        content: "v2".to_string(),
    };
    assert!(matches!(runner.plan(&moved), Plan::Skip(SkipReason::OtherChannel)));
}

#[test]
fn handler_results() {
    let runner = Runner::new(RefRegistry::new(), State::new(), 1);
    let (result, lines, dropped) = runner.handle(&kippe(), &Event::Started, 5);
    assert_eq!(dropped, 0);
    assert_eq!(result.unwrap().len(), 2);
    assert!(lines.is_empty());
    let (result, lines, _) = runner.handle(&bots::echo::Echo {}, &msg("x"), 10);
    assert!(result.unwrap().is_empty());
    assert!(lines.is_empty());
}

#[test]
fn state_file_does_not_depend_on_the_order_of_learning() {
    let mut a = State::new();
    let mut b = State::new();
    let names = ["x", "a", "", "\u{e4}", "ab", "B"];
    for (i, name) in names.iter().enumerate() {
        a.roles.insert(name.to_string(), i as u64);
    }
    for (i, name) in names.iter().enumerate().rev() {
        b.roles.insert(name.to_string(), i as u64);
    }
    assert_eq!(save(&a), save(&b));
}

// ---- The course of a session ----

#[test]
fn session_connects_polls_and_exits() {
    let mut registry = RefRegistry::new();
    let general = ChannelRef::from_stablename("general", &mut registry);
    let mut runner = Runner::new(registry, State::new(), 1);
    assert!(matches!(
        runner.run_session(SessionEvent::Begin),
        SessionStep::Connect(SessionStart::Connect)
    ));
    assert!(matches!(
        runner.run_session(SessionEvent::Connected(Err(Error::HandshakeTimeout))),
        SessionStep::Exit(SessionExit::Retry(Error::HandshakeTimeout))
    ));
    assert!(matches!(
        runner.run_session(SessionEvent::Connected(Ok(vec![2, 3]))),
        SessionStep::Exit(SessionExit::Fatal(FatalError::GuildNotFound(1)))
    ));
    assert!(matches!(
        runner.run_session(SessionEvent::Connected(Ok(vec![2, 1]))),
        SessionStep::Poll
    ));
    assert!(matches!(runner.run_session(SessionEvent::Polled(Ok(None))), SessionStep::Rest));
    let guild = message::Event::GuildCreate(message::GuildCreate {
        id: 1,
        channels: vec![channel(10, "general")],
        roles: vec![],
    });
    assert!(matches!(
        runner.run_session(SessionEvent::Polled(Ok(Some(guild)))),
        SessionStep::Handle { event: Event::Started, save: true }
    ));
    assert_eq!(general.resolve(&runner.registry), Some(10));
    assert!(matches!(runner.run_session(SessionEvent::Handled), SessionStep::Poll));
    assert!(matches!(
        runner.run_session(SessionEvent::Polled(Ok(Some(message::Event::Resumed)))),
        SessionStep::Handle { event: Event::Started, save: false }
    ));
    let deleted = message::Event::MessageDelete(message::MessageDelete { id: 1, channel_id: 2 });
    assert!(matches!(
        runner.run_session(SessionEvent::Polled(Ok(Some(deleted)))),
        SessionStep::Handle { event: Event::MessageDelete { .. }, save: false }
    ));
    // A reload brings new names, which are resolved at once.
    let mut registry = RefRegistry::new();
    let again = ChannelRef::from_stablename("general", &mut registry);
    assert!(matches!(
        runner.run_session(SessionEvent::Reloaded(Some(registry))),
        SessionStep::Handle { event: Event::Started, save: false }
    ));
    assert_eq!(again.resolve(&runner.registry), Some(10));
    assert!(matches!(runner.run_session(SessionEvent::Reloaded(None)), SessionStep::Rest));
    let transient = PollError::Transient(Error::UnexpectedBinary);
    assert!(matches!(
        runner.run_session(SessionEvent::Polled(Err(transient))),
        SessionStep::Rest
    ));
    let lost = PollError::Resume { error: Error::Reconnect, session: Box::new(sess_data()) };
    let exit = match runner.run_session(SessionEvent::Polled(Err(lost))) {
        SessionStep::Exit(exit) => exit,
        other => panic!("expected Exit, got {other:?}"),
    };
    assert!(matches!(runner.run_inner(exit), AfterSession::RetryIn { seconds: 1, .. }));
    assert_eq!(runner.tracker.channels.len(), 1);
    assert!(matches!(
        runner.run_session(SessionEvent::Begin),
        SessionStep::Connect(SessionStart::Resume(_))
    ));
    assert!(matches!(
        runner.run_inner(SessionExit::Retry(Error::ConnectionZombied)),
        AfterSession::RetryIn { seconds: 5, error: Error::ConnectionZombied }
    ));
    assert_eq!(runner.tracker.channels.len(), 0);
    assert!(matches!(
        runner.run_inner(SessionExit::Fatal(FatalError::NotConnected)),
        AfterSession::Stop(FatalError::NotConnected)
    ));
}

#[test]
fn actions_are_executed_in_order() {
    let mut registry = RefRegistry::new();
    let rules = MessageRef::from_stablename("rules", &mut registry);
    let nowhere = ChannelRef::from_stablename("nowhere", &mut registry);
    let mut runner = Runner::new(registry, State::new(), 1);
    let c = ChannelRef::from_id(2);
    let content = || "x".to_string();
    let mut execution = Execution::new(vec![
        Action::SendMessage { channel: nowhere, content: content() },
        Action::UpsertMessage { message: rules, channel: c, content: content() },
        Action::EditMessage { channel: nowhere, message: rules, content: content() },
        Action::AddReaction { channel: c, message: rules, emoji: "y".to_string() },
    ]);
    let step = runner.execute_actions(&mut execution, ExecutionEvent::Begin);
    assert_eq!(step.finished.unwrap(), false);
    assert_eq!(step.skipped, [SkipReason::UnresolvedChannel]);
    let (request, follow) = step.call.unwrap();
    assert_eq!(request.method, Method::Post);
    // Once posted, the message has an ID for the actions that follow.
    let answer = Ok((200, r#"{"id":"77"}"#.to_string()));
    let step =
        runner.execute_actions(&mut execution, ExecutionEvent::Answered { follow, answer });
    assert_eq!(step.finished.unwrap(), true);
    assert_eq!(step.skipped, [SkipReason::UnresolvedChannel]);
    let (request, follow) = step.call.unwrap();
    assert_eq!(request.path, "/api/v10/channels/2/messages/77/reactions/y/@me");
    let answer = Err(Error::RetriesExhausted { status: 503 });
    let step =
        runner.execute_actions(&mut execution, ExecutionEvent::Answered { follow, answer });
    assert!(matches!(step.finished, Err(Error::RetriesExhausted { status: 503 })));
    assert!(step.skipped.is_empty());
    assert!(step.call.is_none());
}

#[test]
fn table_keeps_names_at_their_indices() {
    let mut table = RefTable::new();
    assert_eq!(table.push("a".into()), 0);
    assert_eq!(table.push("b".into()), 1);
    assert_eq!(table.push("a".into()), 0);
    assert_eq!(table.push("c".into()), 2);
    assert_eq!(table.name(0), Some("a"));
    assert_eq!(table.name(1), Some("b"));
    assert_eq!(table.name(2), Some("c"));
    assert_eq!(table.name(3), None);
    assert_eq!(table.resolve(0), None);
}

#[test]
fn state_is_kept_in_state_dat() {
    assert_eq!(state_file(), "state.dat");
}

#[test]
fn skip_reasons_are_told() {
    assert_eq!(SkipReason::UnresolvedChannel.message(), "unresolved channel");
    assert_eq!(SkipReason::UnresolvedRole.message(), "unresolved role");
    assert!(SkipReason::OtherChannel.message().contains("state.dat"));
}

#[test]
fn lowered_names_and_words() {
    assert_eq!(intent_of("guilds"), intent::GUILDS);
    assert_eq!(intent_of("message_content"), intent::MESSAGE_CONTENT);
    assert_eq!(intent_of("Guilds"), 0);
    assert!(lowered_word_greets("hello") && lowered_word_greets("hey"));
    assert!(!lowered_word_greets("Hi") && lowered_word_greets("hi"));
}

#[test]
fn ambiguous_names_are_told() {
    let mut registry = RefRegistry::new();
    ChannelRef::from_stablename("general", &mut registry);
    ChannelRef::from_stablename("known", &mut registry);
    ChannelRef::from_stablename("one", &mut registry);
    RoleRef::from_stablename("mods", &mut registry);
    let mut state = State::new();
    state.channels.insert("known".to_string(), 7);
    let mut runner = Runner::new(registry, state, 1);
    runner.tracker.load_guild(
        &[
            channel(1, "general"),
            channel(2, "general"),
            channel(3, "known"),
            channel(4, "known"),
            channel(5, "one"),
        ],
        &[role(8, "mods"), role(9, "mods")],
    );
    for _ in 0..2 {
        assert_eq!(runner.ambiguous_channels(), ["general"]);
        assert_eq!(runner.ambiguous_roles(), ["mods"]);
        runner.start();
    }
}

#[test]
fn log_lines_split_back_into_fields() {
    let entry = LogEntry::MessageCreate {
        channel_id: 1,
        message_id: 2,
        author_id: 3,
        author_name: "a\tb".to_string(),
        content: "x\ny\\z".to_string(),
    };
    let line = log_line(9, &format_entry(&entry));
    let fields: Vec<&str> = line.trim_end_matches('\n').split('\t').collect();
    assert_eq!(fields, ["9", "MESSAGE", "1", "2", "3", "a\\tb", "x\\ny\\\\z"]);
    assert_eq!(unescape_tsv(fields[5]), "a\tb");
    assert_eq!(unescape_tsv(fields[6]), "x\ny\\z");
}
