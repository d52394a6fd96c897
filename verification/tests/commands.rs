use tweaker::bot::{EventRef, MessageProps, Response, ResponseQueue};
use tweaker::clock::Moment;
use tweaker::commands::{
    checked_id, help, info, join_target, leave_target, list_rooms, load_target, markov_info,
    message_info, needs_chat, queue_command, register_commands, remembered_room_info, room_info,
    room_info_target, room_mode, sleep_command, tweak_args, Command,
};
use tweaker::console::{CommandContext, CommandError, Console, TrustLevel};
use tweaker::filter::Filters;
use tweaker::names::NameMap;
use tweaker::tweak::{Keyword, Rolls, TweakMode, Tweaker, TweakerConfig};

fn at(secs: i64, nanos: u32) -> Moment {
    Moment::new(secs, nanos).unwrap()
}

fn list(items: &[&str]) -> Vec<String> {
    items.iter().map(|s| s.to_string()).collect()
}

fn chat() -> CommandContext {
    CommandContext::Chat {
        room_id: "!here:x".to_string(),
        message: EventRef { event_id: "$e".to_string(), sender: "@a:x".to_string() },
    }
}

fn config() -> TweakerConfig {
    TweakerConfig {
        do_not_tweak: None,
        cooldown: 60,
        cooldown_react: 30,
        length_min: 0,
        length_max: 0,
        ignore_words: vec![],
        endings: vec![],
        keywords: vec![],
        tweak_mode: NameMap::new(),
        filters: vec![],
        remove_start_text: false,
        delay_min: 0,
        delay_max: 0,
        sleep_times: vec![],
        wake_times: vec![],
    }
}

#[test]
fn command_table() {
    let expected = [
        (Command::Info, "info", TrustLevel::Untrusted, 0),
        (Command::Commands, "help", TrustLevel::Untrusted, 0),
        (Command::ReloadConfig, "rlconfig", TrustLevel::Trusted, 0),
        (Command::Tweak, "tweak", TrustLevel::Untrusted, 0),
        (Command::TweakUnfiltered, "tweakuf", TrustLevel::Trusted, 0),
        (Command::MarkovInfo, "markov", TrustLevel::Untrusted, 0),
        (Command::Load, "load", TrustLevel::Trusted, 0),
        (Command::Checkpoint, "checkpoint", TrustLevel::Trusted, 0),
        (Command::ListRooms, "rooms", TrustLevel::Untrusted, 0),
        (Command::JoinRoom, "join", TrustLevel::Operator, 0),
        (Command::LeaveRoom, "leave", TrustLevel::Operator, 0),
        (Command::RoomInfo, "roominfo", TrustLevel::Untrusted, 0),
        (Command::RoomMode, "mode", TrustLevel::Operator, 50),
        (Command::MessageInfo, "msginfo", TrustLevel::Untrusted, 0),
        (Command::Queue, "queue", TrustLevel::Trusted, 0),
        (Command::Sleep, "sleepctl", TrustLevel::Trusted, 0),
    ];
    let mut console = Console::new();
    register_commands(&mut console);
    let rows = console.command_list();
    for (i, (command, name, trust, power)) in expected.into_iter().enumerate() {
        assert_eq!(command.name(), name);
        assert_eq!(command.trust_level(), trust);
        assert_eq!(command.power_level(), power);
        assert_eq!(rows[i], (name.to_string(), trust, power));
        assert_eq!(console.clear(name, vec![], TrustLevel::Operator).unwrap().command, command);
    }
}

#[test]
fn uptime() {
    let start = at(100, 500_000_000);
    let now = at(100 + 2 * 3600 + 5 * 60 + 7, 512_999_999);
    // the seconds are those of the hour
    assert_eq!(info("tweaker", "1.2.3", &start, &now), "tweaker v1.2.3\nUptime: 02:05:307.012");
    assert_eq!(info("t", "0", &start, &start), "t v0\nUptime: 00:00:00.000");
    let back = at(99, 0);
    assert_eq!(info("t", "0", &start, &back), "t v0\nUptime: 00:00:-1.-500");
}

#[test]
fn help_is_sorted_and_aligned() {
    let commands = vec![
        ("mode".to_string(), TrustLevel::Operator, 50),
        ("a".to_string(), TrustLevel::Untrusted, 0),
    ];
    let expected = "Your trust level: Trusted\n\na     Untrusted  0\nmode  Operator   50\n";
    assert_eq!(help(&commands, TrustLevel::Trusted), expected);
    let turned: Vec<(String, TrustLevel, i32)> = commands.into_iter().rev().collect();
    assert_eq!(help(&turned, TrustLevel::Trusted), expected);
    assert_eq!(help(&vec![], TrustLevel::Untrusted), "Your trust level: Untrusted\n\n");
}

#[test]
fn rooms_are_listed_in_columns() {
    let rooms = vec![
        ("!long:x".to_string(), "Name".to_string()),
        ("!a:x".to_string(), String::new()),
    ];
    assert_eq!(list_rooms(&rooms), "!long:x  Name\n!a:x     ");
    assert_eq!(list_rooms(&vec![]), "");
}

#[test]
fn arguments_of_tweak() {
    let none = tweak_args(&vec![]);
    assert_eq!((none.length, none.start, none.end), (256, None, None));
    let bad = tweak_args(&list(&["ten"]));
    assert_eq!(bad.length, 256);
    let all = tweak_args(&list(&["10", "start", "end", "more"]));
    assert_eq!(all.length, 10);
    assert_eq!(all.start, Some("start".to_string()));
    assert_eq!(all.end, Some("end".to_string()));
}

#[test]
fn generator_info_and_file() {
    assert_eq!(markov_info(3, 1024), "Seed length: 3\nDictionary length: 1024");
    assert_eq!(load_target(&vec![]), None);
    assert_eq!(load_target(&list(&["x.tkv"])), Some("x.tkv".to_string()));
}

#[test]
fn refused_rooms_tell_why() {
    let sigil = "leading sigil is incorrect or missing";
    let characters = "identifier contains invalid characters";
    let bad = |text: &str| Err(CommandError::BadId(text.to_string()));
    assert_eq!(leave_target(&list(&[""])), bad(sigil));
    assert_eq!(leave_target(&list(&["#room:x.org"])), bad(sigil));
    assert_eq!(leave_target(&list(&["!a\0"])), bad(characters));
    assert_eq!(leave_target(&list(&["!a"])), Ok("!a".to_string()));
    let long = format!("!{}", "a".repeat(300));
    assert_eq!(leave_target(&vec![long.clone()]), Ok(long));
    assert_eq!(join_target(&list(&[""])), bad(sigil));
    assert_eq!(join_target(&list(&["@a:x.org"])), bad(sigil));
    assert_eq!(join_target(&list(&["#room"])), bad("required colon is missing"));
    let server = "server name is not a valid IP address or domain name";
    assert_eq!(join_target(&list(&["#room:"])), bad(server));
    assert_eq!(join_target(&list(&["#a\0:-!"])), bad(server));
    assert_eq!(join_target(&list(&["#a\0:x.org"])), bad(characters));
    assert_eq!(join_target(&list(&["!a\0"])), bad(characters));
    assert_eq!(join_target(&list(&["!a"])), Ok("!a".to_string()));
}

#[test]
fn rooms_to_join_and_leave() {
    assert_eq!(join_target(&vec![]), Err(CommandError::RoomOrAliasRequired));
    assert_eq!(join_target(&list(&["#room:x.org"])), Ok("#room:x.org".to_string()));
    assert_eq!(join_target(&list(&["!room:x.org"])), Ok("!room:x.org".to_string()));
    assert!(matches!(join_target(&list(&["room"])), Err(CommandError::BadId(_))));
    assert_eq!(leave_target(&vec![]), Err(CommandError::RoomRequired));
    assert_eq!(leave_target(&list(&["!room:x.org"])), Ok("!room:x.org".to_string()));
    assert!(matches!(leave_target(&list(&["#room:x.org"])), Err(CommandError::BadId(_))));
}

#[test]
fn checked_ids() {
    assert_eq!(checked_id("a".to_string(), Ok(())), Ok("a".to_string()));
    assert_eq!(
        checked_id("a".to_string(), Err("why".to_string())),
        Err(CommandError::BadId("why".to_string()))
    );
}

#[test]
fn rooms_to_tell_about() {
    let named = list(&["!there:x"]);
    assert_eq!(room_info_target(&named, &chat()), Ok("!there:x".to_string()));
    assert_eq!(room_info_target(&named, &CommandContext::Console), Ok("!there:x".to_string()));
    assert_eq!(room_info_target(&vec![], &chat()), Ok("!here:x".to_string()));
    assert_eq!(
        room_info_target(&vec![], &CommandContext::Console),
        Err(CommandError::RoomRequiredOutsideChat)
    );
}

#[test]
fn room_info_names_cooldowns() {
    let second: i128 = 1_000_000_000;
    let tell = |span: i128| room_info(&config(), TweakMode::Normal, "then", span);
    let head = "Response mode: Normal\nLast message: then";
    assert_eq!(tell(29 * second), format!("{head} (cooldowns: message, react)"));
    assert_eq!(tell(30 * second), format!("{head} (cooldowns: message)"));
    assert_eq!(tell(60 * second), head);
}

#[test]
fn room_info_is_about_the_room_that_was_asked_for() {
    let mut tweaker = Tweaker::new(Filters::default());
    let mut config = config();
    config.tweak_mode.insert("!a:x".to_string(), TweakMode::Normal);
    let sent = at(1000, 0);
    let props = MessageProps { keyword: None, reply: false, timestamp: sent, now: sent };
    let rolls = Rolls {
        keyword: false,
        reply: false,
        tweak: false,
        tweak_as_reply: false,
        react: false,
    };
    tweaker.tweak_on_message(&config, "!a:x", &props, rolls);
    tweaker.set_mode("!b:x".to_string(), TweakMode::Disabled);
    let now = at(1045, 0);
    let tell = |room: &str, offset: i32| {
        remembered_room_info(&tweaker, &config, room, &now, offset)
    };
    assert_eq!(
        tell("!a:x", 3600),
        "Response mode: Normal\nLast message: 1970-01-01 01:16:40 +01:00 (cooldowns: message)"
    );
    assert_eq!(
        tell("!b:x", -5400),
        "Response mode: Disabled\nLast message: 1969-12-31 22:30:00 -01:30"
    );
}

#[test]
fn modes_are_set() {
    let mut tweaker = Tweaker::new(Filters::default());
    let mut set = |args: &[&str], context: &CommandContext| {
        room_mode(&mut tweaker, &list(args), context)
    };
    assert_eq!(set(&[], &chat()), Err(CommandError::ModeRequired));
    assert_eq!(set(&["loud"], &chat()), Err(CommandError::UnknownMode));
    assert_eq!(set(&["Normal"], &CommandContext::Console), Err(CommandError::ModeRoomRequired));
    assert_eq!(set(&["Normal", "!there:x"], &CommandContext::Console), Ok(()));
    assert_eq!(set(&["Disabled", "!there:x"], &chat()), Ok(()));
    assert_eq!(tweaker.tweak_mode(&config(), "!there:x"), TweakMode::Normal);
    assert_eq!(tweaker.tweak_mode(&config(), "!here:x"), TweakMode::Disabled);
}

#[test]
fn message_info_in_a_chat() {
    assert_eq!(needs_chat(&chat()), Ok(()));
    assert_eq!(needs_chat(&CommandContext::Console), Err(CommandError::ChatOnly));
    let now = Moment::epoch();
    let keywords = vec![Keyword::StartOnNotSpecified("Cat".to_string())];
    let found = MessageProps::for_message("a cat", true, 0, now, &keywords);
    assert_eq!(message_info(&found), "Keyword: Cat\nIs reply: yes");
    let none = MessageProps::for_message("a dog", false, 0, now, &keywords);
    assert_eq!(message_info(&none), "Keyword: <none>\nIs reply: no");
}

#[test]
fn queue_commands() {
    let mut queue: ResponseQueue<u8> = ResponseQueue::new();
    queue.add(Response::message("a", None), 0);
    let mut run = |args: &[&str]| queue_command(&mut queue, &list(args));
    let state = |n: u8, paused: &str| {
        Some(format!("There are {n} responses in the queue\nPaused: {paused}"))
    };
    assert_eq!(run(&[]), state(1, "no"));
    assert_eq!(run(&["pause"]), None);
    assert_eq!(run(&["what"]), state(1, "yes"));
    assert_eq!(run(&["unpause"]), None);
    assert_eq!(run(&[]), state(1, "no"));
    assert_eq!(run(&["purge"]), None);
    assert_eq!(run(&[]), state(0, "no"));
}

#[test]
fn sleep_commands() {
    let mut tweaker = Tweaker::new(Filters::default());
    let mut queue: ResponseQueue<u8> = ResponseQueue::new();
    let mut run = |args: &[&str]| {
        let out = sleep_command(&mut tweaker, &mut queue, &list(args));
        (out, tweaker.is_sleeping(), queue.is_paused())
    };
    let says = |text: &str| Some(text.to_string());
    assert_eq!(run(&[]), (says("Currently awake (locked: no)"), (false, false), false));
    assert_eq!(run(&["sleep"]), (None, (true, false), true));
    assert_eq!(run(&["?"]), (says("Currently sleeping (locked: no)"), (true, false), true));
    assert_eq!(run(&["wake"]), (None, (false, false), false));
    assert_eq!(run(&["nyquil"]), (says("So eepy..."), (true, true), true));
    assert_eq!(run(&[]), (says("Currently sleeping (locked: yes)"), (true, true), true));
    assert_eq!(
        run(&["redbull"]),
        (says("HOLY SHIT I COULD TWEAK ALL NIGHT!!!"), (false, true), false)
    );
}
