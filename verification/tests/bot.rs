use tweaker::bot::{
    copy_reactions, find_keyword, is_reply_to_self, join_or_knock, log_ban, on_invite, on_message,
    start, Account, Credentials, EventRef, Handler, JoinPlan, JoinRetry, LoginError, MessageAction,
    MessageCommandResult, MessageEvent, MessagePolicy, MessageProps, Response, ResponseQueue,
    SendStep, ServerTarget,
};
use tweaker::clock::{Moment, TimeOfDay};
use tweaker::names::NameMap;
use tweaker::tweak::{Keyword, TweakMode, TweakerConfig};

fn at(secs: i64, nanos: u32) -> Moment {
    Moment::new(secs, nanos).unwrap()
}

fn keywords() -> Vec<Keyword> {
    vec![
        Keyword::StartOnNotSpecified("Cat".to_string()),
        Keyword::StartOnSpecified("dog".to_string(), false),
    ]
}

fn config(delay_min: u64, delay_max: u64) -> TweakerConfig {
    TweakerConfig {
        do_not_tweak: None,
        cooldown: 0,
        cooldown_react: 0,
        length_min: 0,
        length_max: 0,
        ignore_words: vec![],
        endings: vec![],
        keywords: keywords(),
        tweak_mode: NameMap::new(),
        filters: vec![],
        remove_start_text: false,
        delay_min,
        delay_max,
        sleep_times: vec![TimeOfDay { hour: 0, minute: 0 }],
        wake_times: vec![],
    }
}

fn message(text: &str) -> Response {
    Response::message(text, None)
}

#[test]
fn the_first_keyword_is_found_in_any_case() {
    let found = |text: &str| find_keyword(text, &keywords()).map(|k| k.keyword());
    assert_eq!(found("a DOG and a CAT"), Some("Cat".to_string()));
    assert_eq!(found("hotdogs"), Some("dog".to_string()));
    assert_eq!(found("bird"), None);
    assert!(find_keyword("cat", &vec![]).is_none());
}

#[test]
fn replies_to_the_bot_are_recognized() {
    assert!(is_reply_to_self(&Some("@me:x".to_string()), "@me:x"));
    assert!(!is_reply_to_self(&Some("@you:x".to_string()), "@me:x"));
    assert!(!is_reply_to_self(&None, "@me:x"));
}

#[test]
fn notes_on_a_message() {
    let now = at(50, 7);
    let props = MessageProps::for_message("the cat", true, 40, now, &keywords());
    assert_eq!(props.keyword.unwrap().keyword(), "Cat");
    assert!(props.reply);
    assert_eq!(props.timestamp, at(40, 0));
    assert_eq!(props.now, now);
    let empty = MessageProps::for_message("", true, i64::MAX, now, &keywords());
    assert!(empty.keyword.is_none() && !empty.reply);
    assert_eq!(empty.timestamp, Moment::epoch());
}

#[test]
fn sending_times_have_limits() {
    let now = Moment::epoch();
    let sent = |secs: i64| MessageProps::for_message("", false, secs, now, &vec![]).timestamp.secs();
    assert_eq!(sent(8210266876799), 8210266876799);
    assert_eq!(sent(8210266876800), 0);
    assert_eq!(sent(-8334601228800), -8334601228800);
    assert_eq!(sent(-8334601228801), 0);
}

#[test]
fn messages_are_typed_and_reactions_are_not() {
    assert_eq!(
        message("hé").send_after(3),
        vec![
            SendStep::Wait(3),
            SendStep::StartTyping,
            SendStep::TypeFor(3),
            SendStep::Send,
            SendStep::StopTyping,
        ]
    );
    let reaction = Response::reaction("$e".to_string(), "x".to_string());
    assert_eq!(reaction.send_after(3), vec![SendStep::Wait(3), SendStep::Send]);
    assert!(Response::Nothing.send_after(3).is_empty());
    assert!(Response::Nothing.is_nothing() && !reaction.is_nothing());
}

#[test]
fn delays_lie_below_the_greatest() {
    for _ in 0..50 {
        match message("x").delay_type_send(&config(2, 4))[0] {
            SendStep::Wait(delay) => assert!(delay == 2 || delay == 3),
            other => panic!("{other:?}"),
        }
    }
    assert_eq!(message("x").delay_type_send(&config(7, 8))[0], SendStep::Wait(7));
    assert!(Response::Nothing.delay_type_send(&config(1, 1)).is_empty());
}

#[test]
fn the_queue_sends_what_was_added_last() {
    let mut queue: ResponseQueue<u8> = ResponseQueue::new();
    assert_eq!(queue.send_one(), None);
    queue.add(message("a"), 1);
    queue.add(message("b"), 2);
    assert_eq!(queue.len(), 2);
    assert_eq!(queue.send_one(), Some((message("b"), 2)));
    assert_eq!(queue.send_one(), Some((message("a"), 1)));
    assert_eq!(queue.len(), 0);
}

#[test]
fn a_paused_queue_holds_back() {
    let mut queue: ResponseQueue<u8> = ResponseQueue::new();
    queue.add(message("a"), 1);
    queue.set_paused(true);
    assert!(queue.is_paused());
    assert_eq!(queue.send_round(), None);
    assert_eq!(queue.len(), 1);
    queue.set_paused(false);
    assert_eq!(queue.send_round(), Some((message("a"), 1)));
    queue.add(message("b"), 1);
    queue.purge();
    assert_eq!(queue.send_round(), None);
}

#[test]
fn joining_waits_twice_as_long_each_time() {
    let mut retry = JoinRetry::new();
    assert_eq!(retry.delay(), 2);
    assert_eq!((retry.failed(), retry.failed(), retry.failed()), (2, 4, 8));
    assert_eq!(retry.delay(), 16);
}

#[test]
fn rooms_are_knocked_at_where_that_is_the_rule() {
    let reason = Some("please".to_string());
    assert_eq!(join_or_knock(true, &reason), JoinPlan::Knock(reason.clone()));
    assert_eq!(join_or_knock(true, &None), JoinPlan::Knock(None));
    assert_eq!(join_or_knock(false, &reason), JoinPlan::Join);
}

#[test]
fn invitations_and_bans() {
    assert!(on_invite("@me:x", "@me:x", false));
    assert!(!on_invite("@me:x", "@me:x", true));
    assert!(!on_invite("@you:x", "@me:x", false));
    assert_eq!(
        log_ban("@me:x", "@me:x", true, "!r:x", &Some("spam".to_string())),
        Some("Banned from !r:x for `spam`".to_string())
    );
    assert_eq!(
        log_ban("@me:x", "@me:x", true, "!r:x", &None),
        Some("Banned from !r:x for `<none>`".to_string())
    );
    assert_eq!(log_ban("@me:x", "@me:x", false, "!r:x", &None), None);
    assert_eq!(log_ban("@you:x", "@me:x", true, "!r:x", &None), None);
}

#[test]
fn reactions_of_others_are_copied() {
    let copy = |sender: &str, mode: TweakMode, roll: bool| {
        copy_reactions(sender, "@me:x", mode, roll, "$e".to_string(), "k".to_string())
    };
    let copied = Response::Reaction { event_id: "$e".to_string(), key: "k".to_string() };
    assert_eq!(copy("@you:x", TweakMode::Reactions, true), copied);
    assert_eq!(copy("@me:x", TweakMode::Reactions, true), Response::Nothing);
    assert_eq!(copy("@you:x", TweakMode::Disabled, true), Response::Nothing);
    assert_eq!(copy("@you:x", TweakMode::Reactions, false), Response::Nothing);
}

#[test]
fn handlers_follow_the_configuration() {
    assert_eq!(start(false, false), vec![Handler::Message, Handler::Ban]);
    assert_eq!(
        start(true, true),
        vec![Handler::Message, Handler::Ban, Handler::Invite, Handler::Reaction]
    );
    assert_eq!(start(false, true), vec![Handler::Message, Handler::Ban, Handler::Reaction]);
}

#[test]
fn the_course_of_an_answered_message() {
    let policy = MessagePolicy { respond_to_self: false, message_max_age: 10 };
    let arrived = MessageEvent::Arrived {
        sender: "@you:x".to_string(),
        client_id: "@me:x".to_string(),
    };
    assert_eq!(on_message(&policy, arrived), MessageAction::Inspect);
    let inspected = MessageEvent::Inspected {
        timestamp: at(0, 0),
        now: at(10, 0),
    };
    assert_eq!(on_message(&policy, inspected), MessageAction::RunCommand);
    let no_command = MessageEvent::CommandDone(MessageCommandResult::NotHandled);
    assert_eq!(on_message(&policy, no_command), MessageAction::Log);
    let logged = MessageEvent::Logged { body: "x".to_string() };
    assert_eq!(on_message(&policy, logged), MessageAction::JoinRooms);
    assert_eq!(on_message(&policy, MessageEvent::RoomsJoined), MessageAction::Answer);
    let answered = MessageEvent::Answered(message("y"));
    assert_eq!(on_message(&policy, answered), MessageAction::Enqueue(message("y")));
}

#[test]
fn messages_that_go_no_further() {
    let policy = MessagePolicy { respond_to_self: false, message_max_age: 10 };
    let own = || MessageEvent::Arrived {
        sender: "@me:x".to_string(),
        client_id: "@me:x".to_string(),
    };
    assert_eq!(on_message(&policy, own()), MessageAction::Stop);
    let talks_to_itself = MessagePolicy { respond_to_self: true, message_max_age: 10 };
    assert_eq!(on_message(&talks_to_itself, own()), MessageAction::Inspect);
    let old = MessageEvent::Inspected {
        timestamp: at(0, 0),
        now: at(10, 1),
    };
    assert_eq!(on_message(&policy, old), MessageAction::Stop);
    let handled = MessageEvent::CommandDone(MessageCommandResult::Handled);
    assert_eq!(on_message(&policy, handled), MessageAction::Stop);
    let output = MessageCommandResult::HandledWithResponse(message("out"));
    let replied = MessageEvent::CommandDone(output);
    assert_eq!(on_message(&policy, replied), MessageAction::SendNow(message("out")));
    let empty = MessageEvent::Logged { body: String::new() };
    assert_eq!(on_message(&policy, empty), MessageAction::Stop);
    let silent = MessageEvent::Answered(Response::Nothing);
    assert_eq!(on_message(&policy, silent), MessageAction::Stop);
}

fn account(mxid: &str) -> Account {
    Account {
        server_url: None,
        mxid: mxid.to_string(),
        password: None,
        token: None,
        device_id: None,
    }
}

#[test]
fn accounts_name_their_server() {
    let mut bot = account("@bot:example.org:8448");
    assert_eq!(
        bot.target(),
        Ok(ServerTarget { server_name: "example.org:8448".to_string(), url: None })
    );
    bot.server_url = Some("https://m.example.org".to_string());
    assert_eq!(bot.target().unwrap().url, bot.server_url);
    let refused = [
        ("bot", "leading sigil is incorrect or missing"),
        ("#bot:x.org", "leading sigil is incorrect or missing"),
        ("@bot", "required colon is missing"),
        ("@bot:", "server name is not a valid IP address or domain name"),
        ("@b\0t:x.org", "identifier contains invalid characters"),
    ];
    for (mxid, message) in refused {
        assert_eq!(account(mxid).target(), Err(LoginError::BadUserId(message.to_string())));
    }
}

#[test]
fn accounts_log_in_by_password_or_token() {
    let mut bot = account("@bot:x.org");
    assert_eq!(bot.login(), Err(LoginError::NoCredentials("@bot:x.org".to_string())));
    assert_eq!(
        bot.login().unwrap_err().message(),
        "No password or token supplied for @bot:x.org"
    );
    bot.token = Some("tok".to_string());
    assert_eq!(bot.login(), Err(LoginError::MissingDevice));
    assert_eq!(LoginError::MissingDevice.message(), "Missing device id");
    assert_eq!(LoginError::BadUserId("why".to_string()).message(), "why");
    bot.device_id = Some("DEV".to_string());
    assert_eq!(
        bot.login(),
        Ok(Credentials::Token { token: "tok".to_string(), device_id: "DEV".to_string() })
    );
    bot.password = Some("pw".to_string());
    assert_eq!(bot.login(), Ok(Credentials::Password("pw".to_string())));
}

#[test]
fn replies_refer_to_their_message() {
    let event = EventRef { event_id: "$e".to_string(), sender: "@a:x".to_string() };
    assert_eq!(
        Response::message("t", Some(event.clone())),
        Response::Message { text: "t".to_string(), reply_to: Some(event) }
    );
}
