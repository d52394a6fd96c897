use tweaker::bot::{EventRef, MessageProps, Response, ResponseQueue};
use tweaker::clock::{is_due, is_longer, is_shorter, Moment, TimeOfDay};
use tweaker::filter::{FilterData, FilterError, Filters};
use tweaker::names::NameMap;
use tweaker::tweak::{
    answer_start, candidate_words, checkpoint_file, choose_action, generated_text,
    generator_bytes, generator_file, get_reaction, tweak_params, tweak_response, Keyword, Rolls, TweakAction,
    TweakMode, Tweaker, TweakerConfig,
};

const SECOND: i128 = 1_000_000_000;

fn at(secs: i64, nanos: u32) -> Moment {
    Moment::new(secs, nanos).unwrap()
}

fn config() -> TweakerConfig {
    TweakerConfig {
        do_not_tweak: None,
        cooldown: 60,
        cooldown_react: 30,
        length_min: 5,
        length_max: 9,
        ignore_words: vec!["the".to_string()],
        endings: vec![".".to_string(), "!".to_string()],
        keywords: vec![],
        tweak_mode: NameMap::new(),
        filters: vec![],
        remove_start_text: false,
        delay_min: 1,
        delay_max: 4,
        sleep_times: vec![TimeOfDay { hour: 23, minute: 30 }],
        wake_times: vec![TimeOfDay { hour: 7, minute: 0 }],
    }
}

fn rolls(value: bool) -> Rolls {
    Rolls { keyword: value, reply: value, tweak: value, tweak_as_reply: false, react: value }
}

fn props(keyword: bool, reply: bool, secs: i64) -> MessageProps {
    MessageProps {
        keyword: if keyword { Some(Keyword::StartOnNotSpecified("bot".to_string())) } else { None },
        reply,
        timestamp: at(secs, 0),
        now: at(secs, 0),
    }
}

fn decide(mode: TweakMode, keyword: bool, reply: bool, secs: i128, rolls: Rolls) -> (TweakAction, bool) {
    choose_action(&config(), &props(keyword, reply, 0), mode, secs * SECOND, rolls)
}

#[test]
fn mode_names_read_back() {
    let modes = [
        TweakMode::Disabled, TweakMode::Reactions, TweakMode::KeywordsOnly,
        TweakMode::KeywordsAndReplies, TweakMode::Normal,
    ];
    for mode in modes {
        assert_eq!(TweakMode::from_name(&mode.name()), Some(mode));
    }
    assert_eq!(TweakMode::KeywordsAndReplies.name(), "KeywordsAndReplies");
    assert_eq!(TweakMode::from_name("normal"), None);
}

#[test]
fn keywords_say_whether_answers_start_with_them() {
    let plain = Keyword::StartOnNotSpecified("a".to_string());
    assert_eq!((plain.keyword(), plain.start_on()), ("a".to_string(), true));
    let off = Keyword::StartOnSpecified("b".to_string(), false);
    assert_eq!((off.keyword(), off.start_on()), ("b".to_string(), false));
    assert!(Keyword::StartOnSpecified("c".to_string(), true).clone().start_on());
}

#[test]
fn configured_modes_fall_back() {
    let mut config = config();
    assert_eq!(config.tweak_mode("!a:x"), TweakMode::KeywordsAndReplies);
    config.tweak_mode.insert("default".to_string(), TweakMode::Normal);
    assert_eq!(config.tweak_mode("!a:x"), TweakMode::Normal);
    config.tweak_mode.insert("!a:x".to_string(), TweakMode::Reactions);
    assert_eq!(config.tweak_mode("!a:x"), TweakMode::Reactions);
    assert_eq!(config.tweak_mode("!b:x"), TweakMode::Normal);
}

#[test]
fn disabled_rooms_get_nothing() {
    assert_eq!(
        decide(TweakMode::Disabled, true, true, 1000, rolls(true)),
        (TweakAction::Nothing, false)
    );
}

#[test]
fn reaction_rooms_get_reactions_only() {
    assert_eq!(
        decide(TweakMode::Reactions, true, true, 1000, rolls(true)),
        (TweakAction::React, false)
    );
    assert_eq!(
        decide(TweakMode::Reactions, true, true, 29, rolls(true)),
        (TweakAction::Nothing, true)
    );
    assert_eq!(
        decide(TweakMode::Reactions, true, true, 30, rolls(false)),
        (TweakAction::Nothing, false)
    );
}

#[test]
fn keywords_are_answered_whatever_the_cooldown() {
    for mode in [TweakMode::KeywordsOnly, TweakMode::KeywordsAndReplies, TweakMode::Normal] {
        assert_eq!(decide(mode, true, false, 0, rolls(true)), (TweakAction::Reply, false));
    }
    // drawn against: only a reaction is left, and that has a cooldown
    let mut drawn = rolls(true);
    drawn.keyword = false;
    assert_eq!(decide(TweakMode::Normal, true, false, 0, drawn), (TweakAction::Nothing, true));
    assert_eq!(decide(TweakMode::Normal, true, false, 30, drawn), (TweakAction::React, false));
}

#[test]
fn replies_are_answered_after_the_cooldown() {
    let mode = TweakMode::KeywordsAndReplies;
    assert_eq!(decide(mode, false, true, 59, rolls(true)), (TweakAction::Nothing, true));
    assert_eq!(decide(mode, false, true, 60, rolls(true)), (TweakAction::Reply, false));
    assert_eq!(
        decide(TweakMode::KeywordsOnly, false, true, 60, rolls(true)),
        (TweakAction::React, false)
    );
}

#[test]
fn other_messages_are_answered_in_normal_mode() {
    let mode = TweakMode::Normal;
    assert_eq!(decide(mode, false, false, 60, rolls(true)), (TweakAction::Message, false));
    let mut as_reply = rolls(true);
    as_reply.tweak_as_reply = true;
    assert_eq!(decide(mode, false, false, 60, as_reply), (TweakAction::Reply, false));
    assert_eq!(decide(mode, false, false, 60, rolls(false)), (TweakAction::Nothing, false));
    assert_eq!(
        decide(TweakMode::KeywordsAndReplies, false, false, 60, rolls(true)),
        (TweakAction::React, false)
    );
}

#[test]
fn candidate_words_are_lower_case_and_not_ignored() {
    let words = candidate_words(&config(), "The Cat  THE dog");
    assert_eq!(words, vec!["cat".to_string(), "".to_string(), "dog".to_string()]);
    assert!(candidate_words(&config(), "the").is_empty());
}

#[test]
fn answers_start_with_the_keyword_or_a_picked_word() {
    let starts = Some(Keyword::StartOnNotSpecified("k".to_string()));
    let silent = Some(Keyword::StartOnSpecified("k".to_string(), false));
    let picked = || Some("word".to_string());
    assert_eq!(answer_start(&starts, picked()), Some("k".to_string()));
    assert_eq!(answer_start(&silent, picked()), picked());
    assert_eq!(answer_start(&None, picked()), picked());
    assert_eq!(answer_start(&None, None), None);
}

#[test]
fn parameters_lie_in_their_ranges() {
    for _ in 0..50 {
        let (length, start, end) = tweak_params(&config(), "The Cat", &None);
        assert!((5..=9).contains(&length));
        assert_eq!(start, Some("cat".to_string()));
        let end = end.unwrap();
        assert!(end == "." || end == "!");
    }
    let mut config = config();
    config.endings = vec![];
    let (_, start, end) = tweak_params(&config, "the", &None);
    assert_eq!((start, end), (None, None));
}

#[test]
fn the_first_hit_is_the_reaction() {
    let reactions = vec!["a".to_string(), "b".to_string(), "c".to_string()];
    assert_eq!(get_reaction(&reactions, &vec![false, true, true]), "b");
    assert_eq!(get_reaction(&reactions, &vec![true, false, false]), "a");
    assert_eq!(get_reaction(&reactions, &vec![false, false, false]), "");
}

#[test]
fn generated_bytes_become_text() {
    assert_eq!(generated_text(&"hé".as_bytes().to_vec()), "hé");
    assert_eq!(generated_text(&vec![b'a', 0xff]), "a\u{fffd}");
    assert_eq!(generator_bytes(&Some("é".to_string())), Some(vec![0xc3, 0xa9]));
    assert_eq!(generator_bytes(&None), None);
}

#[test]
fn generator_files() {
    assert_eq!(generator_file(None), "current.tkv");
    assert_eq!(generator_file(Some("other.tkv".to_string())), "other.tkv");
    assert_eq!(
        checkpoint_file("2024-01-02T03:04:05+00:00"),
        "checkpoint_2024-01-02T03:04:05+00:00.tkv"
    );
}

#[test]
fn drafts_are_filtered_and_cut() {
    let tweaker = Tweaker::new(Filters::default());
    let mut config = config();
    config.filters = vec![FilterData::NoArgs("uppercase".to_string())];
    let start = Some("é ".to_string());
    let draft = || "é rest".to_string();
    assert_eq!(tweaker.tweak_filtered(&config, draft(), &start), Ok(Some("É REST".to_string())));
    config.remove_start_text = true;
    assert_eq!(tweaker.tweak_filtered(&config, draft(), &start), Ok(Some("REST".to_string())));
    assert_eq!(tweaker.tweak_filtered(&config, draft(), &None), Ok(Some("É REST".to_string())));
    assert_eq!(tweaker.tweak_filtered(&config, "é ".to_string(), &start), Ok(None));
    config.filters = vec![FilterData::NoArgs("gone".to_string())];
    assert_eq!(
        tweaker.tweak_filtered(&config, draft(), &start),
        Err(FilterError::UnknownFilter("gone".to_string()))
    );
}

#[test]
fn modes_that_are_set_hold_for_their_room() {
    let mut tweaker = Tweaker::new(Filters::default());
    let config = config();
    tweaker.set_mode("!a:x".to_string(), TweakMode::Normal);
    assert_eq!(tweaker.tweak_mode(&config, "!a:x"), TweakMode::Normal);
    assert_eq!(tweaker.tweak_mode(&config, "!b:x"), TweakMode::KeywordsAndReplies);
}

#[test]
fn messages_are_noted_and_decided_by_the_configured_mode() {
    let mut tweaker = Tweaker::new(Filters::default());
    let mut config = config();
    config.tweak_mode.insert("!a:x".to_string(), TweakMode::Normal);
    assert_eq!(tweaker.last_message("!a:x"), at(0, 0));
    let action = tweaker.tweak_on_message(&config, "!a:x", &props(false, false, 1000), rolls(true));
    assert_eq!(action, TweakAction::Message);
    assert_eq!(tweaker.last_message("!a:x"), at(1000, 0));
    // the cooldown runs from the last message of the room
    let action = tweaker.tweak_on_message(&config, "!a:x", &props(false, false, 1059), rolls(true));
    assert_eq!(action, TweakAction::Nothing);
    assert_eq!(tweaker.last_message("!a:x"), at(1059, 0));
    // a mode that was set does not count here
    tweaker.set_mode("!a:x".to_string(), TweakMode::Disabled);
    let action = tweaker.tweak_on_message(&config, "!a:x", &props(false, false, 2000), rolls(true));
    assert_eq!(action, TweakAction::Message);
}

#[test]
fn silenced_messages_are_not_noted() {
    let mut tweaker = Tweaker::new(Filters::default());
    let mut config = config();
    config.tweak_mode.insert("!a:x".to_string(), TweakMode::Disabled);
    let action = tweaker.tweak_on_message(&config, "!a:x", &props(true, false, 1000), rolls(true));
    assert_eq!(action, TweakAction::Nothing);
    assert_eq!(tweaker.last_message("!a:x"), Moment::epoch());
    config.do_not_tweak = Some(true);
    let action = tweaker.tweak_on_message(&config, "!b:x", &props(true, false, 1000), rolls(true));
    assert_eq!(action, TweakAction::Nothing);
    assert_eq!(tweaker.last_message("!b:x"), Moment::epoch());
    config.do_not_tweak = Some(false);
    let action = tweaker.tweak_on_message(&config, "!b:x", &props(true, false, 1000), rolls(true));
    assert_eq!(action, TweakAction::Reply);
}

#[test]
fn sleep_follows_the_clock_unless_locked() {
    let mut tweaker = Tweaker::new(Filters::default());
    let mut queue: ResponseQueue<u8> = ResponseQueue::new();
    let config = config();
    let night = TimeOfDay { hour: 23, minute: 30 };
    let morning = TimeOfDay { hour: 7, minute: 0 };
    assert_eq!(tweaker.is_sleeping(), (false, false));
    tweaker.sleep_round(&config, &mut queue, morning);
    assert_eq!((tweaker.is_sleeping(), queue.is_paused()), ((false, false), false));
    tweaker.sleep_round(&config, &mut queue, night);
    assert_eq!((tweaker.is_sleeping(), queue.is_paused()), ((true, false), true));
    tweaker.sleep_round(&config, &mut queue, morning);
    assert_eq!((tweaker.is_sleeping(), queue.is_paused()), ((false, false), false));
    tweaker.set_sleeping(&mut queue, true, true);
    tweaker.sleep_round(&config, &mut queue, morning);
    assert_eq!((tweaker.is_sleeping(), queue.is_paused()), ((true, true), true));
}

#[test]
fn responses_carry_out_actions() {
    let message = || EventRef { event_id: "$e".to_string(), sender: "@a:x".to_string() };
    let produced = || "text".to_string();
    assert_eq!(tweak_response(TweakAction::Nothing, produced(), message()), Response::Nothing);
    assert_eq!(
        tweak_response(TweakAction::Message, produced(), message()),
        Response::Message { text: produced(), reply_to: None }
    );
    assert_eq!(
        tweak_response(TweakAction::Reply, produced(), message()),
        Response::Message { text: produced(), reply_to: Some(message()) }
    );
    assert_eq!(
        tweak_response(TweakAction::React, produced(), message()),
        Response::Reaction { event_id: "$e".to_string(), key: produced() }
    );
}

#[test]
fn spans_are_compared_exactly() {
    let later = at(10, 5);
    let earlier = at(9, 999_999_999);
    assert_eq!(later.since(&earlier), 6);
    assert_eq!(earlier.since(&later), -6);
    assert!(is_shorter(SECOND - 1, 1) && !is_shorter(SECOND, 1));
    assert!(is_longer(SECOND + 1, 1) && !is_longer(SECOND, 1));
    assert!(is_due(&config().wake_times, TimeOfDay { hour: 7, minute: 0 }));
    assert!(!is_due(&config().wake_times, TimeOfDay { hour: 7, minute: 1 }));
}
