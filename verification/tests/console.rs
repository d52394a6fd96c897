use tweaker::bot::{EventRef, MessageCommandResult, Response};
use tweaker::commands::{join_target, register_commands, Command};
use tweaker::console::{
    chat_command, run_message, Clearance, CommandContext, CommandError, Console, ConsoleConfig,
    TrustLevel, UserPower,
};
use tweaker::names::NameMap;

fn config() -> ConsoleConfig {
    let mut trust_levels: NameMap<TrustLevel> = NameMap::new();
    trust_levels.insert("@op:x".to_string(), TrustLevel::Operator);
    trust_levels.insert("@full:x".to_string(), TrustLevel::FullTrusted);
    trust_levels.insert("@some:x".to_string(), TrustLevel::Trusted);
    ConsoleConfig { enable_chat: true, prefix: "!t ".to_string(), trust_levels }
}

fn chat(sender: &str) -> CommandContext {
    CommandContext::Chat {
        room_id: "!room:x".to_string(),
        message: EventRef { event_id: "$event".to_string(), sender: sender.to_string() },
    }
}

fn all() -> Console {
    let mut console = Console::new();
    register_commands(&mut console);
    console
}

#[test]
fn trust_levels_are_ordered() {
    assert!(TrustLevel::Untrusted.is_below(&TrustLevel::Trusted));
    assert!(TrustLevel::Trusted.is_below(&TrustLevel::FullTrusted));
    assert!(TrustLevel::FullTrusted.is_below(&TrustLevel::Operator));
    assert!(!TrustLevel::Operator.is_below(&TrustLevel::Operator));
    assert_eq!(TrustLevel::default(), TrustLevel::Untrusted);
    assert!(!TrustLevel::Untrusted.bypass_pl_checks());
    assert!(!TrustLevel::Trusted.bypass_pl_checks());
    assert!(TrustLevel::FullTrusted.bypass_pl_checks());
    assert!(TrustLevel::Operator.bypass_pl_checks());
    assert_eq!(TrustLevel::FullTrusted.name(), "FullTrusted");
}

#[test]
fn trust_falls_back_to_the_default_entry() {
    let mut config = config();
    assert_eq!(config.trust_level("@some:x"), TrustLevel::Trusted);
    assert_eq!(config.trust_level("@else:x"), TrustLevel::Untrusted);
    config.trust_levels.insert("default".to_string(), TrustLevel::Trusted);
    assert_eq!(config.trust_level("@else:x"), TrustLevel::Trusted);
    assert_eq!(config.trust_level("@op:x"), TrustLevel::Operator);
}

#[test]
fn the_prompt_is_an_operator() {
    let context = CommandContext::Console;
    assert_eq!(context.trust_level(&config()), TrustLevel::Operator);
    assert!(context.validate_power_level(100, UserPower::Unknown));
    assert_eq!(chat("@some:x").trust_level(&config()), TrustLevel::Trusted);
}

#[test]
fn power_levels_are_compared() {
    let context = chat("@some:x");
    assert!(context.validate_power_level(50, UserPower::Infinite));
    assert!(context.validate_power_level(50, UserPower::Level(50)));
    assert!(!context.validate_power_level(50, UserPower::Level(49)));
    assert!(!context.validate_power_level(0, UserPower::Unknown));
}

#[test]
fn commands_are_registered_once() {
    let mut console = all();
    assert_eq!(console.len(), 16);
    register_commands(&mut console);
    assert_eq!(console.len(), 16);
    assert_eq!(console.command_list().len(), 16);
    assert_eq!(Console::new().len(), 0);
}

fn give(
    name: &str,
    args: &[&str],
    context: &CommandContext,
) -> Result<Clearance, CommandError> {
    let args = args.iter().map(|s| s.to_string()).collect();
    all().run(name, args, context, &config())
}

#[test]
fn cleared_commands_keep_their_arguments() {
    let clearance = give("tweak", &["10", "a b"], &CommandContext::Console).unwrap();
    assert_eq!(clearance.command, Command::Tweak);
    assert_eq!(clearance.args, vec!["10".to_string(), "a b".to_string()]);
    assert_eq!(clearance.power, None);
    let clearance = give("info", &[], &CommandContext::Console).unwrap();
    assert_eq!(clearance.command, Command::Info);
    assert!(clearance.args.is_empty());
}

#[test]
fn aliases_reach_the_join_command() {
    let clearance = give("join", &["#a:x.org"], &chat("@op:x")).unwrap();
    assert_eq!(clearance.command, Command::JoinRoom);
    assert_eq!(clearance.args, vec!["#a:x.org".to_string()]);
    assert_eq!(join_target(&clearance.args), Ok("#a:x.org".to_string()));
}

#[test]
fn unknown_commands_are_refused() {
    for name in ["nothing", "", "Info"] {
        let result = give(name, &[], &CommandContext::Console);
        assert_eq!(result.unwrap_err(), CommandError::NoSuchCommand);
    }
    assert_eq!(CommandError::NoSuchCommand.message(), "Command does not exist");
}

#[test]
fn trust_decides_about_commands() {
    let result = give("join", &["#a:x"], &chat("@full:x"));
    assert_eq!(result.unwrap_err(), CommandError::InsufficientTrust);
    let clearance = give("join", &["#a:x"], &chat("@op:x")).unwrap();
    assert_eq!(clearance.power, None);
    let clearance = give("load", &[], &chat("@some:x")).unwrap();
    assert_eq!(clearance.power, Some(0));
    let result = give("load", &[], &chat("@else:x"));
    assert_eq!(result.unwrap_err(), CommandError::InsufficientTrust);
}

#[test]
fn more_trust_takes_nothing_away() {
    let levels = [
        TrustLevel::Untrusted, TrustLevel::Trusted, TrustLevel::FullTrusted, TrustLevel::Operator,
    ];
    for (name, needed, _) in all().command_list() {
        for level in levels {
            let cleared = all().clear(&name, vec![], level);
            assert_eq!(cleared.is_ok(), !level.is_below(&needed));
        }
    }
}

#[test]
fn power_confirms_a_clearance() {
    let cleared = all().clear("mode", vec![], TrustLevel::Operator).unwrap();
    assert_eq!(cleared.power, None);
    assert_eq!(cleared.confirm(&chat("@op:x"), UserPower::Unknown), Ok(()));
    let needed = Clearance {
        command: Command::RoomMode,
        args: vec![],
        power: Some(50),
    };
    assert_eq!(needed.confirm(&chat("@a:x"), UserPower::Level(50)), Ok(()));
    assert_eq!(
        needed.confirm(&chat("@a:x"), UserPower::Level(0)),
        Err(CommandError::InsufficientPower)
    );
    assert_eq!(needed.confirm(&CommandContext::Console, UserPower::Unknown), Ok(()));
}

#[test]
fn error_messages() {
    assert_eq!(CommandError::InsufficientTrust.message(), "Insufficient trust level");
    assert_eq!(CommandError::InsufficientPower.message(), "Insufficient power level");
    assert_eq!(CommandError::RoomOrAliasRequired.message(), "Room id/alias required");
    assert_eq!(CommandError::RoomRequired.message(), "Room id required");
    assert_eq!(CommandError::NoSuchRoom.message(), "Room does not exist");
    assert_eq!(
        CommandError::RoomRequiredOutsideChat.message(),
        "Room id required in non-chat context"
    );
    assert_eq!(CommandError::ModeRequired.message(), "Mode must be specified");
    assert_eq!(CommandError::UnknownMode.message(), "Matching variant not found");
    assert_eq!(
        CommandError::ModeRoomRequired.message(),
        "Room must be specified in non-chat context"
    );
    assert_eq!(CommandError::ChatOnly.message(), "Must be run from chat context");
    assert_eq!(CommandError::BadId("why".to_string()).message(), "why");
}

#[test]
fn chat_commands_follow_the_prefix() {
    let mut config = config();
    assert_eq!(chat_command(&config, true, "!t info"), Some("info".to_string()));
    assert_eq!(chat_command(&config, true, "info"), None);
    assert_eq!(chat_command(&config, false, "!t info"), None);
    config.prefix = String::new();
    assert_eq!(chat_command(&config, true, ""), None);
    assert_eq!(chat_command(&config, true, "info"), Some("info".to_string()));
    config.enable_chat = false;
    assert_eq!(chat_command(&config, true, "info"), None);
}

#[test]
fn commands_in_a_chat_are_answered() {
    let message = EventRef { event_id: "$e".to_string(), sender: "@a:x".to_string() };
    assert_eq!(run_message(None, message.clone()), MessageCommandResult::NotHandled);
    assert_eq!(
        run_message(Some(Ok(None)), message.clone()),
        MessageCommandResult::HandledWithResponse(Response::Reaction {
            event_id: "$e".to_string(),
            key: "✅".to_string(),
        })
    );
    assert_eq!(
        run_message(Some(Ok(Some("out".to_string()))), message.clone()),
        MessageCommandResult::HandledWithResponse(Response::Message {
            text: "out".to_string(),
            reply_to: Some(message.clone()),
        })
    );
    assert_eq!(
        run_message(Some(Err("why".to_string())), message.clone()),
        MessageCommandResult::HandledWithResponse(Response::Message {
            text: "error executing command: why".to_string(),
            reply_to: Some(message),
        })
    );
}
