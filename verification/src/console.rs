//! The console: who may run which command, and how a chat message becomes one.

use vstd::prelude::*;
use crate::bot::{EventRef, MessageCommandResult, Response, ResponseView};
use crate::commands::Command;
use crate::names::NameMap;
use crate::text::{strip_prefix, texts};
use crate::tweak::opt_text;

verus! {

/// How far a user is trusted.
#[derive(Debug, Clone, Copy, PartialEq, Eq, Structural)]
pub enum TrustLevel {
    Untrusted,
    Trusted,
    FullTrusted,
    Operator,
}

impl TrustLevel {
    /// The place of the level among the levels, from the least trust to the most.
    pub open spec fn rank(self) -> int {
        match self {
            TrustLevel::Untrusted => 0,
            TrustLevel::Trusted => 1,
            TrustLevel::FullTrusted => 2,
            TrustLevel::Operator => 3,
        }
    }

    /// The name of the level.
    pub open spec fn title(self) -> Seq<char> {
        match self {
            TrustLevel::Untrusted => "Untrusted"@,
            TrustLevel::Trusted => "Trusted"@,
            TrustLevel::FullTrusted => "FullTrusted"@,
            TrustLevel::Operator => "Operator"@,
        }
    }

    /// Whether the level is below another.
    pub open spec fn below(self, other: TrustLevel) -> bool {
        self.rank() < other.rank()
    }

    /// Whether a user of this level need not have a power level.
    pub open spec fn needs_no_power(self) -> bool {
        self.rank() >= TrustLevel::FullTrusted.rank()
    }

    /// The place of the level among the levels.
    fn place(&self) -> (n: u8)
        ensures
            n == self.rank(),
    {
        match self {
            TrustLevel::Untrusted => 0,
            TrustLevel::Trusted => 1,
            TrustLevel::FullTrusted => 2,
            TrustLevel::Operator => 3,
        }
    }

    /// The name of the level.
    pub fn name(&self) -> (s: String)
        ensures
            s@ == self.title(),
    {
        match self {
            TrustLevel::Untrusted => "Untrusted".to_owned(),
            TrustLevel::Trusted => "Trusted".to_owned(),
            TrustLevel::FullTrusted => "FullTrusted".to_owned(),
            TrustLevel::Operator => "Operator".to_owned(),
        }
    }

    /// Whether the level is below another.
    pub fn is_below(&self, other: &TrustLevel) -> (r: bool)
        ensures
            r == (self.rank() < other.rank()),
            r == self.below(*other),
    {
        self.place() < other.place()
    }

    /// Whether a user of this level need not have a power level.
    pub fn bypass_pl_checks(&self) -> (r: bool)
        ensures
            r == (self.rank() >= TrustLevel::FullTrusted.rank()),
            r == self.needs_no_power(),
    {
        self.place() >= TrustLevel::FullTrusted.place()
    }
}

impl Default for TrustLevel {
    fn default() -> (level: Self)
        ensures
            level == TrustLevel::Untrusted,
    {
        TrustLevel::Untrusted
    }
}

/// The configuration of the console.
pub struct ConsoleConfig {
    pub enable_chat: bool,
    pub prefix: String,
    pub trust_levels: NameMap<TrustLevel>,
}

/// The trust that a table of levels gives to a user: the user's own entry, or the entry
/// `default`, or none.
pub open spec fn configured_trust(
    levels: Map<Seq<char>, TrustLevel>,
    user: Seq<char>,
) -> TrustLevel {
    if levels.contains_key(user) {
        levels[user]
    } else if levels.contains_key("default"@) {
        levels["default"@]
    } else {
        TrustLevel::Untrusted
    }
}

impl ConsoleConfig {
    /// How far a user is trusted.
    pub fn trust_level(&self, user_id: &str) -> (level: TrustLevel)
        ensures
            level == configured_trust(self.trust_levels@, user_id@),
    {
        match self.trust_levels.get(user_id) {
            Some(level) => level,
            None => match self.trust_levels.get("default") {
                Some(level) => level,
                None => TrustLevel::default(),
            },
        }
    }
}

/// Where a command was given.
#[derive(Debug)]
pub enum CommandContext {
    /// At the prompt of the program.
    Console,
    /// In a message to a room.
    Chat { room_id: String, message: EventRef },
}

/// The power level of a user in a room.
#[derive(Debug, Clone, Copy, PartialEq, Eq, Structural)]
pub enum UserPower {
    /// Above every level.
    Infinite,
    /// A level.
    Level(i64),
    /// A kind of level that is not known.
    Unknown,
}

/// How far the giver of a command is trusted: whoever sits at the prompt is an operator.
pub open spec fn context_trust(
    context: CommandContext,
    levels: Map<Seq<char>, TrustLevel>,
) -> TrustLevel {
    match context {
        CommandContext::Console => TrustLevel::Operator,
        CommandContext::Chat { message, .. } => configured_trust(levels, message.sender@),
    }
}

/// Whether the giver of a command has at least a power level.
pub open spec fn has_power(context: CommandContext, needed: int, power: UserPower) -> bool {
    context is Console || match power {
        UserPower::Infinite => true,
        UserPower::Level(level) => level >= needed,
        UserPower::Unknown => false,
    }
}

impl CommandContext {
    /// How far the giver of the command is trusted.
    pub fn trust_level(&self, config: &ConsoleConfig) -> (level: TrustLevel)
        ensures
            level == context_trust(*self, config.trust_levels@),
    {
        match self {
            CommandContext::Console => TrustLevel::Operator,
            CommandContext::Chat { message, .. } => config.trust_level(message.sender.as_str()),
        }
    }

    /// Whether the giver of the command has at least a power level, given the level that
    /// the giver has in the room.
    pub fn validate_power_level(&self, pl: i32, power: UserPower) -> (r: bool)
        ensures
            r == has_power(*self, pl as int, power),
    {
        match self {
            CommandContext::Console => true,
            CommandContext::Chat { .. } => match power {
                UserPower::Infinite => true,
                UserPower::Level(level) => level >= pl as i64,
                UserPower::Unknown => false,
            },
        }
    }
}

/// Why a command was not run.
#[derive(Debug, PartialEq, Eq)]
pub enum CommandError {
    NoSuchCommand,
    InsufficientTrust,
    InsufficientPower,
    /// No room was named to join.
    RoomOrAliasRequired,
    /// No room was named to leave.
    RoomRequired,
    /// The named room is not one of the bot's.
    NoSuchRoom,
    /// No room was named outside of a chat.
    RoomRequiredOutsideChat,
    /// No mode was named.
    ModeRequired,
    /// No mode has the given name.
    UnknownMode,
    /// No room was named for a mode outside of a chat.
    ModeRoomRequired,
    /// The command makes sense in a chat only.
    ChatOnly,
    /// An identifier is none, for the reason given.
    BadId(String),
}

impl CommandError {
    /// The message shown for the error.
    pub open spec fn text(self) -> Seq<char> {
        match self {
            CommandError::NoSuchCommand => "Command does not exist"@,
            CommandError::InsufficientTrust => "Insufficient trust level"@,
            CommandError::InsufficientPower => "Insufficient power level"@,
            CommandError::RoomOrAliasRequired => "Room id/alias required"@,
            CommandError::RoomRequired => "Room id required"@,
            CommandError::NoSuchRoom => "Room does not exist"@,
            CommandError::RoomRequiredOutsideChat => "Room id required in non-chat context"@,
            CommandError::ModeRequired => "Mode must be specified"@,
            CommandError::UnknownMode => "Matching variant not found"@,
            CommandError::ModeRoomRequired => "Room must be specified in non-chat context"@,
            CommandError::ChatOnly => "Must be run from chat context"@,
            CommandError::BadId(message) => message@,
        }
    }

    /// The message shown for the error.
    pub fn message(&self) -> (s: String)
        ensures
            s@ == self.text(),
    {
        match self {
            CommandError::NoSuchCommand => "Command does not exist".to_owned(),
            CommandError::InsufficientTrust => "Insufficient trust level".to_owned(),
            CommandError::InsufficientPower => "Insufficient power level".to_owned(),
            CommandError::RoomOrAliasRequired => "Room id/alias required".to_owned(),
            CommandError::RoomRequired => "Room id required".to_owned(),
            CommandError::NoSuchRoom => "Room does not exist".to_owned(),
            CommandError::RoomRequiredOutsideChat => {
                "Room id required in non-chat context".to_owned()
            },
            CommandError::ModeRequired => "Mode must be specified".to_owned(),
            CommandError::UnknownMode => "Matching variant not found".to_owned(),
            CommandError::ModeRoomRequired => {
                "Room must be specified in non-chat context".to_owned()
            },
            CommandError::ChatOnly => "Must be run from chat context".to_owned(),
            CommandError::BadId(message) => message.clone(),
        }
    }
}

/// A command that may be run, once the power level is there.
#[derive(Debug)]
pub struct Clearance {
    pub command: Command,
    pub args: Vec<String>,
    /// The power level that the giver must have, where one is needed.
    pub power: Option<i32>,
}

/// Whether a command may be run by somebody of the given trust, and what power level
/// it takes. `power` is none where the trust makes up for it.
pub open spec fn power_needed(command: Command, trust: TrustLevel) -> Result<
    Option<i32>,
    CommandError,
> {
    if trust.rank() < command.trust().rank() {
        Err(CommandError::InsufficientTrust)
    } else if trust.rank() >= TrustLevel::FullTrusted.rank() {
        Ok(None)
    } else {
        Ok(Some(command.power()))
    }
}

/// What becomes of a parsed command line of somebody of the given trust.
pub open spec fn cleared(
    table: Map<Seq<char>, Command>,
    name: Seq<char>,
    args: Seq<Seq<char>>,
    trust: TrustLevel,
) -> Result<(Command, Seq<Seq<char>>, Option<i32>), CommandError> {
    if !table.contains_key(name) {
        Err(CommandError::NoSuchCommand)
    } else {
        match power_needed(table[name], trust) {
            Ok(power) => Ok((table[name], args, power)),
            Err(error) => Err(error),
        }
    }
}

/// The parts of a clearance.
pub open spec fn clearance_view(r: Result<Clearance, CommandError>) -> Result<
    (Command, Seq<Seq<char>>, Option<i32>),
    CommandError,
> {
    match r {
        Ok(c) => Ok((c.command, texts(c.args@), c.power)),
        Err(error) => Err(error),
    }
}

/// A row of the list of commands.
pub open spec fn command_row(row: (String, TrustLevel, i32)) -> (Seq<char>, TrustLevel, i32) {
    (row.0@, row.1, row.2)
}

/// The commands that can be given.
pub struct Console {
    commands: NameMap<Command>,
}

impl View for Console {
    type V = Map<Seq<char>, Command>;

    closed spec fn view(&self) -> Map<Seq<char>, Command> {
        self.commands@
    }
}

impl Console {
    /// The names of the commands, in the order in which they were entered.
    pub closed spec fn names(&self) -> Seq<Seq<char>> {
        self.commands.names()
    }

    /// A console without commands.
    pub fn new() -> (c: Self)
        ensures
            c@ == Map::<Seq<char>, Command>::empty(),
            c.names() == Seq::<Seq<char>>::empty(),
    {
        Console { commands: NameMap::new() }
    }

    /// The number of commands.
    pub fn len(&self) -> (n: usize)
        ensures
            n == self@.len(),
            n == self.names().len(),
    {
        self.commands.len()
    }

    /// The commands with the trust and the power level that they take, each once.
    pub fn command_list(&self) -> (out: Vec<(String, TrustLevel, i32)>)
        ensures
            out@.map_values(|row: (String, TrustLevel, i32)| command_row(row))
                == self.names().map_values(
                |name: Seq<char>| (name, self@[name].trust(), self@[name].power()),
            ),
            self.names().no_duplicates(),
            forall|name: Seq<char>| self.names().contains(name) <==> self@.contains_key(name),
    {
        let names = self.commands.list();
        let mut out: Vec<(String, TrustLevel, i32)> = Vec::new();
        let mut i: usize = 0;
        while i < names.len()
            invariant
                i <= names.len(),
                texts(names@) == self.names(),
                forall|name: Seq<char>| self.names().contains(name) <==> self@.contains_key(name),
                out@.len() == i,
                forall|k: int|
                    0 <= k < i ==> command_row(#[trigger] out@[k]) == (
                        self.names()[k],
                        self@[self.names()[k]].trust(),
                        self@[self.names()[k]].power(),
                    ),
            decreases names.len() - i,
        {
            let name = names[i].clone();
            assert(self.names()[i as int] == name@);
            assert(self.names().contains(name@));
            match self.commands.get(name.as_str()) {
                Some(command) => {
                    out.push((name, command.trust_level(), command.power_level()));
                },
                None => {
                    assert(false);
                },
            }
            i += 1;
        }
        out
    }

    /// Enters a command under its name.
    pub fn register(&mut self, command: Command)
        ensures
            final(self)@ == old(self)@.insert(command.title(), command),
            final(self).names() == (if old(self)@.contains_key(command.title()) {
                old(self).names()
            } else {
                old(self).names().push(command.title())
            }),
    {
        self.commands.insert(command.name(), command);
    }

    /// Finds the command of a parsed line and decides whether somebody of the given trust
    /// may run it.
    pub fn clear(&self, name: &str, args: Vec<String>, trust: TrustLevel) -> (r: Result<
        Clearance,
        CommandError,
    >)
        ensures
            clearance_view(r) == cleared(self@, name@, texts(args@), trust),
    {
        match self.commands.get(name) {
            None => Err(CommandError::NoSuchCommand),
            Some(command) => {
                if trust.is_below(&command.trust_level()) {
                    return Err(CommandError::InsufficientTrust);
                }
                let power: Option<i32> = if trust.bypass_pl_checks() {
                    None
                } else {
                    Some(command.power_level())
                };
                Ok(Clearance { command, args, power })
            },
        }
    }

    /// Finds the command of a parsed line and decides whether its giver may run it.
    pub fn run(
        &self,
        name: &str,
        args: Vec<String>,
        context: &CommandContext,
        config: &ConsoleConfig,
    ) -> (r: Result<Clearance, CommandError>)
        ensures
            clearance_view(r) == cleared(
                self@,
                name@,
                texts(args@),
                context_trust(*context, config.trust_levels@),
            ),
    {
        self.clear(name, args, context.trust_level(config))
    }
}

impl Clearance {
    /// Decides by the power level of the giver, where one is needed.
    pub fn confirm(&self, context: &CommandContext, power: UserPower) -> (r: Result<
        (),
        CommandError,
    >)
        ensures
            r == (match self.power {
                Some(needed) => if has_power(*context, needed as int, power) {
                    Ok(())
                } else {
                    Err(CommandError::InsufficientPower)
                },
                None => Ok(()),
            }),
            r == confirmed(self.power, *context, power),
    {
        match self.power {
            Some(needed) => if context.validate_power_level(needed, power) {
                Ok(())
            } else {
                Err(CommandError::InsufficientPower)
            },
            None => Ok(()),
        }
    }
}

/// What becomes of a cleared command, by the power level that it takes and the one that its
/// giver has.
pub open spec fn confirmed(
    needed: Option<i32>,
    context: CommandContext,
    power: UserPower,
) -> Result<(), CommandError> {
    match needed {
        Some(level) => if has_power(context, level as int, power) {
            Ok(())
        } else {
            Err(CommandError::InsufficientPower)
        },
        None => Ok(()),
    }
}

/// The command line of a chat message, where it has one.
pub open spec fn chat_line(
    enabled: bool,
    prefix: Seq<char>,
    is_text: bool,
    body: Seq<char>,
) -> Option<Seq<char>> {
    if enabled && is_text && body.len() > 0 && prefix.is_prefix_of(body) {
        Some(body.skip(prefix.len() as int))
    } else {
        None
    }
}

/// The command line that a chat message holds: what follows the prefix in a text
/// message, where chat commands are enabled.
pub fn chat_command(config: &ConsoleConfig, is_text: bool, body: &str) -> (r: Option<String>)
    ensures
        match r {
            Some(line) => config.enable_chat && is_text && body@.len() > 0 && body@
                == config.prefix@ + line@,
            None => !config.enable_chat || !is_text || body@.len() == 0
                || !config.prefix@.is_prefix_of(body@),
        },
        opt_text(r) == chat_line(config.enable_chat, config.prefix@, is_text, body@),
{
    if !config.enable_chat || !is_text || body.is_empty() {
        return None;
    }
    let line = strip_prefix(body, config.prefix.as_str());
    proof {
        if line is Some {
            let rest = line->0@;
            assert(body@ == config.prefix@ + rest);
            assert(config.prefix@.is_prefix_of(body@)) by {
                assert(body@.subrange(0, config.prefix@.len() as int) == config.prefix@);
            }
            assert(body@.skip(config.prefix@.len() as int) == rest);
        }
    }
    line
}

/// The response to a command given in a chat: a check mark where there is nothing to
/// say, else the output or the error as a reply.
pub open spec fn command_reply(
    outcome: Result<Option<String>, String>,
    event_id: Seq<char>,
    sender: Seq<char>,
) -> ResponseView {
    match outcome {
        Ok(None) => ResponseView::Reaction { event_id, key: "\u{2705}"@ },
        Ok(Some(out)) => ResponseView::Message { text: out@, reply_to: Some((event_id, sender)) },
        Err(error) => ResponseView::Message {
            text: "error executing command: "@ + error@,
            reply_to: Some((event_id, sender)),
        },
    }
}

/// The response of the console to a chat message, by the outcome of its command; none for a
/// message without a command.
pub open spec fn console_answer(
    outcome: Option<Result<Option<String>, String>>,
    event_id: Seq<char>,
    sender: Seq<char>,
) -> Option<ResponseView> {
    match outcome {
        Some(done) => Some(command_reply(done, event_id, sender)),
        None => None,
    }
}

/// What the console makes of a chat message: `outcome` is the outcome of its command, or
/// `None` for a message that holds none.
pub fn run_message(
    outcome: Option<Result<Option<String>, String>>,
    message: EventRef,
) -> (r: MessageCommandResult)
    ensures
        match outcome {
            None => r is NotHandled,
            Some(outcome) => r matches MessageCommandResult::HandledWithResponse(response)
                && response@ == command_reply(outcome, message.event_id@, message.sender@),
        },
        match r {
            MessageCommandResult::HandledWithResponse(response) => console_answer(
                outcome,
                message.event_id@,
                message.sender@,
            ) == Some(response@),
            MessageCommandResult::NotHandled => console_answer(
                outcome,
                message.event_id@,
                message.sender@,
            ) is None,
            MessageCommandResult::Handled => false,
        },
{
    match outcome {
        None => MessageCommandResult::NotHandled,
        Some(outcome) => {
            let response = match outcome {
                Ok(None) => Response::reaction(message.event_id, "\u{2705}".to_owned()),
                Ok(Some(out)) => Response::message(out.as_str(), Some(message)),
                Err(error) => {
                    let mut text = "error executing command: ".to_owned();
                    text.append(error.as_str());
                    Response::message(text.as_str(), Some(message))
                },
            };
            MessageCommandResult::HandledWithResponse(response)
        },
    }
}

/// Whoever sits at the prompt may run every command, without a power level.
pub proof fn law_console_may_all(
    table: Map<Seq<char>, Command>,
    levels: Map<Seq<char>, TrustLevel>,
    name: Seq<char>,
    args: Seq<Seq<char>>,
)
    requires
        table.contains_key(name),
    ensures
        cleared(table, name, args, context_trust(CommandContext::Console, levels)) == Ok::<
            (Command, Seq<Seq<char>>, Option<i32>),
            CommandError,
        >((table[name], args, None)),
{
}

/// More trust never takes a command away.
pub proof fn law_trust_is_monotone(command: Command, less: TrustLevel, more: TrustLevel)
    requires
        less.rank() <= more.rank(),
        power_needed(command, less) is Ok,
    ensures
        power_needed(command, more) is Ok,
        power_needed(command, less) == Ok::<Option<i32>, CommandError>(None) ==> power_needed(
            command,
            more,
        ) == Ok::<Option<i32>, CommandError>(None),
{
}

/// Nobody runs a command that takes more trust than they have.
pub proof fn law_trust_is_needed(
    table: Map<Seq<char>, Command>,
    name: Seq<char>,
    args: Seq<Seq<char>>,
    trust: TrustLevel,
)
    requires
        table.contains_key(name),
    ensures
        cleared(table, name, args, trust) is Ok <==> table[name].trust().rank() <= trust.rank(),
{
}

/// A name that no command has is refused whatever the trust.
pub proof fn law_unknown_command(
    table: Map<Seq<char>, Command>,
    name: Seq<char>,
    args: Seq<Seq<char>>,
    trust: TrustLevel,
)
    requires
        !table.contains_key(name),
    ensures
        cleared(table, name, args, trust) == Err::<
            (Command, Seq<Seq<char>>, Option<i32>),
            CommandError,
        >(CommandError::NoSuchCommand),
{
}

/// The levels of trust, from the least to the most; a user whose level is one of the upper
/// two needs no power level.
pub proof fn law_trust_levels(level: TrustLevel, other: TrustLevel)
    ensures
        TrustLevel::Untrusted.below(TrustLevel::Trusted),
        TrustLevel::Trusted.below(TrustLevel::FullTrusted),
        TrustLevel::FullTrusted.below(TrustLevel::Operator),
        level != other ==> (level.below(other) <==> !other.below(level)),
        !level.below(level),
        level.below(other) <==> level.rank() < other.rank(),
        level.needs_no_power() <==> level == TrustLevel::FullTrusted || level
            == TrustLevel::Operator,
{
}

/// Below is below whatever is above.
pub proof fn law_trust_levels_are_ordered(a: TrustLevel, b: TrustLevel, c: TrustLevel)
    requires
        a.below(b),
        b.below(c),
    ensures
        a.below(c),
{
}

/// In a chat a power level suffices exactly where it is at least the one that is needed: the
/// needed one does, the one below it does not, and more power is never less. A room's
/// creator always has enough, and a level of an unknown kind never is.
pub proof fn law_power_levels(context: CommandContext, needed: int, level: i64, more: i64)
    requires
        context is Chat,
    ensures
        level == needed ==> has_power(context, needed, UserPower::Level(level)),
        level == needed - 1 ==> !has_power(context, needed, UserPower::Level(level)),
        level <= more && has_power(context, needed, UserPower::Level(level)) ==> has_power(
            context,
            needed,
            UserPower::Level(more),
        ),
        has_power(context, needed, UserPower::Level(level)) <==> needed <= level,
        has_power(context, needed, UserPower::Infinite),
        !has_power(context, needed, UserPower::Unknown),
{
}

/// At the prompt every power level is there.
pub proof fn law_prompt_has_power(needed: int, power: UserPower)
    ensures
        has_power(CommandContext::Console, needed, power),
{
}

/// A cleared command that takes no power level is run; one that takes a level is run for
/// that level and every higher one, at the prompt and in every room, and refused for want
/// of power below it.
pub proof fn law_power_confirms(
    needed: i32,
    context: CommandContext,
    power: UserPower,
    level: i64,
    more: i64,
)
    ensures
        confirmed(None, context, power) == Ok::<(), CommandError>(()),
        confirmed(Some(needed), CommandContext::Console, power) == Ok::<(), CommandError>(()),
        context is Chat && needed <= level ==> confirmed(
            Some(needed),
            context,
            UserPower::Level(level),
        ) == Ok::<(), CommandError>(()),
        context is Chat && needed > level ==> confirmed(
            Some(needed),
            context,
            UserPower::Level(level),
        ) == Err::<(), CommandError>(CommandError::InsufficientPower),
        level <= more && confirmed(Some(needed), context, UserPower::Level(level)) is Ok
            ==> confirmed(Some(needed), context, UserPower::Level(more)) is Ok,
        confirmed(Some(needed), context, UserPower::Infinite) == Ok::<(), CommandError>(()),
        context is Chat ==> confirmed(Some(needed), context, UserPower::Unknown) == Err::<
            (),
            CommandError,
        >(CommandError::InsufficientPower),
{
}

/// A command that a user is trusted with takes no power level of the upper two levels of
/// trust, and of the others the level of the command.
pub proof fn law_power_that_is_taken(command: Command, trust: TrustLevel)
    ensures
        power_needed(command, trust) == Err::<Option<i32>, CommandError>(
            CommandError::InsufficientTrust,
        ) <==> trust.below(command.trust()),
        !trust.below(command.trust()) && (trust == TrustLevel::FullTrusted || trust
            == TrustLevel::Operator) ==> power_needed(command, trust) == Ok::<
            Option<i32>,
            CommandError,
        >(None),
        !trust.below(command.trust()) && (trust == TrustLevel::Untrusted || trust
            == TrustLevel::Trusted) ==> power_needed(command, trust) == Ok::<
            Option<i32>,
            CommandError,
        >(Some(command.power())),
{
}

/// A name that a command has leads to that command with the arguments as they were given,
/// where the giver is trusted with it.
pub proof fn law_known_command(
    table: Map<Seq<char>, Command>,
    name: Seq<char>,
    args: Seq<Seq<char>>,
    trust: TrustLevel,
)
    requires
        table.contains_key(name),
    ensures
        trust.below(table[name].trust()) ==> cleared(table, name, args, trust) == Err::<
            (Command, Seq<Seq<char>>, Option<i32>),
            CommandError,
        >(CommandError::InsufficientTrust),
        !trust.below(table[name].trust()) ==> cleared(table, name, args, trust) == Ok::<
            (Command, Seq<Seq<char>>, Option<i32>),
            CommandError,
        >((table[name], args, power_needed(table[name], trust)->Ok_0)),
{
}

/// A user has the trust of their own entry, or that of the entry `default`, or none; entries
/// of other users do not matter. Whoever sits at the prompt is an operator, and in a chat
/// it is the sender of the message who counts.
pub proof fn law_configured_trust(
    levels: Map<Seq<char>, TrustLevel>,
    user: Seq<char>,
    level: TrustLevel,
    other: Seq<char>,
    room_id: String,
    message: EventRef,
)
    ensures
        configured_trust(levels.insert(user, level), user) == level,
        !levels.contains_key(user) && user != "default"@ ==> configured_trust(
            levels.insert("default"@, level),
            user,
        ) == level,
        !levels.contains_key(user) && !levels.contains_key("default"@) ==> configured_trust(
            levels,
            user,
        ) == TrustLevel::Untrusted,
        other != user && other != "default"@ ==> configured_trust(levels.insert(other, level), user)
            == configured_trust(levels, user),
        context_trust(CommandContext::Console, levels) == TrustLevel::Operator,
        context_trust(CommandContext::Chat { room_id, message }, levels) == configured_trust(
            levels,
            message.sender@,
        ),
{
}

/// A text message that begins with the prefix is a command line from behind the prefix on,
/// where chat commands are enabled; an empty message, a message of another kind and one
/// without the prefix are none.
pub proof fn law_chat_lines(prefix: Seq<char>, line: Seq<char>, body: Seq<char>, is_text: bool)
    ensures
        prefix.len() + line.len() > 0 ==> chat_line(true, prefix, true, prefix + line) == Some(line),
        chat_line(false, prefix, is_text, body) is None,
        chat_line(true, prefix, false, body) is None,
        body.len() == 0 ==> chat_line(true, prefix, is_text, body) is None,
        chat_line(true, prefix, true, body) matches Some(rest) ==> body == prefix + rest,
{
    let whole = prefix + line;
    assert(whole.subrange(0, prefix.len() as int) == prefix);
    assert(prefix.is_prefix_of(whole));
    assert(whole.skip(prefix.len() as int) == line);
    if prefix.is_prefix_of(body) {
        assert(body == prefix + body.skip(prefix.len() as int)) by {
            assert(body.subrange(0, prefix.len() as int) == prefix);
        }
    }
}

/// The answer to a command in a chat refers to the message that gave it: by a check mark
/// where there is nothing to say, and by a reply with the output or the error otherwise.
pub proof fn law_command_replies(
    out: String,
    error: String,
    event_id: Seq<char>,
    sender: Seq<char>,
)
    ensures
        command_reply(Ok(None), event_id, sender) == (ResponseView::Reaction {
            event_id,
            key: seq!['\u{2705}'],
        }),
        command_reply(Ok(Some(out)), event_id, sender) == (ResponseView::Message {
            text: out@,
            reply_to: Some((event_id, sender)),
        }),
        command_reply(Err(error), event_id, sender) == (ResponseView::Message {
            text: "error executing command: "@ + error@,
            reply_to: Some((event_id, sender)),
        }),
{
    reveal_strlit("\u{2705}");
    assert("\u{2705}"@ == seq!['\u{2705}']);
}

/// The names of the levels of trust.
pub proof fn law_trust_names()
    ensures
        TrustLevel::Untrusted.title() == "Untrusted"@,
        TrustLevel::Trusted.title() == "Trusted"@,
        TrustLevel::FullTrusted.title() == "FullTrusted"@,
        TrustLevel::Operator.title() == "Operator"@,
{
}

/// Every command in a chat is answered, and no other message is.
pub proof fn law_console_answers(
    outcome: Result<Option<String>, String>,
    event_id: Seq<char>,
    sender: Seq<char>,
)
    ensures
        console_answer(Some(outcome), event_id, sender) == Some(
            command_reply(outcome, event_id, sender),
        ),
        console_answer(None, event_id, sender) is None,
{
}

}
