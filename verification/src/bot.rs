//! Messages, responses and the queue of responses.

use vstd::prelude::*;
use crate::chance::random_between;
use crate::clock::{is_longer, longer_than, sent_second, Moment};
use crate::filters::lowercase_of;
use crate::ids::{check_user_id, user_id_error};
use crate::text::{
    byte_len, contains, contains_text, law_contained_splits, law_contains_middle, law_until,
    lemma_until_is, same_text, slice_text, to_chars, until,
};
use crate::tweak::{opt_text, Keyword, TweakMode, TweakerConfig};

verus! {

/// Whether a text mentions a keyword, whatever the case of either.
pub open spec fn mentions(text: Seq<char>, keyword: Keyword) -> bool {
    contains_text(lowercase_of(text), lowercase_of(keyword.word()))
}

/// The first keyword that a text mentions.
pub open spec fn mentioned(text: Seq<char>, keywords: Seq<Keyword>) -> Option<Keyword>
    decreases keywords.len(),
{
    if keywords.len() == 0 {
        None
    } else if mentions(text, keywords[0]) {
        Some(keywords[0])
    } else {
        mentioned(text, keywords.skip(1))
    }
}

/// The first keyword that a text mentions.
pub fn find_keyword(text: &str, keywords: &Vec<Keyword>) -> (r: Option<Keyword>)
    ensures
        r == mentioned(text@, keywords@),
{
    let lower = text.to_lowercase();
    let mut i: usize = 0;
    assert(keywords@.skip(0) == keywords@);
    while i < keywords.len()
        invariant
            i <= keywords.len(),
            lower@ == lowercase_of(text@),
            mentioned(text@, keywords@.skip(i as int)) == mentioned(text@, keywords@),
        decreases keywords.len() - i,
    {
        let keyword = &keywords[i];
        let ghost rest = keywords@.skip(i as int);
        assert(rest[0] == *keyword);
        assert(rest.skip(1) == keywords@.skip(i + 1));
        let word = keyword.keyword();
        if contains(lower.as_str(), word.as_str().to_lowercase().as_str()) {
            return Some(keyword.clone());
        }
        i += 1;
    }
    None
}

/// Whether a message answers one of the bot's own, by the sender of the message that it
/// answers.
pub open spec fn answers_bot(sender: Option<Seq<char>>, client: Seq<char>) -> bool {
    sender == Some(client)
}

/// The keyword that is noted of a message: none of an empty one.
pub open spec fn noted_keyword(body: Seq<char>, keywords: Seq<Keyword>) -> Option<Keyword> {
    if body.len() == 0 {
        None
    } else {
        mentioned(body, keywords)
    }
}

/// Whether a message is noted as an answer to the bot: never an empty one.
pub open spec fn noted_reply(body: Seq<char>, reply: bool) -> bool {
    body.len() != 0 && reply
}

/// Whether a message answers one of the bot's own: `sender` is the sender of the
/// message that it answers, where there is one and it could be read.
pub fn is_reply_to_self(sender: &Option<String>, client_id: &str) -> (r: bool)
    ensures
        r == (opt_text(*sender) == Some(client_id@)),
        r == answers_bot(opt_text(*sender), client_id@),
{
    match sender {
        Some(s) => same_text(s.as_str(), client_id),
        None => false,
    }
}

/// What the bot notes about a message before it decides.
#[derive(Debug)]
pub struct MessageProps {
    pub keyword: Option<Keyword>,
    pub reply: bool,
    pub timestamp: Moment,
    pub now: Moment,
}

impl MessageProps {
    /// The notes on a message with the given text, sent at the given Unix time.
    /// `reply` says whether it answers the bot; an empty message is noted as no answer.
    pub fn for_message(
        body: &str,
        reply: bool,
        sent_secs: i64,
        now: Moment,
        keywords: &Vec<Keyword>,
    ) -> (props: Self)
        ensures
            props.keyword == (if body@.len() == 0 {
                None
            } else {
                mentioned(body@, keywords@)
            }),
            props.keyword == noted_keyword(body@, keywords@),
            props.reply == (body@.len() != 0 && reply),
            props.reply == noted_reply(body@, reply),
            props.timestamp == Moment::at(sent_second(sent_secs), 0),
            props.now == now,
    {
        let timestamp = Moment::of_message(sent_secs);
        if body.is_empty() {
            return MessageProps { keyword: None, reply: false, timestamp, now };
        }
        MessageProps { keyword: find_keyword(body, keywords), reply, timestamp, now }
    }
}

/// A message that a response can refer to.
#[derive(Debug, PartialEq, Eq)]
pub struct EventRef {
    pub event_id: String,
    pub sender: String,
}

impl Clone for EventRef {
    fn clone(&self) -> (r: Self)
        ensures
            r == *self,
    {
        EventRef { event_id: self.event_id.clone(), sender: self.sender.clone() }
    }
}

/// Something to send to a room.
#[derive(Debug, PartialEq, Eq)]
pub enum Response {
    /// Nothing.
    Nothing,
    /// A text, perhaps as a reply that mentions the sender of a message.
    Message { text: String, reply_to: Option<EventRef> },
    /// A reaction to the message with the given id.
    Reaction { event_id: String, key: String },
}

/// The characters of a `Response`.
pub enum ResponseView {
    Nothing,
    Message { text: Seq<char>, reply_to: Option<(Seq<char>, Seq<char>)> },
    Reaction { event_id: Seq<char>, key: Seq<char> },
}

/// The event id and the sender of an optional message.
pub open spec fn opt_event(o: Option<EventRef>) -> Option<(Seq<char>, Seq<char>)> {
    match o {
        Some(e) => Some((e.event_id@, e.sender@)),
        None => None,
    }
}

impl View for Response {
    type V = ResponseView;

    open spec fn view(&self) -> ResponseView {
        match self {
            Response::Nothing => ResponseView::Nothing,
            Response::Message { text, reply_to } => ResponseView::Message {
                text: text@,
                reply_to: opt_event(*reply_to),
            },
            Response::Reaction { event_id, key } => ResponseView::Reaction {
                event_id: event_id@,
                key: key@,
            },
        }
    }
}

/// A step on the way of a response into its room.
#[derive(Debug, Clone, Copy, PartialEq, Eq, Structural)]
pub enum SendStep {
    /// Wait for a number of seconds.
    Wait(u64),
    /// Show that the bot types.
    StartTyping,
    /// Type for as long as a text of this many bytes takes.
    TypeFor(usize),
    /// Send the response.
    Send,
    /// Show that the bot has stopped typing.
    StopTyping,
}

/// The steps on the way of a response that first waits `delay` seconds.
pub open spec fn send_steps(response: ResponseView, delay: u64) -> Seq<SendStep> {
    match response {
        ResponseView::Nothing => Seq::empty(),
        ResponseView::Message { text, .. } => seq![
            SendStep::Wait(delay),
            SendStep::StartTyping,
            SendStep::TypeFor(vstd::utf8::encode_utf8(text).len() as usize),
            SendStep::Send,
            SendStep::StopTyping,
        ],
        ResponseView::Reaction { .. } => seq![SendStep::Wait(delay), SendStep::Send],
    }
}

impl Response {
    /// A text, perhaps as a reply.
    pub fn message(text: &str, reply: Option<EventRef>) -> (r: Self)
        ensures
            r@ == (ResponseView::Message { text: text@, reply_to: opt_event(reply) }),
    {
        Response::Message { text: text.to_owned(), reply_to: reply }
    }

    /// A reaction to a message.
    pub fn reaction(event_id: String, text: String) -> (r: Self)
        ensures
            r@ == (ResponseView::Reaction { event_id: event_id@, key: text@ }),
    {
        Response::Reaction { event_id, key: text }
    }

    /// Whether there is nothing to send.
    pub fn is_nothing(&self) -> (r: bool)
        ensures
            r == (self@ is Nothing),
    {
        match self {
            Response::Nothing => true,
            _ => false,
        }
    }

    /// The steps on the way of the response, after a delay of `delay` seconds.
    pub fn send_after(&self, delay: u64) -> (steps: Vec<SendStep>)
        ensures
            steps@ == send_steps(self@, delay),
    {
        let mut steps: Vec<SendStep> = Vec::new();
        match self {
            Response::Nothing => {},
            Response::Message { text, .. } => {
                steps.push(SendStep::Wait(delay));
                steps.push(SendStep::StartTyping);
                steps.push(SendStep::TypeFor(byte_len(text.as_str())));
                steps.push(SendStep::Send);
                steps.push(SendStep::StopTyping);
            },
            Response::Reaction { .. } => {
                steps.push(SendStep::Wait(delay));
                steps.push(SendStep::Send);
            },
        }
        assert(steps@ =~= send_steps(self@, delay));
        steps
    }

    /// The steps on the way of the response, after a random delay: at least the least
    /// configured delay and less than the greatest.
    pub fn delay_type_send(&self, config: &TweakerConfig) -> (steps: Vec<SendStep>)
        requires
            self@ !is Nothing ==> config.delay_min < config.delay_max,
        ensures
            exists|delay: u64|
                (self@ !is Nothing ==> config.delay_min <= delay < config.delay_max) && steps@
                    == #[trigger] send_steps(self@, delay),
    {
        if self.is_nothing() {
            let steps: Vec<SendStep> = Vec::new();
            assert(steps@ == send_steps(self@, 0));
            return steps;
        }
        let delay: u64 = random_between(config.delay_min, config.delay_max - 1);
        self.send_after(delay)
    }
}

/// Responses that wait to be sent, each with its room.
pub struct ResponseQueue<R> {
    paused: bool,
    queue: Vec<(Response, R)>,
}

impl<R> ResponseQueue<R> {
    /// The responses that wait, the one added last at the end.
    pub closed spec fn waiting(&self) -> Seq<(Response, R)> {
        self.queue@
    }

    /// Whether the queue holds responses back.
    pub closed spec fn on_hold(&self) -> bool {
        self.paused
    }

    /// A queue without responses that does not hold any back.
    pub fn new() -> (q: Self)
        ensures
            q.waiting() == Seq::<(Response, R)>::empty(),
            !q.on_hold(),
    {
        ResponseQueue { paused: false, queue: Vec::new() }
    }

    /// The number of responses that wait.
    pub fn len(&self) -> (n: usize)
        ensures
            n == self.waiting().len(),
    {
        self.queue.len()
    }

    /// Adds a response for a room.
    pub fn add(&mut self, response: Response, room: R)
        ensures
            final(self).waiting() == old(self).waiting().push((response, room)),
            final(self).waiting() == queued(old(self).waiting(), (response, room)),
            final(self).on_hold() == old(self).on_hold(),
    {
        self.queue.push((response, room));
    }

    /// Drops all responses.
    pub fn purge(&mut self)
        ensures
            final(self).waiting() == Seq::<(Response, R)>::empty(),
            final(self).on_hold() == old(self).on_hold(),
    {
        self.queue = Vec::new();
    }

    /// Whether the queue holds responses back.
    pub fn is_paused(&self) -> (r: bool)
        ensures
            r == self.on_hold(),
    {
        self.paused
    }

    /// Has the queue hold responses back, or let them go.
    pub fn set_paused(&mut self, paused: bool)
        ensures
            final(self).on_hold() == paused,
            final(self).waiting() == old(self).waiting(),
    {
        self.paused = paused;
    }

    /// Takes out the response that was added last.
    pub fn send_one(&mut self) -> (r: Option<(Response, R)>)
        ensures
            final(self).on_hold() == old(self).on_hold(),
            (r, final(self).waiting()) == sent_next(old(self).waiting(), false),
    {
        self.queue.pop()
    }

    /// Takes out the response to send in one round of the sending loop: none while the
    /// queue is on hold.
    pub fn send_round(&mut self) -> (r: Option<(Response, R)>)
        ensures
            final(self).on_hold() == old(self).on_hold(),
            (r, final(self).waiting()) == sent_next(old(self).waiting(), old(self).on_hold()),
    {
        if self.paused {
            return None;
        }
        self.send_one()
    }
}

/// The waiting responses after one was added.
pub open spec fn queued<R>(waiting: Seq<(Response, R)>, item: (Response, R)) -> Seq<(Response, R)> {
    waiting.push(item)
}

/// What a queue of waiting responses sends next, and what waits afterwards.
pub open spec fn sent_next<R>(waiting: Seq<(Response, R)>, on_hold: bool) -> (
    Option<(Response, R)>,
    Seq<(Response, R)>,
) {
    if on_hold || waiting.len() == 0 {
        (None, waiting)
    } else {
        (Some(waiting.last()), waiting.drop_last())
    }
}

/// What a queue sends next is what was added last, and what waited before still waits.
pub proof fn law_queue_last_in_first_out<R>(waiting: Seq<(Response, R)>, item: (Response, R))
    ensures
        sent_next(waiting.push(item), false) == (Some(item), waiting),
        sent_next(queued(waiting, item), false) == (Some(item), waiting),
        sent_next(Seq::<(Response, R)>::empty(), false) == (
            None::<(Response, R)>,
            Seq::<(Response, R)>::empty(),
        ),
{
    assert(waiting.push(item).drop_last() == waiting);
}

/// A queue on hold sends nothing and loses nothing.
pub proof fn law_queue_on_hold<R>(waiting: Seq<(Response, R)>)
    ensures
        sent_next(waiting, true) == (None::<(Response, R)>, waiting),
{
}

/// The pauses between attempts to join a room.
pub struct JoinRetry {
    delay: u64,
}

impl JoinRetry {
    /// The seconds to wait after the next failed attempt.
    pub closed spec fn secs(&self) -> u64 {
        self.delay
    }

    /// The pauses before any attempt has failed.
    pub fn new() -> (r: Self)
        ensures
            r.secs() == 2,
    {
        JoinRetry { delay: 2 }
    }

    /// The seconds to wait after the next failed attempt.
    pub fn delay(&self) -> (secs: u64)
        ensures
            secs == self.secs(),
    {
        self.delay
    }

    /// Notes a failed attempt: the seconds to wait before another one, which double
    /// with each attempt.
    pub fn failed(&mut self) -> (secs: u64)
        requires
            2 * old(self).secs() <= u64::MAX,
        ensures
            secs == old(self).secs(),
            final(self).secs() == 2 * old(self).secs(),
            final(self).secs() == later_delay(old(self).secs() as int),
    {
        let secs: u64 = self.delay;
        self.delay = secs * 2;
        secs
    }
}

/// The seconds to wait after a further failed attempt to join a room.
pub open spec fn later_delay(secs: int) -> int {
    2 * secs
}

/// How the bot gets into a room.
#[derive(Debug, PartialEq, Eq)]
pub enum JoinPlan {
    /// It knocks, perhaps with a reason.
    Knock(Option<String>),
    /// It joins.
    Join,
}

/// How the bot gets into a room.
pub open spec fn way_in(knock_rule: bool, knock_reason: Option<String>) -> JoinPlan {
    if knock_rule {
        JoinPlan::Knock(knock_reason)
    } else {
        JoinPlan::Join
    }
}

/// How the bot gets into a room: it knocks where that is the rule of the room.
pub fn join_or_knock(knock_rule: bool, knock_reason: &Option<String>) -> (plan: JoinPlan)
    ensures
        plan == (if knock_rule {
            JoinPlan::Knock(*knock_reason)
        } else {
            JoinPlan::Join
        }),
        plan == way_in(knock_rule, *knock_reason),
{
    if knock_rule {
        match knock_reason {
            Some(reason) => JoinPlan::Knock(Some(reason.clone())),
            None => JoinPlan::Knock(None),
        }
    } else {
        JoinPlan::Join
    }
}

/// Whether the bot follows an invitation.
pub open spec fn follows_invite(invited: Seq<char>, client: Seq<char>, joined: bool) -> bool {
    invited == client && !joined
}

/// Whether the bot follows an invitation: one to itself, to a room it has not joined.
pub fn on_invite(invited: &str, client_id: &str, joined: bool) -> (r: bool)
    ensures
        r == (invited@ == client_id@ && !joined),
        r == follows_invite(invited@, client_id@, joined),
{
    same_text(invited, client_id) && !joined
}

/// The note on a change of membership, where it bans the bot from a room.
pub open spec fn ban_text(room: Seq<char>, reason: Option<Seq<char>>) -> Seq<char> {
    "Banned from "@ + room + " for `"@ + (match reason {
        Some(r) => r,
        None => "<none>"@,
    }) + "`"@
}

/// The note on a change of membership of a user, where that bans the bot from a room.
pub open spec fn ban_note(
    member: Seq<char>,
    client: Seq<char>,
    is_ban: bool,
    room: Seq<char>,
    reason: Option<Seq<char>>,
) -> Option<Seq<char>> {
    if member == client && is_ban {
        Some(ban_text(room, reason))
    } else {
        None
    }
}

/// The note on a change of membership, where it bans the bot from a room.
pub fn log_ban(
    member: &str,
    client_id: &str,
    is_ban: bool,
    room_id: &str,
    reason: &Option<String>,
) -> (r: Option<String>)
    ensures
        opt_text(r) == (if member@ == client_id@ && is_ban {
            Some(ban_text(room_id@, opt_text(*reason)))
        } else {
            None
        }),
        opt_text(r) == ban_note(member@, client_id@, is_ban, room_id@, opt_text(*reason)),
{
    if !same_text(member, client_id) || !is_ban {
        return None;
    }
    let mut note = "Banned from ".to_owned();
    note.append(room_id);
    note.append(" for `");
    match reason {
        Some(text) => note.append(text.as_str()),
        None => note.append("<none>"),
    }
    note.append("`");
    Some(note)
}

/// The response to a reaction that somebody has sent.
pub open spec fn copied_reaction(
    sender: Seq<char>,
    client: Seq<char>,
    mode: TweakMode,
    roll: bool,
    event_id: Seq<char>,
    key: Seq<char>,
) -> ResponseView {
    if sender != client && mode != TweakMode::Disabled && roll {
        ResponseView::Reaction { event_id, key }
    } else {
        ResponseView::Nothing
    }
}

/// Copies a reaction of somebody else, where the room's mode is not disabled and the
/// draw came out for it.
pub fn copy_reactions(
    sender: &str,
    client_id: &str,
    mode: TweakMode,
    roll: bool,
    event_id: String,
    key: String,
) -> (r: Response)
    ensures
        r@ == (if sender@ != client_id@ && mode != TweakMode::Disabled && roll {
            ResponseView::Reaction { event_id: event_id@, key: key@ }
        } else {
            ResponseView::Nothing
        }),
        r@ == copied_reaction(sender@, client_id@, mode, roll, event_id@, key@),
{
    if same_text(sender, client_id) || mode == TweakMode::Disabled || !roll {
        return Response::Nothing;
    }
    Response::reaction(event_id, key)
}

/// An event that the bot listens to.
#[derive(Debug, Clone, Copy, PartialEq, Eq, Structural)]
pub enum Handler {
    Message,
    Ban,
    Invite,
    Reaction,
}

/// The events that the bot listens to.
pub open spec fn heard_events(accept_invites: bool, copies_reactions: bool) -> Seq<Handler> {
    seq![Handler::Message, Handler::Ban] + (if accept_invites {
        seq![Handler::Invite]
    } else {
        Seq::empty()
    }) + (if copies_reactions {
        seq![Handler::Reaction]
    } else {
        Seq::empty()
    })
}

/// The events that the bot listens to: messages and bans always, invitations and
/// reactions where it is to act on them.
pub fn start(accept_invites: bool, copies_reactions: bool) -> (handlers: Vec<Handler>)
    ensures
        handlers@ == seq![Handler::Message, Handler::Ban] + (if accept_invites {
            seq![Handler::Invite]
        } else {
            Seq::empty()
        }) + (if copies_reactions {
            seq![Handler::Reaction]
        } else {
            Seq::empty()
        }),
        handlers@ == heard_events(accept_invites, copies_reactions),
{
    let mut handlers: Vec<Handler> = Vec::new();
    handlers.push(Handler::Message);
    handlers.push(Handler::Ban);
    if accept_invites {
        handlers.push(Handler::Invite);
    }
    if copies_reactions {
        handlers.push(Handler::Reaction);
    }
    handlers
}

/// What a console made of a message.
#[derive(Debug, PartialEq, Eq)]
pub enum MessageCommandResult {
    /// The message is no command.
    NotHandled,
    /// The message was a command, and nothing is to be sent.
    Handled,
    /// The message was a command, and this is to be sent.
    HandledWithResponse(Response),
}

/// Which messages the bot looks at.
#[derive(Debug, Clone, Copy, PartialEq, Eq, Structural)]
pub struct MessagePolicy {
    pub respond_to_self: bool,
    pub message_max_age: i64,
}

/// Something that has happened to a message.
pub enum MessageEvent {
    /// It has arrived from a sender.
    Arrived { sender: String, client_id: String },
    /// Its notes were taken.
    Inspected { timestamp: Moment, now: Moment },
    /// The console has looked at it.
    CommandDone(MessageCommandResult),
    /// It was logged.
    Logged { body: String },
    /// The rooms it mentions were joined.
    RoomsJoined,
    /// The bot has an answer to it.
    Answered(Response),
}

/// What to do next with a message.
#[derive(Debug, PartialEq, Eq)]
pub enum MessageAction {
    /// Nothing more.
    Stop,
    /// Take its notes.
    Inspect,
    /// Hand it to the console.
    RunCommand,
    /// Send the console's response at once.
    SendNow(Response),
    /// Log it.
    Log,
    /// Join the rooms it mentions.
    JoinRooms,
    /// Find an answer to it.
    Answer,
    /// Add the answer to the queue.
    Enqueue(Response),
}

/// What to do next with a message.
pub open spec fn next_action(policy: MessagePolicy, event: MessageEvent) -> MessageAction {
    match event {
        MessageEvent::Arrived { sender, client_id } => if sender@ == client_id@
            && !policy.respond_to_self {
            MessageAction::Stop
        } else {
            MessageAction::Inspect
        },
        MessageEvent::Inspected { timestamp, now } => if longer_than(
            now@ - timestamp@,
            policy.message_max_age as int,
        ) {
            MessageAction::Stop
        } else {
            MessageAction::RunCommand
        },
        MessageEvent::CommandDone(result) => match result {
            MessageCommandResult::NotHandled => MessageAction::Log,
            MessageCommandResult::Handled => MessageAction::Stop,
            MessageCommandResult::HandledWithResponse(response) => MessageAction::SendNow(response),
        },
        MessageEvent::Logged { body } => if body@.len() == 0 {
            MessageAction::Stop
        } else {
            MessageAction::JoinRooms
        },
        MessageEvent::RoomsJoined => MessageAction::Answer,
        MessageEvent::Answered(response) => if response is Nothing {
            MessageAction::Stop
        } else {
            MessageAction::Enqueue(response)
        },
    }
}

/// Whether an event reports that an action was done.
pub open spec fn reports(event: MessageEvent, action: MessageAction) -> bool {
    match action {
        MessageAction::Inspect => event is Inspected,
        MessageAction::RunCommand => event is CommandDone,
        MessageAction::Log => event is Logged,
        MessageAction::JoinRooms => event is RoomsJoined,
        MessageAction::Answer => event is Answered,
        MessageAction::Stop | MessageAction::SendNow(_) | MessageAction::Enqueue(_) => false,
    }
}

/// Whether events are the course of one message: it arrives, and each further event
/// reports the action that the one before it led to.
pub open spec fn is_course(policy: MessagePolicy, events: Seq<MessageEvent>) -> bool {
    &&& events.len() > 0 ==> events[0] is Arrived
    &&& forall|i: int|
        #![trigger events[i]]
        0 < i < events.len() ==> reports(events[i], next_action(policy, events[i - 1]))
}

/// Decides what to do next with a message.
pub fn on_message(policy: &MessagePolicy, event: MessageEvent) -> (action: MessageAction)
    ensures
        action == next_action(*policy, event),
{
    match event {
        MessageEvent::Arrived { sender, client_id } => {
            if same_text(sender.as_str(), client_id.as_str()) && !policy.respond_to_self {
                MessageAction::Stop
            } else {
                MessageAction::Inspect
            }
        },
        MessageEvent::Inspected { timestamp, now } => {
            if is_longer(now.since(&timestamp), policy.message_max_age) {
                MessageAction::Stop
            } else {
                MessageAction::RunCommand
            }
        },
        MessageEvent::CommandDone(result) => match result {
            MessageCommandResult::NotHandled => MessageAction::Log,
            MessageCommandResult::Handled => MessageAction::Stop,
            MessageCommandResult::HandledWithResponse(response) => MessageAction::SendNow(response),
        },
        MessageEvent::Logged { body } => {
            if body.as_str().is_empty() {
                MessageAction::Stop
            } else {
                MessageAction::JoinRooms
            }
        },
        MessageEvent::RoomsJoined => MessageAction::Answer,
        MessageEvent::Answered(response) => {
            if response.is_nothing() {
                MessageAction::Stop
            } else {
                MessageAction::Enqueue(response)
            }
        },
    }
}

/// A message has at most six events, and they come in one order.
pub proof fn law_course_order(policy: MessagePolicy, events: Seq<MessageEvent>)
    requires
        is_course(policy, events),
    ensures
        events.len() <= 6,
        events.len() > 0 ==> events[0] is Arrived,
        events.len() > 1 ==> events[1] is Inspected,
        events.len() > 2 ==> events[2] is CommandDone,
        events.len() > 3 ==> events[3] is Logged,
        events.len() > 4 ==> events[4] is RoomsJoined,
        events.len() > 5 ==> events[5] is Answered,
{
    if events.len() > 1 {
        assert(reports(events[1], next_action(policy, events[0])));
    }
    if events.len() > 2 {
        assert(reports(events[2], next_action(policy, events[1])));
    }
    if events.len() > 3 {
        assert(reports(events[3], next_action(policy, events[2])));
    }
    if events.len() > 4 {
        assert(reports(events[4], next_action(policy, events[3])));
    }
    if events.len() > 5 {
        assert(reports(events[5], next_action(policy, events[4])));
    }
    if events.len() > 6 {
        assert(reports(events[6], next_action(policy, events[5])));
    }
}

/// An answer goes into the queue only for a message that is not the bot's own (unless
/// the bot answers itself), is young enough, is no command and is not empty; and only
/// if there is something to send.
pub proof fn law_enqueue_conditions(
    policy: MessagePolicy,
    events: Seq<MessageEvent>,
    response: Response,
)
    requires
        is_course(policy, events),
        events.len() > 0,
        next_action(policy, events.last()) == MessageAction::Enqueue(response),
    ensures
        events.len() == 6,
        events[0] matches MessageEvent::Arrived { sender, client_id } && (sender@ != client_id@
            || policy.respond_to_self),
        events[1] matches MessageEvent::Inspected { timestamp, now } && !longer_than(
            now@ - timestamp@,
            policy.message_max_age as int,
        ),
        events[2] == MessageEvent::CommandDone(MessageCommandResult::NotHandled),
        events[3] matches MessageEvent::Logged { body } && body@.len() > 0,
        response !is Nothing,
{
    law_course_order(policy, events);
    assert(reports(events[1], next_action(policy, events[0])));
    assert(reports(events[2], next_action(policy, events[1])));
    assert(reports(events[3], next_action(policy, events[2])));
    assert(reports(events[4], next_action(policy, events[3])));
    assert(reports(events[5], next_action(policy, events[4])));
}

/// A message that the console has handled is neither logged nor answered: its course
/// ends there.
pub proof fn law_commands_end_the_course(policy: MessagePolicy, events: Seq<MessageEvent>)
    requires
        is_course(policy, events),
        events.len() > 2,
        events[2] != MessageEvent::CommandDone(MessageCommandResult::NotHandled),
    ensures
        events.len() == 3,
{
    law_course_order(policy, events);
    if events.len() > 3 {
        assert(reports(events[3], next_action(policy, events[2])));
    }
}

/// The account that the bot uses.
pub struct Account {
    pub server_url: Option<String>,
    pub mxid: String,
    pub password: Option<String>,
    pub token: Option<String>,
    pub device_id: Option<String>,
}

/// Why the bot cannot log in.
#[derive(Debug, PartialEq, Eq)]
pub enum LoginError {
    /// The user id is none, for the reason given.
    BadUserId(String),
    /// A token was given without the device it belongs to.
    MissingDevice,
    /// Neither a password nor a token was given for the user.
    NoCredentials(String),
}

impl LoginError {
    /// The message shown for the error.
    pub open spec fn text(self) -> Seq<char> {
        match self {
            LoginError::BadUserId(message) => message@,
            LoginError::MissingDevice => "Missing device id"@,
            LoginError::NoCredentials(mxid) => "No password or token supplied for "@ + mxid@,
        }
    }

    /// The message shown for the error.
    pub fn message(&self) -> (s: String)
        ensures
            s@ == self.text(),
    {
        match self {
            LoginError::BadUserId(message) => message.clone(),
            LoginError::MissingDevice => "Missing device id".to_owned(),
            LoginError::NoCredentials(mxid) => {
                let mut s = "No password or token supplied for ".to_owned();
                s.append(mxid.as_str());
                s
            },
        }
    }
}

/// How the bot proves who it is.
#[derive(Debug, PartialEq, Eq)]
pub enum Credentials {
    /// By its password.
    Password(String),
    /// By the token of a session, on its device.
    Token { token: String, device_id: String },
}

/// The server that the bot talks to.
#[derive(Debug, PartialEq, Eq)]
pub struct ServerTarget {
    /// The server name of the user id.
    pub server_name: String,
    /// Where the server is reached, if that is not to be found out by its name.
    pub url: Option<String>,
}

/// How an account proves who it is: by its password if it has one, else by its token on
/// its device.
pub open spec fn credentials_of(account: Account) -> Result<Credentials, LoginError> {
    match (account.password, account.token, account.device_id) {
        (Some(password), _, _) => Ok(Credentials::Password(password)),
        (None, Some(token), Some(device_id)) => Ok(Credentials::Token { token, device_id }),
        (None, Some(_), None) => Err(LoginError::MissingDevice),
        (None, None, _) => Err(LoginError::NoCredentials(account.mxid)),
    }
}

/// The server name of a user id.
pub open spec fn server_of(mxid: Seq<char>) -> Seq<char> {
    mxid.skip(until(mxid, ':') + 1)
}

impl Account {
    /// The server that the bot talks to: the part of its user id behind the first colon.
    pub fn target(&self) -> (r: Result<ServerTarget, LoginError>)
        ensures
            match r {
                Ok(target) => {
                    &&& user_id_error(self.mxid@) is None
                    &&& until(self.mxid@, ':') < self.mxid@.len()
                    &&& target.server_name@ == self.mxid@.skip(until(self.mxid@, ':') + 1)
                    &&& target.server_name@ == server_of(self.mxid@)
                    &&& target.url == self.server_url
                },
                Err(error) => error matches LoginError::BadUserId(message) && user_id_error(
                    self.mxid@,
                ) == Some(message@),
            },
    {
        match check_user_id(self.mxid.as_str()) {
            Err(message) => Err(LoginError::BadUserId(message)),
            Ok(_) => {
                let v = to_chars(self.mxid.as_str());
                let mut i: usize = 0;
                while i < v.len() && v[i] != ':'
                    invariant
                        i <= v.len(),
                        v@ == self.mxid@,
                        forall|k: int| 0 <= k < i ==> v@[k] != ':',
                    decreases v.len() - i,
                {
                    i += 1;
                }
                proof {
                    lemma_until_is(v@, ':', i as int);
                    assert(v@.skip(i + 1) == v@.subrange(i + 1, v@.len() as int));
                }
                let server_name = slice_text(&v, i + 1, v.len());
                let url: Option<String> = match &self.server_url {
                    Some(url) => Some(url.clone()),
                    None => None,
                };
                Ok(ServerTarget { server_name, url })
            },
        }
    }

    /// How the bot proves who it is: by its password if it has one, else by its token.
    pub fn login(&self) -> (r: Result<Credentials, LoginError>)
        ensures
            r == credentials_of(*self),
    {
        match &self.password {
            Some(password) => Ok(Credentials::Password(password.clone())),
            None => match &self.token {
                Some(token) => match &self.device_id {
                    Some(device_id) => Ok(
                        Credentials::Token { token: token.clone(), device_id: device_id.clone() },
                    ),
                    None => Err(LoginError::MissingDevice),
                },
                None => Err(LoginError::NoCredentials(self.mxid.clone())),
            },
        }
    }
}

/// An account can log in exactly if it has a password, or a token and its device.
pub proof fn law_login_needs_credentials(account: Account)
    ensures
        credentials_of(account) is Ok <==> account.password is Some || (account.token is Some
            && account.device_id is Some),
{
}

/// A keyword is found in a text exactly if the lower case of some keyword's word stands in
/// the lower case of the text, at its beginning, at its end or between: this one is found
/// if no keyword before it in the list does so too.
pub proof fn law_keyword_is_found(
    text: Seq<char>,
    keywords: Seq<Keyword>,
    i: int,
    before: Seq<char>,
    behind: Seq<char>,
)
    requires
        0 <= i < keywords.len(),
        lowercase_of(text) == before + lowercase_of(keywords[i].word()) + behind,
    ensures
        mentioned(text, keywords) is Some,
        (forall|j: int, a: Seq<char>, b: Seq<char>|
            0 <= j < i ==> lowercase_of(text) != #[trigger] (a + lowercase_of(keywords[j].word())
                + b)) ==> mentioned(text, keywords) == Some(keywords[i]),
    decreases keywords.len(),
{
    law_contains_middle(before, lowercase_of(keywords[i].word()), behind);
    assert(mentions(text, keywords[i]));
    if mentions(text, keywords[0]) {
        let (a, b) = law_contained_splits(
            lowercase_of(text),
            lowercase_of(keywords[0].word()),
        );
        assert(lowercase_of(text) == a + lowercase_of(keywords[0].word()) + b);
    } else {
        let rest = keywords.skip(1);
        assert(rest[i - 1] == keywords[i]);
        law_keyword_is_found(text, rest, i - 1, before, behind);
        if forall|j: int, a: Seq<char>, b: Seq<char>|
            0 <= j < i ==> lowercase_of(text) != #[trigger] (a + lowercase_of(keywords[j].word())
                + b) {
            assert forall|j: int, a: Seq<char>, b: Seq<char>| 0 <= j < i - 1 implies lowercase_of(
                text,
            ) != #[trigger] (a + lowercase_of(rest[j].word()) + b) by {
                assert(rest[j] == keywords[j + 1]);
                assert(lowercase_of(text) != a + lowercase_of(keywords[j + 1].word()) + b);
            }
        }
    }
}

/// A keyword that is found is one of the list, its word stands in the text in lower case,
/// and so does no word before it in the list. `found` is its position.
pub proof fn law_found_keyword_is_mentioned(text: Seq<char>, keywords: Seq<Keyword>) -> (found: (
    int,
    Seq<char>,
    Seq<char>,
))
    requires
        mentioned(text, keywords) is Some,
    ensures
        0 <= found.0 < keywords.len(),
        mentioned(text, keywords) == Some(keywords[found.0]),
        lowercase_of(text) == found.1 + lowercase_of(keywords[found.0].word()) + found.2,
        forall|j: int, a: Seq<char>, b: Seq<char>|
            0 <= j < found.0 ==> lowercase_of(text) != #[trigger] (a + lowercase_of(
                keywords[j].word(),
            ) + b),
    decreases keywords.len(),
{
    if mentions(text, keywords[0]) {
        let (a, b) = law_contained_splits(
            lowercase_of(text),
            lowercase_of(keywords[0].word()),
        );
        (0, a, b)
    } else {
        let rest = keywords.skip(1);
        let found = law_found_keyword_is_mentioned(text, rest);
        assert(rest[found.0] == keywords[found.0 + 1]);
        assert forall|j: int, a: Seq<char>, b: Seq<char>|
            0 <= j < found.0 + 1 implies lowercase_of(text) != #[trigger] (a + lowercase_of(
            keywords[j].word(),
        ) + b) by {
            if j == 0 {
                if lowercase_of(text) == a + lowercase_of(keywords[0].word()) + b {
                    law_contains_middle(a, lowercase_of(keywords[0].word()), b);
                }
            } else {
                assert(rest[j - 1] == keywords[j]);
                assert(lowercase_of(text) != a + lowercase_of(rest[j - 1].word()) + b);
            }
        }
        (found.0 + 1, found.1, found.2)
    }
}

/// Neither a keyword nor an answer is noted of an empty message; of any other message both
/// are noted as they are.
pub proof fn law_notes(body: Seq<char>, reply: bool, keywords: Seq<Keyword>)
    ensures
        body.len() > 0 ==> noted_keyword(body, keywords) == mentioned(body, keywords),
        body.len() > 0 ==> noted_reply(body, reply) == reply,
        body.len() == 0 ==> noted_keyword(body, keywords) is None && !noted_reply(body, reply),
{
}

/// A message answers the bot exactly if the message that it answers is the bot's.
pub proof fn law_answers_to_the_bot(sender: Seq<char>, client: Seq<char>)
    ensures
        answers_bot(Some(sender), client) <==> sender == client,
        !answers_bot(None, client),
{
}

/// Every answer that is something, a text as well as a reaction, goes into the queue as it
/// is; nothing is queued for no answer.
pub proof fn law_answers_are_queued(
    policy: MessagePolicy,
    text: String,
    reply_to: Option<EventRef>,
    event_id: String,
    key: String,
    response: Response,
)
    ensures
        next_action(policy, MessageEvent::Answered(Response::Message { text, reply_to }))
            == MessageAction::Enqueue(Response::Message { text, reply_to }),
        next_action(policy, MessageEvent::Answered(Response::Reaction { event_id, key }))
            == MessageAction::Enqueue(Response::Reaction { event_id, key }),
        next_action(policy, MessageEvent::Answered(Response::Nothing)) == MessageAction::Stop,
        response != Response::Nothing ==> next_action(policy, MessageEvent::Answered(response))
            == MessageAction::Enqueue(response),
{
}

/// A message is looked at unless it is the bot's own and the bot does not answer itself;
/// and it is handed to the console unless it is older than the greatest age.
pub proof fn law_messages_that_are_looked_at(
    policy: MessagePolicy,
    sender: String,
    client_id: String,
    timestamp: Moment,
    now: Moment,
)
    ensures
        next_action(policy, MessageEvent::Arrived { sender, client_id }) == MessageAction::Inspect
            <==> sender@ != client_id@ || policy.respond_to_self,
        next_action(policy, MessageEvent::Arrived { sender, client_id }) == MessageAction::Stop
            <==> sender@ == client_id@ && !policy.respond_to_self,
        next_action(policy, MessageEvent::Inspected { timestamp, now })
            == MessageAction::RunCommand <==> now@ - timestamp@ <= policy.message_max_age
            * 1000000000,
        next_action(policy, MessageEvent::Inspected { timestamp, now }) == MessageAction::Stop
            <==> now@ - timestamp@ > policy.message_max_age * 1000000000,
{
}

/// What the console answers is sent at once, and what it leaves alone is logged. A logged
/// message that is not empty goes on to the rooms that it mentions, and then to an answer.
pub proof fn law_further_course(
    policy: MessagePolicy,
    response: Response,
    body: String,
)
    ensures
        next_action(
            policy,
            MessageEvent::CommandDone(MessageCommandResult::HandledWithResponse(response)),
        ) == MessageAction::SendNow(response),
        next_action(policy, MessageEvent::CommandDone(MessageCommandResult::Handled))
            == MessageAction::Stop,
        next_action(policy, MessageEvent::CommandDone(MessageCommandResult::NotHandled))
            == MessageAction::Log,
        body@.len() > 0 ==> next_action(policy, MessageEvent::Logged { body })
            == MessageAction::JoinRooms,
        body@.len() == 0 ==> next_action(policy, MessageEvent::Logged { body })
            == MessageAction::Stop,
        next_action(policy, MessageEvent::RoomsJoined) == MessageAction::Answer,
{
}

/// A message that somebody else has sent, young enough, no command and not empty runs
/// through its whole course, and an answer to it is queued.
pub proof fn law_whole_course(
    policy: MessagePolicy,
    sender: String,
    client_id: String,
    timestamp: Moment,
    now: Moment,
    body: String,
    response: Response,
)
    requires
        sender@ != client_id@,
        now@ - timestamp@ <= policy.message_max_age * 1000000000,
        body@.len() > 0,
        response != Response::Nothing,
    ensures
        ({
            let events = seq![
                MessageEvent::Arrived { sender, client_id },
                MessageEvent::Inspected { timestamp, now },
                MessageEvent::CommandDone(MessageCommandResult::NotHandled),
                MessageEvent::Logged { body },
                MessageEvent::RoomsJoined,
                MessageEvent::Answered(response),
            ];
            &&& is_course(policy, events)
            &&& next_action(policy, events.last()) == MessageAction::Enqueue(response)
        }),
{
    let events = seq![
        MessageEvent::Arrived { sender, client_id },
        MessageEvent::Inspected { timestamp, now },
        MessageEvent::CommandDone(MessageCommandResult::NotHandled),
        MessageEvent::Logged { body },
        MessageEvent::RoomsJoined,
        MessageEvent::Answered(response),
    ];
    assert(reports(events[1], next_action(policy, events[0])));
    assert(reports(events[2], next_action(policy, events[1])));
    assert(reports(events[3], next_action(policy, events[2])));
    assert(reports(events[4], next_action(policy, events[3])));
    assert(reports(events[5], next_action(policy, events[4])));
}

/// A text is sent after the delay and after typing for as long as its bytes take, with
/// typing shown from before until after; a reaction is sent after the delay; nothing takes
/// no steps.
pub proof fn law_ways_of_sending(
    text: Seq<char>,
    reply_to: Option<(Seq<char>, Seq<char>)>,
    event_id: Seq<char>,
    key: Seq<char>,
    delay: u64,
)
    requires
        vstd::utf8::encode_utf8(text).len() <= usize::MAX,
    ensures
        ({
            let steps = send_steps(ResponseView::Message { text, reply_to }, delay);
            &&& steps.len() == 5
            &&& steps[0] == SendStep::Wait(delay)
            &&& steps[1] == SendStep::StartTyping
            &&& steps[2] matches SendStep::TypeFor(bytes) && bytes == vstd::utf8::encode_utf8(
                text,
            ).len()
            &&& steps[3] == SendStep::Send
            &&& steps[4] == SendStep::StopTyping
        }),
        send_steps(ResponseView::Reaction { event_id, key }, delay) == seq![
            SendStep::Wait(delay),
            SendStep::Send,
        ],
        send_steps(ResponseView::Nothing, delay).len() == 0,
{
}

/// The bot follows invitations to itself into rooms that it has not joined; it knocks at a
/// room exactly where that is the rule, with the reason that is configured.
pub proof fn law_ways_into_rooms(
    invited: Seq<char>,
    client: Seq<char>,
    joined: bool,
    reason: Option<String>,
)
    ensures
        follows_invite(client, client, false),
        !follows_invite(invited, client, true),
        invited != client ==> !follows_invite(invited, client, joined),
        way_in(true, reason) == JoinPlan::Knock(reason),
        way_in(false, reason) == JoinPlan::Join,
{
}

/// Only a ban of the bot itself is noted, with its room and its reason.
pub proof fn law_bans(
    member: Seq<char>,
    client: Seq<char>,
    room: Seq<char>,
    reason: Seq<char>,
)
    ensures
        ban_note(client, client, true, room, Some(reason)) == Some(
            "Banned from "@ + room + " for `"@ + reason + "`"@,
        ),
        ban_note(client, client, true, room, None) == ban_note(
            client,
            client,
            true,
            room,
            Some("<none>"@),
        ),
        ban_note(member, client, false, room, Some(reason)) is None,
        member != client ==> ban_note(member, client, true, room, Some(reason)) is None,
{
}

/// A reaction is copied exactly if somebody else sent it, the room is not disabled and the
/// draw came out for it.
pub proof fn law_copied_reactions(
    sender: Seq<char>,
    client: Seq<char>,
    mode: TweakMode,
    roll: bool,
    event_id: Seq<char>,
    key: Seq<char>,
)
    ensures
        sender != client && mode != TweakMode::Disabled && roll ==> copied_reaction(
            sender,
            client,
            mode,
            roll,
            event_id,
            key,
        ) == (ResponseView::Reaction { event_id, key }),
        sender == client || mode == TweakMode::Disabled || !roll ==> copied_reaction(
            sender,
            client,
            mode,
            roll,
            event_id,
            key,
        ) == ResponseView::Nothing,
{
}

/// The bot always listens to messages and bans, and to invitations and reactions exactly if
/// it is to act on them; to nothing twice.
pub proof fn law_heard_events(accept_invites: bool, copies_reactions: bool)
    ensures
        ({
            let events = heard_events(accept_invites, copies_reactions);
            &&& events.contains(Handler::Message)
            &&& events.contains(Handler::Ban)
            &&& events.contains(Handler::Invite) <==> accept_invites
            &&& events.contains(Handler::Reaction) <==> copies_reactions
            &&& events.no_duplicates()
        }),
{
    let events = heard_events(accept_invites, copies_reactions);
    assert(events[0] == Handler::Message);
    assert(events[1] == Handler::Ban);
    if accept_invites {
        assert(events[2] == Handler::Invite);
    }
    if copies_reactions {
        assert(events[events.len() - 1] == Handler::Reaction);
    }
}

/// A password is used before a token; a token needs its device, and an account with neither
/// is refused by its name.
pub proof fn law_credentials(account: Account)
    ensures
        account.password is Some ==> credentials_of(account) == Ok::<Credentials, LoginError>(
            Credentials::Password(account.password->0),
        ),
        account.password is None && account.token is Some && account.device_id is Some
            ==> credentials_of(account) == Ok::<Credentials, LoginError>(
            Credentials::Token { token: account.token->0, device_id: account.device_id->0 },
        ),
        account.password is None && account.token is Some && account.device_id is None
            ==> credentials_of(account) == Err::<Credentials, LoginError>(
            LoginError::MissingDevice,
        ),
        account.password is None && account.token is None ==> credentials_of(account) == Err::<
            Credentials,
            LoginError,
        >(LoginError::NoCredentials(account.mxid)),
{
}

/// Each failed attempt to join a room makes the next pause as long as twice the one before.
pub proof fn law_delays_double(secs: int)
    ensures
        later_delay(secs) == secs + secs,
{
}

/// The server name of a user id is all that stands behind its first colon, also where that
/// has a colon of its own.
pub proof fn law_server_of(local: Seq<char>, server: Seq<char>)
    requires
        !local.contains(':'),
    ensures
        server_of(local + seq![':'] + server) == server,
{
    law_until(local, ':', server);
    assert((local + seq![':'] + server).skip((local.len() + 1) as int) == server);
}

/// The messages that are shown for a failed login.
pub proof fn law_login_errors(message: String, mxid: String)
    ensures
        LoginError::BadUserId(message).text() == message@,
        LoginError::MissingDevice.text() == "Missing device id"@,
        LoginError::NoCredentials(mxid).text() == "No password or token supplied for "@ + mxid@,
{
}

}
