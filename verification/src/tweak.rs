//! When and how the bot talks: modes, keywords, cooldowns, filters over drafts, sleep.

use vstd::prelude::*;
use crate::bot::{EventRef, MessageProps, Response, ResponseQueue, ResponseView};
use crate::chance::{choose_indexed, choose_iterated, random_between};
use crate::clock::{is_due, is_shorter, shorter_than, Moment, TimeOfDay};
use crate::filter::{
    calls, chain_may, copy_filters, outcome, Filter, FilterData, FilterError, Filters,
};
use crate::filters::lowercase_of;
use crate::names::NameMap;
use crate::text::{
    byte_len, law_split_goes_on, lemma_encode_concat, list_contains, same_text, split, split_on,
    texts,
};

verus! {

/// The characters of an optional text.
pub open spec fn opt_text(o: Option<String>) -> Option<Seq<char>> {
    match o {
        Some(s) => Some(s@),
        None => None,
    }
}

/// How eagerly the bot takes part in a room.
#[derive(Debug, Clone, Copy, PartialEq, Eq, Structural)]
pub enum TweakMode {
    Disabled,
    Reactions,
    KeywordsOnly,
    KeywordsAndReplies,
    Normal,
}

impl TweakMode {
    /// The name of the mode.
    pub open spec fn title(self) -> Seq<char> {
        match self {
            TweakMode::Disabled => "Disabled"@,
            TweakMode::Reactions => "Reactions"@,
            TweakMode::KeywordsOnly => "KeywordsOnly"@,
            TweakMode::KeywordsAndReplies => "KeywordsAndReplies"@,
            TweakMode::Normal => "Normal"@,
        }
    }

    /// The mode with a name.
    pub open spec fn named(s: Seq<char>) -> Option<TweakMode> {
        if s == TweakMode::Disabled.title() {
            Some(TweakMode::Disabled)
        } else if s == TweakMode::Reactions.title() {
            Some(TweakMode::Reactions)
        } else if s == TweakMode::KeywordsOnly.title() {
            Some(TweakMode::KeywordsOnly)
        } else if s == TweakMode::KeywordsAndReplies.title() {
            Some(TweakMode::KeywordsAndReplies)
        } else if s == TweakMode::Normal.title() {
            Some(TweakMode::Normal)
        } else {
            None
        }
    }

    /// The name of the mode.
    pub fn name(&self) -> (s: String)
        ensures
            s@ == self.title(),
    {
        match self {
            TweakMode::Disabled => "Disabled".to_owned(),
            TweakMode::Reactions => "Reactions".to_owned(),
            TweakMode::KeywordsOnly => "KeywordsOnly".to_owned(),
            TweakMode::KeywordsAndReplies => "KeywordsAndReplies".to_owned(),
            TweakMode::Normal => "Normal".to_owned(),
        }
    }

    /// The mode with a name, spelled exactly.
    pub fn from_name(s: &str) -> (r: Option<TweakMode>)
        ensures
            r == TweakMode::named(s@),
    {
        if same_text(s, "Disabled") {
            Some(TweakMode::Disabled)
        } else if same_text(s, "Reactions") {
            Some(TweakMode::Reactions)
        } else if same_text(s, "KeywordsOnly") {
            Some(TweakMode::KeywordsOnly)
        } else if same_text(s, "KeywordsAndReplies") {
            Some(TweakMode::KeywordsAndReplies)
        } else if same_text(s, "Normal") {
            Some(TweakMode::Normal)
        } else {
            None
        }
    }
}

/// Reading the name of a mode gives the mode back.
pub proof fn law_mode_names(mode: TweakMode)
    ensures
        TweakMode::named(mode.title()) == Some(mode),
{
    reveal_strlit("Disabled");
    reveal_strlit("Reactions");
    reveal_strlit("KeywordsOnly");
    reveal_strlit("KeywordsAndReplies");
    reveal_strlit("Normal");
    assert("Disabled"@.len() == 8 && "Reactions"@.len() == 9 && "KeywordsOnly"@.len() == 12);
    assert("KeywordsAndReplies"@.len() == 18 && "Normal"@.len() == 6);
}

/// A word that the bot listens for.
#[derive(Debug)]
pub enum Keyword {
    /// The word; an answer starts with it.
    StartOnNotSpecified(String),
    /// The word, and whether an answer starts with it.
    StartOnSpecified(String, bool),
}

impl Keyword {
    /// The word.
    pub open spec fn word(self) -> Seq<char> {
        match self {
            Keyword::StartOnNotSpecified(keyword) => keyword@,
            Keyword::StartOnSpecified(keyword, _) => keyword@,
        }
    }

    /// Whether an answer starts with the word.
    pub open spec fn starts(self) -> bool {
        match self {
            Keyword::StartOnNotSpecified(_) => true,
            Keyword::StartOnSpecified(_, start_on) => start_on,
        }
    }

    /// The word.
    pub fn keyword(&self) -> (s: String)
        ensures
            s@ == self.word(),
    {
        match self {
            Keyword::StartOnNotSpecified(keyword) => keyword.clone(),
            Keyword::StartOnSpecified(keyword, _) => keyword.clone(),
        }
    }

    /// Whether an answer starts with the word.
    pub fn start_on(&self) -> (r: bool)
        ensures
            r == self.starts(),
    {
        match self {
            Keyword::StartOnNotSpecified(_) => true,
            Keyword::StartOnSpecified(_, start_on) => *start_on,
        }
    }
}

impl Clone for Keyword {
    fn clone(&self) -> (r: Self)
        ensures
            r == *self,
    {
        match self {
            Keyword::StartOnNotSpecified(keyword) => Keyword::StartOnNotSpecified(keyword.clone()),
            Keyword::StartOnSpecified(keyword, start_on) => Keyword::StartOnSpecified(
                keyword.clone(),
                *start_on,
            ),
        }
    }
}

/// What the bot needs to know to decide when and how it talks.
pub struct TweakerConfig {
    pub do_not_tweak: Option<bool>,
    pub cooldown: i64,
    pub cooldown_react: i64,
    pub length_min: usize,
    pub length_max: usize,
    pub ignore_words: Vec<String>,
    pub endings: Vec<String>,
    pub keywords: Vec<Keyword>,
    pub tweak_mode: NameMap<TweakMode>,
    pub filters: Vec<FilterData>,
    pub remove_start_text: bool,
    pub delay_min: u64,
    pub delay_max: u64,
    pub sleep_times: Vec<TimeOfDay>,
    pub wake_times: Vec<TimeOfDay>,
}

/// The mode that a table of modes gives to a room: its own entry, or the entry
/// `default`, or `KeywordsAndReplies`.
pub open spec fn configured_mode(modes: Map<Seq<char>, TweakMode>, room: Seq<char>) -> TweakMode {
    if modes.contains_key(room) {
        modes[room]
    } else if modes.contains_key("default"@) {
        modes["default"@]
    } else {
        TweakMode::KeywordsAndReplies
    }
}

impl TweakerConfig {
    /// The mode that the configuration gives to a room.
    pub fn tweak_mode(&self, room_id: &str) -> (mode: TweakMode)
        ensures
            mode == configured_mode(self.tweak_mode@, room_id@),
    {
        match self.tweak_mode.get(room_id) {
            Some(mode) => mode,
            None => match self.tweak_mode.get("default") {
                Some(mode) => mode,
                None => TweakMode::KeywordsAndReplies,
            },
        }
    }
}

/// What the bot does about a message.
#[derive(Debug, Clone, Copy, PartialEq, Eq, Structural)]
pub enum TweakAction {
    Nothing,
    Message,
    Reply,
    React,
}

/// How the draws for one message came out: `true` where the number drawn did not
/// exceed the configured probability.
#[derive(Debug, Clone, Copy, PartialEq, Eq, Structural)]
pub struct Rolls {
    /// Answer a keyword.
    pub keyword: bool,
    /// Answer a reply to the bot.
    pub reply: bool,
    /// Answer any other message.
    pub tweak: bool,
    /// Answer any other message as a reply to it.
    pub tweak_as_reply: bool,
    /// React to the message.
    pub react: bool,
}

/// What a mode lets the bot say to a message, by the draws alone.
pub open spec fn speech(
    mode: TweakMode,
    keyword: bool,
    reply: bool,
    rolls: Rolls,
) -> TweakAction {
    if mode == TweakMode::Disabled || mode == TweakMode::Reactions {
        TweakAction::Nothing
    } else if keyword {
        if rolls.keyword {
            TweakAction::Reply
        } else {
            TweakAction::Nothing
        }
    } else if mode == TweakMode::KeywordsOnly {
        TweakAction::Nothing
    } else if reply {
        if rolls.reply {
            TweakAction::Reply
        } else {
            TweakAction::Nothing
        }
    } else if mode == TweakMode::KeywordsAndReplies || !rolls.tweak {
        TweakAction::Nothing
    } else if rolls.tweak_as_reply {
        TweakAction::Reply
    } else {
        TweakAction::Message
    }
}

/// Whether the cooldown between messages applies: to anything but keywords, where the
/// mode has the bot look at more than keywords.
pub open spec fn heeds_cooldown(mode: TweakMode, keyword: bool) -> bool {
    !keyword && (mode == TweakMode::KeywordsAndReplies || mode == TweakMode::Normal)
}

/// What the bot does about a message, and whether a cooldown kept it silent.
/// `span` is the time since the last message of the room, in nanoseconds.
pub open spec fn chosen_action(
    mode: TweakMode,
    keyword: bool,
    reply: bool,
    span: int,
    cooldown: int,
    cooldown_react: int,
    rolls: Rolls,
) -> (TweakAction, bool) {
    let said = speech(mode, keyword, reply, rolls);
    if mode == TweakMode::Disabled {
        (TweakAction::Nothing, false)
    } else if heeds_cooldown(mode, keyword) && shorter_than(span, cooldown) {
        (TweakAction::Nothing, true)
    } else if said != TweakAction::Nothing {
        (said, false)
    } else if shorter_than(span, cooldown_react) {
        (TweakAction::Nothing, true)
    } else if rolls.react {
        (TweakAction::React, false)
    } else {
        (TweakAction::Nothing, false)
    }
}

/// What the bot does about a message by its configuration and its notes on the message.
pub open spec fn decision(
    config: TweakerConfig,
    props: MessageProps,
    mode: TweakMode,
    span: int,
    rolls: Rolls,
) -> (TweakAction, bool) {
    chosen_action(
        mode,
        props.keyword is Some,
        props.reply,
        span,
        config.cooldown as int,
        config.cooldown_react as int,
        rolls,
    )
}

/// The words of a message that an answer may start with: its parts between spaces, in
/// lower case, without the ignored words.
pub open spec fn start_words(ignored: Seq<Seq<char>>, body: Seq<char>) -> Seq<Seq<char>> {
    split_on(body, ' ').map_values(|w: Seq<char>| lowercase_of(w)).filter(
        |w: Seq<char>| !ignored.contains(w),
    )
}

/// The words of a message that an answer may start with.
pub fn candidate_words(config: &TweakerConfig, body: &str) -> (out: Vec<String>)
    ensures
        texts(out@) == start_words(texts(config.ignore_words@), body@),
{
    let parts = split(body, ' ');
    let mut out: Vec<String> = Vec::new();
    let ghost ignored = texts(config.ignore_words@);
    let ghost keep = |w: Seq<char>| !ignored.contains(w);
    let ghost lower = split_on(body@, ' ').map_values(|w: Seq<char>| lowercase_of(w));
    let mut i: usize = 0;
    proof {
        reveal(Seq::filter);
        assert(texts(out@) == lower.take(0).filter(keep));
    }
    while i < parts.len()
        invariant
            i <= parts.len(),
            texts(parts@) == split_on(body@, ' '),
            lower == split_on(body@, ' ').map_values(|w: Seq<char>| lowercase_of(w)),
            ignored == texts(config.ignore_words@),
            keep == (|w: Seq<char>| !ignored.contains(w)),
            texts(out@) == lower.take(i as int).filter(keep),
        decreases parts.len() - i,
    {
        let word = parts[i].as_str().to_lowercase();
        proof {
            reveal(Seq::filter);
            assert(texts(parts@)[i as int] == parts@[i as int]@);
            assert(lower[i as int] == word@);
            assert(lower.take(i + 1).drop_last() == lower.take(i as int));
            assert(lower.take(i + 1).last() == word@);
            assert(texts(out@.push(word)) == texts(out@).push(word@));
        }
        if !list_contains(&config.ignore_words, word.as_str()) {
            out.push(word);
        }
        i += 1;
    }
    assert(lower.take(i as int) == lower);
    out
}

/// The start of an answer: the keyword where answers start with it, else the word
/// that was picked.
pub open spec fn start_text(
    keyword: Option<Keyword>,
    picked: Option<Seq<char>>,
) -> Option<Seq<char>> {
    match keyword {
        Some(k) => if k.starts() {
            Some(k.word())
        } else {
            picked
        },
        None => picked,
    }
}

/// The start of an answer, given the word that was picked.
pub fn answer_start(keyword: &Option<Keyword>, picked: Option<String>) -> (r: Option<String>)
    ensures
        opt_text(r) == start_text(*keyword, opt_text(picked)),
{
    match keyword {
        Some(k) => if k.start_on() {
            Some(k.keyword())
        } else {
            picked
        },
        None => picked,
    }
}

/// Whether a random pick from a list of texts can come out as `picked`.
pub open spec fn may_pick(list: Seq<Seq<char>>, picked: Option<Seq<char>>) -> bool {
    match picked {
        Some(s) => list.contains(s),
        None => list.len() == 0,
    }
}

/// The length, the start and the end with which an answer to a message is generated.
/// The length lies in the configured range, the start is the keyword or a word of the
/// message, and the end is one of the configured endings.
pub fn tweak_params(config: &TweakerConfig, body: &str, keyword: &Option<Keyword>) -> (r: (
    usize,
    Option<String>,
    Option<String>,
))
    requires
        config.length_min <= config.length_max,
    ensures
        config.length_min <= r.0 <= config.length_max,
        exists|picked: Option<Seq<char>>| #[trigger]
            may_pick(start_words(texts(config.ignore_words@), body@), picked) && opt_text(r.1)
                == start_text(*keyword, picked),
        may_pick(texts(config.endings@), opt_text(r.2)),
{
    let length: usize = random_between(config.length_min as u64, config.length_max as u64) as usize;
    let words = candidate_words(config, body);
    let picked: Option<String> = match choose_iterated(&words) {
        Some(word) => {
            proof {
                let i = choose|i: int| 0 <= i < words@.len() && words@[i] == *word;
                assert(texts(words@)[i] == word@);
            }
            Some(word.clone())
        },
        None => None,
    };
    assert(may_pick(start_words(texts(config.ignore_words@), body@), opt_text(picked)));
    let start = answer_start(keyword, picked);
    let end: Option<String> = match choose_indexed(&config.endings) {
        Some(ending) => {
            proof {
                let i = choose|i: int| 0 <= i < config.endings@.len() && config.endings@[i] == *ending;
                assert(texts(config.endings@)[i] == ending@);
            }
            Some(ending.clone())
        },
        None => None,
    };
    (length, start, end)
}

/// The position of the first mark, or the number of marks when none is set.
pub open spec fn first_mark(marks: Seq<bool>) -> int
    decreases marks.len(),
{
    if marks.len() == 0 || marks[0] {
        0
    } else {
        1 + first_mark(marks.skip(1))
    }
}

/// The reaction that was drawn.
pub open spec fn drawn_reaction(reactions: Seq<Seq<char>>, hits: Seq<bool>) -> Seq<char> {
    if first_mark(hits) < hits.len() {
        reactions[first_mark(hits)]
    } else {
        Seq::empty()
    }
}

/// The reaction that was drawn: the first of the reactions whose share the draw fell
/// into, or no text when it fell into none.
pub fn get_reaction(reactions: &Vec<String>, hits: &Vec<bool>) -> (reaction: String)
    requires
        reactions.len() == hits.len(),
    ensures
        reaction@ == (if first_mark(hits@) < hits@.len() {
            reactions@[first_mark(hits@)]@
        } else {
            Seq::empty()
        }),
        reaction@ == drawn_reaction(texts(reactions@), hits@),
{
    let mut i: usize = 0;
    assert(hits@.skip(0) == hits@);
    while i < hits.len()
        invariant
            i <= hits.len(),
            reactions.len() == hits.len(),
            first_mark(hits@) == i + first_mark(hits@.skip(i as int)),
        decreases hits.len() - i,
    {
        assert(hits@.skip(i as int).skip(1) == hits@.skip(i + 1));
        if hits[i] {
            assert(texts(reactions@)[i as int] == reactions@[i as int]@);
            return reactions[i].clone();
        }
        i += 1;
    }
    assert(first_mark(hits@) == hits@.len());
    String::new()
}

/// Decides about a message. `td` is the time since the last message of the room, in
/// nanoseconds.
pub fn choose_action(
    config: &TweakerConfig,
    props: &MessageProps,
    mode: TweakMode,
    td: i128,
    rolls: Rolls,
) -> (r: (TweakAction, bool))
    ensures
        r == chosen_action(
            mode,
            props.keyword is Some,
            props.reply,
            td as int,
            config.cooldown as int,
            config.cooldown_react as int,
            rolls,
        ),
        r == decision(*config, *props, mode, td as int, rolls),
{
    if mode == TweakMode::Disabled {
        return (TweakAction::Nothing, false);
    }
    let mut action = TweakAction::Nothing;
    if mode != TweakMode::Reactions {
        // keywords are answered whatever the cooldown
        if props.keyword.is_some() {
            if rolls.keyword {
                action = TweakAction::Reply;
            }
        } else if mode != TweakMode::KeywordsOnly {
            if is_shorter(td, config.cooldown) {
                return (TweakAction::Nothing, true);
            }
            if props.reply {
                if rolls.reply {
                    action = TweakAction::Reply;
                }
            } else if mode != TweakMode::KeywordsAndReplies {
                if rolls.tweak {
                    action = if rolls.tweak_as_reply {
                        TweakAction::Reply
                    } else {
                        TweakAction::Message
                    };
                }
            }
        }
    }
    // nothing to say: perhaps a reaction
    if action == TweakAction::Nothing {
        if is_shorter(td, config.cooldown_react) {
            return (TweakAction::Nothing, true);
        }
        if rolls.react {
            action = TweakAction::React;
        }
    }
    (action, false)
}

/// What `String::from_utf8_lossy` makes of bytes that are no valid text.
pub uninterp spec fn lossy_text(bytes: Seq<u8>) -> Seq<char>;

/// Calls `String::from_utf8_lossy`.
///
/// Claimed of it: it decodes valid bytes as they stand, and what it makes of other
/// bytes depends on the bytes alone.
#[verifier::external_body]
fn decode_lossy(bytes: &Vec<u8>) -> (s: String)
    ensures
        s@ == lossy_text(bytes@),
        vstd::utf8::valid_utf8(bytes@) ==> s@ == vstd::utf8::decode_utf8(bytes@),
{
    String::from_utf8_lossy(bytes).to_string()
}

/// The text of generated bytes.
pub fn generated_text(bytes: &Vec<u8>) -> (s: String)
    ensures
        s@ == lossy_text(bytes@),
        vstd::utf8::valid_utf8(bytes@) ==> s@ == vstd::utf8::decode_utf8(bytes@),
{
    decode_lossy(bytes)
}

/// The bytes of an optional text.
pub open spec fn opt_bytes(text: Option<Seq<char>>) -> Option<Seq<u8>> {
    match text {
        Some(s) => Some(vstd::utf8::encode_utf8(s)),
        None => None,
    }
}

/// The name of the file of a generator.
pub open spec fn generator_name(filename: Option<Seq<char>>) -> Seq<char> {
    match filename {
        Some(f) => f,
        None => "current.tkv"@,
    }
}

/// The name of the file of a checkpoint.
pub open spec fn checkpoint_name(time: Seq<char>) -> Seq<char> {
    "checkpoint_"@ + time + ".tkv"@
}

/// The bytes that the generator is to start or end with.
pub fn generator_bytes(text: &Option<String>) -> (r: Option<Vec<u8>>)
    ensures
        match text {
            Some(s) => r is Some && r->0@ == vstd::utf8::encode_utf8(s@),
            None => r is None,
        },
        match r {
            Some(bytes) => opt_bytes(opt_text(*text)) == Some(bytes@),
            None => opt_bytes(opt_text(*text)) is None,
        },
{
    match text {
        Some(s) => Some(s.as_str().as_bytes_vec()),
        None => None,
    }
}

/// The file of the generator in use.
pub fn generator_file(filename: Option<String>) -> (name: String)
    ensures
        name@ == match filename {
            Some(f) => f@,
            None => "current.tkv"@,
        },
        name@ == generator_name(opt_text(filename)),
{
    match filename {
        Some(f) => f,
        None => "current.tkv".to_owned(),
    }
}

/// The file of a checkpoint of the generator, from the time at which it is taken.
pub fn checkpoint_file(time: &str) -> (name: String)
    ensures
        name@ == "checkpoint_"@ + time@ + ".tkv"@,
        name@ == checkpoint_name(time@),
{
    let mut name = "checkpoint_".to_owned();
    name.append(time);
    name.append(".tkv");
    name
}

/// What follows the first `n` bytes of a text.
pub open spec fn after_bytes(s: Seq<char>, n: int) -> Seq<char> {
    vstd::utf8::decode_utf8(vstd::utf8::encode_utf8(s).skip(n))
}

/// The number of bytes to take off the front of a generated text: those of its start,
/// where starts are to be removed.
pub open spec fn start_bytes(remove: bool, start: Option<String>) -> int {
    match start {
        Some(s) => if remove {
            vstd::utf8::encode_utf8(s@).len() as int
        } else {
            0
        },
        None => 0,
    }
}

/// Whether a run of the filters over a generated text can end with `r`: `None` where
/// nothing is left of the text and another one is needed.
pub open spec fn may_finish(
    table: Map<Seq<char>, Filter>,
    s: Seq<char>,
    filters: Seq<FilterData>,
    r: Result<Option<String>, FilterError>,
) -> bool {
    match r {
        Err(error) => chain_may(table, s, calls(filters), Err(error@)),
        Ok(None) => chain_may(table, s, calls(filters), Ok(Seq::empty())),
        Ok(Some(text)) => text@.len() > 0 && chain_may(table, s, calls(filters), Ok(text@)),
    }
}

/// The bot's memory of its rooms, and whether it sleeps.
pub struct Tweaker {
    filters: Filters,
    last_message: NameMap<Moment>,
    mode_override: NameMap<TweakMode>,
    sleeping: bool,
    sleeping_locked: bool,
}

/// The contents of a `Tweaker`.
#[verifier::ext_equal]
pub struct TweakerView {
    pub filters: Map<Seq<char>, Filter>,
    pub last_message: Map<Seq<char>, Moment>,
    pub mode_override: Map<Seq<char>, TweakMode>,
    pub sleeping: bool,
    pub locked: bool,
}

impl View for Tweaker {
    type V = TweakerView;

    closed spec fn view(&self) -> TweakerView {
        TweakerView {
            filters: self.filters@,
            last_message: self.last_message@,
            mode_override: self.mode_override@,
            sleeping: self.sleeping,
            locked: self.sleeping_locked,
        }
    }
}

impl TweakerView {
    /// When the last message of a room was sent; the epoch before the first.
    pub open spec fn last_in(self, room: Seq<char>) -> Moment {
        if self.last_message.contains_key(room) {
            self.last_message[room]
        } else {
            Moment::at(0, 0)
        }
    }

    /// The mode of a room: the one set for it, or else the configured one.
    pub open spec fn mode_in(self, modes: Map<Seq<char>, TweakMode>, room: Seq<char>) -> TweakMode {
        if self.mode_override.contains_key(room) {
            self.mode_override[room]
        } else {
            configured_mode(modes, room)
        }
    }

    /// The contents after a message of a room was noted.
    pub open spec fn heard(self, room: Seq<char>, sent: Moment) -> TweakerView {
        TweakerView { last_message: self.last_message.insert(room, sent), ..self }
    }

    /// What the bot does about a message of a room, and the contents afterwards.
    pub open spec fn met(
        self,
        config: TweakerConfig,
        room: Seq<char>,
        props: MessageProps,
        rolls: Rolls,
    ) -> (TweakAction, TweakerView) {
        if is_silenced(config, room) {
            (TweakAction::Nothing, self)
        } else {
            let mode = configured_mode(config.tweak_mode@, room);
            let span = props.now@ - self.last_in(room)@;
            (decision(config, props, mode, span, rolls).0, self.heard(room, props.timestamp))
        }
    }

    /// The contents after falling asleep or waking up.
    pub open spec fn slept(self, sleep: bool, lock: bool) -> TweakerView {
        TweakerView { sleeping: sleep, locked: lock, ..self }
    }
}

impl TweakerView {
    /// The contents after one round of the sleeping loop at a time of day, and whether the
    /// queue is on hold then.
    pub open spec fn after_round(
        self,
        sleep_times: Seq<TimeOfDay>,
        wake_times: Seq<TimeOfDay>,
        now: TimeOfDay,
        on_hold: bool,
    ) -> (TweakerView, bool) {
        if changes_at(self, sleep_times, wake_times, now) {
            (self.slept(!self.sleeping, false), !self.sleeping)
        } else {
            (self, on_hold)
        }
    }
}

/// Whether the configuration keeps the bot from answering in a room.
pub open spec fn is_silenced(config: TweakerConfig, room: Seq<char>) -> bool {
    config.do_not_tweak == Some(true) || configured_mode(config.tweak_mode@, room)
        == TweakMode::Disabled
}

/// Whether the bot changes between sleep and waking at a time of day: only where that
/// is not locked, and the time is one for the change.
pub open spec fn changes_at(
    tweaker: TweakerView,
    sleep_times: Seq<TimeOfDay>,
    wake_times: Seq<TimeOfDay>,
    now: TimeOfDay,
) -> bool {
    !tweaker.locked && if tweaker.sleeping {
        wake_times.contains(now)
    } else {
        sleep_times.contains(now)
    }
}

impl Tweaker {
    /// A bot that has heard nothing, has no modes set and is awake.
    pub fn new(filters: Filters) -> (t: Self)
        ensures
            t@ == (TweakerView {
                filters: filters@,
                last_message: Map::empty(),
                mode_override: Map::empty(),
                sleeping: false,
                locked: false,
            }),
    {
        Tweaker {
            filters,
            last_message: NameMap::new(),
            mode_override: NameMap::new(),
            sleeping: false,
            sleeping_locked: false,
        }
    }

    /// When the last message of a room was sent; the epoch before the first.
    pub fn last_message(&self, room_id: &str) -> (m: Moment)
        ensures
            m == self@.last_in(room_id@),
    {
        match self.last_message.get(room_id) {
            Some(m) => m,
            None => Moment::epoch(),
        }
    }

    /// The mode of a room.
    pub fn tweak_mode(&self, config: &TweakerConfig, room_id: &str) -> (mode: TweakMode)
        ensures
            mode == self@.mode_in(config.tweak_mode@, room_id@),
    {
        match self.mode_override.get(room_id) {
            Some(mode) => mode,
            None => config.tweak_mode(room_id),
        }
    }

    /// Sets the mode of a room.
    pub fn set_mode(&mut self, room_id: String, mode: TweakMode)
        ensures
            final(self)@ == (TweakerView {
                mode_override: old(self)@.mode_override.insert(room_id@, mode),
                ..old(self)@
            }),
    {
        self.mode_override.insert(room_id, mode);
    }

    /// Whether the bot sleeps, and whether that is locked.
    pub fn is_sleeping(&self) -> (r: (bool, bool))
        ensures
            r == (self@.sleeping, self@.locked),
    {
        (self.sleeping, self.sleeping_locked)
    }

    /// Puts the bot to sleep or wakes it, and locks it in that state or not. A sleeping
    /// bot's queue is on hold.
    pub fn set_sleeping<R>(&mut self, queue: &mut ResponseQueue<R>, sleep: bool, lock: bool)
        ensures
            final(self)@ == old(self)@.slept(sleep, lock),
            final(queue).on_hold() == sleep,
            final(queue).waiting() == old(queue).waiting(),
    {
        self.sleeping = sleep;
        self.sleeping_locked = lock;
        queue.set_paused(sleep);
    }

    /// One round of the sleeping loop, at a time of day.
    pub fn sleep_round<R>(
        &mut self,
        config: &TweakerConfig,
        queue: &mut ResponseQueue<R>,
        now: TimeOfDay,
    )
        ensures
            final(queue).waiting() == old(queue).waiting(),
            if changes_at(old(self)@, config.sleep_times@, config.wake_times@, now) {
                final(self)@ == old(self)@.slept(!old(self)@.sleeping, false)
                    && final(queue).on_hold() == !old(self)@.sleeping
            } else {
                final(self)@ == old(self)@ && final(queue).on_hold() == old(queue).on_hold()
            },
            (final(self)@, final(queue).on_hold()) == old(self)@.after_round(
                config.sleep_times@,
                config.wake_times@,
                now,
                old(queue).on_hold(),
            ),
    {
        let (sleeping, locked) = self.is_sleeping();
        if locked {
            return;
        }
        if sleeping {
            if is_due(&config.wake_times, now) {
                self.set_sleeping(queue, false, false);
            }
        } else {
            if is_due(&config.sleep_times, now) {
                self.set_sleeping(queue, true, false);
            }
        }
    }

    /// Runs filters over a text.
    pub fn apply_filters(&self, string: String, fd: Vec<FilterData>) -> (r: Result<
        String,
        FilterError,
    >)
        ensures
            chain_may(self@.filters, string@, calls(fd@), outcome(r)),
    {
        self.filters.apply(string, fd)
    }

    /// Makes a message of a generated text: takes off its start where that is
    /// configured, and runs the configured filters over the rest. `None` asks for
    /// another text, because nothing is left of this one.
    pub fn tweak_filtered(
        &self,
        config: &TweakerConfig,
        text: String,
        start: &Option<String>,
    ) -> (r: Result<Option<String>, FilterError>)
        requires
            vstd::utf8::is_char_boundary(
                vstd::utf8::encode_utf8(text@),
                start_bytes(config.remove_start_text, *start),
            ),
        ensures
            may_finish(
                self@.filters,
                after_bytes(text@, start_bytes(config.remove_start_text, *start)),
                config.filters@,
                r,
            ),
    {
        let cut: usize = match start {
            Some(s) => if config.remove_start_text {
                byte_len(s.as_str())
            } else {
                0
            },
            None => 0,
        };
        let rest = text.as_str().split_at(cut).1.to_owned();
        proof {
            let bytes = vstd::utf8::encode_utf8(text@);
            assert(bytes.skip(cut as int) == bytes.subrange(cut as int, bytes.len() as int));
            vstd::utf8::encode_utf8_decode_utf8(rest@);
            assert(rest@ == after_bytes(text@, cut as int));
        }
        match self.apply_filters(rest, copy_filters(&config.filters)) {
            Ok(out) => if out.as_str().is_empty() {
                assert(out@ == Seq::<char>::empty());
                Ok(None)
            } else {
                Ok(Some(out))
            },
            Err(error) => Err(error),
        }
    }

    /// Notes a message of a room and decides about it.
    pub fn tweak_on_message(
        &mut self,
        config: &TweakerConfig,
        room_id: &str,
        props: &MessageProps,
        rolls: Rolls,
    ) -> (action: TweakAction)
        ensures
            if is_silenced(*config, room_id@) {
                action == TweakAction::Nothing && final(self)@ == old(self)@
            } else {
                &&& final(self)@ == old(self)@.heard(room_id@, props.timestamp)
                &&& action == chosen_action(
                    configured_mode(config.tweak_mode@, room_id@),
                    props.keyword is Some,
                    props.reply,
                    props.now@ - old(self)@.last_in(room_id@)@,
                    config.cooldown as int,
                    config.cooldown_react as int,
                    rolls,
                ).0
            },
            (action, final(self)@) == old(self)@.met(*config, room_id@, *props, rolls),
    {
        match config.do_not_tweak {
            Some(true) => {
                return TweakAction::Nothing;
            },
            _ => {},
        }
        let mode = config.tweak_mode(room_id);
        if mode == TweakMode::Disabled {
            return TweakAction::Nothing;
        }
        let last = self.last_message(room_id);
        self.last_message.insert(room_id.to_owned(), props.timestamp);
        let (action, cooldown) = choose_action(config, props, mode, props.now.since(&last), rolls);
        if cooldown {
            return TweakAction::Nothing;
        }
        action
    }
}

/// The response that carries out an action on a message: `produced` is the generated
/// text or the reaction.
pub open spec fn response_for(
    action: TweakAction,
    produced: Seq<char>,
    event_id: Seq<char>,
    sender: Seq<char>,
) -> ResponseView {
    match action {
        TweakAction::Nothing => ResponseView::Nothing,
        TweakAction::Message => ResponseView::Message { text: produced, reply_to: None },
        TweakAction::Reply => ResponseView::Message {
            text: produced,
            reply_to: Some((event_id, sender)),
        },
        TweakAction::React => ResponseView::Reaction { event_id, key: produced },
    }
}

/// The response that carries out an action on a message.
pub fn tweak_response(action: TweakAction, produced: String, message: EventRef) -> (r: Response)
    ensures
        r@ == response_for(action, produced@, message.event_id@, message.sender@),
{
    match action {
        TweakAction::Nothing => Response::Nothing,
        TweakAction::Message => Response::message(produced.as_str(), None),
        TweakAction::Reply => Response::message(produced.as_str(), Some(message)),
        TweakAction::React => Response::reaction(message.event_id, produced),
    }
}

/// In a disabled room the bot does nothing, and in a room for reactions it says nothing.
pub proof fn law_mode_limits(
    keyword: bool,
    reply: bool,
    span: int,
    cooldown: int,
    cooldown_react: int,
    rolls: Rolls,
)
    ensures
        chosen_action(
            TweakMode::Disabled,
            keyword,
            reply,
            span,
            cooldown,
            cooldown_react,
            rolls,
        ) == (TweakAction::Nothing, false),
        ({
            let action = chosen_action(
                TweakMode::Reactions,
                keyword,
                reply,
                span,
                cooldown,
                cooldown_react,
                rolls,
            ).0;
            action == TweakAction::Nothing || action == TweakAction::React
        }),
{
}

/// The bot says something only where the mode allows it: to a keyword in every mode
/// that talks, to a reply also where replies are answered, and to any other message
/// only in the normal mode. A message that answers none is sent in the normal mode only.
pub proof fn law_speaks_when_allowed(
    mode: TweakMode,
    keyword: bool,
    reply: bool,
    span: int,
    cooldown: int,
    cooldown_react: int,
    rolls: Rolls,
)
    ensures
        ({
            let action = chosen_action(
                mode,
                keyword,
                reply,
                span,
                cooldown,
                cooldown_react,
                rolls,
            ).0;
            &&& action == TweakAction::Reply ==> match mode {
                TweakMode::Disabled | TweakMode::Reactions => false,
                TweakMode::KeywordsOnly => keyword,
                TweakMode::KeywordsAndReplies => keyword || reply,
                TweakMode::Normal => true,
            }
            &&& action == TweakAction::Message ==> mode == TweakMode::Normal && !keyword && !reply
        }),
{
}

/// A keyword that is drawn to be answered is answered, whatever the cooldowns.
pub proof fn law_keyword_ignores_cooldown(
    mode: TweakMode,
    reply: bool,
    span: int,
    cooldown: int,
    cooldown_react: int,
    rolls: Rolls,
)
    requires
        mode != TweakMode::Disabled,
        mode != TweakMode::Reactions,
        rolls.keyword,
    ensures
        chosen_action(mode, true, reply, span, cooldown, cooldown_react, rolls) == (
            TweakAction::Reply,
            false,
        ),
{
}

/// Whoever was kept silent by a cooldown does nothing, and one of the two cooldowns had
/// not passed. While neither has passed, only keywords are answered.
pub proof fn law_cooldown(
    mode: TweakMode,
    keyword: bool,
    reply: bool,
    span: int,
    cooldown: int,
    cooldown_react: int,
    rolls: Rolls,
)
    ensures
        ({
            let (action, cooling) = chosen_action(
                mode,
                keyword,
                reply,
                span,
                cooldown,
                cooldown_react,
                rolls,
            );
            &&& cooling ==> action == TweakAction::Nothing && (shorter_than(span, cooldown)
                || shorter_than(span, cooldown_react))
            &&& shorter_than(span, cooldown) && shorter_than(span, cooldown_react) && action
                != TweakAction::Nothing ==> keyword && action == TweakAction::Reply
            &&& action == TweakAction::React ==> !shorter_than(span, cooldown_react)
        }),
{
}

/// Once a message of a room was noted, another one that comes before the cooldown has
/// passed is met with silence, unless it has a keyword; other rooms are not affected.
pub proof fn law_cooldown_runs_from_last_message(
    tweaker: TweakerView,
    room: Seq<char>,
    sent: Moment,
    other: Seq<char>,
    mode: TweakMode,
    reply: bool,
    now: Moment,
    cooldown: int,
    cooldown_react: int,
    rolls: Rolls,
)
    requires
        mode == TweakMode::KeywordsAndReplies || mode == TweakMode::Normal,
        shorter_than(now@ - sent@, cooldown),
    ensures
        chosen_action(
            mode,
            false,
            reply,
            now@ - tweaker.heard(room, sent).last_in(room)@,
            cooldown,
            cooldown_react,
            rolls,
        ) == (TweakAction::Nothing, true),
        other != room ==> tweaker.heard(room, sent).last_in(other) == tweaker.last_in(other),
{
}

/// A mode that is set for a room holds there, whatever is configured, and changes no
/// other room.
pub proof fn law_mode_override(
    tweaker: TweakerView,
    modes: Map<Seq<char>, TweakMode>,
    room: Seq<char>,
    mode: TweakMode,
    other: Seq<char>,
)
    ensures
        ({
            let after = TweakerView {
                mode_override: tweaker.mode_override.insert(room, mode),
                ..tweaker
            };
            &&& after.mode_in(modes, room) == mode
            &&& other != room ==> after.mode_in(modes, other) == tweaker.mode_in(modes, other)
        }),
{
}

/// A locked bot keeps sleeping or waking at every time of day; an unlocked one that
/// changes is unlocked afterwards, so that it can change back.
pub proof fn law_sleep_lock(
    tweaker: TweakerView,
    sleep: bool,
    sleep_times: Seq<TimeOfDay>,
    wake_times: Seq<TimeOfDay>,
    now: TimeOfDay,
)
    ensures
        !changes_at(tweaker.slept(sleep, true), sleep_times, wake_times, now),
        changes_at(tweaker.slept(true, false), sleep_times, wake_times, now)
            == wake_times.contains(now),
        changes_at(tweaker.slept(false, false), sleep_times, wake_times, now)
            == sleep_times.contains(now),
{
}

/// A generated text that begins with its start is cut behind that start.
pub proof fn law_start_removed(start: String, rest: Seq<char>)
    ensures
        vstd::utf8::is_char_boundary(
            vstd::utf8::encode_utf8(start@ + rest),
            start_bytes(true, Some(start)),
        ),
        after_bytes(start@ + rest, start_bytes(true, Some(start))) == rest,
{
    lemma_encode_concat(start@, rest);
    lemma_boundary_behind(start@, rest);
    let bytes = vstd::utf8::encode_utf8(start@ + rest);
    assert(bytes.skip(vstd::utf8::encode_utf8(start@).len() as int) == vstd::utf8::encode_utf8(rest));
    vstd::utf8::encode_utf8_decode_utf8(rest);
}

/// The end of the first of two texts is a boundary between characters.
proof fn lemma_boundary_behind(a: Seq<char>, b: Seq<char>)
    ensures
        vstd::utf8::is_char_boundary(
            vstd::utf8::encode_utf8(a + b),
            vstd::utf8::encode_utf8(a).len() as int,
        ),
    decreases a.len(),
{
    let whole = vstd::utf8::encode_utf8(a + b);
    vstd::utf8::encode_utf8_valid_utf8(a + b);
    if a.len() > 0 {
        lemma_boundary_behind(a.drop_first(), b);
        lemma_encode_concat(a, b);
        assert((a + b).drop_first() == a.drop_first() + b);
        vstd::utf8::encode_utf8_first_scalar(a + b);
        assert(vstd::utf8::pop_first_scalar(whole) == vstd::utf8::encode_utf8(a.drop_first() + b));
    }
}

/// Where the bot says nothing it may react: not before the cooldown of reactions has
/// passed, and then exactly if the draw came out for it. In a room for reactions it does
/// nothing else, whatever the message is.
pub proof fn law_reactions(config: TweakerConfig, props: MessageProps, span: int, rolls: Rolls)
    ensures
        span < config.cooldown_react * 1000000000 ==> decision(
            config,
            props,
            TweakMode::Reactions,
            span,
            rolls,
        ) == (TweakAction::Nothing, true),
        span >= config.cooldown_react * 1000000000 && rolls.react ==> decision(
            config,
            props,
            TweakMode::Reactions,
            span,
            rolls,
        ) == (TweakAction::React, false),
        span >= config.cooldown_react * 1000000000 && !rolls.react ==> decision(
            config,
            props,
            TweakMode::Reactions,
            span,
            rolls,
        ) == (TweakAction::Nothing, false),
        decision(config, props, TweakMode::Disabled, span, rolls) == (TweakAction::Nothing, false),
{
}

/// A message with a keyword is answered by a reply in every mode that talks, exactly if
/// the draw for keywords came out for it, whatever else is known of it. If not, it is met
/// as in a room for reactions.
pub proof fn law_keywords_are_answered(
    config: TweakerConfig,
    props: MessageProps,
    mode: TweakMode,
    span: int,
    rolls: Rolls,
)
    requires
        props.keyword is Some,
        mode == TweakMode::KeywordsOnly || mode == TweakMode::KeywordsAndReplies || mode
            == TweakMode::Normal,
    ensures
        rolls.keyword ==> decision(config, props, mode, span, rolls) == (TweakAction::Reply, false),
        !rolls.keyword ==> decision(config, props, mode, span, rolls) == decision(
            config,
            props,
            TweakMode::Reactions,
            span,
            rolls,
        ),
{
}

/// A reply to the bot without a keyword is met with silence before the cooldown has
/// passed. Afterwards it is answered by a reply exactly if the draw for replies came out
/// for it, wherever replies are answered. If not, it is met as in a room for reactions.
pub proof fn law_replies_are_answered(
    config: TweakerConfig,
    props: MessageProps,
    mode: TweakMode,
    span: int,
    rolls: Rolls,
)
    requires
        props.keyword is None,
        props.reply,
        mode == TweakMode::KeywordsAndReplies || mode == TweakMode::Normal,
    ensures
        span < config.cooldown * 1000000000 ==> decision(config, props, mode, span, rolls) == (
            TweakAction::Nothing,
            true,
        ),
        span >= config.cooldown * 1000000000 && rolls.reply ==> decision(
            config,
            props,
            mode,
            span,
            rolls,
        ) == (TweakAction::Reply, false),
        span >= config.cooldown * 1000000000 && !rolls.reply ==> decision(
            config,
            props,
            mode,
            span,
            rolls,
        ) == decision(config, props, TweakMode::Reactions, span, rolls),
{
}

/// Any other message is met with silence before the cooldown has passed. Afterwards it is
/// answered in the normal mode exactly if the draw for messages came out for it, by a
/// reply or by a message of its own as a further draw came out. If not, and in the mode
/// for keywords and replies, it is met as in a room for reactions.
pub proof fn law_other_messages(
    config: TweakerConfig,
    props: MessageProps,
    mode: TweakMode,
    span: int,
    rolls: Rolls,
)
    requires
        props.keyword is None,
        !props.reply,
        mode == TweakMode::KeywordsAndReplies || mode == TweakMode::Normal,
    ensures
        span < config.cooldown * 1000000000 ==> decision(config, props, mode, span, rolls) == (
            TweakAction::Nothing,
            true,
        ),
        span >= config.cooldown * 1000000000 && mode == TweakMode::Normal && rolls.tweak
            && rolls.tweak_as_reply ==> decision(config, props, mode, span, rolls) == (
            TweakAction::Reply,
            false,
        ),
        span >= config.cooldown * 1000000000 && mode == TweakMode::Normal && rolls.tweak
            && !rolls.tweak_as_reply ==> decision(config, props, mode, span, rolls) == (
            TweakAction::Message,
            false,
        ),
        span >= config.cooldown * 1000000000 && (mode != TweakMode::Normal || !rolls.tweak)
            ==> decision(config, props, mode, span, rolls) == decision(
            config,
            props,
            TweakMode::Reactions,
            span,
            rolls,
        ),
{
}

/// Where only keywords are answered, a message without one is met as in a room for
/// reactions, and the cooldown between messages does not matter.
pub proof fn law_keywords_only(
    config: TweakerConfig,
    props: MessageProps,
    span: int,
    rolls: Rolls,
)
    requires
        props.keyword is None,
    ensures
        decision(config, props, TweakMode::KeywordsOnly, span, rolls) == decision(
            config,
            props,
            TweakMode::Reactions,
            span,
            rolls,
        ),
{
}

/// A more eager mode never answers less: what is answered where only keywords are is
/// answered in the same way where replies are too, and that in the normal mode.
pub proof fn law_eager_modes_answer_more(
    config: TweakerConfig,
    props: MessageProps,
    span: int,
    rolls: Rolls,
)
    ensures
        ({
            let less = decision(config, props, TweakMode::KeywordsOnly, span, rolls);
            let more = decision(config, props, TweakMode::KeywordsAndReplies, span, rolls);
            let most = decision(config, props, TweakMode::Normal, span, rolls);
            &&& less.0 == TweakAction::Reply ==> more == less
            &&& more.0 == TweakAction::Reply ==> most == more
            &&& less.0 != TweakAction::Message && more.0 != TweakAction::Message
        }),
{
}

/// A room has the mode of its own entry, or that of the entry `default`, or else answers
/// keywords and replies; entries of other rooms do not matter.
pub proof fn law_configured_mode(
    modes: Map<Seq<char>, TweakMode>,
    room: Seq<char>,
    mode: TweakMode,
    other: Seq<char>,
)
    ensures
        configured_mode(modes.insert(room, mode), room) == mode,
        !modes.contains_key(room) && room != "default"@ ==> configured_mode(
            modes.insert("default"@, mode),
            room,
        ) == mode,
        !modes.contains_key(room) && !modes.contains_key("default"@) ==> configured_mode(
            modes,
            room,
        ) == TweakMode::KeywordsAndReplies,
        other != room && other != "default"@ ==> configured_mode(modes.insert(other, mode), room)
            == configured_mode(modes, room),
{
}

/// Without an entry of its own for the room, the bot's mode there is the configured one.
pub proof fn law_mode_without_override(
    tweaker: TweakerView,
    modes: Map<Seq<char>, TweakMode>,
    room: Seq<char>,
)
    requires
        !tweaker.mode_override.contains_key(room),
    ensures
        tweaker.mode_in(modes, room) == configured_mode(modes, room),
{
}

/// The bot does nothing about a message, and forgets nothing, where it is told not to talk
/// or the configured mode of the room is disabled. A mode set for the room does not
/// matter to that.
pub proof fn law_silenced_messages(
    tweaker: TweakerView,
    config: TweakerConfig,
    room: Seq<char>,
    props: MessageProps,
    rolls: Rolls,
)
    requires
        config.do_not_tweak == Some(true) || configured_mode(config.tweak_mode@, room)
            == TweakMode::Disabled,
    ensures
        tweaker.met(config, room, props, rolls) == (TweakAction::Nothing, tweaker),
{
}

/// Any other message is noted under its room with the time at which it was sent, which
/// changes nothing else, and decided by the configured mode and the time from the room's
/// last noted message to now.
pub proof fn law_messages_are_noted(
    tweaker: TweakerView,
    config: TweakerConfig,
    room: Seq<char>,
    props: MessageProps,
    rolls: Rolls,
)
    requires
        config.do_not_tweak != Some(true),
        configured_mode(config.tweak_mode@, room) != TweakMode::Disabled,
    ensures
        ({
            let (action, after) = tweaker.met(config, room, props, rolls);
            let last = if tweaker.last_message.contains_key(room) {
                tweaker.last_message[room]
            } else {
                Moment::at(0, 0)
            };
            &&& action == decision(
                config,
                props,
                configured_mode(config.tweak_mode@, room),
                props.now@ - last@,
                rolls,
            ).0
            &&& after.last_in(room) == props.timestamp
            &&& after.last_message == tweaker.last_message.insert(room, props.timestamp)
            &&& after.filters == tweaker.filters
            &&& after.mode_override == tweaker.mode_override
            &&& after.sleeping == tweaker.sleeping
            &&& after.locked == tweaker.locked
        }),
{
}

/// Falling asleep and waking up change nothing but that.
pub proof fn law_sleep_keeps_memory(tweaker: TweakerView, sleep: bool, lock: bool)
    ensures
        ({
            let after = tweaker.slept(sleep, lock);
            &&& after.sleeping == sleep
            &&& after.locked == lock
            &&& after.filters == tweaker.filters
            &&& after.last_message == tweaker.last_message
            &&& after.mode_override == tweaker.mode_override
        }),
{
}

/// A bot that is not locked wakes at each of its waking times and falls asleep at each of
/// its sleeping times, and at no other time.
pub proof fn law_sleep_times(
    tweaker: TweakerView,
    sleep_times: Seq<TimeOfDay>,
    wake_times: Seq<TimeOfDay>,
    now: TimeOfDay,
)
    ensures
        changes_at(tweaker, sleep_times, wake_times, now) <==> !tweaker.locked && (
        tweaker.sleeping && wake_times.contains(now) || !tweaker.sleeping && sleep_times.contains(
            now,
        )),
{
}

/// A word may start an answer exactly if it is the lower case of a part of the message
/// between spaces and is not ignored.
pub proof fn law_start_words(ignored: Seq<Seq<char>>, body: Seq<char>, word: Seq<char>)
    ensures
        start_words(ignored, body).contains(word) <==> !ignored.contains(word) && exists|i: int|
            0 <= i < split_on(body, ' ').len() && lowercase_of(#[trigger] split_on(body, ' ')[i])
                == word,
{
    let parts = split_on(body, ' ');
    let lower = parts.map_values(|w: Seq<char>| lowercase_of(w));
    let keep = |w: Seq<char>| !ignored.contains(w);
    if start_words(ignored, body).contains(word) {
        lower.lemma_filter_contains_rev(keep, word);
        let i = choose|i: int| 0 <= i < lower.len() && lower[i] == word;
        assert(lowercase_of(parts[i]) == word);
        let k = choose|k: int| 0 <= k < lower.filter(keep).len() && lower.filter(keep)[k] == word;
        lower.lemma_filter_pred(keep, k);
    }
    if !ignored.contains(word) && exists|i: int|
        0 <= i < parts.len() && lowercase_of(#[trigger] parts[i]) == word {
        let i = choose|i: int| 0 <= i < parts.len() && lowercase_of(#[trigger] parts[i]) == word;
        assert(lower[i] == word);
        lower.lemma_filter_contains(keep, i);
    }
}

/// An answer starts with the keyword that it answers, unless that is not to be said; else
/// with the word that was picked, if there is one.
pub proof fn law_answer_start(word: String, start_on: bool, picked: Option<Seq<char>>)
    ensures
        start_text(Some(Keyword::StartOnNotSpecified(word)), picked) == Some(word@),
        start_text(Some(Keyword::StartOnSpecified(word, true)), picked) == Some(word@),
        start_text(Some(Keyword::StartOnSpecified(word, false)), picked) == picked,
        start_text(None, picked) == picked,
        Keyword::StartOnSpecified(word, start_on).word() == word@,
        Keyword::StartOnNotSpecified(word).word() == word@,
{
}

/// A random pick is an item of the list, and there is none exactly if the list is empty.
pub proof fn law_picks(list: Seq<Seq<char>>, item: Seq<char>)
    ensures
        may_pick(list, Some(item)) <==> list.contains(item),
        may_pick(list, None) <==> list.len() == 0,
{
}

/// Where starts are kept, or there is none, nothing is taken off a generated text.
pub proof fn law_start_kept(start: Option<String>, text: Seq<char>)
    ensures
        start_bytes(false, start) == 0,
        start_bytes(true, None) == 0,
        after_bytes(text, 0) == text,
{
    let bytes = vstd::utf8::encode_utf8(text);
    assert(bytes.skip(0) == bytes);
    vstd::utf8::encode_utf8_decode_utf8(text);
}

/// A draft is finished with the outcome of its filters: it is a message exactly if
/// something is left of it, and an error of the filters is the error of the draft.
pub proof fn law_finished_drafts(
    table: Map<Seq<char>, Filter>,
    s: Seq<char>,
    filters: Seq<FilterData>,
    text: String,
    error: FilterError,
)
    ensures
        may_finish(table, s, filters, Ok(None)) <==> chain_may(
            table,
            s,
            calls(filters),
            Ok(Seq::empty()),
        ),
        may_finish(table, s, filters, Ok(Some(text))) <==> text@.len() > 0 && chain_may(
            table,
            s,
            calls(filters),
            Ok(text@),
        ),
        may_finish(table, s, filters, Err(error)) <==> chain_may(
            table,
            s,
            calls(filters),
            Err(error@),
        ),
{
}

/// A text is sent for a message and for a reply, and only a reply refers to the message
/// it answers; a reaction carries what was drawn to the message, and nothing sends
/// nothing.
pub proof fn law_responses(produced: Seq<char>, event_id: Seq<char>, sender: Seq<char>)
    ensures
        response_for(TweakAction::Message, produced, event_id, sender) == (ResponseView::Message {
            text: produced,
            reply_to: None,
        }),
        response_for(TweakAction::Reply, produced, event_id, sender) == (ResponseView::Message {
            text: produced,
            reply_to: Some((event_id, sender)),
        }),
        response_for(TweakAction::React, produced, event_id, sender) == (ResponseView::Reaction {
            event_id,
            key: produced,
        }),
        response_for(TweakAction::Nothing, produced, event_id, sender) == ResponseView::Nothing,
{
}

/// The first mark is set, and no mark before it is.
pub proof fn law_first_mark(marks: Seq<bool>)
    ensures
        0 <= first_mark(marks) <= marks.len(),
        first_mark(marks) < marks.len() ==> marks[first_mark(marks)],
        forall|i: int| 0 <= i < first_mark(marks) ==> !#[trigger] marks[i],
    decreases marks.len(),
{
    if marks.len() > 0 && !marks[0] {
        let rest = marks.skip(1);
        law_first_mark(rest);
        assert forall|i: int| 0 <= i < first_mark(marks) implies !#[trigger] marks[i] by {
            if i > 0 {
                assert(marks[i] == rest[i - 1]);
            }
        }
        if first_mark(marks) < marks.len() {
            assert(marks[first_mark(marks)] == rest[first_mark(rest)]);
        }
    }
}

/// The names by which modes are set.
pub proof fn law_modes_by_name(s: Seq<char>, mode: TweakMode)
    ensures
        TweakMode::named("Disabled"@) == Some(TweakMode::Disabled),
        TweakMode::named("Reactions"@) == Some(TweakMode::Reactions),
        TweakMode::named("KeywordsOnly"@) == Some(TweakMode::KeywordsOnly),
        TweakMode::named("KeywordsAndReplies"@) == Some(TweakMode::KeywordsAndReplies),
        TweakMode::named("Normal"@) == Some(TweakMode::Normal),
        TweakMode::named(s) == Some(mode) ==> s == mode.title(),
{
    law_mode_names(TweakMode::Disabled);
    law_mode_names(TweakMode::Reactions);
    law_mode_names(TweakMode::KeywordsOnly);
    law_mode_names(TweakMode::KeywordsAndReplies);
    law_mode_names(TweakMode::Normal);
}

/// The words of a message that an answer may start with come in their order, each as
/// often as it stands there.
pub proof fn law_start_words_in_order(ignored: Seq<Seq<char>>, a: Seq<char>, b: Seq<char>)
    ensures
        start_words(ignored, a + seq![' '] + b) == start_words(ignored, a) + start_words(ignored, b),
        !a.contains(' ') && ignored.contains(lowercase_of(a)) ==> start_words(ignored, a)
            == Seq::<Seq<char>>::empty(),
        !a.contains(' ') && !ignored.contains(lowercase_of(a)) ==> start_words(ignored, a) == seq![
            lowercase_of(a),
        ],
{
    let lower = |w: Seq<char>| lowercase_of(w);
    let keep = |w: Seq<char>| !ignored.contains(w);
    law_split_goes_on(a, ' ', b);
    let x = split_on(a, ' ');
    let y = split_on(b, ' ');
    assert((x + y).map_values(lower) == x.map_values(lower) + y.map_values(lower));
    Seq::filter_distributes_over_add(x.map_values(lower), y.map_values(lower), keep);
    if !a.contains(' ') {
        reveal(Seq::filter);
        let one = x.map_values(lower);
        assert(one == seq![lowercase_of(a)]);
        assert(one.drop_last() == Seq::<Seq<char>>::empty());
        assert(Seq::<Seq<char>>::empty().filter(keep) == Seq::<Seq<char>>::empty());
    }
}

/// A round of the sleeping loop turns sleep into waking and waking into sleep, unlocked and
/// with the queue on hold exactly in sleep, at the times for it; at other times, and where
/// the bot is locked, it changes nothing.
pub proof fn law_sleep_rounds(
    tweaker: TweakerView,
    sleep_times: Seq<TimeOfDay>,
    wake_times: Seq<TimeOfDay>,
    now: TimeOfDay,
    on_hold: bool,
)
    ensures
        ({
            let (after, held) = tweaker.after_round(sleep_times, wake_times, now, on_hold);
            &&& tweaker.locked ==> after == tweaker && held == on_hold
            &&& !tweaker.locked && tweaker.sleeping && wake_times.contains(now)
                ==> !after.sleeping && !after.locked && !held
            &&& !tweaker.locked && !tweaker.sleeping && sleep_times.contains(now)
                ==> after.sleeping && !after.locked && held
            &&& tweaker.sleeping && !wake_times.contains(now) ==> after == tweaker && held
                == on_hold
            &&& !tweaker.sleeping && !sleep_times.contains(now) ==> after == tweaker && held
                == on_hold
            &&& after.filters == tweaker.filters
            &&& after.last_message == tweaker.last_message
            &&& after.mode_override == tweaker.mode_override
        }),
{
}

/// The generator starts and ends with the bytes of the texts it is given, and its files have
/// the names they are given, or `current.tkv`; a checkpoint is named by its time.
pub proof fn law_generator_inputs(text: Seq<char>)
    ensures
        opt_bytes(Some(text)) == Some(vstd::utf8::encode_utf8(text)),
        opt_bytes(None) is None,
        generator_name(Some(text)) == text,
        generator_name(None) == "current.tkv"@,
        checkpoint_name(text) == "checkpoint_"@ + text + ".tkv"@,
{
}

/// The reaction is the first that was hit, whatever is hit behind it; where none was, there
/// is no text.
pub proof fn law_drawn_reaction(
    before: Seq<Seq<char>>,
    reaction: Seq<char>,
    behind: Seq<Seq<char>>,
    hits_behind: Seq<bool>,
)
    ensures
        drawn_reaction(
            before + seq![reaction] + behind,
            Seq::new(before.len(), |i: int| false) + seq![true] + hits_behind,
        ) == reaction,
        drawn_reaction(before, Seq::new(before.len(), |i: int| false)) == Seq::<char>::empty(),
{
    let none = Seq::new(before.len(), |i: int| false);
    let hits = none + seq![true] + hits_behind;
    law_first_mark(none);
    law_first_mark(hits);
    let first = first_mark(hits);
    assert(hits[before.len() as int]);
    if first < before.len() {
        assert(!hits[first]);
    }
    assert((before + seq![reaction] + behind)[before.len() as int] == reaction);
}

}
