//! The commands of the console.

use vstd::prelude::*;
use vstd::seq_lib::lemma_sorted_unique;
use crate::bot::{EventRef, MessageProps, ResponseQueue};
use crate::calendar::{moment_text, DAY_SECONDS};
use crate::clock::{is_shorter, shorter_than, Moment, NANOS};
use crate::console::{CommandContext, CommandError, Console, TrustLevel};
use crate::ids::{check_room_id, check_room_or_alias, room_id_error, room_or_alias_error};
use crate::number::{
    decimal, divide, int_text, integer_to_text, law_parse_decimal, natural_to_text, padded, padded_int, parse_size,
    parsed_size, quotient, remainder,
};
use crate::table::{
    append_cell, cell, law_row_order_total, lemma_widest, row_order, row_views, sort_rows, widest,
    Row, RowView,
};
use crate::text::{byte_len, join, joined, same_text, texts};
use crate::tweak::{law_mode_names, opt_text, Keyword, TweakMode, Tweaker, TweakerConfig, TweakerView};

verus! {

/// The commands.
#[derive(Debug, Clone, Copy, PartialEq, Eq, Structural)]
pub enum Command {
    Info,
    Commands,
    ReloadConfig,
    Tweak,
    TweakUnfiltered,
    MarkovInfo,
    Load,
    Checkpoint,
    ListRooms,
    JoinRoom,
    LeaveRoom,
    RoomInfo,
    RoomMode,
    MessageInfo,
    Queue,
    Sleep,
}

impl Command {
    /// The name under which the command is given.
    pub open spec fn title(self) -> Seq<char> {
        match self {
            Command::Info => "info"@,
            Command::Commands => "help"@,
            Command::ReloadConfig => "rlconfig"@,
            Command::Tweak => "tweak"@,
            Command::TweakUnfiltered => "tweakuf"@,
            Command::MarkovInfo => "markov"@,
            Command::Load => "load"@,
            Command::Checkpoint => "checkpoint"@,
            Command::ListRooms => "rooms"@,
            Command::JoinRoom => "join"@,
            Command::LeaveRoom => "leave"@,
            Command::RoomInfo => "roominfo"@,
            Command::RoomMode => "mode"@,
            Command::MessageInfo => "msginfo"@,
            Command::Queue => "queue"@,
            Command::Sleep => "sleepctl"@,
        }
    }

    /// The trust that the command takes; an operator's unless it is said to take less.
    pub open spec fn trust(self) -> TrustLevel {
        match self {
            Command::Info
            | Command::Commands
            | Command::Tweak
            | Command::MarkovInfo
            | Command::ListRooms
            | Command::RoomInfo
            | Command::MessageInfo => TrustLevel::Untrusted,
            Command::ReloadConfig
            | Command::TweakUnfiltered
            | Command::Load
            | Command::Checkpoint
            | Command::Queue
            | Command::Sleep => TrustLevel::Trusted,
            Command::JoinRoom | Command::LeaveRoom | Command::RoomMode => TrustLevel::Operator,
        }
    }

    /// The power level that the command takes.
    pub open spec fn power(self) -> i32 {
        match self {
            Command::RoomMode => 50,
            _ => 0,
        }
    }

    /// The name under which the command is given.
    pub fn name(&self) -> (s: String)
        ensures
            s@ == self.title(),
    {
        match self {
            Command::Info => "info".to_owned(),
            Command::Commands => "help".to_owned(),
            Command::ReloadConfig => "rlconfig".to_owned(),
            Command::Tweak => "tweak".to_owned(),
            Command::TweakUnfiltered => "tweakuf".to_owned(),
            Command::MarkovInfo => "markov".to_owned(),
            Command::Load => "load".to_owned(),
            Command::Checkpoint => "checkpoint".to_owned(),
            Command::ListRooms => "rooms".to_owned(),
            Command::JoinRoom => "join".to_owned(),
            Command::LeaveRoom => "leave".to_owned(),
            Command::RoomInfo => "roominfo".to_owned(),
            Command::RoomMode => "mode".to_owned(),
            Command::MessageInfo => "msginfo".to_owned(),
            Command::Queue => "queue".to_owned(),
            Command::Sleep => "sleepctl".to_owned(),
        }
    }

    /// The trust that the command takes.
    pub fn trust_level(&self) -> (level: TrustLevel)
        ensures
            level == self.trust(),
    {
        match self {
            Command::Info
            | Command::Commands
            | Command::Tweak
            | Command::MarkovInfo
            | Command::ListRooms
            | Command::RoomInfo
            | Command::MessageInfo => TrustLevel::Untrusted,
            Command::ReloadConfig
            | Command::TweakUnfiltered
            | Command::Load
            | Command::Checkpoint
            | Command::Queue
            | Command::Sleep => TrustLevel::Trusted,
            Command::JoinRoom | Command::LeaveRoom | Command::RoomMode => TrustLevel::Operator,
        }
    }

    /// The power level that the command takes.
    pub fn power_level(&self) -> (level: i32)
        ensures
            level == self.power(),
    {
        match self {
            Command::RoomMode => 50,
            _ => 0,
        }
    }
}

/// The table of all commands.
pub open spec fn all_commands() -> Map<Seq<char>, Command> {
    Map::<Seq<char>, Command>::empty()
        .insert(Command::Info.title(), Command::Info)
        .insert(Command::Commands.title(), Command::Commands)
        .insert(Command::ReloadConfig.title(), Command::ReloadConfig)
        .insert(Command::Tweak.title(), Command::Tweak)
        .insert(Command::TweakUnfiltered.title(), Command::TweakUnfiltered)
        .insert(Command::MarkovInfo.title(), Command::MarkovInfo)
        .insert(Command::Load.title(), Command::Load)
        .insert(Command::Checkpoint.title(), Command::Checkpoint)
        .insert(Command::ListRooms.title(), Command::ListRooms)
        .insert(Command::JoinRoom.title(), Command::JoinRoom)
        .insert(Command::LeaveRoom.title(), Command::LeaveRoom)
        .insert(Command::RoomInfo.title(), Command::RoomInfo)
        .insert(Command::RoomMode.title(), Command::RoomMode)
        .insert(Command::MessageInfo.title(), Command::MessageInfo)
        .insert(Command::Queue.title(), Command::Queue)
        .insert(Command::Sleep.title(), Command::Sleep)
}

/// Enters every command of this library.
pub fn register_commands(console: &mut Console)
    ensures
        final(console)@ == old(console)@.union_prefer_right(all_commands()),
{
    console.register(Command::Info);
    console.register(Command::Commands);
    console.register(Command::ReloadConfig);
    console.register(Command::Tweak);
    console.register(Command::TweakUnfiltered);
    console.register(Command::MarkovInfo);
    console.register(Command::Load);
    console.register(Command::Checkpoint);
    console.register(Command::ListRooms);
    console.register(Command::JoinRoom);
    console.register(Command::LeaveRoom);
    console.register(Command::RoomInfo);
    console.register(Command::RoomMode);
    console.register(Command::MessageInfo);
    console.register(Command::Queue);
    console.register(Command::Sleep);
    assert(console@ =~= old(console)@.union_prefer_right(all_commands()));
}

/// No two commands share a name.
pub proof fn law_command_names_differ(a: Command, b: Command)
    ensures
        a.title() == b.title() ==> a == b,
{
    reveal_strlit("info");
    reveal_strlit("help");
    reveal_strlit("rlconfig");
    reveal_strlit("tweak");
    reveal_strlit("tweakuf");
    reveal_strlit("markov");
    reveal_strlit("load");
    reveal_strlit("checkpoint");
    reveal_strlit("rooms");
    reveal_strlit("join");
    reveal_strlit("leave");
    reveal_strlit("roominfo");
    reveal_strlit("mode");
    reveal_strlit("msginfo");
    reveal_strlit("queue");
    reveal_strlit("sleepctl");
    if a.title() == b.title() {
        assert(a.title().len() == b.title().len());
        assert(a.title()[0] == b.title()[0]);
        assert(a.title()[1] == b.title()[1]);
    }
}

/// The table of all commands leads from each command's name to that command, and holds
/// no other name.
pub proof fn law_all_commands(name: Seq<char>)
    ensures
        all_commands().contains_key(name) <==> exists|c: Command| #[trigger] c.title() == name,
        forall|c: Command| #[trigger]
            all_commands().contains_key(c.title()) && all_commands()[c.title()] == c,
{
    assert forall|c: Command| #[trigger]
        all_commands().contains_key(c.title()) && all_commands()[c.title()] == c by {
        law_command_names_differ(c, Command::Info);
        law_command_names_differ(c, Command::Commands);
        law_command_names_differ(c, Command::ReloadConfig);
        law_command_names_differ(c, Command::Tweak);
        law_command_names_differ(c, Command::TweakUnfiltered);
        law_command_names_differ(c, Command::MarkovInfo);
        law_command_names_differ(c, Command::Load);
        law_command_names_differ(c, Command::Checkpoint);
        law_command_names_differ(c, Command::ListRooms);
        law_command_names_differ(c, Command::JoinRoom);
        law_command_names_differ(c, Command::LeaveRoom);
        law_command_names_differ(c, Command::RoomInfo);
        law_command_names_differ(c, Command::RoomMode);
        law_command_names_differ(c, Command::MessageInfo);
        law_command_names_differ(c, Command::Queue);
        law_command_names_differ(c, Command::Sleep);
    }
    if all_commands().contains_key(name) {
        assert(all_commands()[name].title() == name);
    }
}

/// The argument at a position.
pub open spec fn arg_at(args: Seq<Seq<char>>, i: int) -> Option<Seq<char>> {
    if 0 <= i < args.len() {
        Some(args[i])
    } else {
        None
    }
}

/// The argument at a position.
fn arg(args: &Vec<String>, i: usize) -> (r: Option<String>)
    ensures
        opt_text(r) == arg_at(texts(args@), i as int),
{
    if i < args.len() {
        Some(args[i].clone())
    } else {
        None
    }
}

/// `yes` or `no`.
pub open spec fn yes_no_text(b: bool) -> Seq<char> {
    if b {
        "yes"@
    } else {
        "no"@
    }
}

fn yes_no(b: bool) -> (s: String)
    ensures
        s@ == yes_no_text(b),
{
    if b {
        "yes".to_owned()
    } else {
        "no".to_owned()
    }
}

/// A span in nanoseconds as hours, minutes of the hour, seconds of the hour and
/// milliseconds of the second.
pub open spec fn uptime_text(span: int) -> Seq<char> {
    let secs = quotient(span, NANOS as int);
    padded_int(quotient(secs, 3600), 2) + ":"@ + padded_int(
        remainder(quotient(secs, 60), 60),
        2,
    ) + ":"@ + padded_int(remainder(secs, 3600), 2) + "."@ + padded_int(
        quotient(remainder(span, NANOS as int), 1000000),
        3,
    )
}

/// The output of the info command.
pub open spec fn info_text(name: Seq<char>, version: Seq<char>, span: int) -> Seq<char> {
    name + " v"@ + version + "\nUptime: "@ + uptime_text(span)
}

/// The output of the info command: the program's name and version, and how long it has
/// been running.
pub fn info(name: &str, version: &str, start: &Moment, now: &Moment) -> (out: String)
    ensures
        out@ == name@ + " v"@ + version@ + "\nUptime: "@ + uptime_text(now@ - start@),
        out@ == info_text(name@, version@, now@ - start@),
{
    let span: i128 = now.since(start);
    let (secs, rest) = divide(span, NANOS);
    let (hours, hour_secs) = divide(secs, 3600);
    let (minutes, _) = divide(secs, 60);
    let (_, hour_minutes) = divide(minutes, 60);
    let (millis, _) = divide(rest, 1000000);
    let mut out = name.to_owned();
    out.append(" v");
    out.append(version);
    out.append("\nUptime: ");
    let ghost head = out@;
    out.append(padded(hours, 2).as_str());
    out.append(":");
    out.append(padded(hour_minutes, 2).as_str());
    out.append(":");
    out.append(padded(hour_secs, 2).as_str());
    out.append(".");
    out.append(padded(millis, 3).as_str());
    assert(out@ == head + uptime_text(now@ - start@));
    out
}

/// The row of a command in the list of commands.
pub open spec fn help_row(row: (String, TrustLevel, i32)) -> RowView {
    (row.0@, row.1.title(), int_text(row.2 as int))
}

/// The rows of the list of commands, in order.
pub open spec fn help_rows(list: Seq<(String, TrustLevel, i32)>) -> Seq<RowView> {
    list.map_values(|row: (String, TrustLevel, i32)| help_row(row)).sort_by(row_order())
}

/// The first column of rows.
pub open spec fn first_column(rows: Seq<RowView>) -> Seq<Seq<char>> {
    rows.map_values(|row: RowView| row.0)
}

/// The second column of rows.
pub open spec fn second_column(rows: Seq<RowView>) -> Seq<Seq<char>> {
    rows.map_values(|row: RowView| row.1)
}

/// Rows as lines, with the given widths of the first two columns.
pub open spec fn rows_text(rows: Seq<RowView>, first: nat, second: nat) -> Seq<char>
    decreases rows.len(),
{
    if rows.len() == 0 {
        Seq::empty()
    } else {
        rows_text(rows.drop_last(), first, second) + cell(rows.last().0, first) + cell(
            rows.last().1,
            second,
        ) + rows.last().2 + "\n"@
    }
}

/// The list of commands, headed by the trust of whoever asks for it.
pub open spec fn help_text(rows: Seq<RowView>, own: TrustLevel) -> Seq<char> {
    "Your trust level: "@ + own.title() + "\n\n"@ + rows_text(
        rows,
        widest(first_column(rows)),
        widest(second_column(rows)),
    )
}

/// The greatest width of a column of texts.
fn column_width(column: &Vec<String>) -> (w: usize)
    ensures
        w == widest(texts(column@)),
{
    let mut w: usize = 0;
    let mut i: usize = 0;
    while i < column.len()
        invariant
            i <= column.len(),
            w == widest(texts(column@).take(i as int)),
        decreases column.len() - i,
    {
        let n: usize = byte_len(column[i].as_str());
        proof {
            let head = texts(column@).take(i + 1);
            assert(head.drop_last() == texts(column@).take(i as int));
            assert(head.last() == column@[i as int]@);
        }
        if n > w {
            w = n;
        }
        i += 1;
    }
    assert(texts(column@).take(i as int) == texts(column@));
    w
}

/// The output of the help command: the commands by name, each with the trust and the
/// power level that it takes, in aligned columns.
pub fn help(commands: &Vec<(String, TrustLevel, i32)>, own: TrustLevel) -> (out: String)
    ensures
        out@ == help_text(help_rows(commands@), own),
{
    let mut rows: Vec<Row> = Vec::new();
    let mut i: usize = 0;
    let ghost unsorted = commands@.map_values(|row: (String, TrustLevel, i32)| help_row(row));
    while i < commands.len()
        invariant
            i <= commands.len(),
            unsorted == commands@.map_values(|row: (String, TrustLevel, i32)| help_row(row)),
            row_views(rows@) == unsorted.take(i as int),
        decreases commands.len() - i,
    {
        let command = &commands[i];
        let row = Row {
            first: command.0.clone(),
            second: command.1.name(),
            third: integer_to_text(command.2 as i64),
        };
        proof {
            assert(unsorted[i as int] == row@);
            assert(row_views(rows@.push(row)) == row_views(rows@).push(row@));
            assert(unsorted.take(i + 1) == unsorted.take(i as int).push(row@));
        }
        rows.push(row);
        i += 1;
    }
    assert(unsorted.take(i as int) == unsorted);
    let sorted = sort_rows(&rows);
    let ghost views = row_views(sorted@);
    assert(views == help_rows(commands@));

    let mut names: Vec<String> = Vec::new();
    let mut levels: Vec<String> = Vec::new();
    let mut j: usize = 0;
    while j < sorted.len()
        invariant
            j <= sorted.len(),
            views == row_views(sorted@),
            texts(names@) == first_column(views).take(j as int),
            texts(levels@) == second_column(views).take(j as int),
        decreases sorted.len() - j,
    {
        let row = &sorted[j];
        let name = row.first.clone();
        let level = row.second.clone();
        proof {
            assert(views[j as int] == row@);
            assert(texts(names@.push(name)) == texts(names@).push(name@));
            assert(texts(levels@.push(level)) == texts(levels@).push(level@));
            assert(first_column(views).take(j + 1) == first_column(views).take(j as int).push(name@));
            assert(second_column(views).take(j + 1) == second_column(views).take(j as int).push(
                level@,
            ));
        }
        names.push(name);
        levels.push(level);
        j += 1;
    }
    assert(first_column(views).take(j as int) == first_column(views));
    assert(second_column(views).take(j as int) == second_column(views));
    let first: usize = column_width(&names);
    let second: usize = column_width(&levels);

    let mut out = "Your trust level: ".to_owned();
    out.append(own.name().as_str());
    out.append("\n\n");
    let ghost head = out@;
    let mut k: usize = 0;
    assert(head + rows_text(views.take(0), first as nat, second as nat) == head);
    while k < sorted.len()
        invariant
            k <= sorted.len(),
            views == row_views(sorted@),
            first == widest(first_column(views)),
            second == widest(second_column(views)),
            out@ == head + rows_text(views.take(k as int), first as nat, second as nat),
        decreases sorted.len() - k,
    {
        let row = &sorted[k];
        proof {
            assert(views[k as int] == row@);
            lemma_widest(first_column(views), k as int);
            lemma_widest(second_column(views), k as int);
            assert(views.take(k + 1).drop_last() == views.take(k as int));
            assert(views.take(k + 1).last() == row@);
        }
        append_cell(&mut out, row.first.as_str(), first);
        append_cell(&mut out, row.second.as_str(), second);
        out.append(row.third.as_str());
        out.append("\n");
        assert(out@ == head + rows_text(views.take(k + 1), first as nat, second as nat));
        k += 1;
    }
    assert(views.take(k as int) == views);
    out
}

/// The list of commands does not depend on the order in which the commands come.
pub proof fn law_help_ignores_order(
    a: Seq<(String, TrustLevel, i32)>,
    b: Seq<(String, TrustLevel, i32)>,
    own: TrustLevel,
)
    requires
        a.map_values(|row: (String, TrustLevel, i32)| help_row(row)).to_multiset()
            == b.map_values(|row: (String, TrustLevel, i32)| help_row(row)).to_multiset(),
    ensures
        help_text(help_rows(a), own) == help_text(help_rows(b), own),
{
    let x = a.map_values(|row: (String, TrustLevel, i32)| help_row(row));
    let y = b.map_values(|row: (String, TrustLevel, i32)| help_row(row));
    law_row_order_total();
    x.lemma_sort_by_ensures(row_order());
    y.lemma_sort_by_ensures(row_order());
    lemma_sorted_unique(x.sort_by(row_order()), y.sort_by(row_order()), row_order());
}

/// The ids of a list of rooms.
pub open spec fn room_ids(rooms: Seq<(String, String)>) -> Seq<Seq<char>> {
    rooms.map_values(|room: (String, String)| room.0@)
}

/// The lines of a list of rooms: the ids in an aligned column, each followed by the
/// room's name.
pub open spec fn room_lines(rooms: Seq<(String, String)>) -> Seq<Seq<char>> {
    rooms.map_values(
        |room: (String, String)| cell(room.0@, widest(room_ids(rooms))) + room.1@,
    )
}

/// The output of the rooms command.
pub fn list_rooms(rooms: &Vec<(String, String)>) -> (out: String)
    ensures
        out@ == joined(room_lines(rooms@), "\n"@),
{
    let mut ids: Vec<String> = Vec::new();
    let mut i: usize = 0;
    while i < rooms.len()
        invariant
            i <= rooms.len(),
            texts(ids@) == room_ids(rooms@).take(i as int),
        decreases rooms.len() - i,
    {
        let id = rooms[i].0.clone();
        proof {
            assert(texts(ids@.push(id)) == texts(ids@).push(id@));
            assert(room_ids(rooms@).take(i + 1) == room_ids(rooms@).take(i as int).push(id@));
        }
        ids.push(id);
        i += 1;
    }
    assert(room_ids(rooms@).take(i as int) == room_ids(rooms@));
    let width: usize = column_width(&ids);
    let mut lines: Vec<String> = Vec::new();
    let mut j: usize = 0;
    while j < rooms.len()
        invariant
            j <= rooms.len(),
            width == widest(room_ids(rooms@)),
            texts(lines@) == room_lines(rooms@).take(j as int),
        decreases rooms.len() - j,
    {
        let room = &rooms[j];
        proof {
            lemma_widest(room_ids(rooms@), j as int);
        }
        let mut line = String::new();
        append_cell(&mut line, room.0.as_str(), width);
        line.append(room.1.as_str());
        proof {
            assert(line@ == room_lines(rooms@)[j as int]);
            assert(texts(lines@.push(line)) == texts(lines@).push(line@));
            assert(room_lines(rooms@).take(j + 1) == room_lines(rooms@).take(j as int).push(line@));
        }
        lines.push(line);
        j += 1;
    }
    assert(room_lines(rooms@).take(j as int) == room_lines(rooms@));
    join(&lines, "\n")
}

/// The length of a generated text when none is given.
pub const DEFAULT_LENGTH: usize = 256;

/// What a generated text is asked for with.
#[derive(Debug, PartialEq, Eq)]
pub struct TweakArgs {
    pub length: usize,
    pub start: Option<String>,
    pub end: Option<String>,
}

/// The length that the arguments of the tweak commands ask for.
pub open spec fn asked_length(args: Seq<Seq<char>>) -> usize {
    match arg_at(args, 0) {
        Some(s) => match parsed_size(s) {
            Some(n) => n,
            None => DEFAULT_LENGTH,
        },
        None => DEFAULT_LENGTH,
    }
}

/// What the arguments of the tweak commands ask for: a length, a start and an end.
pub fn tweak_args(args: &Vec<String>) -> (r: TweakArgs)
    ensures
        r.length == (match arg_at(texts(args@), 0) {
            Some(s) => match parsed_size(s) {
                Some(n) => n,
                None => DEFAULT_LENGTH,
            },
            None => DEFAULT_LENGTH,
        }),
        r.length == asked_length(texts(args@)),
        opt_text(r.start) == arg_at(texts(args@), 1),
        opt_text(r.end) == arg_at(texts(args@), 2),
{
    let length: usize = match arg(args, 0) {
        Some(s) => match parse_size(s.as_str()) {
            Some(n) => n,
            None => DEFAULT_LENGTH,
        },
        None => DEFAULT_LENGTH,
    };
    TweakArgs { length, start: arg(args, 1), end: arg(args, 2) }
}

/// The output of the markov command.
pub open spec fn markov_text(seed_length: nat, dictionary_length: nat) -> Seq<char> {
    "Seed length: "@ + decimal(seed_length) + "\nDictionary length: "@ + decimal(dictionary_length)
}

/// The output of the markov command.
pub fn markov_info(seed_length: usize, dictionary_length: usize) -> (out: String)
    ensures
        out@ == "Seed length: "@ + decimal(seed_length as nat) + "\nDictionary length: "@ + decimal(
            dictionary_length as nat,
        ),
        out@ == markov_text(seed_length as nat, dictionary_length as nat),
{
    let mut out = "Seed length: ".to_owned();
    out.append(natural_to_text(seed_length as u128).as_str());
    out.append("\nDictionary length: ");
    out.append(natural_to_text(dictionary_length as u128).as_str());
    out
}

/// The file that the load command names.
pub fn load_target(args: &Vec<String>) -> (r: Option<String>)
    ensures
        opt_text(r) == arg_at(texts(args@), 0),
{
    arg(args, 0)
}

/// An id that was checked, or the error of the check.
pub fn checked_id(id: String, check: Result<(), String>) -> (r: Result<String, CommandError>)
    ensures
        r == (match check {
            Ok(_) => Ok(id),
            Err(message) => Err(CommandError::BadId(message)),
        }),
{
    match check {
        Ok(_) => Ok(id),
        Err(message) => Err(CommandError::BadId(message)),
    }
}

/// The room that the join command names, by id or alias.
pub fn join_target(args: &Vec<String>) -> (r: Result<String, CommandError>)
    ensures
        match arg_at(texts(args@), 0) {
            None => r == Err::<String, CommandError>(CommandError::RoomOrAliasRequired),
            Some(id) => match r {
                Ok(s) => s@ == id && room_or_alias_error(id) is None,
                Err(error) => error matches CommandError::BadId(message) && room_or_alias_error(id)
                    == Some(message@),
            },
        },
{
    match arg(args, 0) {
        None => Err(CommandError::RoomOrAliasRequired),
        Some(id) => {
            let check = check_room_or_alias(id.as_str());
            checked_id(id, check)
        },
    }
}

/// The room that the leave command names, by id.
pub fn leave_target(args: &Vec<String>) -> (r: Result<String, CommandError>)
    ensures
        match arg_at(texts(args@), 0) {
            None => r == Err::<String, CommandError>(CommandError::RoomRequired),
            Some(id) => match r {
                Ok(s) => s@ == id && room_id_error(id) is None,
                Err(error) => error matches CommandError::BadId(message) && room_id_error(id)
                    == Some(message@),
            },
        },
{
    match arg(args, 0) {
        None => Err(CommandError::RoomRequired),
        Some(id) => {
            let check = check_room_id(id.as_str());
            checked_id(id, check)
        },
    }
}

/// The room that a command speaks of.
pub open spec fn told_room(args: Seq<Seq<char>>, context: CommandContext) -> Option<Seq<char>> {
    match (arg_at(args, 0), context) {
        (Some(id), _) => Some(id),
        (None, CommandContext::Chat { room_id, .. }) => Some(room_id@),
        (None, CommandContext::Console) => None,
    }
}

/// The room that a command speaks of: the one named, or the one in which it was given.
pub fn room_info_target(args: &Vec<String>, context: &CommandContext) -> (r: Result<
    String,
    CommandError,
>)
    ensures
        match (arg_at(texts(args@), 0), context) {
            (Some(id), _) => r matches Ok(s) && s@ == id,
            (None, CommandContext::Chat { room_id, .. }) => r matches Ok(s) && s@ == room_id@,
            (None, CommandContext::Console) => r == Err::<String, CommandError>(
                CommandError::RoomRequiredOutsideChat,
            ),
        },
        match r {
            Ok(id) => told_room(texts(args@), *context) == Some(id@),
            Err(_) => told_room(texts(args@), *context) is None,
        },
{
    match arg(args, 0) {
        Some(id) => Ok(id),
        None => match context {
            CommandContext::Chat { room_id, .. } => Ok(room_id.clone()),
            CommandContext::Console => Err(CommandError::RoomRequiredOutsideChat),
        },
    }
}

/// The names of the cooldowns that have not passed.
pub open spec fn cooldown_names(span: int, cooldown: int, cooldown_react: int) -> Seq<Seq<char>> {
    (if shorter_than(span, cooldown) {
        seq!["message"@]
    } else {
        Seq::empty()
    }) + (if shorter_than(span, cooldown_react) {
        seq!["react"@]
    } else {
        Seq::empty()
    })
}

/// The output of the roominfo command.
pub open spec fn room_info_text(
    mode: TweakMode,
    last_message: Seq<char>,
    cooldowns: Seq<Seq<char>>,
) -> Seq<char> {
    let out = "Response mode: "@ + mode.title() + "\nLast message: "@ + last_message;
    if cooldowns.len() == 0 {
        out
    } else {
        out + " (cooldowns: "@ + joined(cooldowns, ", "@) + ")"@
    }
}

/// The output of the roominfo command: the mode of a room, when its last message was
/// sent, and which cooldowns have not passed. `span` is the time since the last message,
/// in nanoseconds.
pub fn room_info(
    config: &TweakerConfig,
    mode: TweakMode,
    last_message: &str,
    span: i128,
) -> (out: String)
    ensures
        out@ == room_info_text(
            mode,
            last_message@,
            cooldown_names(span as int, config.cooldown as int, config.cooldown_react as int),
        ),
{
    let mut cooldowns: Vec<String> = Vec::new();
    if is_shorter(span, config.cooldown) {
        cooldowns.push("message".to_owned());
    }
    if is_shorter(span, config.cooldown_react) {
        cooldowns.push("react".to_owned());
    }
    assert(texts(cooldowns@) == cooldown_names(
        span as int,
        config.cooldown as int,
        config.cooldown_react as int,
    ));
    let mut out = "Response mode: ".to_owned();
    out.append(mode.name().as_str());
    out.append("\nLast message: ");
    out.append(last_message);
    if cooldowns.len() > 0 {
        out.append(" (cooldowns: ");
        out.append(join(&cooldowns, ", ").as_str());
        out.append(")");
    }
    out
}

/// The output of the roominfo command for a room, from what the bot remembers of it.
/// `offset` is the local offset from UTC at the time of the room's last message.
pub fn remembered_room_info(
    tweaker: &Tweaker,
    config: &TweakerConfig,
    room_id: &str,
    now: &Moment,
    offset: i32,
) -> (out: String)
    requires
        -DAY_SECONDS < offset < DAY_SECONDS,
    ensures
        ({
            let last = tweaker@.last_in(room_id@);
            out@ == room_info_text(
                tweaker@.mode_in(config.tweak_mode@, room_id@),
                moment_text(last.second(), last.nano(), offset as int),
                cooldown_names(
                    now@ - last@,
                    config.cooldown as int,
                    config.cooldown_react as int,
                ),
            )
        }),
{
    let mode = tweaker.tweak_mode(config, room_id);
    let last = tweaker.last_message(room_id);
    let text = last.local_text(offset);
    let span: i128 = now.since(&last);
    room_info(config, mode, text.as_str(), span)
}

/// What the mode command asks for: a room and its new mode.
pub open spec fn mode_change(args: Seq<Seq<char>>, context: CommandContext) -> Result<
    (Seq<char>, TweakMode),
    CommandError,
> {
    if args.len() == 0 {
        Err(CommandError::ModeRequired)
    } else {
        match TweakMode::named(args[0]) {
            None => Err(CommandError::UnknownMode),
            Some(mode) => match context {
                CommandContext::Chat { room_id, .. } => Ok((room_id@, mode)),
                CommandContext::Console => if args.len() > 1 {
                    Ok((args[1], mode))
                } else {
                    Err(CommandError::ModeRoomRequired)
                },
            },
        }
    }
}

/// Runs the mode command: sets the mode of the room in which it was given or, at the
/// prompt, of the room named behind the mode.
pub fn room_mode(tweaker: &mut Tweaker, args: &Vec<String>, context: &CommandContext) -> (r: Result<
    (),
    CommandError,
>)
    ensures
        match mode_change(texts(args@), *context) {
            Ok((room, mode)) => r is Ok && final(tweaker)@ == (TweakerView {
                mode_override: old(tweaker)@.mode_override.insert(room, mode),
                ..old(tweaker)@
            }),
            Err(error) => r == Err::<(), CommandError>(error) && final(tweaker)@ == old(tweaker)@,
        },
{
    if args.len() == 0 {
        return Err(CommandError::ModeRequired);
    }
    let mode: TweakMode = match TweakMode::from_name(args[0].as_str()) {
        None => {
            return Err(CommandError::UnknownMode);
        },
        Some(mode) => mode,
    };
    let room: String = match context {
        CommandContext::Chat { room_id, .. } => room_id.clone(),
        CommandContext::Console => if args.len() > 1 {
            args[1].clone()
        } else {
            return Err(CommandError::ModeRoomRequired);
        },
    };
    tweaker.set_mode(room, mode);
    Ok(())
}

/// Whether a command that is about a message may be run.
pub fn needs_chat(context: &CommandContext) -> (r: Result<(), CommandError>)
    ensures
        r == (match context {
            CommandContext::Chat { .. } => Ok(()),
            CommandContext::Console => Err(CommandError::ChatOnly),
        }),
{
    match context {
        CommandContext::Chat { .. } => Ok(()),
        CommandContext::Console => Err(CommandError::ChatOnly),
    }
}

/// The word of a keyword, or a sign that there is none.
pub open spec fn keyword_text(keyword: Option<Keyword>) -> Seq<char> {
    match keyword {
        Some(k) => k.word(),
        None => "<none>"@,
    }
}

/// The output of the msginfo command.
pub open spec fn message_text(keyword: Option<Keyword>, reply: bool) -> Seq<char> {
    "Keyword: "@ + keyword_text(keyword) + "\nIs reply: "@ + yes_no_text(reply)
}

/// The output of the msginfo command.
pub fn message_info(props: &MessageProps) -> (out: String)
    ensures
        out@ == "Keyword: "@ + keyword_text(props.keyword) + "\nIs reply: "@ + yes_no_text(
            props.reply,
        ),
        out@ == message_text(props.keyword, props.reply),
{
    let mut out = "Keyword: ".to_owned();
    match &props.keyword {
        Some(k) => out.append(k.keyword().as_str()),
        None => out.append("<none>"),
    }
    out.append("\nIs reply: ");
    out.append(yes_no(props.reply).as_str());
    out
}

/// The state of the queue in words.
pub open spec fn queue_text(waiting: nat, on_hold: bool) -> Seq<char> {
    "There are "@ + decimal(waiting) + " responses in the queue\nPaused: "@ + yes_no_text(on_hold)
}

/// What a word of the queue command does to a queue with so many waiting responses: what it
/// says, whether the responses are kept, and whether the queue is on hold afterwards.
pub open spec fn queue_order(word: Option<Seq<char>>, waiting: nat, on_hold: bool) -> (
    Option<Seq<char>>,
    bool,
    bool,
) {
    if word == Some("pause"@) {
        (None, true, true)
    } else if word == Some("unpause"@) {
        (None, true, false)
    } else if word == Some("purge"@) {
        (None, false, on_hold)
    } else {
        (Some(queue_text(waiting, on_hold)), true, on_hold)
    }
}

/// Runs the queue command: `pause`, `unpause` and `purge` act on the queue, anything
/// else tells its state.
pub fn queue_command<R>(queue: &mut ResponseQueue<R>, args: &Vec<String>) -> (r: Option<String>)
    ensures
        ({
            let word = arg_at(texts(args@), 0);
            &&& word == Some("pause"@) ==> r is None && final(queue).on_hold()
                && final(queue).waiting() == old(queue).waiting()
            &&& word == Some("unpause"@) ==> r is None && !final(queue).on_hold()
                && final(queue).waiting() == old(queue).waiting()
            &&& word == Some("purge"@) ==> r is None && final(queue).waiting().len() == 0
                && final(queue).on_hold() == old(queue).on_hold()
            &&& word != Some("pause"@) && word != Some("unpause"@) && word != Some("purge"@) ==> {
                &&& opt_text(r) == Some(queue_text(old(queue).waiting().len(), old(queue).on_hold()))
                &&& final(queue).waiting() == old(queue).waiting()
                &&& final(queue).on_hold() == old(queue).on_hold()
            }
        }),
        ({
            let order = queue_order(
                arg_at(texts(args@), 0),
                old(queue).waiting().len(),
                old(queue).on_hold(),
            );
            &&& opt_text(r) == order.0
            &&& final(queue).waiting() == if order.1 {
                old(queue).waiting()
            } else {
                Seq::empty()
            }
            &&& final(queue).on_hold() == order.2
        }),
{
    proof {
        reveal_strlit("pause");
        reveal_strlit("unpause");
        reveal_strlit("purge");
        assert("pause"@.len() == 5 && "unpause"@.len() == 7 && "purge"@[1] == 'u' && "pause"@[1] == 'a');
    }
    let word = match arg(args, 0) {
        Some(word) => word,
        None => String::new(),
    };
    if args.len() > 0 && same_text(word.as_str(), "pause") {
        queue.set_paused(true);
        return None;
    }
    if args.len() > 0 && same_text(word.as_str(), "unpause") {
        queue.set_paused(false);
        return None;
    }
    if args.len() > 0 && same_text(word.as_str(), "purge") {
        queue.purge();
        return None;
    }
    let mut out = "There are ".to_owned();
    out.append(natural_to_text(queue.len() as u128).as_str());
    out.append(" responses in the queue\nPaused: ");
    out.append(yes_no(queue.is_paused()).as_str());
    Some(out)
}

/// A change that the sleepctl command makes, with what it says.
pub struct SleepOrder {
    pub sleep: bool,
    pub lock: bool,
    pub says: Option<Seq<char>>,
}

/// The change that a word of the sleepctl command makes.
pub open spec fn sleep_order(word: Option<Seq<char>>) -> Option<SleepOrder> {
    if word == Some("sleep"@) {
        Some(SleepOrder { sleep: true, lock: false, says: None })
    } else if word == Some("wake"@) {
        Some(SleepOrder { sleep: false, lock: false, says: None })
    } else if word == Some("nyquil"@) {
        Some(SleepOrder { sleep: true, lock: true, says: Some("So eepy..."@) })
    } else if word == Some("redbull"@) {
        Some(
            SleepOrder {
                sleep: false,
                lock: true,
                says: Some("HOLY SHIT I COULD TWEAK ALL NIGHT!!!"@),
            },
        )
    } else {
        None
    }
}

/// The sleep of the bot in words.
pub open spec fn sleep_text(sleeping: bool, locked: bool) -> Seq<char> {
    "Currently "@ + (if sleeping {
        "sleeping"@
    } else {
        "awake"@
    }) + " (locked: "@ + yes_no_text(locked) + ")"@
}

/// Runs the sleepctl command: `sleep` and `wake` change the bot's sleep, `nyquil` and
/// `redbull` lock it as well, anything else tells its state.
pub fn sleep_command<R>(
    tweaker: &mut Tweaker,
    queue: &mut ResponseQueue<R>,
    args: &Vec<String>,
) -> (r: Option<String>)
    ensures
        final(queue).waiting() == old(queue).waiting(),
        match sleep_order(arg_at(texts(args@), 0)) {
            Some(order) => {
                &&& opt_text(r) == order.says
                &&& final(tweaker)@ == old(tweaker)@.slept(order.sleep, order.lock)
                &&& final(queue).on_hold() == order.sleep
            },
            None => {
                &&& opt_text(r) == Some(sleep_text(old(tweaker)@.sleeping, old(tweaker)@.locked))
                &&& final(tweaker)@ == old(tweaker)@
                &&& final(queue).on_hold() == old(queue).on_hold()
            },
        },
{
    if args.len() > 0 {
        let word = args[0].as_str();
        if same_text(word, "sleep") {
            tweaker.set_sleeping(queue, true, false);
            return None;
        }
        if same_text(word, "wake") {
            tweaker.set_sleeping(queue, false, false);
            return None;
        }
        if same_text(word, "nyquil") {
            tweaker.set_sleeping(queue, true, true);
            return Some("So eepy...".to_owned());
        }
        if same_text(word, "redbull") {
            tweaker.set_sleeping(queue, false, true);
            return Some("HOLY SHIT I COULD TWEAK ALL NIGHT!!!".to_owned());
        }
    }
    let (sleeping, locked) = tweaker.is_sleeping();
    let mut out = "Currently ".to_owned();
    if sleeping {
        out.append("sleeping");
    } else {
        out.append("awake");
    }
    out.append(" (locked: ");
    out.append(yes_no(locked).as_str());
    out.append(")");
    Some(out)
}

/// Operators alone may join and leave rooms and set modes; what only tells something takes
/// no trust, and all else takes trust. Setting a mode is the one command that takes a power
/// level.
pub proof fn law_command_levels(command: Command)
    ensures
        command.trust() == TrustLevel::Operator <==> command == Command::JoinRoom || command
            == Command::LeaveRoom || command == Command::RoomMode,
        command.trust() == TrustLevel::Untrusted <==> command == Command::Info || command
            == Command::Commands || command == Command::Tweak || command == Command::MarkovInfo
            || command == Command::ListRooms || command == Command::RoomInfo || command
            == Command::MessageInfo,
        command.trust() != TrustLevel::FullTrusted,
        command == Command::RoomMode ==> command.power() == 50,
        command != Command::RoomMode ==> command.power() == 0,
{
}

/// The names by which commands are given.
pub proof fn law_commands_by_name()
    ensures
        all_commands()["info"@] == Command::Info,
        all_commands()["help"@] == Command::Commands,
        all_commands()["rlconfig"@] == Command::ReloadConfig,
        all_commands()["tweak"@] == Command::Tweak,
        all_commands()["tweakuf"@] == Command::TweakUnfiltered,
        all_commands()["markov"@] == Command::MarkovInfo,
        all_commands()["load"@] == Command::Load,
        all_commands()["checkpoint"@] == Command::Checkpoint,
        all_commands()["rooms"@] == Command::ListRooms,
        all_commands()["join"@] == Command::JoinRoom,
        all_commands()["leave"@] == Command::LeaveRoom,
        all_commands()["roominfo"@] == Command::RoomInfo,
        all_commands()["mode"@] == Command::RoomMode,
        all_commands()["msginfo"@] == Command::MessageInfo,
        all_commands()["queue"@] == Command::Queue,
        all_commands()["sleepctl"@] == Command::Sleep,
{
    law_all_commands("info"@);
    assert(all_commands().contains_key(Command::Info.title()));
    assert(all_commands().contains_key(Command::Commands.title()));
    assert(all_commands().contains_key(Command::ReloadConfig.title()));
    assert(all_commands().contains_key(Command::Tweak.title()));
    assert(all_commands().contains_key(Command::TweakUnfiltered.title()));
    assert(all_commands().contains_key(Command::MarkovInfo.title()));
    assert(all_commands().contains_key(Command::Load.title()));
    assert(all_commands().contains_key(Command::Checkpoint.title()));
    assert(all_commands().contains_key(Command::ListRooms.title()));
    assert(all_commands().contains_key(Command::JoinRoom.title()));
    assert(all_commands().contains_key(Command::LeaveRoom.title()));
    assert(all_commands().contains_key(Command::RoomInfo.title()));
    assert(all_commands().contains_key(Command::RoomMode.title()));
    assert(all_commands().contains_key(Command::MessageInfo.title()));
    assert(all_commands().contains_key(Command::Queue.title()));
    assert(all_commands().contains_key(Command::Sleep.title()));
}

/// An argument is found by its place, and only where there are so many.
pub proof fn law_arguments(before: Seq<Seq<char>>, arg: Seq<char>, behind: Seq<Seq<char>>)
    ensures
        arg_at(before + seq![arg] + behind, before.len() as int) == Some(arg),
        arg_at(before, before.len() as int) is None,
{
    assert((before + seq![arg] + behind)[before.len() as int] == arg);
}

/// The uptime is told in hours, in minutes of the hour, in seconds of the hour and in
/// milliseconds of the second.
pub proof fn law_uptime(hours: int, minutes: int, seconds: int, millis: int, nanos: int)
    requires
        0 <= hours,
        0 <= minutes < 60,
        0 <= seconds < 60,
        0 <= millis < 1000,
        0 <= nanos < 1000000,
    ensures
        uptime_text(
            (hours * 3600 + minutes * 60 + seconds) * 1000000000 + millis * 1000000 + nanos,
        ) == padded_int(hours, 2) + ":"@ + padded_int(minutes, 2) + ":"@ + padded_int(
            minutes * 60 + seconds,
            2,
        ) + "."@ + padded_int(millis, 3),
{
    let secs = hours * 3600 + minutes * 60 + seconds;
    let rest = millis * 1000000 + nanos;
    let span = secs * 1000000000 + rest;
    assert(span / 1000000000 == secs && span % 1000000000 == rest);
    assert(secs / 3600 == hours && secs % 3600 == minutes * 60 + seconds);
    assert(secs / 60 == hours * 60 + minutes);
    assert((hours * 60 + minutes) % 60 == minutes);
    assert(rest / 1000000 == millis);
}

/// The list of commands has a line for each command, and no other: its name and its trust
/// in columns, and its power level.
pub proof fn law_help_lines(
    above: Seq<RowView>,
    row: RowView,
    below: Seq<RowView>,
    first: nat,
    second: nat,
)
    ensures
        rows_text(Seq::empty(), first, second) == Seq::<char>::empty(),
        rows_text(above + seq![row] + below, first, second) == rows_text(above, first, second) + (
        cell(row.0, first) + cell(row.1, second) + row.2 + seq!['\n']) + rows_text(
            below,
            first,
            second,
        ),
    decreases below.len(),
{
    let all = above + seq![row] + below;
    lemma_last_row(all, first, second);
    if below.len() == 0 {
        assert(all.drop_last() == above);
        assert(all.last() == row);
        lemma_append_nothing(
            rows_text(above, first, second) + row_text(row, first, second),
            rows_text(below, first, second),
        );
    } else {
        law_help_lines(above, row, below.drop_last(), first, second);
        assert(all.drop_last() == above + seq![row] + below.drop_last());
        assert(all.last() == below.last());
        lemma_last_row(below, first, second);
        lemma_append_twice(
            rows_text(above, first, second) + row_text(row, first, second),
            rows_text(below.drop_last(), first, second),
            row_text(below.last(), first, second),
        );
    }
}

/// A row as a line, with the given widths of the first two columns.
pub open spec fn row_text(row: RowView, first: nat, second: nat) -> Seq<char> {
    cell(row.0, first) + cell(row.1, second) + row.2 + seq!['\n']
}

/// The last row makes the last line.
proof fn lemma_last_row(rows: Seq<RowView>, first: nat, second: nat)
    requires
        rows.len() > 0,
    ensures
        rows_text(rows, first, second) == rows_text(rows.drop_last(), first, second) + row_text(
            rows.last(),
            first,
            second,
        ),
{
    reveal_strlit("\n");
    assert("\n"@ == seq!['\n']);
    let row = rows.last();
    lemma_append_four(
        rows_text(rows.drop_last(), first, second),
        cell(row.0, first),
        cell(row.1, second),
        row.2,
        "\n"@,
    );
}

proof fn lemma_append_nothing(a: Seq<char>, b: Seq<char>)
    requires
        b.len() == 0,
    ensures
        a + b == a,
{
}

proof fn lemma_append_twice(a: Seq<char>, b: Seq<char>, c: Seq<char>)
    ensures
        (a + b) + c == a + (b + c),
{
}

proof fn lemma_append_four(a: Seq<char>, b: Seq<char>, c: Seq<char>, d: Seq<char>, e: Seq<char>)
    ensures
        a + b + c + d + e == a + (b + c + d + e),
{
}

/// The lines of the list of commands are those of the commands, each once, and in the order
/// of rows.
pub proof fn law_help_rows(list: Seq<(String, TrustLevel, i32)>)
    ensures
        help_rows(list).to_multiset() == Seq::new(
            list.len(),
            |i: int| (list[i].0@, list[i].1.title(), int_text(list[i].2 as int)),
        ).to_multiset(),
        help_rows(list).len() == list.len(),
        forall|i: int, j: int|
            0 <= i < j < help_rows(list).len() ==> #[trigger] row_order()(
                help_rows(list)[i],
                help_rows(list)[j],
            ),
{
    let rows = list.map_values(|row: (String, TrustLevel, i32)| help_row(row));
    law_row_order_total();
    rows.lemma_sort_by_ensures(row_order());
    assert(rows =~= Seq::new(
        list.len(),
        |i: int| (list[i].0@, list[i].1.title(), int_text(list[i].2 as int)),
    ));
    vstd::seq_lib::to_multiset_len(rows);
    vstd::seq_lib::to_multiset_len(help_rows(list));
    let sorted = help_rows(list);
    assert forall|i: int, j: int| 0 <= i < j < sorted.len() implies #[trigger] row_order()(
        sorted[i],
        sorted[j],
    ) by {
        assert(vstd::relations::sorted_by(sorted, row_order()));
    }
}

/// The list of commands is headed by the trust of whoever asks, and its columns are as wide
/// as their widest texts.
pub proof fn law_help_head(rows: Seq<RowView>, own: TrustLevel)
    ensures
        help_text(rows, own) == "Your trust level: "@ + own.title() + "\n\n"@ + rows_text(
            rows,
            widest(Seq::new(rows.len(), |i: int| rows[i].0)),
            widest(Seq::new(rows.len(), |i: int| rows[i].1)),
        ),
{
    assert(first_column(rows) =~= Seq::new(rows.len(), |i: int| rows[i].0));
    assert(second_column(rows) =~= Seq::new(rows.len(), |i: int| rows[i].1));
}

/// A room is listed by its id, in a column as wide as the widest id, and its name.
pub proof fn law_room_lines(rooms: Seq<(String, String)>, i: int)
    requires
        0 <= i < rooms.len(),
    ensures
        room_lines(rooms).len() == rooms.len(),
        room_lines(rooms)[i] == cell(
            rooms[i].0@,
            widest(Seq::new(rooms.len(), |j: int| rooms[j].0@)),
        ) + rooms[i].1@,
{
    assert(room_ids(rooms) =~= Seq::new(rooms.len(), |j: int| rooms[j].0@));
}

/// A length is read from the first argument, and is 256 where there is none or it is no
/// size.
pub proof fn law_asked_length(n: usize, further: Seq<Seq<char>>, other: Seq<char>)
    ensures
        asked_length(seq![decimal(n as nat)] + further) == n,
        asked_length(Seq::empty()) == 256,
        parsed_size(other) is None ==> asked_length(seq![other] + further) == 256,
{
    law_parse_decimal(n);
    assert((seq![decimal(n as nat)] + further)[0] == decimal(n as nat));
    assert((seq![other] + further)[0] == other);
}

/// The cooldown of messages is named exactly while it runs, and that of reactions too; the
/// one of messages comes first.
pub proof fn law_cooldown_names(span: int, cooldown: int, cooldown_react: int)
    ensures
        ({
            let names = cooldown_names(span, cooldown, cooldown_react);
            let message = span < cooldown * 1000000000;
            let react = span < cooldown_react * 1000000000;
            &&& message && react ==> names == seq!["message"@, "react"@]
            &&& message && !react ==> names == seq!["message"@]
            &&& !message && react ==> names == seq!["react"@]
            &&& !message && !react ==> names.len() == 0
        }),
{
}

/// The information on a room names its mode and its last message, and its cooldowns only
/// while one runs.
pub proof fn law_room_info(mode: TweakMode, last: Seq<char>, cooldowns: Seq<Seq<char>>)
    ensures
        cooldowns.len() == 0 ==> room_info_text(mode, last, cooldowns) == "Response mode: "@
            + mode.title() + "\nLast message: "@ + last,
        cooldowns.len() > 0 ==> room_info_text(mode, last, cooldowns) == "Response mode: "@
            + mode.title() + "\nLast message: "@ + last + " (cooldowns: "@ + joined(
            cooldowns,
            ", "@,
        ) + ")"@,
{
}

/// A mode that is named is set for the room of the chat, whatever else is named, and at the
/// prompt for the room that is named behind it. Without a mode, with an unknown one, or
/// without a room at the prompt, none is set.
pub proof fn law_mode_changes(
    mode: TweakMode,
    room: Seq<char>,
    further: Seq<Seq<char>>,
    other: Seq<char>,
    room_id: String,
    message: EventRef,
    context: CommandContext,
)
    ensures
        mode_change(seq![mode.title()] + further, CommandContext::Chat { room_id, message }) == Ok::<
            (Seq<char>, TweakMode),
            CommandError,
        >((room_id@, mode)),
        mode_change(seq![mode.title(), room] + further, CommandContext::Console) == Ok::<
            (Seq<char>, TweakMode),
            CommandError,
        >((room, mode)),
        mode_change(seq![mode.title()], CommandContext::Console) == Err::<
            (Seq<char>, TweakMode),
            CommandError,
        >(CommandError::ModeRoomRequired),
        mode_change(Seq::empty(), context) == Err::<(Seq<char>, TweakMode), CommandError>(
            CommandError::ModeRequired,
        ),
        (forall|m: TweakMode| other != #[trigger] m.title()) ==> mode_change(
            seq![other] + further,
            context,
        ) == Err::<(Seq<char>, TweakMode), CommandError>(CommandError::UnknownMode),
{
    law_mode_names(mode);
    let chat_args = seq![mode.title()] + further;
    let prompt_args = seq![mode.title(), room] + further;
    assert(chat_args[0] == mode.title());
    assert(prompt_args[0] == mode.title() && prompt_args[1] == room);
    assert((seq![other] + further)[0] == other);
    if forall|m: TweakMode| other != #[trigger] m.title() {
        assert(other != TweakMode::Disabled.title());
        assert(other != TweakMode::Reactions.title());
        assert(other != TweakMode::KeywordsOnly.title());
        assert(other != TweakMode::KeywordsAndReplies.title());
        assert(other != TweakMode::Normal.title());
    }
}

/// A queue is paused, let go and purged by these words, of which only the last drops what
/// waits and only the others change whether the queue is on hold. Any other word, and none,
/// tells the state of the queue and changes nothing.
pub proof fn law_queue_orders(word: Option<Seq<char>>, waiting: nat, on_hold: bool)
    ensures
        queue_order(Some("pause"@), waiting, on_hold) == (None::<Seq<char>>, true, true),
        queue_order(Some("unpause"@), waiting, on_hold) == (None::<Seq<char>>, true, false),
        queue_order(Some("purge"@), waiting, on_hold) == (None::<Seq<char>>, false, on_hold),
        word != Some("pause"@) && word != Some("unpause"@) && word != Some("purge"@)
            ==> queue_order(word, waiting, on_hold) == (
            Some(
                "There are "@ + decimal(waiting) + " responses in the queue\nPaused: "@ + (
                if on_hold {
                    "yes"@
                } else {
                    "no"@
                }),
            ),
            true,
            on_hold,
        ),
{
    reveal_strlit("pause");
    reveal_strlit("unpause");
    reveal_strlit("purge");
    assert("pause"@.len() == 5 && "unpause"@.len() == 7 && "purge"@.len() == 5);
    assert("purge"@[1] == 'u' && "pause"@[1] == 'a');
}

/// Two words put the bot to sleep and two wake it; one of each locks it, and only those say
/// something. Any other word, and none, changes nothing.
pub proof fn law_sleep_orders(word: Option<Seq<char>>)
    ensures
        ({
            let order = sleep_order(word);
            &&& order is None <==> word != Some("sleep"@) && word != Some("wake"@) && word != Some(
                "nyquil"@,
            ) && word != Some("redbull"@)
            &&& order is Some ==> {
                &&& order->0.sleep <==> word == Some("sleep"@) || word == Some("nyquil"@)
                &&& order->0.lock <==> word == Some("nyquil"@) || word == Some("redbull"@)
                &&& order->0.says is Some <==> order->0.lock
            }
        }),
{
    reveal_strlit("sleep");
    reveal_strlit("wake");
    reveal_strlit("nyquil");
    reveal_strlit("redbull");
    assert("sleep"@.len() == 5 && "wake"@.len() == 4);
    assert("nyquil"@.len() == 6 && "redbull"@.len() == 7);
}

/// The words in which the sleep of the bot, a keyword and a yes or no are told.
pub proof fn law_told_states(sleeping: bool, locked: bool, keyword: Keyword)
    ensures
        sleep_text(true, locked) == "Currently "@ + "sleeping"@ + " (locked: "@ + yes_no_text(locked)
            + ")"@,
        sleep_text(false, locked) == "Currently "@ + "awake"@ + " (locked: "@ + yes_no_text(locked)
            + ")"@,
        yes_no_text(true) == "yes"@,
        yes_no_text(false) == "no"@,
        keyword_text(Some(keyword)) == keyword.word(),
        keyword_text(None) == "<none>"@,
{
}

/// A room that is named is told about, wherever that is asked; without one, the room of the
/// chat is, and at the prompt none.
pub proof fn law_told_rooms(
    id: Seq<char>,
    further: Seq<Seq<char>>,
    room_id: String,
    message: EventRef,
    context: CommandContext,
)
    ensures
        told_room(seq![id] + further, context) == Some(id),
        told_room(Seq::empty(), CommandContext::Chat { room_id, message }) == Some(room_id@),
        told_room(Seq::empty(), CommandContext::Console) is None,
{
    assert((seq![id] + further)[0] == id);
}

/// What the program, its generator and a message are told by.
pub proof fn law_told_facts(
    name: Seq<char>,
    version: Seq<char>,
    span: int,
    seed: nat,
    dictionary: nat,
    keyword: Keyword,
    reply: bool,
)
    ensures
        info_text(name, version, span) == name + " v"@ + version + "\nUptime: "@ + uptime_text(span),
        markov_text(seed, dictionary) == "Seed length: "@ + decimal(seed)
            + "\nDictionary length: "@ + decimal(dictionary),
        message_text(Some(keyword), true) == "Keyword: "@ + keyword.word() + "\nIs reply: "@
            + "yes"@,
        message_text(Some(keyword), false) == "Keyword: "@ + keyword.word() + "\nIs reply: "@
            + "no"@,
        message_text(None, reply) == "Keyword: "@ + "<none>"@ + "\nIs reply: "@ + yes_no_text(reply),
{
}

}
