//! What the bot keeps of the messages it sees, and the rooms that it finds in them.

use vstd::prelude::*;
use crate::calendar::{
    date_of, date_on, is_date, law_date_is_unique, time_of, time_text, DAY_SECONDS, FIRST_SECOND,
    LAST_SECOND,
};
use crate::clock::{sent_second, Moment};
use crate::ids::{
    check_room_or_alias, is_mxc, is_mxc_supported, mxc_end, mxc_error, mxc_slash, mxc_supported,
    room_or_alias_error, split_mxc,
};
use crate::number::{int_text, integer_to_text};
use crate::pattern::{find_all, regex_error, regex_matches};
use crate::text::{contains_text, texts};
use crate::tweak::opt_text;

verus! {

/// What decides about the messages to keep and the rooms to join.
pub struct CrawlerConfig {
    pub enable_media_downloads: Option<bool>,
    pub media_download_server: String,
    pub media_download_uri: Option<String>,
    pub join_rooms: bool,
}

/// What a message is kept under: its sender, its room and its id.
#[derive(Debug, PartialEq, Eq)]
pub struct MessageOrigin {
    pub sender: String,
    pub room_id: String,
    pub event_id: String,
}

/// The names of the nested directories for a date: year, month and day of the month.
pub open spec fn date_dirs(date: (int, int, int)) -> Seq<Seq<char>> {
    seq![int_text(date.0), int_text(date.1), int_text(date.2)]
}

/// The names of the nested directories for messages of a second, at an offset from UTC.
pub open spec fn dirs_at(second: int, offset: int) -> Seq<Seq<char>> {
    date_dirs(date_on((second + offset) / DAY_SECONDS as int))
}

/// The names of the nested directories for messages of a moment, at an offset from UTC.
pub fn dir_ts(secs: i64, offset: i32) -> (dirs: Vec<String>)
    requires
        FIRST_SECOND <= secs <= LAST_SECOND,
        -DAY_SECONDS < offset < DAY_SECONDS,
    ensures
        texts(dirs@) == dirs_at(secs as int, offset as int),
{
    let date = date_of(secs, offset);
    let mut dirs: Vec<String> = Vec::new();
    dirs.push(integer_to_text(date.0 as i64));
    dirs.push(integer_to_text(date.1 as i64));
    dirs.push(integer_to_text(date.2 as i64));
    proof {
        let found = (date.0 as int, date.1 as int, date.2 as int);
        law_date_is_unique(found, found, (secs + offset) / DAY_SECONDS as int);
        assert(texts(dirs@) =~= date_dirs(found));
    }
    dirs
}

/// The name of the file of a message that was sent in a second.
pub open spec fn filename_text(second: int, offset: int, origin: MessageOrigin) -> Seq<char> {
    time_text((second + offset) % DAY_SECONDS as int) + origin.sender@ + origin.room_id@
        + origin.event_id@
}

/// The name of the file of a message.
pub fn message_filename(secs: i64, offset: i32, origin: &MessageOrigin) -> (name: String)
    requires
        FIRST_SECOND <= secs <= LAST_SECOND,
        -DAY_SECONDS < offset < DAY_SECONDS,
    ensures
        name@ == filename_text(secs as int, offset as int, *origin),
{
    let mut name = time_of(secs, offset);
    name.append(origin.sender.as_str());
    name.append(origin.room_id.as_str());
    name.append(origin.event_id.as_str());
    name
}

/// A file to write: the nested directories it lies in, and its name.
#[derive(Debug, PartialEq, Eq)]
pub struct FilePlan {
    pub dirs: Vec<String>,
    pub name: String,
}

/// What is to be kept of a message.
#[derive(Debug, PartialEq, Eq)]
pub struct LogPlan {
    /// Whether to look for media to download.
    pub download: bool,
    /// The file to hold the text, where the message has one.
    pub file: Option<FilePlan>,
}

/// The directories and the name of the file of a message: none for an empty one.
pub open spec fn log_file(
    sent_secs: i64,
    offset: int,
    origin: MessageOrigin,
    body: Seq<char>,
) -> Option<(Seq<Seq<char>>, Seq<char>)> {
    if body.len() == 0 {
        None
    } else {
        let second = sent_second(sent_secs) as int;
        Some((dirs_at(second, offset), filename_text(second, offset, origin)))
    }
}

/// Whether media are looked for: unless that is switched off.
pub open spec fn wants_media(enabled: Option<bool>) -> bool {
    enabled != Some(false)
}

/// Decides what is to be kept of a message that was sent at the given Unix time.
/// `offset` is the local offset from UTC at that time.
pub fn log_message(
    config: &CrawlerConfig,
    sent_secs: i64,
    offset: i32,
    origin: &MessageOrigin,
    body: &str,
) -> (plan: LogPlan)
    requires
        -DAY_SECONDS < offset < DAY_SECONDS,
    ensures
        plan.download == (config.enable_media_downloads != Some(false)),
        plan.download == wants_media(config.enable_media_downloads),
        match plan.file {
            None => body@.len() == 0,
            Some(file) => {
                let second = sent_second(sent_secs) as int;
                &&& body@.len() > 0
                &&& texts(file.dirs@) == dirs_at(second, offset as int)
                &&& file.name@ == filename_text(second, offset as int, *origin)
            },
        },
        match plan.file {
            Some(file) => log_file(sent_secs, offset as int, *origin, body@) == Some(
                (texts(file.dirs@), file.name@),
            ),
            None => log_file(sent_secs, offset as int, *origin, body@) is None,
        },
{
    let ts = Moment::of_message(sent_secs);
    let download = match config.enable_media_downloads {
        Some(enabled) => enabled,
        None => true,
    };
    if body.is_empty() {
        return LogPlan { download, file: None };
    }
    let dirs = dir_ts(ts.secs(), offset);
    let name = message_filename(ts.secs(), offset, origin);
    LogPlan { download, file: Some(FilePlan { dirs, name }) }
}

/// Where the media of a message lie.
#[derive(Debug, PartialEq, Eq)]
pub enum MediaSource {
    /// At a content URI.
    Plain(String),
    /// Encrypted.
    Encrypted,
}

/// Media of a message, perhaps with a file name.
#[derive(Debug, PartialEq, Eq)]
pub struct Media {
    pub source: MediaSource,
    pub name: Option<String>,
}

/// The content of a message, as far as it can have media.
#[derive(Debug, PartialEq, Eq)]
pub enum Content {
    Audio(Media),
    File(Media),
    Image(Media),
    Video(Media),
    /// Anything else.
    Other,
}

impl Content {
    /// The media of the content.
    pub open spec fn media(self) -> Option<Media> {
        match self {
            Content::Audio(media) => Some(media),
            Content::File(media) => Some(media),
            Content::Image(media) => Some(media),
            Content::Video(media) => Some(media),
            Content::Other => None,
        }
    }

    /// The content URI of the media, where they are not encrypted.
    pub open spec fn plain_uri(self) -> Option<Seq<char>> {
        match self.media() {
            Some(media) => match media.source {
                MediaSource::Plain(uri) => Some(uri@),
                MediaSource::Encrypted => None,
            },
            None => None,
        }
    }

    /// The media of the content.
    fn get_media(&self) -> (r: Option<&Media>)
        ensures
            match r {
                Some(media) => self.media() == Some(*media),
                None => self.media() is None,
            },
    {
        match self {
            Content::Audio(media) => Some(media),
            Content::File(media) => Some(media),
            Content::Image(media) => Some(media),
            Content::Video(media) => Some(media),
            Content::Other => None,
        }
    }
}

/// Media to download, and the file to keep them in.
#[derive(Debug, PartialEq, Eq)]
pub struct MediaPlan {
    pub uri: String,
    pub file: FilePlan,
}

/// The address of the media with the given id on the given server.
pub open spec fn media_address(
    config: CrawlerConfig,
    server: Seq<char>,
    media_id: Seq<char>,
) -> Seq<char> {
    config.media_download_server@ + (match config.media_download_uri {
        Some(uri) => uri@,
        None => "/_matrix/media/r0/download"@,
    }) + "/"@ + server + "/"@ + media_id
}

/// The name of the file of media: that of the message, followed by the name of the media
/// or else by their id.
pub open spec fn media_filename(
    message: Seq<char>,
    name: Option<Seq<char>>,
    media_id: Seq<char>,
) -> Seq<char> {
    message + "_"@ + (match name {
        Some(n) => n,
        None => media_id,
    })
}

/// Plans the download of media that have the given id on the given server, and the given
/// file name, for a message of a moment.
pub fn plan_media(
    config: &CrawlerConfig,
    server: &str,
    media_id: &str,
    name: &Option<String>,
    secs: i64,
    offset: i32,
    origin: &MessageOrigin,
) -> (plan: MediaPlan)
    requires
        FIRST_SECOND <= secs <= LAST_SECOND,
        -DAY_SECONDS < offset < DAY_SECONDS,
    ensures
        plan.uri@ == media_address(*config, server@, media_id@),
        texts(plan.file.dirs@) == dirs_at(secs as int, offset as int),
        plan.file.name@ == media_filename(
            filename_text(secs as int, offset as int, *origin),
            opt_text(*name),
            media_id@,
        ),
{
    let mut uri = config.media_download_server.clone();
    match &config.media_download_uri {
        Some(path) => uri.append(path.as_str()),
        None => uri.append("/_matrix/media/r0/download"),
    }
    uri.append("/");
    uri.append(server);
    uri.append("/");
    uri.append(media_id);
    let mut filename = message_filename(secs, offset, origin);
    filename.append("_");
    match name {
        Some(text) => filename.append(text.as_str()),
        None => filename.append(media_id),
    }
    MediaPlan { uri, file: FilePlan { dirs: dir_ts(secs, offset), name: filename } }
}

/// Whether the media of a content can be looked up: they have no content URI, or one
/// that is supported.
pub open spec fn media_supported(content: Content) -> bool {
    match content.plain_uri() {
        Some(uri) => mxc_supported(uri),
        None => true,
    }
}

/// Whether the outcome plans the download of the media of a message: of those of audio,
/// files, images and videos that are not encrypted. A content URI that is none is refused
/// with the message of the error.
pub open spec fn plans_media(
    config: CrawlerConfig,
    content: Content,
    sent_secs: i64,
    offset: int,
    origin: MessageOrigin,
    r: Result<Option<MediaPlan>, String>,
) -> bool {
    match content.plain_uri() {
        None => r == Ok::<Option<MediaPlan>, String>(None),
        Some(uri) => if is_mxc(uri) {
            let second = sent_second(sent_secs) as int;
            let media_id = uri.skip(mxc_end(uri) + 1);
            &&& r matches Ok(Some(plan))
            &&& plan.uri@ == media_address(config, uri.subrange(6, mxc_end(uri)), media_id)
            &&& texts(plan.file.dirs@) == dirs_at(second, offset)
            &&& plan.file.name@ == media_filename(
                filename_text(second, offset, origin),
                opt_text(content.media()->0.name),
                media_id,
            )
        } else {
            r matches Err(error) && error@ == mxc_error(uri)
        },
    }
}

/// Decides what media of a message are to be downloaded, and where to.
pub fn download_media(
    config: &CrawlerConfig,
    content: &Content,
    sent_secs: i64,
    offset: i32,
    origin: &MessageOrigin,
) -> (r: Result<Option<MediaPlan>, String>)
    requires
        -DAY_SECONDS < offset < DAY_SECONDS,
        media_supported(*content),
    ensures
        plans_media(*config, *content, sent_secs, offset as int, *origin, r),
{
    let media = match content.get_media() {
        Some(media) => media,
        None => {
            return Ok(None);
        },
    };
    match &media.source {
        MediaSource::Encrypted => Ok(None),
        MediaSource::Plain(uri) => match split_mxc(uri.as_str()) {
            Err(message) => Err(message),
            Ok((server, media_id)) => {
                let ts = Moment::of_message(sent_secs);
                let plan = plan_media(
                    config,
                    server.as_str(),
                    media_id.as_str(),
                    &media.name,
                    ts.secs(),
                    offset,
                    origin,
                );
                Ok(Some(plan))
            },
        },
    }
}

/// Decides what media of a message are to be downloaded, and where to; `None` where the
/// content URI is not supported.
pub fn try_download_media(
    config: &CrawlerConfig,
    content: &Content,
    sent_secs: i64,
    offset: i32,
    origin: &MessageOrigin,
) -> (r: Option<Result<Option<MediaPlan>, String>>)
    requires
        -DAY_SECONDS < offset < DAY_SECONDS,
    ensures
        match r {
            Some(result) => media_supported(*content) && plans_media(
                *config,
                *content,
                sent_secs,
                offset as int,
                *origin,
                result,
            ),
            None => !media_supported(*content),
        },
{
    match content.get_media() {
        Some(media) => match &media.source {
            MediaSource::Plain(uri) => if !is_mxc_supported(uri.as_str()) {
                return None;
            },
            MediaSource::Encrypted => {},
        },
        None => {},
    }
    Some(download_media(config, content, sent_secs, offset, origin))
}

/// The pattern of room ids and room aliases in a text.
pub const ROOM_ID_REGEX: &'static str =
    "![a-zA-Z0-9\\-_.]{8,}(:[0-9a-z\\-.]+)?|#[a-zA-Z0-9\\-_.]+:[0-9a-z\\-.]+";

/// The rooms to join, one after the other, and the error that ends the joining.
#[derive(Debug, PartialEq, Eq)]
pub struct JoinList {
    pub rooms: Vec<String>,
    pub error: Option<String>,
}

/// The position of the first error, or the length when there is none.
pub open spec fn first_error(errors: Seq<Option<Seq<char>>>) -> int
    decreases errors.len(),
{
    if errors.len() == 0 || errors[0] is Some {
        0
    } else {
        1 + first_error(errors.skip(1))
    }
}

/// Whether the rooms are those before the first error, and the error is that one.
pub open spec fn ends_at_error(
    list: JoinList,
    ids: Seq<Seq<char>>,
    errors: Seq<Option<Seq<char>>>,
) -> bool {
    let end = first_error(errors);
    &&& texts(list.rooms@) == ids.take(end)
    &&& opt_text(list.error) == if end < errors.len() {
        errors[end]
    } else {
        None
    }
}

/// The optional texts of a list.
pub open spec fn opt_texts(list: Seq<Option<String>>) -> Seq<Option<Seq<char>>> {
    list.map_values(|o: Option<String>| opt_text(o))
}

/// The errors of texts that are to be room ids or aliases.
pub open spec fn room_errors(ids: Seq<Seq<char>>) -> Seq<Option<Seq<char>>> {
    ids.map_values(|id: Seq<char>| room_or_alias_error(id))
}

/// The rooms before the first error.
pub fn before_error(ids: &Vec<String>, errors: &Vec<Option<String>>) -> (list: JoinList)
    requires
        ids.len() == errors.len(),
    ensures
        ends_at_error(list, texts(ids@), opt_texts(errors@)),
{
    let mut rooms: Vec<String> = Vec::new();
    let ghost all = opt_texts(errors@);
    let mut i: usize = 0;
    assert(all.skip(0) == all);
    while i < ids.len()
        invariant
            i <= ids.len(),
            ids.len() == errors.len(),
            all == opt_texts(errors@),
            texts(rooms@) == texts(ids@).take(i as int),
            first_error(all) == i + first_error(all.skip(i as int)),
        decreases ids.len() - i,
    {
        assert(all.skip(i as int)[0] == opt_text(errors@[i as int]));
        match &errors[i] {
            Some(error) => {
                return JoinList { rooms, error: Some(error.clone()) };
            },
            None => {},
        }
        let id = ids[i].clone();
        proof {
            assert(all.skip(i as int).skip(1) == all.skip(i + 1));
            assert(texts(rooms@.push(id)) == texts(rooms@).push(id@));
            assert(texts(ids@).take(i + 1) == texts(ids@).take(i as int).push(id@));
        }
        rooms.push(id);
        i += 1;
    }
    JoinList { rooms, error: None }
}

/// The rooms to join among texts that look like room ids or aliases: those before the
/// first that is none.
pub fn rooms_among(found: &Vec<String>) -> (list: JoinList)
    ensures
        ends_at_error(list, texts(found@), room_errors(texts(found@))),
{
    let mut errors: Vec<Option<String>> = Vec::new();
    let mut i: usize = 0;
    while i < found.len()
        invariant
            i <= found.len(),
            errors@.len() == i,
            opt_texts(errors@) == room_errors(texts(found@)).take(i as int),
        decreases found.len() - i,
    {
        let error: Option<String> = match check_room_or_alias(found[i].as_str()) {
            Ok(_) => None,
            Err(message) => Some(message),
        };
        proof {
            assert(room_errors(texts(found@))[i as int] == opt_text(error));
            assert(opt_texts(errors@.push(error)) == opt_texts(errors@).push(opt_text(error)));
            assert(room_errors(texts(found@)).take(i + 1) == room_errors(texts(found@)).take(
                i as int,
            ).push(opt_text(error)));
        }
        errors.push(error);
        i += 1;
    }
    assert(room_errors(texts(found@)).take(i as int) == room_errors(texts(found@)));
    before_error(found, &errors)
}

/// The rooms to join that a text mentions, where the bot is to join them.
pub fn find_and_join_rooms(config: &CrawlerConfig, body: &str) -> (list: JoinList)
    ensures
        if !config.join_rooms {
            list.rooms@.len() == 0 && list.error is None
        } else {
            match regex_error(ROOM_ID_REGEX@) {
                Some(message) => list.rooms@.len() == 0 && opt_text(list.error) == Some(message),
                None => {
                    let found = regex_matches(ROOM_ID_REGEX@, body@);
                    ends_at_error(list, found, room_errors(found))
                },
            }
        },
        forall|i: int|
            0 <= i < list.rooms@.len() ==> contains_text(body@, #[trigger] list.rooms@[i]@),
{
    if !config.join_rooms {
        return JoinList { rooms: Vec::new(), error: None };
    }
    match find_all(ROOM_ID_REGEX, body) {
        Err(message) => JoinList { rooms: Vec::new(), error: Some(message) },
        Ok(found) => {
            let list = rooms_among(&found);
            proof {
                law_first_error(room_errors(texts(found@)));
                assert(texts(list.rooms@).len() == list.rooms@.len());
                assert(texts(found@).len() == found@.len());
                assert forall|i: int| 0 <= i < list.rooms@.len() implies contains_text(
                    body@,
                    #[trigger] list.rooms@[i]@,
                ) by {
                    assert(texts(list.rooms@)[i] == list.rooms@[i]@);
                    assert(texts(found@)[i] == found@[i]@);
                }
            }
            list
        },
    }
}

/// Before the first error there is none, and at it there is one.
pub proof fn law_first_error(errors: Seq<Option<Seq<char>>>)
    ensures
        0 <= first_error(errors) <= errors.len(),
        forall|i: int| 0 <= i < first_error(errors) ==> errors[i] is None,
        first_error(errors) < errors.len() ==> errors[first_error(errors)] is Some,
    decreases errors.len(),
{
    if errors.len() > 0 && errors[0] is None {
        law_first_error(errors.skip(1));
        assert forall|i: int| 0 <= i < first_error(errors) implies errors[i] is None by {
            if i > 0 {
                assert(errors[i] == errors.skip(1)[i - 1]);
            }
        }
        if first_error(errors) < errors.len() {
            assert(errors[first_error(errors)] == errors.skip(1)[first_error(errors) - 1]);
        }
    }
}

/// Every room that is to be joined is a room id or a room alias.
pub proof fn law_only_rooms_are_joined(list: JoinList, ids: Seq<Seq<char>>)
    requires
        ends_at_error(list, ids, room_errors(ids)),
    ensures
        forall|i: int|
            0 <= i < list.rooms@.len() ==> room_or_alias_error(#[trigger] list.rooms@[i]@) is None,
        list.error is None ==> texts(list.rooms@) == ids,
{
    let errors = room_errors(ids);
    law_first_error(errors);
    assert(texts(list.rooms@).len() == list.rooms@.len());
    assert(list.rooms@.len() == first_error(errors));
    assert forall|i: int| 0 <= i < list.rooms@.len() implies room_or_alias_error(
        #[trigger] list.rooms@[i]@,
    ) is None by {
        assert(texts(list.rooms@)[i] == list.rooms@[i]@);
        assert(errors[i] is None);
    }
    if list.error is None {
        assert(first_error(errors) == errors.len());
        assert(ids.take(errors.len() as int) == ids);
    }
}

/// Media are looked for as configured, and where nothing is configured.
pub proof fn law_media_are_wanted(enabled: bool)
    ensures
        wants_media(Some(enabled)) == enabled,
        wants_media(None),
{
}

/// Messages are kept by the year, month and day on which they were sent, by local time.
pub proof fn law_dirs(second: int, offset: int, date: (int, int, int))
    requires
        is_date(date, (second + offset) / 86400),
    ensures
        dirs_at(second, offset) == seq![int_text(date.0), int_text(date.1), int_text(date.2)],
{
    law_date_is_unique(date, date, (second + offset) / 86400);
}

/// The file of a message is named by the local time of day, the sender, the room and the
/// event.
pub proof fn law_filenames(second: int, offset: int, origin: MessageOrigin)
    ensures
        filename_text(second, offset, origin) == time_text((second + offset) % 86400)
            + origin.sender@ + origin.room_id@ + origin.event_id@,
{
}

/// Audio, files, images and videos have media, and only media that are not encrypted have
/// a content URI to be downloaded from.
pub proof fn law_media_of_contents(media: Media, uri: String, name: Option<String>)
    ensures
        Content::Audio(media).media() == Some(media),
        Content::File(media).media() == Some(media),
        Content::Image(media).media() == Some(media),
        Content::Video(media).media() == Some(media),
        Content::Other.media() is None,
        Content::Other.plain_uri() is None,
        Content::Image(Media { source: MediaSource::Plain(uri), name }).plain_uri() == Some(uri@),
        Content::Image(Media { source: MediaSource::Encrypted, name }).plain_uri() is None,
{
}

/// Where media are looked up depends on the media alone, not on the kind of message.
pub proof fn law_media_kinds_alike(media: Media)
    ensures
        Content::Audio(media).plain_uri() == Content::Image(media).plain_uri(),
        Content::File(media).plain_uri() == Content::Image(media).plain_uri(),
        Content::Video(media).plain_uri() == Content::Image(media).plain_uri(),
{
}

/// Media are downloaded from the configured server, under the configured path or the usual
/// one, by their server and their id; their file is named by their own name, or by their
/// id where they have none.
pub proof fn law_media_addresses(
    config: CrawlerConfig,
    server: Seq<char>,
    media_id: Seq<char>,
    message: Seq<char>,
    name: Seq<char>,
)
    ensures
        config.media_download_uri is Some ==> media_address(config, server, media_id)
            == config.media_download_server@ + config.media_download_uri->0@ + "/"@ + server + "/"@
            + media_id,
        config.media_download_uri is None ==> media_address(config, server, media_id)
            == config.media_download_server@ + "/_matrix/media/r0/download"@ + "/"@ + server + "/"@
            + media_id,
        media_filename(message, Some(name), media_id) == message + "_"@ + name,
        media_filename(message, None, media_id) == media_filename(
            message,
            Some(media_id),
            media_id,
        ),
{
}

/// All rooms of a list without errors are joined; otherwise those before the first error,
/// and that error is told.
pub proof fn law_joining_ends(
    list: JoinList,
    good: Seq<Seq<char>>,
    bad: Seq<char>,
    error: Seq<char>,
    rest: Seq<Seq<char>>,
    rest_errors: Seq<Option<Seq<char>>>,
)
    requires
        ends_at_error(
            list,
            good + seq![bad] + rest,
            Seq::new(good.len(), |i: int| None::<Seq<char>>) + seq![Some(error)] + rest_errors,
        ),
    ensures
        texts(list.rooms@) == good,
        opt_text(list.error) == Some(error),
{
    let errors = Seq::new(good.len(), |i: int| None::<Seq<char>>) + seq![Some(error)] + rest_errors;
    let ids = good + seq![bad] + rest;
    law_first_error(errors);
    let end = first_error(errors);
    assert(errors[good.len() as int] == Some(error));
    if end < good.len() {
        assert(errors[end] is None);
    }
    if end > good.len() {
        assert(errors[good.len() as int] is None);
    }
    assert(ids.take(good.len() as int) == good);
}

/// Media with a content URI of ordinary length are downloaded by the server name and the
/// media id of that URI, into the file of their message; encrypted media and messages
/// without media are not.
pub proof fn law_media_plans(
    config: CrawlerConfig,
    media: Media,
    uri: String,
    sent_secs: i64,
    offset: int,
    origin: MessageOrigin,
    r: Result<Option<MediaPlan>, String>,
)
    requires
        plans_media(config, Content::Image(media), sent_secs, offset, origin, r),
    ensures
        media.source is Encrypted ==> r == Ok::<Option<MediaPlan>, String>(None),
        media.source == MediaSource::Plain(uri) && is_mxc(uri@) && mxc_slash(uri@) < 256 ==> {
            let server = uri@.subrange(6, mxc_slash(uri@));
            let media_id = uri@.skip(mxc_slash(uri@) + 1);
            &&& r matches Ok(Some(plan))
            &&& plan.uri@ == media_address(config, server, media_id)
            &&& texts(plan.file.dirs@) == dirs_at(sent_second(sent_secs) as int, offset)
            &&& plan.file.name@ == media_filename(
                filename_text(sent_second(sent_secs) as int, offset, origin),
                opt_text(media.name),
                media_id,
            )
        },
        media.source == MediaSource::Plain(uri) && !is_mxc(uri@) ==> r is Err,
        plans_media(config, Content::Other, sent_secs, offset, origin, r) ==> r == Ok::<
            Option<MediaPlan>,
            String,
        >(None),
{
    if media.source == MediaSource::Plain(uri) && is_mxc(uri@) {
        crate::text::lemma_until(uri@.skip(6), '/');
    }
}

/// Each text that is to be a room is looked at by itself.
pub proof fn law_room_errors(ids: Seq<Seq<char>>)
    ensures
        room_errors(ids).len() == ids.len(),
        forall|i: int|
            0 <= i < ids.len() ==> #[trigger] room_errors(ids)[i] == room_or_alias_error(ids[i]),
{
}

/// Every message with a text is logged, whatever its text, and no other.
pub proof fn law_logged_messages(
    sent_secs: i64,
    offset: int,
    origin: MessageOrigin,
    body: Seq<char>,
)
    ensures
        body.len() > 0 && -8334601228800 <= sent_secs <= 8210266876799 ==> log_file(
            sent_secs,
            offset,
            origin,
            body,
        ) == Some(
            (dirs_at(sent_secs as int, offset), filename_text(sent_secs as int, offset, origin)),
        ),
        body.len() > 0 && !(-8334601228800 <= sent_secs <= 8210266876799) ==> log_file(
            sent_secs,
            offset,
            origin,
            body,
        ) == log_file(0, offset, origin, body),
        body.len() == 0 ==> log_file(sent_secs, offset, origin, body) is None,
{
}

}
