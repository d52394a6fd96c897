//! Settings of the connection to the server.

use vstd::prelude::*;
use crate::ids::{check_server_name, is_server_name};
use crate::text::texts;
use crate::tweak::opt_text;

verus! {

/// How the bot talks to servers.
pub struct Config {
    pub join_by_servers: Vec<String>,
    pub request_timeout: Option<u64>,
    pub connect_timeout: Option<u64>,
    pub user_agent: Option<String>,
    pub queue_sleep_duration: Option<u64>,
}

/// Where the configuration is read from.
#[derive(Debug, PartialEq, Eq)]
pub enum ConfigPath {
    /// A file at a path.
    At(String),
    /// A file of this name in the current directory.
    InCurrentDirectory(String),
}

/// The file of the configuration, and whether it is given by its path.
pub open spec fn config_file(given: Option<Seq<char>>) -> (bool, Seq<char>) {
    match given {
        Some(path) => (true, path),
        None => (false, "tweaker.toml"@),
    }
}

/// Where the configuration is read from: at the path that the environment gives, or else
/// in the current directory.
pub fn config_path(given: Option<String>) -> (path: ConfigPath)
    ensures
        match given {
            Some(p) => path == ConfigPath::At(p),
            None => path matches ConfigPath::InCurrentDirectory(name) && name@ == "tweaker.toml"@,
        },
        match path {
            ConfigPath::At(p) => config_file(opt_text(given)) == (true, p@),
            ConfigPath::InCurrentDirectory(name) => config_file(opt_text(given)) == (false, name@),
        },
{
    match given {
        Some(p) => ConfigPath::At(p),
        None => ConfigPath::InCurrentDirectory("tweaker.toml".to_owned()),
    }
}

/// The settings of an HTTP client; timeouts are in seconds.
#[derive(Debug, PartialEq, Eq)]
pub struct HttpSettings {
    pub user_agent: String,
    pub timeout: Option<u64>,
    pub connect_timeout: Option<u64>,
}

/// The server names among texts, in their order.
pub open spec fn server_names(list: Seq<Seq<char>>) -> Seq<Seq<char>> {
    list.filter(|name: Seq<char>| is_server_name(name))
}

/// The name under which the bot talks to servers: the one given, or its usual one.
pub open spec fn agent_text(given: Option<Seq<char>>) -> Seq<char> {
    match given {
        Some(agent) => agent,
        None => "Tweaker; +https://git.calitabby.net/crispycat/tweaker"@,
    }
}

/// The seconds between two rounds of the sending loop: those given, or one.
pub open spec fn pause_secs(given: Option<u64>) -> u64 {
    match given {
        Some(secs) => secs,
        None => 1,
    }
}

impl Config {
    /// The servers by which rooms are joined: those of the configured names that are
    /// server names.
    pub fn join_by_servers(&self) -> (servers: Vec<String>)
        ensures
            texts(servers@) == server_names(texts(self.join_by_servers@)),
    {
        let mut accepted: Vec<bool> = Vec::new();
        let mut i: usize = 0;
        while i < self.join_by_servers.len()
            invariant
                i <= self.join_by_servers.len(),
                accepted@.len() == i,
                forall|k: int|
                    0 <= k < i ==> #[trigger] accepted@[k] == is_server_name(
                        self.join_by_servers@[k]@,
                    ),
            decreases self.join_by_servers.len() - i,
        {
            accepted.push(check_server_name(self.join_by_servers[i].as_str()));
            i += 1;
        }
        let servers = keep_accepted(&self.join_by_servers, &accepted);
        proof {
            let names = texts(self.join_by_servers@);
            assert(accepted@ =~= names.map_values(|name: Seq<char>| is_server_name(name)));
            lemma_kept_is_filter(names, |name: Seq<char>| is_server_name(name));
        }
        servers
    }

    /// The settings of the HTTP client.
    pub fn http_client(&self) -> (settings: HttpSettings)
        ensures
            settings.user_agent@ == (match self.user_agent {
                Some(ua) => ua@,
                None => "Tweaker; +https://git.calitabby.net/crispycat/tweaker"@,
            }),
            settings.user_agent@ == agent_text(opt_text(self.user_agent)),
            settings.timeout == self.request_timeout,
            settings.connect_timeout == self.connect_timeout,
    {
        let user_agent = match &self.user_agent {
            Some(ua) => ua.clone(),
            None => "Tweaker; +https://git.calitabby.net/crispycat/tweaker".to_owned(),
        };
        HttpSettings {
            user_agent,
            timeout: self.request_timeout,
            connect_timeout: self.connect_timeout,
        }
    }

    /// The seconds between two rounds of the sending loop.
    pub fn queue_sleep_duration(&self) -> (secs: u64)
        ensures
            secs == (match self.queue_sleep_duration {
                Some(n) => n,
                None => 1,
            }),
            secs == pause_secs(self.queue_sleep_duration),
    {
        match self.queue_sleep_duration {
            Some(n) => n,
            None => 1,
        }
    }
}

/// The items of a list that are marked, in their order.
pub open spec fn kept<T>(list: Seq<T>, marks: Seq<bool>) -> Seq<T>
    recommends
        list.len() == marks.len(),
    decreases list.len(),
{
    if list.len() == 0 {
        Seq::empty()
    } else if marks.last() {
        kept(list.drop_last(), marks.drop_last()).push(list.last())
    } else {
        kept(list.drop_last(), marks.drop_last())
    }
}

/// The texts of a list that are marked, in their order.
pub fn keep_accepted(list: &Vec<String>, marks: &Vec<bool>) -> (out: Vec<String>)
    requires
        list.len() == marks.len(),
    ensures
        texts(out@) == kept(texts(list@), marks@),
{
    let mut out: Vec<String> = Vec::new();
    let mut i: usize = 0;
    while i < list.len()
        invariant
            i <= list.len(),
            list.len() == marks.len(),
            texts(out@) == kept(texts(list@).take(i as int), marks@.take(i as int)),
        decreases list.len() - i,
    {
        proof {
            assert(texts(list@).take(i + 1).drop_last() == texts(list@).take(i as int));
            assert(marks@.take(i + 1).drop_last() == marks@.take(i as int));
            assert(texts(list@).take(i + 1).last() == list@[i as int]@);
        }
        if marks[i] {
            let item = list[i].clone();
            assert(texts(out@.push(item)) == texts(out@).push(item@));
            out.push(item);
        }
        i += 1;
    }
    assert(texts(list@).take(i as int) == texts(list@));
    assert(marks@.take(i as int) == marks@);
    out
}

/// Keeping the items that a condition marks is filtering by the condition.
proof fn lemma_kept_is_filter<T>(list: Seq<T>, condition: spec_fn(T) -> bool)
    ensures
        kept(list, list.map_values(condition)) == list.filter(condition),
    decreases list.len(),
{
    reveal(Seq::filter);
    if list.len() > 0 {
        lemma_kept_is_filter(list.drop_last(), condition);
        assert(list.map_values(condition).drop_last() == list.drop_last().map_values(condition));
    }
}

/// Of the configured names exactly the server names are kept, in their order.
pub proof fn law_server_names(first: Seq<Seq<char>>, name: Seq<char>, second: Seq<Seq<char>>)
    ensures
        server_names(Seq::empty()) == Seq::<Seq<char>>::empty(),
        is_server_name(name) ==> server_names(first + seq![name] + second) == server_names(first)
            + seq![name] + server_names(second),
        !is_server_name(name) ==> server_names(first + seq![name] + second) == server_names(first)
            + server_names(second),
{
    let keep = |n: Seq<char>| is_server_name(n);
    Seq::filter_distributes_over_add(first + seq![name], second, keep);
    Seq::filter_distributes_over_add(first, seq![name], keep);
    reveal(Seq::filter);
    assert(seq![name].drop_last() == Seq::<Seq<char>>::empty());
    assert(Seq::<Seq<char>>::empty().filter(keep) == Seq::<Seq<char>>::empty());
    assert(seq![name].filter(keep) == if is_server_name(name) {
        seq![name]
    } else {
        Seq::<Seq<char>>::empty()
    });
    assert(server_names(first) + Seq::<Seq<char>>::empty() + server_names(second) == server_names(
        first,
    ) + server_names(second));
}

/// What is configured holds as it is, and defaults hold where nothing is.
pub proof fn law_settings(agent: Seq<char>, secs: u64)
    ensures
        agent_text(Some(agent)) == agent,
        agent_text(None) == "Tweaker; +https://git.calitabby.net/crispycat/tweaker"@,
        pause_secs(Some(secs)) == secs,
        pause_secs(None) == 1,
{
}

/// A path that is given is the path of the configuration, whatever it is.
pub proof fn law_config_file(path: Seq<char>)
    ensures
        config_file(Some(path)) == (true, path),
        config_file(None) == (false, "tweaker.toml"@),
{
}

}
