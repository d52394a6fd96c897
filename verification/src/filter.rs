//! Filter calls, the table of filters, and chains of filters.

use vstd::prelude::*;
use crate::filters::{
    cleaned, lowercase_of, may_clean, may_end_with, paired, printable, regex_filtered,
    spaced_lines, uppercase_of, CleanEndingFilter, ControlCharsFilter, LowercaseFilter,
    MatchPairsFilter, ParagraphsFilter, RegexFilter, UppercaseFilter,
};
use crate::names::NameMap;
use crate::text::{copy_texts, lines_of, texts};

verus! {

/// Why a filter chain gave no text.
#[derive(Debug, PartialEq, Eq)]
pub enum FilterError {
    /// No filter has this name.
    UnknownFilter(String),
    /// The regex filter was given no pattern.
    MissingRegex,
    /// A pattern does not compile, for the reason given.
    BadRegex(String),
}

/// The characters of a `FilterError`.
pub enum Fault {
    UnknownFilter(Seq<char>),
    MissingRegex,
    BadRegex(Seq<char>),
}

impl View for FilterError {
    type V = Fault;

    open spec fn view(&self) -> Fault {
        match self {
            FilterError::UnknownFilter(name) => Fault::UnknownFilter(name@),
            FilterError::MissingRegex => Fault::MissingRegex,
            FilterError::BadRegex(message) => Fault::BadRegex(message@),
        }
    }
}

impl Fault {
    /// The message shown for the error.
    pub open spec fn message(self) -> Seq<char> {
        match self {
            Fault::UnknownFilter(name) => "Filter "@ + name + " does not exist"@,
            Fault::MissingRegex => "Missing regex"@,
            Fault::BadRegex(message) => message,
        }
    }
}

impl FilterError {
    /// The message shown for the error.
    pub fn message(&self) -> (s: String)
        ensures
            s@ == self@.message(),
    {
        match self {
            FilterError::UnknownFilter(name) => {
                let mut s = "Filter ".to_owned();
                s.append(name.as_str());
                s.append(" does not exist");
                s
            },
            FilterError::MissingRegex => "Missing regex".to_owned(),
            FilterError::BadRegex(message) => message.clone(),
        }
    }
}

/// The characters of a filter's outcome.
pub open spec fn outcome(r: Result<String, FilterError>) -> Result<Seq<char>, Fault> {
    match r {
        Ok(s) => Ok(s@),
        Err(e) => Err(e@),
    }
}

/// A filter to run, as a configuration writes it.
#[derive(Debug)]
pub enum FilterData {
    /// The name alone.
    NoArgs(String),
    /// The name, followed by the arguments.
    InlineArgs(Vec<String>),
    /// The name and the list of arguments.
    ArrayArgs(String, Vec<String>),
}

/// The name and the arguments of a filter to run.
pub struct Call {
    pub name: Seq<char>,
    pub args: Seq<Seq<char>>,
}

/// The characters of a `FilterData`.
pub enum FilterText {
    NoArgs(Seq<char>),
    InlineArgs(Seq<Seq<char>>),
    ArrayArgs(Seq<char>, Seq<Seq<char>>),
}

impl View for FilterData {
    type V = FilterText;

    open spec fn view(&self) -> FilterText {
        match self {
            FilterData::NoArgs(name) => FilterText::NoArgs(name@),
            FilterData::InlineArgs(list) => FilterText::InlineArgs(texts(list@)),
            FilterData::ArrayArgs(name, list) => FilterText::ArrayArgs(name@, texts(list@)),
        }
    }
}

impl FilterText {
    /// The filter that is to run, and its arguments; an empty list names none.
    pub open spec fn call(self) -> Call {
        match self {
            FilterText::NoArgs(name) => Call { name, args: Seq::empty() },
            FilterText::InlineArgs(list) => if list.len() == 0 {
                Call { name: Seq::empty(), args: Seq::empty() }
            } else {
                Call { name: list[0], args: list.skip(1) }
            },
            FilterText::ArrayArgs(name, args) => Call { name, args },
        }
    }
}

/// The characters of a list of filters to run.
pub open spec fn filter_texts(list: Seq<FilterData>) -> Seq<FilterText> {
    list.map_values(|data: FilterData| data@)
}

/// The calls of a list of filters to run.
pub open spec fn calls(list: Seq<FilterData>) -> Seq<Call> {
    list.map_values(|data: FilterData| data@.call())
}

impl Clone for FilterData {
    fn clone(&self) -> (r: Self)
        ensures
            r@ == self@,
    {
        match self {
            FilterData::NoArgs(name) => FilterData::NoArgs(name.clone()),
            FilterData::InlineArgs(list) => FilterData::InlineArgs(copy_texts(list)),
            FilterData::ArrayArgs(name, list) => FilterData::ArrayArgs(
                name.clone(),
                copy_texts(list),
            ),
        }
    }
}

/// A copy of a list of filters to run.
pub fn copy_filters(list: &Vec<FilterData>) -> (out: Vec<FilterData>)
    ensures
        filter_texts(out@) == filter_texts(list@),
        calls(out@) == calls(list@),
{
    let mut out: Vec<FilterData> = Vec::new();
    let mut i: usize = 0;
    while i < list.len()
        invariant
            i <= list.len(),
            out@.len() == i,
            forall|k: int| 0 <= k < i ==> (#[trigger] out@[k])@ == list@[k]@,
        decreases list.len() - i,
    {
        out.push(list[i].clone());
        i += 1;
    }
    assert(filter_texts(out@) =~= filter_texts(list@));
    assert(calls(out@) =~= calls(list@));
    out
}

impl FilterData {
    /// The name of the filter to run; empty for an empty list.
    pub fn name(&self) -> (s: String)
        ensures
            s@ == self@.call().name,
    {
        match self {
            FilterData::NoArgs(name) => name.clone(),
            FilterData::InlineArgs(list) => if list.len() == 0 {
                String::new()
            } else {
                list[0].clone()
            },
            FilterData::ArrayArgs(name, _) => name.clone(),
        }
    }

    /// The arguments of the filter to run.
    pub fn args(&self) -> (list: Vec<String>)
        ensures
            texts(list@) == self@.call().args,
    {
        match self {
            FilterData::NoArgs(_) => Vec::new(),
            FilterData::InlineArgs(list) => {
                let mut out: Vec<String> = Vec::new();
                let mut i: usize = 1;
                while i < list.len()
                    invariant
                        1 <= i,
                        out@.len() == (if i <= list@.len() { i - 1 } else { 0 }),
                        list@.len() > 0 ==> i <= list@.len(),
                        forall|k: int| 0 <= k < out@.len() ==> out@[k] == list@[k + 1],
                    decreases list.len() - i,
                {
                    out.push(list[i].clone());
                    i += 1;
                }
                assert(texts(out@) == self@.call().args);
                out
            },
            FilterData::ArrayArgs(_, list) => copy_texts(list),
        }
    }
}

/// The filters.
#[derive(Debug, Clone, Copy, PartialEq, Eq, Structural)]
pub enum Filter {
    Regex,
    Paragraphs,
    Lowercase,
    Uppercase,
    CleanEnding,
    MatchPairs,
    ControlChars,
}

impl Filter {
    /// The name under which the filter is called.
    pub open spec fn title(self) -> Seq<char> {
        match self {
            Filter::Regex => "regex"@,
            Filter::Paragraphs => "paragraphs"@,
            Filter::Lowercase => "lowercase"@,
            Filter::Uppercase => "uppercase"@,
            Filter::CleanEnding => "clean_ending"@,
            Filter::MatchPairs => "match_pairs"@,
            Filter::ControlChars => "controlchars"@,
        }
    }

    /// Whether the filter can turn the text `s` into `out`.
    pub open spec fn may(
        self,
        s: Seq<char>,
        args: Seq<Seq<char>>,
        out: Result<Seq<char>, Fault>,
    ) -> bool {
        match self {
            Filter::Regex => out == regex_filtered(s, args),
            Filter::Paragraphs => out == Ok::<Seq<char>, Fault>(spaced_lines(lines_of(s))),
            Filter::Lowercase => out == Ok::<Seq<char>, Fault>(lowercase_of(s)),
            Filter::Uppercase => out == Ok::<Seq<char>, Fault>(uppercase_of(s)),
            Filter::CleanEnding => may_clean(s, args, out),
            Filter::MatchPairs => out == Ok::<Seq<char>, Fault>(paired(s, args)),
            Filter::ControlChars => out == Ok::<Seq<char>, Fault>(printable(s)),
        }
    }

    /// The name under which the filter is called.
    pub fn name(&self) -> (s: String)
        ensures
            s@ == self.title(),
    {
        match self {
            Filter::Regex => "regex".to_owned(),
            Filter::Paragraphs => "paragraphs".to_owned(),
            Filter::Lowercase => "lowercase".to_owned(),
            Filter::Uppercase => "uppercase".to_owned(),
            Filter::CleanEnding => "clean_ending".to_owned(),
            Filter::MatchPairs => "match_pairs".to_owned(),
            Filter::ControlChars => "controlchars".to_owned(),
        }
    }

    /// Runs the filter over a text.
    pub fn apply(&self, string: String, args: Vec<String>) -> (r: Result<String, FilterError>)
        ensures
            self.may(string@, texts(args@), outcome(r)),
    {
        match self {
            Filter::Regex => RegexFilter.apply(string, args),
            Filter::Paragraphs => ParagraphsFilter.apply(string, args),
            Filter::Lowercase => LowercaseFilter.apply(string, args),
            Filter::Uppercase => UppercaseFilter.apply(string, args),
            Filter::CleanEnding => CleanEndingFilter.apply(string, args),
            Filter::MatchPairs => MatchPairsFilter.apply(string, args),
            Filter::ControlChars => ControlCharsFilter.apply(string, args),
        }
    }
}

/// Whether one call can turn the text `s` into `out`.
pub open spec fn call_may(
    table: Map<Seq<char>, Filter>,
    s: Seq<char>,
    call: Call,
    out: Result<Seq<char>, Fault>,
) -> bool {
    if table.contains_key(call.name) {
        table[call.name].may(s, call.args, out)
    } else {
        out == Err::<Seq<char>, Fault>(Fault::UnknownFilter(call.name))
    }
}

/// Whether a chain of calls can turn the text `s` into `out`: each call gets what the
/// one before it gave, and the first error ends the chain.
pub open spec fn chain_may(
    table: Map<Seq<char>, Filter>,
    s: Seq<char>,
    chain: Seq<Call>,
    out: Result<Seq<char>, Fault>,
) -> bool
    decreases chain.len(),
{
    if chain.len() == 0 {
        out == Ok::<Seq<char>, Fault>(s)
    } else {
        exists|mid: Result<Seq<char>, Fault>| #[trigger]
            call_may(table, s, chain[0], mid) && match mid {
                Ok(t) => chain_may(table, t, chain.skip(1), out),
                Err(fault) => out == Err::<Seq<char>, Fault>(fault),
            }
    }
}

/// A table of filters by name.
pub struct Filters {
    filters: NameMap<Filter>,
}

impl View for Filters {
    type V = Map<Seq<char>, Filter>;

    closed spec fn view(&self) -> Map<Seq<char>, Filter> {
        self.filters@
    }
}

impl Filters {
    /// A table without filters.
    pub fn new() -> (fs: Self)
        ensures
            fs@ == Map::<Seq<char>, Filter>::empty(),
    {
        Filters { filters: NameMap::new() }
    }

    /// Enters a filter under its name.
    pub fn register(&mut self, filter: Filter)
        ensures
            final(self)@ == old(self)@.insert(filter.title(), filter),
    {
        self.filters.insert(filter.name(), filter);
    }

    /// Runs a chain of filters over a text.
    pub fn apply(&self, string: String, filters: Vec<FilterData>) -> (r: Result<
        String,
        FilterError,
    >)
        ensures
            chain_may(self@, string@, calls(filters@), outcome(r)),
    {
        let ghost chain = calls(filters@);
        let mut current = string;
        let mut i: usize = 0;
        assert(chain.skip(0) == chain);
        while i < filters.len()
            invariant
                i <= filters.len(),
                chain == calls(filters@),
                forall|out: Result<Seq<char>, Fault>|
                    chain_may(self@, current@, chain.skip(i as int), out) ==> chain_may(
                        self@,
                        string@,
                        chain,
                        out,
                    ),
            decreases filters.len() - i,
        {
            let data = &filters[i];
            let name = data.name();
            let ghost rest = chain.skip(i as int);
            assert(rest[0] == data@.call());
            assert(rest.skip(1) == chain.skip(i + 1));
            match self.filters.get(name.as_str()) {
                None => {
                    let error = FilterError::UnknownFilter(name);
                    assert(call_may(self@, current@, rest[0], Err(error@)));
                    return Err(error);
                },
                Some(filter) => {
                    let ghost before = current@;
                    match filter.apply(current, data.args()) {
                        Ok(next) => {
                            assert(call_may(self@, before, rest[0], Ok(next@)));
                            current = next;
                        },
                        Err(error) => {
                            assert(call_may(self@, before, rest[0], Err(error@)));
                            return Err(error);
                        },
                    }
                },
            }
            i += 1;
        }
        assert(chain.skip(i as int).len() == 0);
        Ok(current)
    }
}

/// The table of all filters.
pub open spec fn all_filters() -> Map<Seq<char>, Filter> {
    Map::<Seq<char>, Filter>::empty().insert(Filter::Regex.title(), Filter::Regex).insert(
        Filter::Paragraphs.title(),
        Filter::Paragraphs,
    ).insert(Filter::Lowercase.title(), Filter::Lowercase).insert(
        Filter::Uppercase.title(),
        Filter::Uppercase,
    ).insert(Filter::CleanEnding.title(), Filter::CleanEnding).insert(
        Filter::MatchPairs.title(),
        Filter::MatchPairs,
    ).insert(Filter::ControlChars.title(), Filter::ControlChars)
}

impl Default for Filters {
    /// The table of all filters.
    fn default() -> (fs: Self)
        ensures
            fs@ == all_filters(),
    {
        let mut fs = Filters::new();
        register_filters(&mut fs);
        assert(fs@ =~= all_filters());
        fs
    }
}

/// Enters every filter of this library.
pub fn register_filters(filters: &mut Filters)
    ensures
        final(filters)@ == old(filters)@.union_prefer_right(all_filters()),
{
    filters.register(Filter::Regex);
    filters.register(Filter::Paragraphs);
    filters.register(Filter::Lowercase);
    filters.register(Filter::Uppercase);
    filters.register(Filter::CleanEnding);
    filters.register(Filter::MatchPairs);
    filters.register(Filter::ControlChars);
    assert(filters@ =~= old(filters)@.union_prefer_right(all_filters()));
}

/// No two filters share a name.
pub proof fn law_filter_names_differ(a: Filter, b: Filter)
    ensures
        a.title() == b.title() ==> a == b,
{
    reveal_strlit("regex");
    reveal_strlit("paragraphs");
    reveal_strlit("lowercase");
    reveal_strlit("uppercase");
    reveal_strlit("clean_ending");
    reveal_strlit("match_pairs");
    reveal_strlit("controlchars");
    if a.title() == b.title() {
        assert(a.title().len() == b.title().len());
        assert(a.title()[0] == b.title()[0]);
        assert(a.title()[1] == b.title()[1]);
    }
}

/// The table of all filters leads from each filter's name to that filter, and holds no
/// other name.
pub proof fn law_all_filters(name: Seq<char>)
    ensures
        all_filters().contains_key(name) <==> exists|f: Filter| #[trigger] f.title() == name,
        all_filters().contains_key(name) ==> all_filters()[name].title() == name,
        forall|f: Filter| #[trigger]
            all_filters().contains_key(f.title()) && all_filters()[f.title()] == f,
{
    assert forall|f: Filter| #[trigger]
        all_filters().contains_key(f.title()) && all_filters()[f.title()] == f by {
        law_filter_names_differ(f, Filter::Regex);
        law_filter_names_differ(f, Filter::Paragraphs);
        law_filter_names_differ(f, Filter::Lowercase);
        law_filter_names_differ(f, Filter::Uppercase);
        law_filter_names_differ(f, Filter::CleanEnding);
        law_filter_names_differ(f, Filter::MatchPairs);
        law_filter_names_differ(f, Filter::ControlChars);
    }
    if all_filters().contains_key(name) {
        assert(all_filters()[name].title() == name);
    }
}

/// Running one chain and then another is running both as one chain: what the first
/// gives goes into the second, and an error of the first is the error of both.
pub proof fn law_chain_concat(
    table: Map<Seq<char>, Filter>,
    s: Seq<char>,
    first: Seq<Call>,
    second: Seq<Call>,
    out: Result<Seq<char>, Fault>,
)
    ensures
        chain_may(table, s, first + second, out) <==> exists|mid: Result<Seq<char>, Fault>| #[trigger]
            chain_may(table, s, first, mid) && match mid {
                Ok(t) => chain_may(table, t, second, out),
                Err(fault) => out == Err::<Seq<char>, Fault>(fault),
            },
    decreases first.len(),
{
    let whole = first + second;
    if first.len() == 0 {
        assert(whole == second);
        if chain_may(table, s, whole, out) {
            assert(chain_may(table, s, first, Ok(s)));
        }
    } else {
        assert(whole.skip(1) == first.skip(1) + second);
        assert(whole[0] == first[0]);
        if chain_may(table, s, whole, out) {
            let step = choose|step: Result<Seq<char>, Fault>| #[trigger]
                call_may(table, s, whole[0], step) && match step {
                    Ok(t) => chain_may(table, t, whole.skip(1), out),
                    Err(fault) => out == Err::<Seq<char>, Fault>(fault),
                };
            match step {
                Ok(t) => {
                    law_chain_concat(table, t, first.skip(1), second, out);
                    let mid = choose|mid: Result<Seq<char>, Fault>| #[trigger]
                        chain_may(table, t, first.skip(1), mid) && match mid {
                            Ok(u) => chain_may(table, u, second, out),
                            Err(fault) => out == Err::<Seq<char>, Fault>(fault),
                        };
                    assert(call_may(table, s, first[0], Ok(t)));
                    assert(chain_may(table, s, first, mid));
                },
                Err(fault) => {
                    assert(call_may(table, s, first[0], step));
                    assert(chain_may(table, s, first, step));
                },
            }
        }
        if exists|mid: Result<Seq<char>, Fault>| #[trigger]
            chain_may(table, s, first, mid) && match mid {
                Ok(t) => chain_may(table, t, second, out),
                Err(fault) => out == Err::<Seq<char>, Fault>(fault),
            } {
            let mid = choose|mid: Result<Seq<char>, Fault>| #[trigger]
                chain_may(table, s, first, mid) && match mid {
                    Ok(t) => chain_may(table, t, second, out),
                    Err(fault) => out == Err::<Seq<char>, Fault>(fault),
                };
            let step = choose|step: Result<Seq<char>, Fault>| #[trigger]
                call_may(table, s, first[0], step) && match step {
                    Ok(t) => chain_may(table, t, first.skip(1), mid),
                    Err(fault) => mid == Err::<Seq<char>, Fault>(fault),
                };
            match step {
                Ok(t) => {
                    law_chain_concat(table, t, first.skip(1), second, out);
                    assert(call_may(table, s, whole[0], step));
                },
                Err(fault) => {
                    assert(call_may(table, s, whole[0], step));
                },
            }
        }
    }
}

/// A chain that never calls the filter with a random choice has one outcome.
pub proof fn law_chain_deterministic(
    table: Map<Seq<char>, Filter>,
    s: Seq<char>,
    chain: Seq<Call>,
    a: Result<Seq<char>, Fault>,
    b: Result<Seq<char>, Fault>,
)
    requires
        forall|i: int|
            0 <= i < chain.len() && table.contains_key((#[trigger] chain[i]).name)
                ==> table[chain[i].name] != Filter::CleanEnding,
        chain_may(table, s, chain, a),
        chain_may(table, s, chain, b),
    ensures
        a == b,
    decreases chain.len(),
{
    if chain.len() > 0 {
        let x = choose|x: Result<Seq<char>, Fault>| #[trigger]
            call_may(table, s, chain[0], x) && match x {
                Ok(t) => chain_may(table, t, chain.skip(1), a),
                Err(fault) => a == Err::<Seq<char>, Fault>(fault),
            };
        let y = choose|y: Result<Seq<char>, Fault>| #[trigger]
            call_may(table, s, chain[0], y) && match y {
                Ok(t) => chain_may(table, t, chain.skip(1), b),
                Err(fault) => b == Err::<Seq<char>, Fault>(fault),
            };
        assert(x == y);
        match x {
            Ok(t) => {
                assert forall|i: int|
                    0 <= i < chain.skip(1).len() && table.contains_key(
                        (#[trigger] chain.skip(1)[i]).name,
                    ) implies table[chain.skip(1)[i].name] != Filter::CleanEnding by {
                    assert(chain.skip(1)[i] == chain[i + 1]);
                }
                law_chain_deterministic(table, t, chain.skip(1), a, b);
            },
            Err(_) => {},
        }
    }
}

/// Every chain has an outcome on every text.
pub proof fn law_chain_total(
    table: Map<Seq<char>, Filter>,
    s: Seq<char>,
    chain: Seq<Call>,
) -> (out: Result<Seq<char>, Fault>)
    ensures
        chain_may(table, s, chain, out),
    decreases chain.len(),
{
    if chain.len() == 0 {
        Ok(s)
    } else {
        let call = chain[0];
        let step: Result<Seq<char>, Fault> = if !table.contains_key(call.name) {
            Err(Fault::UnknownFilter(call.name))
        } else {
            match table[call.name] {
                Filter::Regex => regex_filtered(s, call.args),
                Filter::Paragraphs => Ok(spaced_lines(lines_of(s))),
                Filter::Lowercase => Ok(lowercase_of(s)),
                Filter::Uppercase => Ok(uppercase_of(s)),
                Filter::CleanEnding => {
                    let endings = crate::filters::arg_text(call.args, 0, "."@);
                    let c = if endings.len() == 0 {
                        '.'
                    } else {
                        endings[0]
                    };
                    assert(may_end_with(call.args, c));
                    cleaned(s, call.args, c)
                },
                Filter::MatchPairs => Ok(paired(s, call.args)),
                Filter::ControlChars => Ok(printable(s)),
            }
        };
        assert(call_may(table, s, call, step));
        match step {
            Ok(t) => {
                let out = law_chain_total(table, t, chain.skip(1));
                out
            },
            Err(fault) => Err(fault),
        }
    }
}

/// A chain whose first call names no filter fails with that name, whatever the text.
pub proof fn law_unknown_filter(
    table: Map<Seq<char>, Filter>,
    s: Seq<char>,
    chain: Seq<Call>,
    out: Result<Seq<char>, Fault>,
)
    requires
        chain.len() > 0,
        !table.contains_key(chain[0].name),
        chain_may(table, s, chain, out),
    ensures
        out == Err::<Seq<char>, Fault>(Fault::UnknownFilter(chain[0].name)),
{
}

/// The three ways to write a filter down mean the same call: a name alone is a name with
/// no arguments, and a list is its first text as the name and the rest as arguments.
pub proof fn law_filter_calls(name: Seq<char>, args: Seq<Seq<char>>)
    ensures
        FilterText::ArrayArgs(name, args).call().name == name,
        FilterText::ArrayArgs(name, args).call().args == args,
        FilterText::InlineArgs(seq![name] + args).call() == FilterText::ArrayArgs(
            name,
            args,
        ).call(),
        FilterText::NoArgs(name).call() == FilterText::ArrayArgs(name, Seq::empty()).call(),
        FilterText::InlineArgs(Seq::empty()).call() == FilterText::NoArgs(Seq::empty()).call(),
{
    assert((seq![name] + args).skip(1) == args);
}

/// What a list of filters calls is what each of them calls, in their order.
pub proof fn law_calls_in_order(list: Seq<FilterData>)
    ensures
        calls(list).len() == list.len(),
        forall|i: int| 0 <= i < list.len() ==> #[trigger] calls(list)[i] == list[i]@.call(),
{
}

/// A chain without calls gives the text back, and a chain of one call does what the filter
/// of that name does; where there is no such filter, it fails with the name.
pub proof fn law_chain_of_one(
    table: Map<Seq<char>, Filter>,
    s: Seq<char>,
    call: Call,
    out: Result<Seq<char>, Fault>,
)
    ensures
        chain_may(table, s, Seq::empty(), out) <==> out == Ok::<Seq<char>, Fault>(s),
        table.contains_key(call.name) ==> (chain_may(table, s, seq![call], out)
            <==> table[call.name].may(s, call.args, out)),
        !table.contains_key(call.name) ==> (chain_may(table, s, seq![call], out) <==> out == Err::<
            Seq<char>,
            Fault,
        >(Fault::UnknownFilter(call.name))),
{
    let chain = seq![call];
    assert(chain[0] == call);
    assert(chain.skip(1) == Seq::<Call>::empty());
    if chain_may(table, s, chain, out) {
        let mid = choose|mid: Result<Seq<char>, Fault>| #[trigger]
            call_may(table, s, chain[0], mid) && match mid {
                Ok(t) => chain_may(table, t, chain.skip(1), out),
                Err(fault) => out == Err::<Seq<char>, Fault>(fault),
            };
        assert(mid == out);
    }
    if call_may(table, s, call, out) {
        assert(call_may(table, s, chain[0], out));
        match out {
            Ok(t) => {
                assert(chain_may(table, t, chain.skip(1), out));
            },
            Err(_) => {},
        }
    }
}

/// What each filter does with a text. Only the filter that cleans an end has a choice.
pub proof fn law_filter_outcomes(
    s: Seq<char>,
    args: Seq<Seq<char>>,
    out: Result<Seq<char>, Fault>,
)
    ensures
        Filter::Regex.may(s, args, out) <==> out == regex_filtered(s, args),
        Filter::Paragraphs.may(s, args, out) <==> out == Ok::<Seq<char>, Fault>(
            spaced_lines(lines_of(s)),
        ),
        Filter::Lowercase.may(s, args, out) <==> out == Ok::<Seq<char>, Fault>(lowercase_of(s)),
        Filter::Uppercase.may(s, args, out) <==> out == Ok::<Seq<char>, Fault>(uppercase_of(s)),
        Filter::CleanEnding.may(s, args, out) <==> may_clean(s, args, out),
        Filter::MatchPairs.may(s, args, out) <==> out == Ok::<Seq<char>, Fault>(paired(s, args)),
        Filter::ControlChars.may(s, args, out) <==> out == Ok::<Seq<char>, Fault>(printable(s)),
{
}

/// The names by which a configuration calls the filters.
pub proof fn law_filters_by_name()
    ensures
        all_filters()["regex"@] == Filter::Regex,
        all_filters()["paragraphs"@] == Filter::Paragraphs,
        all_filters()["lowercase"@] == Filter::Lowercase,
        all_filters()["uppercase"@] == Filter::Uppercase,
        all_filters()["clean_ending"@] == Filter::CleanEnding,
        all_filters()["match_pairs"@] == Filter::MatchPairs,
        all_filters()["controlchars"@] == Filter::ControlChars,
        all_filters().dom() =~= set![
            "regex"@,
            "paragraphs"@,
            "lowercase"@,
            "uppercase"@,
            "clean_ending"@,
            "match_pairs"@,
            "controlchars"@,
        ],
{
    law_all_filters("regex"@);
    assert(all_filters().contains_key(Filter::Regex.title()));
    assert(all_filters().contains_key(Filter::Paragraphs.title()));
    assert(all_filters().contains_key(Filter::Lowercase.title()));
    assert(all_filters().contains_key(Filter::Uppercase.title()));
    assert(all_filters().contains_key(Filter::CleanEnding.title()));
    assert(all_filters().contains_key(Filter::MatchPairs.title()));
    assert(all_filters().contains_key(Filter::ControlChars.title()));
}

/// The messages that are shown for a failed chain of filters.
pub proof fn law_filter_errors(name: Seq<char>, message: Seq<char>)
    ensures
        Fault::UnknownFilter(name).message() == "Filter "@ + name + " does not exist"@,
        Fault::MissingRegex.message() == "Missing regex"@,
        Fault::BadRegex(message).message() == message,
{
}

}
