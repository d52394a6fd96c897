//! The filters that a generated text can be sent through.

use vstd::prelude::*;
use crate::chance::choose_iterated;
use crate::filter::{outcome, Fault, FilterError};
use crate::number::parse_size;
use crate::pattern::{regex_error, regex_replace, replace_first, replaced_once};
use crate::text::{
    append_repeated, byte_len, count_matches, count_of, lines, lines_of, occurs_at, repeated,
    texts, to_chars,
};

verus! {

/// `str::to_lowercase`, by the case mapping of the Unicode standard.
pub uninterp spec fn lowercase_of(s: Seq<char>) -> Seq<char>;

/// `str::to_uppercase`, by the case mapping of the Unicode standard.
pub uninterp spec fn uppercase_of(s: Seq<char>) -> Seq<char>;

/// `str::to_lowercase`: the result depends on the text alone.
pub assume_specification[ str::to_lowercase ](s: &str) -> (r: String)
    ensures
        r@ == lowercase_of(s@),
;

/// `str::to_uppercase`: the result depends on the text alone.
pub assume_specification[ str::to_uppercase ](s: &str) -> (r: String)
    ensures
        r@ == uppercase_of(s@),
;

/// The argument at a position, or a default.
pub open spec fn arg_text(args: Seq<Seq<char>>, i: int, default: Seq<char>) -> Seq<char> {
    if 0 <= i < args.len() {
        args[i]
    } else {
        default
    }
}

/// The argument at a position, or a default.
fn arg_or(args: &Vec<String>, i: usize, default: &str) -> (r: String)
    ensures
        r@ == arg_text(texts(args@), i as int, default@),
{
    if i < args.len() {
        args[i].clone()
    } else {
        default.to_owned()
    }
}

/// What the regex filter makes of a text: its first argument is the pattern, its
/// second the replacement.
pub open spec fn regex_filtered(s: Seq<char>, args: Seq<Seq<char>>) -> Result<Seq<char>, Fault> {
    if args.len() == 0 {
        Err(Fault::MissingRegex)
    } else {
        match regex_error(args[0]) {
            Some(message) => Err(Fault::BadRegex(message)),
            None => Ok(regex_replace(args[0], s, arg_text(args, 1, ""@))),
        }
    }
}

/// Replaces the first match of a regular expression.
pub struct RegexFilter;

impl RegexFilter {
    pub fn apply(&self, string: String, args: Vec<String>) -> (r: Result<String, FilterError>)
        ensures
            outcome(r) == regex_filtered(string@, texts(args@)),
            match r {
                Ok(out) => {
                    let replacement = arg_text(texts(args@), 1, ""@);
                    !replacement.contains('$') ==> replaced_once(string@, replacement, out@)
                },
                Err(_) => true,
            },
    {
        if args.len() == 0 {
            return Err(FilterError::MissingRegex);
        }
        let replacement = arg_or(&args, 1, "");
        match replace_first(args[0].as_str(), string.as_str(), replacement.as_str()) {
            Ok(out) => Ok(out),
            Err(message) => Err(FilterError::BadRegex(message)),
        }
    }
}

/// The line length above which a paragraph may end when no length is given.
pub const DEFAULT_PARAGRAPH: usize = 120;

/// Each line followed by a space.
pub open spec fn spaced_lines(lines: Seq<Seq<char>>) -> Seq<char>
    decreases lines.len(),
{
    if lines.len() == 0 {
        Seq::empty()
    } else {
        spaced_lines(lines.drop_last()) + lines.last() + seq![' ']
    }
}

/// Puts the lines of a text after one another.
///
/// A paragraph would end where its lines are longer than a given length and the text so
/// far ends with a full stop. The text so far always ends with the space behind its last
/// line, so none does.
pub struct ParagraphsFilter;

impl ParagraphsFilter {
    pub fn apply(&self, string: String, args: Vec<String>) -> (r: Result<String, FilterError>)
        ensures
            outcome(r) == Ok::<Seq<char>, Fault>(spaced_lines(lines_of(string@))),
    {
        let limit: usize = if args.len() > 0 {
            match parse_size(args[0].as_str()) {
                Some(n) => n,
                None => DEFAULT_PARAGRAPH,
            }
        } else {
            DEFAULT_PARAGRAPH
        };
        let all = lines(string.as_str());
        let mut run: u128 = 0;
        let mut out = String::new();
        let mut i: usize = 0;
        while i < all.len()
            invariant
                i <= all.len(),
                run <= i * usize::MAX,
                out@ == spaced_lines(texts(all@).take(i as int)),
            decreases all.len() - i,
        {
            let line = &all[i];
            out.append(line.as_str());
            out.push(' ');
            let size: usize = byte_len(line.as_str());
            assert(run + size <= (i + 1) * usize::MAX) by (nonlinear_arith)
                requires
                    run <= i * usize::MAX,
                    size <= usize::MAX,
            ;
            assert((i + 1) * usize::MAX < u128::MAX) by (nonlinear_arith)
                requires
                    i < usize::MAX,
                    usize::MAX <= u64::MAX,
            ;
            run = run + size as u128;
            proof {
                let head = texts(all@).take(i + 1);
                assert(head.drop_last() == texts(all@).take(i as int));
                assert(head.last() == line@);
                assert(out@.last() == ' ');
            }
            let chars = to_chars(out.as_str());
            if run > limit as u128 && chars[chars.len() - 1] == '.' {
                run = 0;
                out.append("\n\n");
            }
            i += 1;
        }
        assert(texts(all@).take(i as int) == texts(all@));
        Ok(out)
    }
}

/// Turns a text into lower case.
pub struct LowercaseFilter;

impl LowercaseFilter {
    pub fn apply(&self, string: String, _args: Vec<String>) -> (r: Result<String, FilterError>)
        ensures
            outcome(r) == Ok::<Seq<char>, Fault>(lowercase_of(string@)),
    {
        Ok(string.as_str().to_lowercase())
    }
}

/// Turns a text into upper case.
pub struct UppercaseFilter;

impl UppercaseFilter {
    pub fn apply(&self, string: String, _args: Vec<String>) -> (r: Result<String, FilterError>)
        ensures
            outcome(r) == Ok::<Seq<char>, Fault>(uppercase_of(string@)),
    {
        Ok(string.as_str().to_uppercase())
    }
}

/// The pattern that finds a ragged end: from a character at which the text may be
/// clipped up to a last character that is no proper ending.
pub open spec fn ragged_end(args: Seq<Seq<char>>) -> Seq<char> {
    let endings = arg_text(args, 0, "."@);
    let clip = arg_text(args, 1, ".,"@);
    "["@ + clip + "][^"@ + clip + "]+[^"@ + endings + "]$"@
}

/// Whether `c` may be chosen as the new ending.
pub open spec fn may_end_with(args: Seq<Seq<char>>, c: char) -> bool {
    let endings = arg_text(args, 0, "."@);
    if endings.len() == 0 {
        c == '.'
    } else {
        endings.contains(c)
    }
}

/// The text with its ragged end replaced by `c`.
pub open spec fn cleaned(s: Seq<char>, args: Seq<Seq<char>>, c: char) -> Result<Seq<char>, Fault> {
    match regex_error(ragged_end(args)) {
        Some(message) => Err(Fault::BadRegex(message)),
        None => Ok(regex_replace(ragged_end(args), s, seq![c])),
    }
}

/// Whether cleaning the end of a text can give `out`: some allowed ending was chosen.
pub open spec fn may_clean(
    s: Seq<char>,
    args: Seq<Seq<char>>,
    out: Result<Seq<char>, Fault>,
) -> bool {
    exists|c: char| may_end_with(args, c) && out == #[trigger] cleaned(s, args, c)
}

/// Clips a ragged end and closes the text with a proper ending, picked at random.
pub struct CleanEndingFilter;

impl CleanEndingFilter {
    pub fn apply(&self, string: String, args: Vec<String>) -> (r: Result<String, FilterError>)
        ensures
            may_clean(string@, texts(args@), outcome(r)),
            match r {
                Ok(out) => !may_end_with(texts(args@), '$') ==> exists|c: char| #[trigger]
                    may_end_with(texts(args@), c) && replaced_once(string@, seq![c], out@),
                Err(_) => true,
            },
    {
        let endings = to_chars(arg_or(&args, 0, ".").as_str());
        let c: char = match choose_iterated(&endings) {
            Some(c) => *c,
            None => '.',
        };
        assert(may_end_with(texts(args@), c));
        self.apply_with(string, args, c)
    }

    /// Clips a ragged end and closes the text with the given ending.
    pub fn apply_with(&self, string: String, args: Vec<String>, ending: char) -> (r: Result<
        String,
        FilterError,
    >)
        ensures
            outcome(r) == cleaned(string@, texts(args@), ending),
            match r {
                Ok(out) => ending != '$' ==> replaced_once(string@, seq![ending], out@),
                Err(_) => true,
            },
    {
        let endings = arg_or(&args, 0, ".");
        let clip = arg_or(&args, 1, ".,");
        let mut pattern = "[".to_owned();
        pattern.append(clip.as_str());
        pattern.append("][^");
        pattern.append(clip.as_str());
        pattern.append("]+[^");
        pattern.append(endings.as_str());
        pattern.append("]$");
        let mut replacement = String::new();
        replacement.push(ending);
        assert(replacement@ == seq![ending]);
        match replace_first(pattern.as_str(), string.as_str(), replacement.as_str()) {
            Ok(out) => Ok(out),
            Err(message) => Err(FilterError::BadRegex(message)),
        }
    }
}

/// The text with the missing halves of its pairs appended: with one argument the
/// pair's two halves look the same, with two they differ.
pub open spec fn paired(s: Seq<char>, args: Seq<Seq<char>>) -> Seq<char> {
    let start = arg_text(args, 0, "\""@);
    let opened = count_of(s, start);
    if args.len() > 1 {
        let closed = count_of(s, args[1]);
        if opened > closed {
            s + repeated(args[1], (opened - closed) as nat)
        } else {
            s
        }
    } else if opened % 2 != 0 {
        s + start
    } else {
        s
    }
}

/// Appends the missing halves of quotes and brackets.
pub struct MatchPairsFilter;

impl MatchPairsFilter {
    pub fn apply(&self, string: String, args: Vec<String>) -> (r: Result<String, FilterError>)
        ensures
            outcome(r) == Ok::<Seq<char>, Fault>(paired(string@, texts(args@))),
    {
        let mut string = string;
        let start = arg_or(&args, 0, "\"");
        let opened: u128 = count_matches(string.as_str(), start.as_str());
        if args.len() > 1 {
            let end = &args[1];
            let closed: u128 = count_matches(string.as_str(), end.as_str());
            let missing: u128 = opened.saturating_sub(closed);
            if missing > 0 {
                append_repeated(&mut string, end.as_str(), missing);
            }
        } else if opened % 2 != 0 {
            string.append(start.as_str());
        }
        Ok(string)
    }
}

/// Whether `c` is one of the control characters of the Unicode standard.
pub open spec fn is_control(c: char) -> bool {
    c <= '\u{1f}' || '\u{7f}' <= c <= '\u{9f}'
}

/// Whether the control character filter lets `c` through.
pub open spec fn is_kept(c: char) -> bool {
    !is_control(c) || c == '\n'
}

/// The text without control characters other than line feeds.
pub open spec fn printable(s: Seq<char>) -> Seq<char> {
    s.filter(|c: char| is_kept(c))
}

/// Drops control characters other than line feeds.
pub struct ControlCharsFilter;

impl ControlCharsFilter {
    pub fn apply(&self, string: String, _args: Vec<String>) -> (r: Result<String, FilterError>)
        ensures
            outcome(r) == Ok::<Seq<char>, Fault>(printable(string@)),
    {
        let v = to_chars(string.as_str());
        let mut out = String::new();
        let mut i: usize = 0;
        let ghost keep = |c: char| is_kept(c);
        proof {
            reveal(Seq::filter);
        }
        while i < v.len()
            invariant
                i <= v.len(),
                keep == (|c: char| is_kept(c)),
                out@ == v@.take(i as int).filter(keep),
            decreases v.len() - i,
        {
            let c = v[i];
            let control = c <= '\u{1f}' || ('\u{7f}' <= c && c <= '\u{9f}');
            if !control || c == '\n' {
                out.push(c);
            }
            proof {
                reveal(Seq::filter);
                assert(v@.take(i + 1).drop_last() == v@.take(i as int));
            }
            i += 1;
        }
        assert(v@.take(i as int) == string@);
        Ok(out)
    }
}

/// Appending a text to another adds one to the times that it occurs.
pub proof fn law_count_append(s: Seq<char>, p: Seq<char>)
    requires
        p.len() > 0,
    ensures
        count_of(s + p, p) == count_of(s, p) + 1,
    decreases s.len(),
{
    let whole = s + p;
    let k = p.len() as int;
    if s.len() >= p.len() {
        assert(whole.subrange(0, k) == s.subrange(0, k));
        if occurs_at(s, p, 0) {
            assert(whole.skip(k) == s.skip(k) + p);
            law_count_append(s.skip(k), p);
        } else {
            assert(whole.skip(1) == s.skip(1) + p);
            law_count_append(s.skip(1), p);
        }
    } else if occurs_at(whole, p, 0) {
        assert(whole.skip(k).len() == s.len());
        assert(count_of(whole.skip(k), p) == 0);
    } else {
        if s.len() == 0 {
            assert(whole.subrange(0, k) == p);
        }
        assert(whole.skip(1) == s.skip(1) + p);
        law_count_append(s.skip(1), p);
        assert(count_of(s.skip(1), p) == 0);
    }
}

/// Appending a text several times adds as much to the times that it occurs.
pub proof fn law_count_repeated(s: Seq<char>, p: Seq<char>, n: nat)
    requires
        p.len() > 0,
    ensures
        count_of(s + repeated(p, n), p) == count_of(s, p) + n,
    decreases n,
{
    if n == 0 {
        assert(s + repeated(p, n) == s);
    } else {
        let m = (n - 1) as nat;
        law_count_repeated(s, p, m);
        assert(s + repeated(p, n) == (s + repeated(p, m)) + p);
        law_count_append(s + repeated(p, m), p);
    }
}

/// After pairing equal halves, their number is even. An empty half cannot be paired.
pub proof fn law_pairs_even(s: Seq<char>, args: Seq<Seq<char>>)
    requires
        args.len() <= 1,
        arg_text(args, 0, "\""@).len() > 0,
    ensures
        count_of(paired(s, args), arg_text(args, 0, "\""@)) % 2 == 0,
{
    law_count_append(s, arg_text(args, 0, "\""@));
}

/// After pairing different halves, there are as many closing halves as there were
/// opening halves, or the closing halves that were there already if those were more.
pub proof fn law_pairs_closed(s: Seq<char>, args: Seq<Seq<char>>)
    requires
        args.len() > 1,
        args[1].len() > 0,
    ensures
        count_of(paired(s, args), args[1]) == if count_of(s, args[0]) > count_of(s, args[1]) {
            count_of(s, args[0])
        } else {
            count_of(s, args[1])
        },
{
    let opened = count_of(s, args[0]);
    let closed = count_of(s, args[1]);
    if opened > closed {
        law_count_repeated(s, args[1], (opened - closed) as nat);
    }
}

/// Pairing only appends.
pub proof fn law_pairs_extend(s: Seq<char>, args: Seq<Seq<char>>)
    ensures
        s.is_prefix_of(paired(s, args)),
{
}

/// The paragraphs filter keeps every line and puts a space behind each: lines that follow
/// are put behind what it makes of those before.
pub proof fn law_spaced_lines_add_up(first: Seq<Seq<char>>, second: Seq<Seq<char>>)
    ensures
        spaced_lines(first + second) == spaced_lines(first) + spaced_lines(second),
    decreases second.len(),
{
    if second.len() == 0 {
        assert(first + second == first);
        assert(spaced_lines(first) + spaced_lines(second) == spaced_lines(first));
    } else {
        law_spaced_lines_add_up(first, second.drop_last());
        assert((first + second).drop_last() == first + second.drop_last());
        assert((first + second).last() == second.last());
    }
}

/// What is kept of a text holds no control character but line feeds, and all else in
/// order: a text without such characters stays as it is.
pub proof fn law_printable(s: Seq<char>)
    ensures
        forall|i: int| 0 <= i < printable(s).len() ==> is_kept(#[trigger] printable(s)[i]),
        (forall|i: int| 0 <= i < s.len() ==> is_kept(#[trigger] s[i])) ==> printable(s) == s,
        printable(printable(s)) == printable(s),
    decreases s.len(),
{
    lemma_printable(s);
    lemma_printable(printable(s));
}

proof fn lemma_printable(s: Seq<char>)
    ensures
        forall|i: int| 0 <= i < printable(s).len() ==> is_kept(#[trigger] printable(s)[i]),
        (forall|i: int| 0 <= i < s.len() ==> is_kept(#[trigger] s[i])) ==> printable(s) == s,
    decreases s.len(),
{
    reveal(Seq::filter);
    if s.len() > 0 {
        lemma_printable(s.drop_last());
        if forall|i: int| 0 <= i < s.len() ==> is_kept(#[trigger] s[i]) {
            assert forall|i: int| 0 <= i < s.drop_last().len() implies is_kept(
                #[trigger] s.drop_last()[i],
            ) by {
                assert(is_kept(s[i]));
            }
            assert(is_kept(s[s.len() - 1]));
            assert(s.drop_last().push(s.last()) == s);
        }
    }
}

/// Filtering control characters looks at each character by itself: it is dropped exactly
/// if its code point lies in `0..=0x1f` or `0x7f..=0x9f` and is not that of the line feed.
pub proof fn law_printable_by_code_point(a: Seq<char>, c: char, b: Seq<char>)
    ensures
        printable(Seq::empty()) == Seq::<char>::empty(),
        (c as int <= 0x1f || 0x7f <= c as int <= 0x9f) && c as int != 0x0a ==> printable(
            a + seq![c] + b,
        ) == printable(a) + printable(b),
        !(c as int <= 0x1f || 0x7f <= c as int <= 0x9f) || c as int == 0x0a ==> printable(
            a + seq![c] + b,
        ) == printable(a) + seq![c] + printable(b),
{
    let keep = |x: char| is_kept(x);
    Seq::filter_distributes_over_add(a + seq![c], b, keep);
    Seq::filter_distributes_over_add(a, seq![c], keep);
    reveal(Seq::filter);
    assert(seq![c].drop_last() == Seq::<char>::empty());
    assert(Seq::<char>::empty().filter(keep) == Seq::<char>::empty());
    assert(seq![c].filter(keep) == if is_kept(c) {
        seq![c]
    } else {
        Seq::<char>::empty()
    });
    assert(printable(a) + Seq::<char>::empty() + printable(b) == printable(a) + printable(b));
}

/// A text without control characters stays as it is, whatever script it is written in.
pub proof fn law_printable_text_stays(s: Seq<char>)
    requires
        forall|i: int|
            0 <= i < s.len() ==> !(#[trigger] s[i] as int <= 0x1f || 0x7f <= s[i] as int <= 0x9f)
                || s[i] as int == 0x0a,
    ensures
        printable(s) == s,
{
    assert forall|i: int| 0 <= i < s.len() implies is_kept(#[trigger] s[i]) by {}
    lemma_printable(s);
}

/// Equal halves: a text with an even number of them stays as it is, and one with an odd
/// number gets exactly one more. Without arguments the half is a quotation mark.
pub proof fn law_pairs_of_equal_halves(s: Seq<char>, half: Seq<char>)
    ensures
        count_of(s, half) % 2 == 0 ==> paired(s, seq![half]) == s,
        count_of(s, half) % 2 != 0 ==> paired(s, seq![half]) == s + half,
        paired(s, Seq::empty()) == paired(s, seq![seq!['"']]),
{
    reveal_strlit("\"");
    assert("\""@ == seq!['"']);
}

/// Different halves: a text gets as many closing halves as it has more opening ones, and
/// none where it has no more. Further arguments make no difference.
pub proof fn law_pairs_of_different_halves(
    s: Seq<char>,
    opening: Seq<char>,
    closing: Seq<char>,
    further: Seq<Seq<char>>,
)
    ensures
        count_of(s, opening) <= count_of(s, closing) ==> paired(s, seq![opening, closing]) == s,
        count_of(s, opening) > count_of(s, closing) ==> paired(s, seq![opening, closing]) == s
            + repeated(closing, (count_of(s, opening) - count_of(s, closing)) as nat),
        paired(s, seq![opening, closing] + further) == paired(s, seq![opening, closing]),
{
    let args = seq![opening, closing];
    assert((args + further)[0] == opening && (args + further)[1] == closing);
}

/// No lines make no text, and a single line is followed by one space.
pub proof fn law_spaced_line(line: Seq<char>)
    ensures
        spaced_lines(Seq::empty()) == Seq::<char>::empty(),
        spaced_lines(seq![line]) == line + seq![' '],
{
    assert(seq![line].drop_last() == Seq::<Seq<char>>::empty());
    assert(spaced_lines(Seq::<Seq<char>>::empty()) == Seq::<char>::empty());
    assert(spaced_lines(seq![line]) == Seq::<char>::empty() + line + seq![' ']);
}

/// The regex filter needs a pattern; with one, it replaces its first match by the second
/// argument, or by nothing. Further arguments make no difference.
pub proof fn law_regex_arguments(
    s: Seq<char>,
    pattern: Seq<char>,
    replacement: Seq<char>,
    further: Seq<Seq<char>>,
)
    ensures
        regex_filtered(s, Seq::empty()) == Err::<Seq<char>, Fault>(Fault::MissingRegex),
        regex_error(pattern) is None ==> regex_filtered(s, seq![pattern, replacement]) == Ok::<
            Seq<char>,
            Fault,
        >(regex_replace(pattern, s, replacement)),
        regex_error(pattern) is Some ==> regex_filtered(s, seq![pattern, replacement]) == Err::<
            Seq<char>,
            Fault,
        >(Fault::BadRegex(regex_error(pattern)->0)),
        regex_filtered(s, seq![pattern]) == regex_filtered(s, seq![pattern, Seq::empty()]),
        regex_filtered(s, seq![pattern, replacement] + further) == regex_filtered(
            s,
            seq![pattern, replacement],
        ),
{
    reveal_strlit("");
    assert(""@ == Seq::<char>::empty());
    let args = seq![pattern, replacement];
    assert((args + further)[0] == pattern && (args + further)[1] == replacement);
}

/// Cleaning an end puts one of the given endings in the place of the first match of
/// `[clip][^clip]+[^endings]$`, or fails where that is no pattern; a full stop is put
/// where no ending is given.
pub proof fn law_cleaned_ends(
    s: Seq<char>,
    endings: Seq<char>,
    clip: Seq<char>,
    out: Result<Seq<char>, Fault>,
)
    ensures
        ({
            let pattern = seq!['['] + clip + seq![']', '[', '^'] + clip + seq![']', '+', '[', '^']
                + endings + seq![']', '$'];
            let args = seq![endings, clip];
            &&& regex_error(pattern) is Some ==> (may_clean(s, args, out) <==> out == Err::<
                Seq<char>,
                Fault,
            >(Fault::BadRegex(regex_error(pattern)->0)))
            &&& regex_error(pattern) is None && endings.len() > 0 ==> (may_clean(s, args, out)
                <==> exists|c: char| #[trigger]
                endings.contains(c) && out == Ok::<Seq<char>, Fault>(
                    regex_replace(pattern, s, seq![c]),
                ))
            &&& regex_error(pattern) is None && endings.len() == 0 ==> (may_clean(s, args, out)
                <==> out == Ok::<Seq<char>, Fault>(regex_replace(pattern, s, seq!['.'])))
        }),
{
    let pattern = seq!['['] + clip + seq![']', '[', '^'] + clip + seq![']', '+', '[', '^'] + endings
        + seq![']', '$'];
    let args = seq![endings, clip];
    reveal_strlit("[");
    reveal_strlit("][^");
    reveal_strlit("]+[^");
    reveal_strlit("]$");
    assert("["@ == seq!['[']);
    assert("][^"@ == seq![']', '[', '^']);
    assert("]+[^"@ == seq![']', '+', '[', '^']);
    assert("]$"@ == seq![']', '$']);
    assert(args[0] == endings && args[1] == clip);
    assert(ragged_end(args) == pattern);
    let first = if endings.len() == 0 {
        '.'
    } else {
        endings[0]
    };
    assert(may_end_with(args, first));
    if may_clean(s, args, out) {
        let c = choose|c: char| may_end_with(args, c) && out == #[trigger] cleaned(s, args, c);
        assert(endings.len() > 0 ==> endings.contains(c));
    }
    if regex_error(pattern) is None && exists|c: char| #[trigger]
        endings.contains(c) && out == Ok::<Seq<char>, Fault>(regex_replace(pattern, s, seq![c])) {
        let c = choose|c: char| #[trigger]
            endings.contains(c) && out == Ok::<Seq<char>, Fault>(
                regex_replace(pattern, s, seq![c]),
            );
        assert(endings.len() > 0);
        assert(out == cleaned(s, args, c));
    }
    if out == cleaned(s, args, first) {
        assert(may_clean(s, args, out));
    }
}

/// Left out, the endings are a full stop, and the text is clipped at full stops and commas.
pub proof fn law_cleaned_defaults(s: Seq<char>, endings: Seq<char>, out: Result<Seq<char>, Fault>)
    ensures
        may_clean(s, Seq::empty(), out) <==> may_clean(s, seq![seq!['.']], out),
        may_clean(s, seq![endings], out) <==> may_clean(s, seq![endings, seq!['.', ',']], out),
{
    reveal_strlit(".");
    reveal_strlit(".,");
    assert("."@ == seq!['.']);
    assert(".,"@ == seq!['.', ',']);
    let none = Seq::<Seq<char>>::empty();
    let one = seq![seq!['.']];
    let ending = seq![endings];
    let both = seq![endings, seq!['.', ',']];
    assert(ragged_end(none) == ragged_end(one));
    assert(ragged_end(ending) == ragged_end(both));
    assert forall|c: char| may_end_with(none, c) == may_end_with(one, c) by {}
    assert forall|c: char| may_end_with(ending, c) == may_end_with(both, c) by {}
    assert forall|c: char| #[trigger] cleaned(s, none, c) == cleaned(s, one, c) by {}
    assert forall|c: char| #[trigger] cleaned(s, one, c) == cleaned(s, none, c) by {}
    assert forall|c: char| #[trigger] cleaned(s, ending, c) == cleaned(s, both, c) by {}
    assert forall|c: char| #[trigger] cleaned(s, both, c) == cleaned(s, ending, c) by {}
}

}
