use tweaker::filter::{register_filters, Filter, FilterData, FilterError, Filters};
use tweaker::filters::{
    CleanEndingFilter, ControlCharsFilter, LowercaseFilter, MatchPairsFilter, ParagraphsFilter,
    RegexFilter, UppercaseFilter,
};

fn list(items: &[&str]) -> Vec<String> {
    items.iter().map(|s| s.to_string()).collect()
}

fn call(items: &[&str]) -> FilterData {
    FilterData::InlineArgs(list(items))
}

fn run(calls: Vec<FilterData>, text: &str) -> Result<String, FilterError> {
    Filters::default().apply(text.to_string(), calls)
}

#[test]
fn filter_data_name_and_args() {
    let none = FilterData::NoArgs("lowercase".to_string());
    assert_eq!(none.name(), "lowercase");
    assert_eq!(none.args(), list(&[]));
    let inline = call(&["regex", "a", "b"]);
    assert_eq!(inline.name(), "regex");
    assert_eq!(inline.args(), list(&["a", "b"]));
    let empty = call(&[]);
    assert_eq!(empty.name(), "");
    assert_eq!(empty.args(), list(&[]));
    let array = FilterData::ArrayArgs("regex".to_string(), list(&["x", "y"]));
    assert_eq!(array.name(), "regex");
    assert_eq!(array.args(), list(&["x", "y"]));
    assert!(matches!(none.clone(), FilterData::NoArgs(name) if name == "lowercase"));
    assert!(matches!(inline.clone(), FilterData::InlineArgs(all) if all == list(&["regex", "a", "b"])));
    assert!(matches!(
        array.clone(),
        FilterData::ArrayArgs(name, args) if name == "regex" && args == list(&["x", "y"])
    ));
}

#[test]
fn regex_replaces_first_match_only() {
    let out = RegexFilter.apply("one two one".to_string(), list(&["one", "three"]));
    assert_eq!(out, Ok("three two one".to_string()));
}

#[test]
fn regex_expands_groups_and_defaults_to_removal() {
    let out = RegexFilter.apply("ab".to_string(), list(&["(a)(b)", "$2$1"]));
    assert_eq!(out, Ok("ba".to_string()));
    let out = RegexFilter.apply("xay".to_string(), list(&["a"]));
    assert_eq!(out, Ok("xy".to_string()));
    let out = RegexFilter.apply("xyz".to_string(), list(&["a", "b"]));
    assert_eq!(out, Ok("xyz".to_string()));
}

#[test]
fn regex_errors() {
    let missing = RegexFilter.apply("text".to_string(), vec![]);
    assert_eq!(missing, Err(FilterError::MissingRegex));
    assert_eq!(FilterError::MissingRegex.message(), "Missing regex");
    match RegexFilter.apply("text".to_string(), list(&["("])) {
        Err(FilterError::BadRegex(message)) => assert!(message.contains("unclosed group")),
        other => panic!("{other:?}"),
    }
}

#[test]
fn paragraphs_join_lines_with_spaces() {
    let out = ParagraphsFilter.apply("one.\ntwo\r\n\nthree".to_string(), list(&["1"]));
    assert_eq!(out, Ok("one. two  three ".to_string()));
    let out = ParagraphsFilter.apply(String::new(), vec![]);
    assert_eq!(out, Ok(String::new()));
}

#[test]
fn paragraphs_never_break_whatever_the_limit() {
    let text = "a sentence.\n".repeat(40);
    let wide = ParagraphsFilter.apply(text.clone(), list(&["100000"]));
    let narrow = ParagraphsFilter.apply(text.clone(), list(&["0"]));
    let unset = ParagraphsFilter.apply(text, list(&["no number"]));
    assert_eq!(wide, Ok("a sentence. ".repeat(40)));
    assert_eq!(narrow, wide);
    assert_eq!(unset, wide);
}

#[test]
fn case_filters() {
    let lower = LowercaseFilter.apply("ÄB c".to_string(), vec![]);
    assert_eq!(lower, Ok("äb c".to_string()));
    let upper = UppercaseFilter.apply("straße".to_string(), vec![]);
    assert_eq!(upper, Ok("STRASSE".to_string()));
}

#[test]
fn clean_ending_clips_to_the_last_stop() {
    let out = CleanEndingFilter.apply("One two. Three fo".to_string(), vec![]);
    assert_eq!(out, Ok("One two.".to_string()));
    let out = CleanEndingFilter.apply("One, two, thr".to_string(), vec![]);
    assert_eq!(out, Ok("One, two.".to_string()));
}

#[test]
fn clean_ending_leaves_proper_endings() {
    let out = CleanEndingFilter.apply("One two. Three.".to_string(), vec![]);
    assert_eq!(out, Ok("One two. Three.".to_string()));
}

#[test]
fn clean_ending_picks_one_of_its_endings() {
    for _ in 0..20 {
        let out = CleanEndingFilter.apply("One. two".to_string(), list(&["!?", "."])).unwrap();
        assert!(out == "One!" || out == "One?");
    }
}

#[test]
fn clean_ending_with_a_given_ending() {
    let out = CleanEndingFilter.apply_with("One. two".to_string(), list(&["!?", "."]), '?');
    assert_eq!(out, Ok("One?".to_string()));
}

#[test]
fn clean_ending_without_endings_has_no_pattern() {
    match CleanEndingFilter.apply("One. two".to_string(), list(&[""])) {
        Err(FilterError::BadRegex(message)) => assert!(message.contains("unclosed")),
        other => panic!("{other:?}"),
    }
}

#[test]
fn match_pairs_of_equal_halves() {
    let odd = MatchPairsFilter.apply("say \"hi".to_string(), vec![]);
    assert_eq!(odd, Ok("say \"hi\"".to_string()));
    let even = MatchPairsFilter.apply("say \"hi\"".to_string(), vec![]);
    assert_eq!(even, Ok("say \"hi\"".to_string()));
    let star = MatchPairsFilter.apply("*a**b".to_string(), list(&["*"]));
    assert_eq!(star, Ok("*a**b*".to_string()));
}

#[test]
fn match_pairs_of_different_halves() {
    let open = MatchPairsFilter.apply("((a)".to_string(), list(&["(", ")"]));
    assert_eq!(open, Ok("((a))".to_string()));
    let closed = MatchPairsFilter.apply("a))".to_string(), list(&["(", ")"]));
    assert_eq!(closed, Ok("a))".to_string()));
    let many = MatchPairsFilter.apply("<<<".to_string(), list(&["<", "/>"]));
    assert_eq!(many, Ok("<<</>/>/>".to_string()));
}

#[test]
fn match_pairs_of_an_empty_half() {
    // an empty text occurs around every character
    let out = MatchPairsFilter.apply("ab".to_string(), list(&["", "x"]));
    assert_eq!(out, Ok("abxxx".to_string()));
}

#[test]
fn control_characters_are_dropped() {
    let out = ControlCharsFilter.apply("a\tb\nc\u{7f}\u{85}d\r".to_string(), vec![]);
    assert_eq!(out, Ok("ab\ncd".to_string()));
    let again = ControlCharsFilter.apply("ab\ncd".to_string(), vec![]);
    assert_eq!(again, Ok("ab\ncd".to_string()));
}

#[test]
fn chains_run_in_order() {
    let out = run(vec![call(&["regex", "a", "B"]), call(&["lowercase"])], "xay");
    assert_eq!(out, Ok("xby".to_string()));
    let out = run(vec![call(&["lowercase"]), call(&["regex", "a", "B"])], "xAy");
    assert_eq!(out, Ok("xBy".to_string()));
    assert_eq!(run(vec![], "same"), Ok("same".to_string()));
}

#[test]
fn chains_add_up() {
    let first = run(vec![call(&["uppercase"])], "\"a").unwrap();
    let second = run(vec![call(&["match_pairs"])], &first);
    let both = run(vec![call(&["uppercase"]), call(&["match_pairs"])], "\"a");
    assert_eq!(second, both);
    assert_eq!(both, Ok("\"A\"".to_string()));
}

#[test]
fn unknown_filters_are_refused() {
    let out = run(vec![call(&["shout"]), call(&["regex"])], "x");
    assert_eq!(out, Err(FilterError::UnknownFilter("shout".to_string())));
    assert_eq!(out.unwrap_err().message(), "Filter shout does not exist");
    let out = run(vec![call(&["regex"]), call(&["shout"])], "x");
    assert_eq!(out, Err(FilterError::MissingRegex));
    let out = run(vec![call(&[])], "x");
    assert_eq!(out, Err(FilterError::UnknownFilter(String::new())));
}

#[test]
fn registered_filters_can_be_called() {
    let mut filters = Filters::new();
    let lower = || vec![FilterData::NoArgs("lowercase".to_string())];
    assert!(filters.apply("A".to_string(), lower()).is_err());
    filters.register(Filter::Lowercase);
    assert_eq!(filters.apply("A".to_string(), lower()), Ok("a".to_string()));
    register_filters(&mut filters);
    let names = [
        "regex", "paragraphs", "lowercase", "uppercase", "clean_ending", "match_pairs",
        "controlchars",
    ];
    for name in names {
        let calls = vec![FilterData::ArrayArgs(name.to_string(), list(&["z"]))];
        assert!(filters.apply("a.".to_string(), calls).is_ok());
    }
}

#[test]
fn filter_names() {
    assert_eq!(Filter::Regex.name(), "regex");
    assert_eq!(Filter::Paragraphs.name(), "paragraphs");
    assert_eq!(Filter::Lowercase.name(), "lowercase");
    assert_eq!(Filter::Uppercase.name(), "uppercase");
    assert_eq!(Filter::CleanEnding.name(), "clean_ending");
    assert_eq!(Filter::MatchPairs.name(), "match_pairs");
    assert_eq!(Filter::ControlChars.name(), "controlchars");
}
