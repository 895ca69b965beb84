use minigrep::run_search;
use minigrep::search;
use minigrep::search_case_insensitive;
use minigrep::Config;

#[test]
fn case_sensitive() {
    let query = "duct";
    let contents = "\
Rust:
safe, fast, productive.
Pick three.
Duct Tape";

    assert_eq!(vec!["safe, fast, productive."], search(query, contents));
}

#[test]
fn case_insensitive() {
    let query = "rUsT";
    let contents = "\
Rust:
safe, fast, productive.
Pick three.
Trust me.";

    assert_eq!(
        vec!["Rust:", "Trust me."],
        search_case_insensitive(query, contents)
    );
}

#[test]
fn search_keeps_order_and_duplicates() {
    assert_eq!(vec!["ab", "ab"], search("b", "ab\nz\nab"));
}

#[test]
fn search_no_match_returns_nothing() {
    let contents = "Rust:\nsafe, fast, productive.\nPick three.";
    assert!(search("quartz", contents).is_empty());
    assert!(search_case_insensitive("quartz", contents).is_empty());
}

#[test]
fn search_empty_query_matches_every_line() {
    assert_eq!(vec!["a", "b"], search("", "a\nb"));
}

#[test]
fn search_strips_crlf_terminators() {
    assert_eq!(vec!["one", "two"], search("", "one\r\ntwo\r\n"));
}

#[test]
fn search_keeps_lone_carriage_return() {
    assert_eq!(vec!["a\rb"], search("", "a\rb"));
}

#[test]
fn search_trailing_newline_adds_no_line() {
    assert_eq!(vec!["a"], search("a", "a\n"));
}

#[test]
fn search_twice_gives_same_result() {
    let contents = "Rust:\nsafe, fast, productive.\nPick three.\nTrust me.";
    assert_eq!(search("st", contents), search("st", contents));
    assert_eq!(
        search_case_insensitive("rUsT", contents),
        search_case_insensitive("rUsT", contents)
    );
}

#[test]
fn case_insensitive_returns_superset_of_case_sensitive() {
    let contents = "Rust:\nsafe, fast, productive.\nPick three.\nTrust me.";
    let strict = search("Rust", contents);
    let folded = search_case_insensitive("Rust", contents);
    for line in &strict {
        assert!(folded.contains(line));
    }
    assert_eq!(vec!["Rust:"], strict);
    assert_eq!(vec!["Rust:", "Trust me."], folded);
}

#[test]
fn run_search_dispatches_on_flag() {
    let contents = "Rust:\nsafe, fast, productive.\nPick three.\nDuct Tape";
    let strict = Config {
        query: "duct".to_string(),
        filename: "unused.txt".to_string(),
        case_sensitive: true,
    };
    assert_eq!(
        vec!["safe, fast, productive."],
        run_search(&strict, contents)
    );
    let folded = Config {
        query: "duct".to_string(),
        filename: "unused.txt".to_string(),
        case_sensitive: false,
    };
    assert_eq!(
        vec!["safe, fast, productive.", "Duct Tape"],
        run_search(&folded, contents)
    );
}
