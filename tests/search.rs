use grep_remake::{line_matches, search, search_case_insensitive, search_lines};

const CONTENTS: &str = "This is a string\nIt contains a line that says Testing which should be found by the program\nIt also contains another LINE that does not contain the above term that should not be found";

#[test]
fn one_result() {
    let query = "Testing";
    let contents = "This is a string\nIt contains a line that says Testing which should be found by the program\nIt also contains another LINE that does not contain the above term that should not be found";

    assert_eq!(
        vec!["It contains a line that says Testing which should be found by the program"],
        search(query, contents)
    );
}

#[test]
fn multiple_result() {
    let query = "contains";
    let contents = "This is a string\nIt contains a line that says Testing which should be found by the program\nIt also contains another LINE that does not contain the above term that should not be found";

    assert_eq!(
        vec!["It contains a line that says Testing which should be found by the program", "It also contains another LINE that does not contain the above term that should not be found"],
        search(query, contents)
    );
}

#[test]
fn case_sensitive() {
    let query = "line";
    let contents = "This is a string\nIt contains a line that says Testing which should be found by the program\nIt also contains another LINE that does not contain the above term that should not be found";

    assert_eq!(
        vec!["It contains a line that says Testing which should be found by the program"],
        search(query, contents)
    );
}

#[test]
fn case_insensitive() {
    let query = "lInE";
    let contents = "This is a string\nIt contains a line that says Testing which should be found by the program\nIt also contains another LINE that does not contain the above term that should not be found";

    assert_eq!(
        vec!["It contains a line that says Testing which should be found by the program", "It also contains another LINE that does not contain the above term that should not be found"],
        search_case_insensitive(query, contents)
    );
}

#[test]
fn unified_search_follows_the_flag() {
    assert_eq!(search_lines("lInE", CONTENTS, true), Vec::<&str>::new());
    assert_eq!(search_lines("lInE", CONTENTS, false), search_case_insensitive("lInE", CONTENTS));
    assert_eq!(search_lines("contains", CONTENTS, true), search("contains", CONTENTS));
}

#[test]
fn empty_query_matches_every_line() {
    assert_eq!(search("", "a\nb\n\nc"), vec!["a", "b", "", "c"]);
    assert_eq!(search_case_insensitive("", "a\nB"), vec!["a", "B"]);
}

#[test]
fn query_longer_than_every_line_matches_none() {
    assert_eq!(search("abcdef", "abc\nabcde\nab"), Vec::<&str>::new());
}

#[test]
fn empty_contents_give_nothing() {
    assert_eq!(search("a", ""), Vec::<&str>::new());
    assert_eq!(search("", ""), Vec::<&str>::new());
    assert_eq!(search_case_insensitive("", ""), Vec::<&str>::new());
}

#[test]
fn line_endings() {
    assert_eq!(search("", "one\r\ntwo\nthree\n"), vec!["one", "two", "three"]);
    assert_eq!(search("", "x\n"), vec!["x"]);
    assert_eq!(search("", "\n"), vec![""]);
    assert_eq!(search("", "end\r"), vec!["end\r"]);
    assert_eq!(search("\r", "a\r\nb\r"), vec!["b\r"]);
    assert_eq!(search("o", "foo\r\nbar\n\nbaz\r\nqoo"), vec!["foo", "qoo"]);
}

#[test]
fn lines_come_back_verbatim_and_in_order() {
    let contents = "Zeta\nalpha ZETA\nbeta\nzeta end";
    assert_eq!(search_case_insensitive("zeta", contents), vec!["Zeta", "alpha ZETA", "zeta end"]);
    assert_eq!(search("zeta", contents), vec!["zeta end"]);
}

#[test]
fn repeated_lines_are_kept() {
    assert_eq!(search("x", "x\ny\nx"), vec!["x", "x"]);
}

#[test]
fn same_inputs_same_result() {
    assert_eq!(search("is", CONTENTS), search("is", CONTENTS));
    assert_eq!(search_case_insensitive("IS", CONTENTS), search_case_insensitive("IS", CONTENTS));
}

#[test]
fn insensitive_equals_sensitive_on_lowercased_text() {
    let contents = "Ärger im Büro\nkein ärger\nÜBER alles";
    assert_eq!(search_case_insensitive("äRGER", contents), vec!["Ärger im Büro", "kein ärger"]);
    let lowered = contents.to_lowercase();
    let sensitive = search(&"äRGER".to_lowercase(), &lowered);
    assert_eq!(sensitive, vec!["ärger im büro", "kein ärger"]);
}

#[test]
fn line_matches_is_literal() {
    assert!(line_matches("a.b", "."));
    assert!(!line_matches("ab", "."));
    assert!(line_matches("anything", ""));
    assert!(!line_matches("", "a"));
    assert!(line_matches("banana", "nan"));
    assert!(!line_matches("banana", "nab"));
    assert!(line_matches("ünïcödé", "ïcö"));
}
