use groupware::suffixlist::{PublicSuffix, Source};

const LIST: &str = "// A comment\n\
com\n\
  CO.UK \r\n\
\n\
*.ck\n\
!www.ck\n\
//another\n\
*.Kawasaki.jp\n\
!city.kawasaki.jp\n\
القمة";

#[test]
fn an_empty_list_holds_nothing() {
    let list = PublicSuffix::new();
    assert!(!list.contains("com"));
    assert!(!list.contains("onion"));
    assert!(!list.contains(""));
    assert!(list.wildcards.is_empty());
}

#[test]
fn lines_become_suffixes_wildcards_and_exceptions() {
    let list = PublicSuffix::from_list(LIST);
    let mut suffixes: Vec<&str> = list.suffixes.iter().map(|s| s.as_str()).collect();
    suffixes.sort();
    assert_eq!(suffixes, vec!["", "co.uk", "com", "onion", "القمة"]);
    let mut exceptions: Vec<&str> = list.exceptions.iter().map(|s| s.as_str()).collect();
    exceptions.sort();
    assert_eq!(exceptions, vec!["city.kawasaki.jp", "www.ck"]);
    assert_eq!(list.wildcards, vec![".ck".to_string(), ".kawasaki.jp".to_string()]);
}

#[test]
fn contains_follows_the_three_rules() {
    let list = PublicSuffix::from_list(LIST);
    assert!(list.contains("com"));
    assert!(list.contains("co.uk"));
    assert!(list.contains("onion"));
    assert!(!list.contains("uk"));
    assert!(!list.contains("example.com"));
    assert!(list.contains("anything.ck"));
    assert!(list.contains("deep.er.ck"));
    assert!(!list.contains("www.ck"));
    assert!(!list.contains("ck"));
    assert!(list.contains("x.kawasaki.jp"));
    assert!(!list.contains("city.kawasaki.jp"));
    assert!(!list.contains("CO.UK"));
}

#[test]
fn onion_is_always_there() {
    assert!(PublicSuffix::from_list("").contains("onion"));
    assert!(!PublicSuffix::from_list("").contains(""));
    assert!(PublicSuffix::from_list("\n").contains(""));
    assert!(!PublicSuffix::from_list("com\n").contains(""));
}

#[test]
fn a_suffix_wins_over_an_exception() {
    let list = PublicSuffix::from_list("*.ck\n!www.ck\nwww.ck\n");
    assert!(list.contains("www.ck"));
}

#[test]
fn read_line_reads_one_rule() {
    let mut list = PublicSuffix::new();
    list.read_line(&" *.Example ".chars().collect());
    list.read_line(&"// *.ignored".chars().collect());
    list.read_line(&"!A.example".chars().collect());
    list.read_line(&"ORG".chars().collect());
    assert_eq!(list.wildcards, vec![".example".to_string()]);
    assert!(list.contains("org"));
    assert!(list.contains("b.example"));
    assert!(!list.contains("a.example"));
}

#[test]
fn sources_are_told_apart_by_their_scheme() {
    assert!(matches!(Source::of("https://publicsuffix.org/list.dat"), Source::Http));
    assert!(matches!(Source::of("http://example.org/x.gz"), Source::Http));
    match Source::of("file:///etc/suffixes.dat") {
        Source::File(path) => assert_eq!(path, "/etc/suffixes.dat"),
        other => panic!("{other:?}"),
    }
    assert!(matches!(Source::of("ftp://example.org/list"), Source::Invalid));
    assert!(matches!(Source::of("HTTPS://example.org/list"), Source::Invalid));
    assert!(matches!(Source::of(""), Source::Invalid));
}

#[test]
fn compressed_lists_end_in_gz() {
    assert!(Source::is_compressed("https://example.org/list.dat.gz"));
    assert!(Source::is_compressed(".gz"));
    assert!(!Source::is_compressed("https://example.org/list.gz.dat"));
    assert!(!Source::is_compressed("gz"));
}

#[test]
fn the_default_list_is_empty() {
    let list = PublicSuffix::default();
    assert!(list.suffixes.is_empty());
    assert!(list.exceptions.is_empty());
    assert!(list.wildcards.is_empty());
    assert!(!list.contains("onion"));
}
