use guessfs_indexer::pattern::ExclusionPattern;

#[test]
fn valid_pattern_compiles_and_keeps_its_text() {
    let pattern = ExclusionPattern::compile(r"\.git(/|$)").ok().unwrap();
    assert_eq!(pattern.source(), r"\.git(/|$)");
}

#[test]
fn invalid_pattern_is_reported_with_its_text() {
    let error = ExclusionPattern::compile("foo(bar").err().unwrap();
    assert_eq!(error.pattern, "foo(bar");
    assert!(!error.message.is_empty());
}

#[test]
fn pattern_matches_anywhere_in_the_text() {
    let pattern = ExclusionPattern::compile(r"node_modules").ok().unwrap();
    assert!(pattern.is_match("/home/me/project/node_modules/x.js"));
    assert!(!pattern.is_match("/home/me/project/src/x.js"));
    let anchored = ExclusionPattern::compile(r"^/tmp/").ok().unwrap();
    assert!(anchored.is_match("/tmp/x"));
    assert!(!anchored.is_match("/var/tmp/x"));
}

#[test]
fn pattern_is_not_its_own_text() {
    let pattern = ExclusionPattern::compile(r"a.c").ok().unwrap();
    assert!(pattern.is_match("abc"));
    assert!(!pattern.is_match("a.b"));
}
