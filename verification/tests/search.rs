use rmus::search::{lowercase_match_kind, match_kind, order_matches, MatchKind};

#[test]
fn prefix_ranks_best() {
    assert_eq!(match_kind("beat", "Beatles"), Some(MatchKind::Prefix));
    assert_eq!(match_kind("", "Beatles"), Some(MatchKind::Prefix));
    assert_eq!(match_kind("", "Éclair"), Some(MatchKind::Prefix));
}

#[test]
fn substring_elsewhere_is_contained() {
    assert_eq!(match_kind("atl", "Beatles"), Some(MatchKind::Contains));
    assert_eq!(match_kind("les", "Beatles"), Some(MatchKind::Contains));
}

#[test]
fn characters_in_order_match_loosely() {
    assert_eq!(match_kind("bts", "Beatles"), Some(MatchKind::Fuzzy));
    assert_eq!(match_kind("stb", "Beatles"), None);
    assert_eq!(match_kind("beatless", "Beatles"), None);
}

#[test]
fn case_does_not_matter() {
    assert_eq!(match_kind("BEAT", "beatles"), Some(MatchKind::Prefix));
    assert_eq!(match_kind("ÉCL", "éclair"), Some(MatchKind::Prefix));
    assert_eq!(match_kind("oß", "GROß"), Some(MatchKind::Contains));
}

#[test]
fn repeated_beginnings_are_found() {
    assert_eq!(match_kind("aab", "aaab"), Some(MatchKind::Contains));
    assert_eq!(match_kind("abab", "abaabab"), Some(MatchKind::Contains));
}

#[test]
fn lower_case_is_compared_as_it_is() {
    assert_eq!(lowercase_match_kind("a", "A"), None);
    assert_eq!(lowercase_match_kind("a", "ba"), Some(MatchKind::Contains));
}

#[test]
fn best_matches_come_first_and_ties_keep_their_order() {
    let kinds = vec![
        Some(MatchKind::Fuzzy),
        None,
        Some(MatchKind::Contains),
        Some(MatchKind::Prefix),
        Some(MatchKind::Fuzzy),
        Some(MatchKind::Prefix),
    ];
    assert_eq!(order_matches(&kinds), vec![3, 5, 2, 0, 4]);
    assert_eq!(order_matches(&vec![]), Vec::<usize>::new());
    assert_eq!(order_matches(&vec![None, None]), Vec::<usize>::new());
}

#[test]
fn upper_and_lower_case_match_alike() {
    for (query, other) in [("atl", "ATL"), ("bTs", "BtS"), ("x", "X")] {
        assert_eq!(match_kind(query, "Beatles"), match_kind(other, "bEATLES"));
    }
}
