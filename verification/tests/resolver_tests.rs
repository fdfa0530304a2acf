use peekaboo::application_finder::{
    AppMatch, ApplicationFinder, MatchKind, ResolveError, resolve, CONTAINS_FACTOR,
};
use peekaboo::errors::PeekabooError;
use peekaboo::models::ApplicationData;
use peekaboo::similarity::SCORE_UNIT;

fn record(name: &str, bundle_id: Option<&str>, pid: i32) -> ApplicationData {
    ApplicationData {
        name: name.to_string(),
        bundle_id: bundle_id.map(|b| b.to_string()),
        path: None,
        pid,
        is_active: true,
    }
}

fn browsers() -> Vec<ApplicationData> {
    vec![
        record("Firefox", Some("org.mozilla.firefox"), 100),
        record("Chrome", Some("com.google.chrome"), 200),
    ]
}

#[test]
fn test_application_finder_creation() {
    let finder = ApplicationFinder::new();
    // A fresh finder holds no state; it must be usable on an empty snapshot.
    let matches = finder.find_all_matches("anything", &Vec::new());
    assert!(matches.is_empty());
}

#[test]
fn test_fuzzy_matching() {
    let finder = ApplicationFinder::new();
    let apps = vec![
        ApplicationData {
            name: "Firefox".to_string(),
            bundle_id: Some("org.mozilla.firefox".to_string()),
            path: None,
            pid: 1234,
            is_active: true,
        },
        ApplicationData {
            name: "Chrome".to_string(),
            bundle_id: Some("com.google.chrome".to_string()),
            path: None,
            pid: 5678,
            is_active: false,
        },
    ];

    let matches = finder.find_all_matches("fire", &apps);
    assert!(!matches.is_empty());
    assert_eq!(matches[0].app.name, "Firefox");
}

#[test]
fn test_system_process_filtering() {
    let finder = ApplicationFinder::new();

    assert!(finder.is_system_process("systemd"));
    assert!(finder.is_system_process("kworker/0:1"));
    assert!(!finder.is_system_process("firefox"));
    assert!(!finder.is_system_process("code"));
}

#[test]
fn exact_name_match_is_case_insensitive() {
    let result = resolve("firefox", &browsers());
    let app = result.expect("an exact name match must resolve");
    assert_eq!(app.pid, 100);
    assert_eq!(app.name, "Firefox");
}

#[test]
fn exact_name_match_beats_other_heuristics() {
    // A second record is fuzzily close to the identifier; the exact name
    // still wins outright.
    let records = vec![
        record("Codex", None, 7),
        record("Code", None, 1),
    ];
    let app = resolve("CODE", &records).expect("exact name must win");
    assert_eq!(app.pid, 1);
}

#[test]
fn lowercasing_reaches_both_sides() {
    // With the name upper-case and the identifier lower-case, only real
    // case folding can make the two equal.
    let records = vec![record("FIREFOX", None, 42)];
    let app = resolve("firefox", &records).expect("case-insensitive equality");
    assert_eq!(app.pid, 42);
}

#[test]
fn exact_bundle_match_needs_a_dot() {
    let result = resolve("org.mozilla.firefox", &browsers());
    let app = result.expect("a verbatim bundle id must resolve");
    assert_eq!(app.pid, 100);
    assert_eq!(app.name, "Firefox");
}

#[test]
fn bundle_match_is_case_sensitive() {
    // The bundle rung compares verbatim; a differently-cased bundle id does
    // not hit it, and the identifier then falls through to scoring, where
    // the lowercased bundle text still contains the lowercased identifier.
    let records = vec![record("Firefox", Some("org.mozilla.firefox"), 100)];
    let result = resolve("ORG.MOZILLA.FIREFOX", &records);
    let app = result.expect("the bundle-substring rung still matches");
    assert_eq!(app.pid, 100);
}

#[test]
fn prefix_match_resolves_single_candidate() {
    let app = resolve("fire", &browsers()).expect("a lone prefix match resolves");
    assert_eq!(app.pid, 100);
    assert_eq!(app.name, "Firefox");
}

#[test]
fn prefix_score_is_exact() {
    let finder = ApplicationFinder::new();
    let matches = finder.find_all_matches("fire", &browsers());
    assert_eq!(matches.len(), 1);
    assert_eq!(matches[0].match_type, MatchKind::Prefix);
    // 4 / 7, in fixed point, rounded toward zero.
    assert_eq!(matches[0].score, 4 * SCORE_UNIT / 7);
    assert_eq!(matches[0].score, 571_428_571_428);
}

#[test]
fn contains_score_carries_its_factor() {
    let finder = ApplicationFinder::new();
    let records = vec![record("xfirefox", None, 9)];
    let matches = finder.find_all_matches("fire", &records);
    assert_eq!(matches.len(), 1);
    assert_eq!(matches[0].match_type, MatchKind::Contains);
    assert_eq!(matches[0].score, 4 * CONTAINS_FACTOR / 8);
}

#[test]
fn code_beats_codecs_unambiguously() {
    let records = vec![record("Code", None, 1), record("Codecs", None, 2)];
    let app = resolve("code", &records).expect("the exact name must win cleanly");
    assert_eq!(app.pid, 1);
}

#[test]
fn term_beats_terminal() {
    let records = vec![record("Terminal", None, 1), record("Term", None, 2)];
    let app = resolve("term", &records).expect("the exact name must win cleanly");
    assert_eq!(app.pid, 2);
}

#[test]
fn unknown_identifier_is_not_found() {
    let result = resolve("xyz123", &browsers());
    match result {
        Err(ResolveError::NotFound { identifier }) => assert_eq!(identifier, "xyz123"),
        other => panic!("expected NotFound, got {:?}", other),
    }
}

#[test]
fn empty_snapshot_is_not_found() {
    let result = resolve("anything", &Vec::new());
    match result {
        Err(ResolveError::NotFound { identifier }) => assert_eq!(identifier, "anything"),
        other => panic!("expected NotFound, got {:?}", other),
    }
}

#[test]
fn two_prefix_matches_within_band_are_ambiguous() {
    // "ab" is a prefix of both four-letter names, so both score exactly
    // one half and tie inside the band.
    let records = vec![record("abcd", None, 1), record("abce", None, 2)];
    let result = resolve("ab", &records);
    match result {
        Err(ResolveError::Ambiguous { identifier, candidates }) => {
            assert_eq!(identifier, "ab");
            assert_eq!(candidates.len(), 2);
            assert_eq!(candidates[0].name, "abcd");
            assert_eq!(candidates[0].pid, 1);
            assert_eq!(candidates[1].name, "abce");
            assert_eq!(candidates[1].pid, 2);
        },
        other => panic!("expected Ambiguous, got {:?}", other),
    }
}

#[test]
fn dedup_keeps_first_candidate_per_pid() {
    let finder = ApplicationFinder::new();
    let app_a = record("Alpha", None, 5);
    let app_b = record("Beta", None, 5);
    let matches = vec![
        AppMatch { app: app_a, score: 900_000_000_000, match_type: MatchKind::Prefix },
        AppMatch { app: app_b, score: 800_000_000_000, match_type: MatchKind::Contains },
    ];
    let unique = finder.remove_duplicate_matches(matches);
    assert_eq!(unique.len(), 1);
    assert_eq!(unique[0].app.name, "Alpha");
}

#[test]
fn fuzzy_band_boundary_is_exclusive() {
    // Two fuzzy candidates exactly 0.05 apart: the band is strictly less
    // than the threshold, so the pair is not a tie.
    let finder = ApplicationFinder::new();
    let matches = vec![
        AppMatch { app: record("A", None, 1), score: 800_000_000_000, match_type: MatchKind::Fuzzy },
        AppMatch { app: record("B", None, 2), score: 750_000_000_000, match_type: MatchKind::Fuzzy },
    ];
    let result = finder.process_match_results(matches, "q");
    let app = result.expect("a gap of exactly the threshold is not a tie");
    assert_eq!(app.pid, 1);
}

#[test]
fn fuzzy_band_catches_closer_pairs() {
    let finder = ApplicationFinder::new();
    let matches = vec![
        AppMatch { app: record("A", None, 1), score: 800_000_000_000, match_type: MatchKind::Fuzzy },
        AppMatch { app: record("B", None, 2), score: 760_000_000_000, match_type: MatchKind::Fuzzy },
    ];
    let result = finder.process_match_results(matches, "q");
    assert!(matches!(result, Err(ResolveError::Ambiguous { .. })));
}

#[test]
fn general_band_is_wider_than_fuzzy_band() {
    // The same 0.04 gap that ties two fuzzy candidates also ties two prefix
    // candidates; a 0.08 gap ties prefix candidates but not fuzzy ones.
    let finder = ApplicationFinder::new();
    let prefix_pair = vec![
        AppMatch { app: record("A", None, 1), score: 800_000_000_000, match_type: MatchKind::Prefix },
        AppMatch { app: record("B", None, 2), score: 720_000_000_000, match_type: MatchKind::Prefix },
    ];
    assert!(matches!(
        finder.process_match_results(prefix_pair, "q"),
        Err(ResolveError::Ambiguous { .. })
    ));

    let fuzzy_pair = vec![
        AppMatch { app: record("A", None, 1), score: 800_000_000_000, match_type: MatchKind::Fuzzy },
        AppMatch { app: record("B", None, 2), score: 720_000_000_000, match_type: MatchKind::Fuzzy },
    ];
    let app = finder
        .process_match_results(fuzzy_pair, "q")
        .expect("0.08 is outside the fuzzy band");
    assert_eq!(app.pid, 1);
}

#[test]
fn find_application_reports_ambiguity_with_candidates() {
    let finder = ApplicationFinder::new();
    let records = vec![record("abcd", None, 1), record("abce", None, 2)];
    let result = finder.find_application("ab", &records);
    match result {
        Err(PeekabooError::InvalidArgument { message }) => {
            assert_eq!(
                message,
                "Multiple applications match identifier 'ab'. Please be more specific. \
                 Matches found: abcd (PID: 1), abce (PID: 2)"
            );
        },
        other => panic!("expected InvalidArgument, got {:?}", other),
    }
}

#[test]
fn find_application_maps_not_found() {
    let finder = ApplicationFinder::new();
    let result = finder.find_application("nothing-like-this", &browsers());
    match result {
        Err(PeekabooError::AppNotFound { identifier }) => {
            assert_eq!(identifier, "nothing-like-this");
        },
        other => panic!("expected AppNotFound, got {:?}", other),
    }
}

#[test]
fn find_application_returns_the_match() {
    let finder = ApplicationFinder::new();
    let app = finder
        .find_application("chrome", &browsers())
        .expect("the exact name resolves");
    assert_eq!(app.pid, 200);
}

#[test]
fn display_name_strips_suffixes_and_capitalizes() {
    let finder = ApplicationFinder::new();
    assert_eq!(finder.get_display_name("firefox-bin"), "Firefox");
    assert_eq!(finder.get_display_name("tool.exe"), "Tool");
    assert_eq!(finder.get_display_name("already"), "Already");
    assert_eq!(finder.get_display_name(""), "");
}

#[test]
fn listing_sorts_names_case_insensitively_and_stably() {
    let finder = ApplicationFinder::new();
    let processes = vec![
        ("zz".to_string(), 1),
        ("AB".to_string(), 2),
        ("Ab".to_string(), 3),
        ("middle".to_string(), 4),
    ];
    let list = finder
        .get_all_running_applications(&processes)
        .expect("listing always succeeds");
    let names: Vec<&str> = list.iter().map(|a| a.app_name.as_str()).collect();
    // "AB" and "Ab" share a lowered name; the snapshot order between them
    // is kept.
    assert_eq!(names, vec!["AB", "Ab", "Middle", "Zz"]);
    assert!(list.iter().all(|a| a.window_count == 1));
    assert!(list.iter().all(|a| a.bundle_id.is_empty()));
    assert_eq!(finder.count_windows_for_app(77), 1);
}

#[test]
fn snapshot_pipeline_filters_and_dedups() {
    let finder = ApplicationFinder::new();
    let processes = vec![
        ("firefox".to_string(), 100),
        ("systemd".to_string(), 1),
        ("".to_string(), 3),
        ("firefox".to_string(), 101),
        ("code".to_string(), 200),
    ];
    let apps = finder.get_all_running_applications_internal(&processes);
    assert_eq!(apps.len(), 2);
    assert_eq!(apps[0].name, "Firefox");
    assert_eq!(apps[0].pid, 100);
    assert!(apps[0].bundle_id.is_none());
    assert!(apps[0].is_active);
    assert_eq!(apps[1].name, "Code");
    assert_eq!(apps[1].pid, 200);
}
