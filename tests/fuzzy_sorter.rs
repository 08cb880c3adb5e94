use fuzzy_matcher::skim::SkimMatcherV2;
use fuzzy_matcher::FuzzyMatcher;
use kasuri::application::Application;
use kasuri::fuzzy_sorter::{rank_scored, FuzzySorter, MINIMUM_MATCH_SCORE, SEARCH_RESULT_LIMIT};
use kasuri::recency::UsageRecency;

fn app(name: &str, usage_count: u64) -> Application {
    let mut a = Application::new(name.to_string(), "".to_string(), "".to_string());
    a.usage_recency_score = UsageRecency { usage_count, days_since_last_used: 0 };
    a
}

fn recency(a: &Application) -> f64 {
    a.usage_recency_score.usage_count as f64 / (a.usage_recency_score.days_since_last_used as f64 + 1.0)
}

fn plain(name: &str) -> Application {
    Application::new(name.to_string(), "".to_string(), "".to_string())
}

fn names(apps: &[Application]) -> Vec<String> {
    apps.iter().map(|a| a.name.clone()).collect()
}

#[test]
fn test_fuzzy_sort() {
    let app1 = app("Firefox", 10);
    let app2 = app("Chrome", 30);
    let app3 = app("Visual Studio Code", 20);
    let app4 = app("File Explorer", 40);
    let app5 = app("Notepad", 50);
    let applications = vec![app1, app2, app3, app4, app5];
    let sorter = FuzzySorter::new();
    let matcher = SkimMatcherV2::default();
    let query = "e";

    let results = sorter.sort_with_filter(query, applications);
    assert!(results.len() <= 5);
    assert!(results
        .iter()
        .all(|app| app.name.contains('e') || app.name.contains('E')));
    for i in 1..results.len() {
        let prev = &results[i - 1];
        let curr = &results[i];
        let prev_score = matcher.fuzzy_match(&prev.name, query).unwrap_or(0);
        let curr_score = matcher.fuzzy_match(&curr.name, query).unwrap_or(0);
        if prev_score == curr_score {
            assert!(recency(prev) >= recency(curr));
        } else {
            assert!(prev_score >= curr_score);
        }
    }
}

#[test]
fn test_fuzzy_sort_empty_query() {
    let applications = vec![
        plain("Firefox"),
        plain("Chrome"),
        plain("Visual Studio Code"),
        plain("File Explorer"),
        plain("Notepad"),
    ];
    let sorter = FuzzySorter::new();
    let query = "";

    let results = sorter.sort_with_filter(query, applications);
    assert_eq!(results.len(), 0);
}

#[test]
fn test_fuzzy_sort_no_match() {
    let applications = vec![
        plain("Firefox"),
        plain("Chrome"),
        plain("Visual Studio Code"),
        plain("File Explorer"),
        plain("Notepad"),
    ];
    let sorter = FuzzySorter::new();
    let query = "z";

    let results = sorter.sort_with_filter(query, applications);
    assert_eq!(results.len(), 0);
}

#[test]
fn matching_names_are_kept_in_score_order() {
    let matcher = SkimMatcherV2::default();
    let applications = vec![plain("Notepad"), plain("Visual Studio Code"), plain("Calculator")];
    let sorter = FuzzySorter::new();
    let results = sorter.sort_with_filter("code", applications);
    let expected: Vec<String> = {
        let mut scored: Vec<(String, i64)> = ["Notepad", "Visual Studio Code", "Calculator"]
            .iter()
            .map(|n| (n.to_string(), matcher.fuzzy_match(n, "code").unwrap_or(0)))
            .filter(|(_, s)| *s > MINIMUM_MATCH_SCORE)
            .collect();
        scored.sort_by(|a, b| b.1.cmp(&a.1));
        scored.into_iter().map(|(n, _)| n).collect()
    };
    assert!(!expected.is_empty());
    assert_eq!(names(&results), expected);
}

#[test]
fn equal_scores_rank_higher_recency_first() {
    let applications = vec![app("Firefox", 10), app("File Explorer", 40)];
    let scores = vec![Some(30), Some(30)];
    let results = rank_scored(&applications, &scores, 10);
    assert_eq!(names(&results), vec!["File Explorer", "Firefox"]);
}

#[test]
fn higher_score_wins_over_recency() {
    let applications = vec![app("File Explorer", 40), app("Firefox", 10)];
    let scores = vec![Some(25), Some(30)];
    let results = rank_scored(&applications, &scores, 10);
    assert_eq!(names(&results), vec!["Firefox", "File Explorer"]);
}

#[test]
fn full_ties_keep_input_order() {
    let applications = vec![app("B", 5), app("A", 5), app("C", 5)];
    let scores = vec![Some(40), Some(40), Some(40)];
    let results = rank_scored(&applications, &scores, 10);
    assert_eq!(names(&results), vec!["B", "A", "C"]);
}

#[test]
fn recency_compares_as_fractions() {
    // 10 / 3 is above 3 / 1; integer division would make the two equal.
    let mut a = app("A", 10);
    a.usage_recency_score.days_since_last_used = 2;
    let b = app("B", 3);
    let scores = vec![Some(50), Some(50)];
    let results = rank_scored(&vec![b, a], &scores, 10);
    assert_eq!(names(&results), vec!["A", "B"]);
}

#[test]
fn score_at_floor_is_excluded_and_one_above_included() {
    let applications = vec![app("At", 0), app("Above", 0), app("None", 0)];
    let scores = vec![Some(MINIMUM_MATCH_SCORE), Some(MINIMUM_MATCH_SCORE + 1), None];
    let results = rank_scored(&applications, &scores, 10);
    assert_eq!(names(&results), vec!["Above"]);
}

#[test]
fn result_count_is_capped_at_the_limit() {
    let applications: Vec<Application> = (0..100).map(|i| app(&format!("a{}", i), 0)).collect();
    let scores: Vec<Option<i64>> = (0..100).map(|i| Some(20 + i as i64)).collect();
    let results = rank_scored(&applications, &scores, SEARCH_RESULT_LIMIT);
    assert_eq!(SEARCH_RESULT_LIMIT, 6);
    assert_eq!(names(&results), vec!["a99", "a98", "a97", "a96", "a95", "a94"]);
}

#[test]
fn ranking_is_reproducible() {
    let make = || vec![app("x", 3), app("y", 3), app("z", 9), app("w", 1)];
    let scores = vec![Some(30), Some(30), Some(25), Some(40)];
    let first = rank_scored(&make(), &scores, 6);
    let second = rank_scored(&make(), &scores, 6);
    assert_eq!(names(&first), names(&second));
    assert_eq!(names(&first), vec!["w", "x", "y", "z"]);
}

#[test]
fn empty_query_finds_nothing_in_a_large_set() {
    let applications: Vec<Application> = (0..50).map(|i| plain(&format!("app {}", i))).collect();
    let sorter = FuzzySorter::new();
    assert_eq!(sorter.search("", &applications, 6).len(), 0);
}
