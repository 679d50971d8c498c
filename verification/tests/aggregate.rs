use github_stats_generator::activity::{aggregate_activity, collect_activity, CommitWindow};
use github_stats_generator::aggregate::{
    aggregate_languages, merge_language, resolve_color, retain_records,
};
use github_stats_generator::config::Config;
use github_stats_generator::graphql::{RepositoryLanguage, RepositoryStat, DEFAULT_COLOR};
use github_stats_generator::names::NameTable;
use github_stats_generator::renderer::{LanguageSummary, LanguageSummaryValue, RepositorySummary};
use github_stats_generator::validate::{can_render, records_fit, records_not_negative};

fn table(pairs: &[(&str, &str)]) -> NameTable {
    let mut t = NameTable::new();
    for (k, v) in pairs {
        t.insert(k.to_string(), v.to_string());
    }
    t
}

fn plain_config() -> Config {
    Config {
        languages_count: 10,
        ignore_repositories: vec![],
        ignore_languages: vec![],
        language_mapping: NameTable::new(),
        rename_language: NameTable::new(),
    }
}

fn language(name: &str, size: i64) -> RepositoryLanguage {
    RepositoryLanguage { name: name.to_string(), color: "own".to_string(), size }
}

fn record(name: &str, private: bool, languages: Vec<RepositoryLanguage>) -> RepositoryStat {
    RepositoryStat {
        id: format!("id-{}", name),
        name: name.to_string(),
        is_private: private,
        is_fork: false,
        is_archived: false,
        is_template: false,
        disk_usage: 1,
        stargazer_count: 0,
        pushed_at: 0,
        topics: vec![],
        languages,
        total_commit_count: 0,
        period_commit_count: 0,
    }
}

fn commits(name: &str, private: bool, lifetime: i64, recent: i64) -> RepositoryStat {
    let mut r = record(name, private, vec![]);
    r.total_commit_count = lifetime;
    r.period_commit_count = recent;
    r
}

fn entries(summary: &LanguageSummary) -> Vec<(String, String, i64)> {
    summary.data.iter().map(|e| (e.name.clone(), e.color.clone(), e.size)).collect()
}

fn triple(name: &str, color: &str, size: i64) -> (String, String, i64) {
    (name.to_string(), color.to_string(), size)
}

#[test]
fn empty_summaries() {
    let l = LanguageSummary::new();
    assert_eq!(l.total_size, 0);
    assert!(l.data.is_empty());
    let r = RepositorySummary::new();
    assert_eq!(r.total_commit_count, 0);
    assert_eq!(r.total_active_commit_count, 0);
}

#[test]
fn no_records_give_an_empty_summary() {
    let summary = aggregate_languages(&vec![], &plain_config(), &NameTable::new());
    assert_eq!(summary.total_size, 0);
    assert!(summary.data.is_empty());
}

#[test]
fn two_repositories_share_a_language() {
    let records = vec![
        record("A", false, vec![language("Rust", 800), language("Go", 200)]),
        record("B", false, vec![language("Rust", 200)]),
    ];
    let summary = aggregate_languages(&records, &plain_config(), &NameTable::new());
    assert_eq!(summary.total_size, 1200);
    assert_eq!(entries(&summary), vec![triple("Rust", "red", 1000), triple("Go", "red", 200)]);
    let rust = summary.data[0].size as f64 / summary.total_size as f64 * 100.0;
    let go = summary.data[1].size as f64 / summary.total_size as f64 * 100.0;
    assert!((rust - 83.33).abs() < 0.01);
    assert!((go - 16.67).abs() < 0.01);
}

#[test]
fn mapped_and_renamed_spellings_merge() {
    let mut config = plain_config();
    config.language_mapping = table(&[("TypeScript React", "TypeScript")]);
    config.rename_language = table(&[("TypeScript", "TS")]);
    let records = vec![
        record("web", false, vec![language("TypeScript React", 300)]),
        record("lib", false, vec![language("TypeScript", 500)]),
    ];
    let colors = table(&[("TypeScript", "#3178c6")]);
    let summary = aggregate_languages(&records, &config, &colors);
    assert_eq!(summary.total_size, 800);
    assert_eq!(entries(&summary), vec![triple("TS", "#3178c6", 800)]);
}

#[test]
fn sizes_add_up_to_the_total() {
    let mut config = plain_config();
    config.ignore_repositories = vec!["skip".to_string()];
    config.ignore_languages = vec!["HTML".to_string()];
    let records = vec![
        record("one", false, vec![language("Rust", 10), language("HTML", 1000), language("C", 5)]),
        record("skip", false, vec![language("Rust", 7777)]),
        record("two", true, vec![language("C", 1), language("Rust", 2), language("Go", 0)]),
    ];
    let summary = aggregate_languages(&records, &config, &NameTable::new());
    assert_eq!(summary.total_size, 18);
    assert_eq!(summary.data.iter().map(|e| e.size).sum::<i64>(), summary.total_size);
    assert_eq!(
        entries(&summary),
        vec![triple("Rust", "red", 12), triple("C", "red", 6), triple("Go", "red", 0)]
    );
}

#[test]
fn an_ignored_repository_contributes_nothing() {
    let mut config = plain_config();
    config.ignore_repositories = vec!["skip".to_string()];
    let mut skipped = record("skip", false, vec![language("Zig", 500), language("Rust", 5)]);
    skipped.total_commit_count = 40;
    skipped.period_commit_count = 4;
    skipped.stargazer_count = 9;
    let mut kept = record("keep", false, vec![language("Rust", 1)]);
    kept.total_commit_count = 3;
    kept.period_commit_count = 2;
    let with = vec![
        record("skip", false, vec![language("C", 1)]),
        skipped,
        kept,
    ];
    let mut kept_only = record("keep", false, vec![language("Rust", 1)]);
    kept_only.total_commit_count = 3;
    kept_only.period_commit_count = 2;
    let without = vec![kept_only];
    let a = aggregate_languages(&with, &config, &NameTable::new());
    let b = aggregate_languages(&without, &config, &NameTable::new());
    assert_eq!(a.total_size, 1);
    assert_eq!(a.total_size, b.total_size);
    assert_eq!(entries(&a), entries(&b));
    let a = aggregate_activity(&with, &config);
    let b = aggregate_activity(&without, &config);
    assert_eq!(a.lifetime_total, 3);
    assert_eq!(a.recent_total, 2);
    assert_eq!(a.lifetime_total, b.lifetime_total);
    assert_eq!(a.recent_total, b.recent_total);
    assert_eq!(a.lifetime.len(), 1);
    assert_eq!(a.recent.len(), 1);
    let kept = retain_records(with, &config);
    assert_eq!(kept.len(), 1);
    assert_eq!(kept[0].name, "keep");
    assert_eq!(kept.iter().map(|r| r.stargazer_count).sum::<i64>(), 0);
}

#[test]
fn aggregating_twice_gives_the_same() {
    let mut config = plain_config();
    config.language_mapping = table(&[("Vue", "JavaScript")]);
    let records = vec![
        record("a", false, vec![language("Vue", 3), language("JavaScript", 4), language("C", 1)]),
        record("b", false, vec![language("C", 9)]),
    ];
    let colors = table(&[("JavaScript", "#f1e05a")]);
    let first = aggregate_languages(&records, &config, &colors);
    let second = aggregate_languages(&records, &config, &colors);
    assert_eq!(first.total_size, second.total_size);
    assert_eq!(entries(&first), entries(&second));
    assert_eq!(entries(&first), vec![triple("JavaScript", "#f1e05a", 7), triple("C", "red", 10)]);
    let first = aggregate_activity(&records, &config);
    let second = aggregate_activity(&records, &config);
    assert_eq!(first.lifetime_total, second.lifetime_total);
    assert_eq!(first.lifetime.len(), second.lifetime.len());
}

#[test]
fn a_language_is_ignored_by_the_name_the_repository_gives() {
    let mut config = plain_config();
    config.ignore_languages = vec!["TypeScript".to_string()];
    config.language_mapping = table(&[("TypeScript React", "TypeScript")]);
    let records = vec![record(
        "web",
        false,
        vec![language("TypeScript React", 30), language("TypeScript", 50)],
    )];
    let summary = aggregate_languages(&records, &config, &NameTable::new());
    assert_eq!(summary.total_size, 30);
    assert_eq!(entries(&summary), vec![triple("TypeScript", "red", 30)]);
}

#[test]
fn a_rename_does_not_decide_what_is_ignored() {
    let mut config = plain_config();
    config.ignore_languages = vec!["TS".to_string()];
    config.rename_language = table(&[("TypeScript", "TS")]);
    let records = vec![record("web", false, vec![language("TypeScript", 50)])];
    let summary = aggregate_languages(&records, &config, &NameTable::new());
    assert_eq!(summary.total_size, 50);
    assert_eq!(entries(&summary), vec![triple("TS", "red", 50)]);
}

#[test]
fn colour_is_looked_up_by_the_canonical_name() {
    let mut config = plain_config();
    config.language_mapping = table(&[("Vue", "JavaScript")]);
    config.rename_language = table(&[("JavaScript", "JS")]);
    let colors = table(&[("Vue", "#41b883"), ("JavaScript", "#f1e05a"), ("JS", "#000000")]);
    assert_eq!(resolve_color(&config, &colors, &"Vue".to_string()), "#f1e05a");
    assert_eq!(resolve_color(&config, &colors, &"JavaScript".to_string()), "#f1e05a");
    assert_eq!(resolve_color(&config, &colors, &"JS".to_string()), "#000000");
    let records = vec![record("web", false, vec![language("Vue", 5)])];
    let summary = aggregate_languages(&records, &config, &colors);
    assert_eq!(entries(&summary), vec![triple("JS", "#f1e05a", 5)]);
}

#[test]
fn an_unknown_language_gets_the_default_colour() {
    let colors = table(&[("Rust", "#dea584")]);
    assert_eq!(DEFAULT_COLOR, "red");
    assert_eq!(resolve_color(&plain_config(), &colors, &"Nim".to_string()), "red");
    assert_eq!(resolve_color(&plain_config(), &colors, &"Rust".to_string()), "#dea584");
    let records = vec![record("a", false, vec![language("Nim", 5), language("Rust", 6)])];
    let summary = aggregate_languages(&records, &plain_config(), &colors);
    assert_eq!(entries(&summary), vec![triple("Nim", "red", 5), triple("Rust", "#dea584", 6)]);
}

#[test]
fn the_first_colour_met_stays() {
    let mut config = plain_config();
    config.rename_language = table(&[("C", "C family"), ("C++", "C family")]);
    let colors = table(&[("C", "#555555"), ("C++", "#f34b7d")]);
    let records = vec![
        record("a", false, vec![language("C++", 1)]),
        record("b", false, vec![language("C", 2), language("C++", 4)]),
    ];
    let summary = aggregate_languages(&records, &config, &colors);
    assert_eq!(entries(&summary), vec![triple("C family", "#f34b7d", 7)]);
}

#[test]
fn private_repositories_count_for_languages() {
    let records = vec![record("p", true, vec![language("Rust", 4)])];
    let summary = aggregate_languages(&records, &plain_config(), &NameTable::new());
    assert_eq!(summary.total_size, 4);
}

#[test]
fn merge_language_grows_or_appends() {
    let mut data: Vec<LanguageSummaryValue> = Vec::new();
    merge_language(&mut data, "A".to_string(), "c1".to_string(), 5);
    merge_language(&mut data, "B".to_string(), "c2".to_string(), 0);
    merge_language(&mut data, "A".to_string(), "c3".to_string(), 7);
    assert_eq!(data.len(), 2);
    assert_eq!((data[0].name.as_str(), data[0].color.as_str(), data[0].size), ("A", "c1", 12));
    assert_eq!((data[1].name.as_str(), data[1].color.as_str(), data[1].size), ("B", "c2", 0));
}

#[test]
fn retain_records_keeps_the_order() {
    let mut config = plain_config();
    config.ignore_repositories = vec!["b".to_string(), "d".to_string()];
    let records = vec![
        record("a", false, vec![]),
        record("b", false, vec![]),
        record("c", true, vec![]),
        record("d", false, vec![]),
        record("b", false, vec![]),
        record("e", false, vec![]),
    ];
    let kept = retain_records(records, &config);
    let names: Vec<&str> = kept.iter().map(|r| r.name.as_str()).collect();
    assert_eq!(names, vec!["a", "c", "e"]);
}

#[test]
fn activity_leaves_out_private_and_ignored_repositories() {
    let mut config = plain_config();
    config.ignore_repositories = vec!["ignored".to_string()];
    let records = vec![
        commits("open", false, 10, 3),
        commits("hidden", true, 100, 30),
        commits("ignored", false, 1000, 300),
        commits("other", false, 5, 0),
    ];
    let summary = aggregate_activity(&records, &config);
    assert_eq!(summary.lifetime_total, 15);
    assert_eq!(summary.recent_total, 3);
    let lifetime: Vec<(&str, i64)> =
        summary.lifetime.iter().map(|e| (e.name.as_str(), e.count)).collect();
    let recent: Vec<(&str, i64)> =
        summary.recent.iter().map(|e| (e.name.as_str(), e.count)).collect();
    assert_eq!(lifetime, vec![("open", 10), ("other", 5)]);
    assert_eq!(recent, vec![("open", 3), ("other", 0)]);
}

#[test]
fn a_repository_without_recent_commits_is_listed() {
    let records = vec![commits("quiet", false, 8, 0)];
    let summary = aggregate_activity(&records, &plain_config());
    assert_eq!(summary.recent.len(), 1);
    assert_eq!(summary.recent[0].name, "quiet");
    assert_eq!(summary.recent[0].count, 0);
    assert_eq!(summary.recent_total, 0);
    assert_eq!(summary.lifetime_total, 8);
}

#[test]
fn activity_of_nothing_is_empty() {
    let summary = aggregate_activity(&vec![], &plain_config());
    assert!(summary.lifetime.is_empty());
    assert!(summary.recent.is_empty());
    assert_eq!(summary.lifetime_total, 0);
    assert_eq!(summary.recent_total, 0);
}

#[test]
fn collect_activity_counts_one_window() {
    let records = vec![commits("a", false, 4, 1), commits("b", false, 6, 2)];
    let (entries, total) = collect_activity(&records, &plain_config(), CommitWindow::Lifetime);
    assert_eq!(total, 10);
    assert_eq!(entries.len(), 2);
    assert_eq!(entries[1].count, 6);
    let (entries, total) = collect_activity(&records, &plain_config(), CommitWindow::Recent);
    assert_eq!(total, 3);
    assert_eq!(entries[0].count, 1);
    let total_of_entries: i64 = entries.iter().map(|e| e.count).sum();
    assert_eq!(total_of_entries, total);
}

#[test]
fn records_with_something_negative_are_refused() {
    let good = vec![record("a", false, vec![language("Rust", 0)])];
    assert!(records_not_negative(&good));
    assert!(can_render(&good, &plain_config()));
    let bad = vec![record("a", false, vec![language("Rust", 1), language("Go", -1)])];
    assert!(!records_not_negative(&bad));
    assert!(!can_render(&bad, &plain_config()));
    assert!(!can_render(&vec![commits("a", false, -1, 0)], &plain_config()));
    assert!(!can_render(&vec![commits("a", false, 0, -1)], &plain_config()));
    let mut starred = record("a", false, vec![]);
    starred.stargazer_count = -3;
    assert!(!can_render(&vec![starred], &plain_config()));
}

#[test]
fn something_negative_is_refused_in_an_ignored_repository_too() {
    let mut config = plain_config();
    config.ignore_repositories = vec!["a".to_string()];
    let bad = vec![record("a", false, vec![language("Go", -1)])];
    assert!(!can_render(&bad, &config));
}

#[test]
fn totals_beyond_the_machine_are_refused() {
    let big = vec![
        record("a", false, vec![language("Rust", i64::MAX)]),
        record("b", false, vec![language("Go", 1)]),
    ];
    assert!(records_not_negative(&big));
    assert!(!records_fit(&big, &plain_config()));
    assert!(!can_render(&big, &plain_config()));
    let fits = vec![
        record("a", false, vec![language("Rust", i64::MAX - 1)]),
        record("b", false, vec![language("Go", 1)]),
    ];
    assert!(can_render(&fits, &plain_config()));
    let many = vec![commits("a", false, i64::MAX, 0), commits("b", false, 1, 0)];
    assert!(!can_render(&many, &plain_config()));
    let recent = vec![commits("a", false, 0, i64::MAX), commits("b", false, 0, 1)];
    assert!(!can_render(&recent, &plain_config()));
    let mut s1 = record("a", false, vec![]);
    s1.stargazer_count = i64::MAX;
    let mut s2 = record("b", true, vec![]);
    s2.stargazer_count = 1;
    assert!(!can_render(&vec![s1, s2], &plain_config()));
}

#[test]
fn what_is_left_out_does_not_count_towards_the_limits() {
    let mut config = plain_config();
    config.ignore_repositories = vec!["b".to_string()];
    config.ignore_languages = vec!["HTML".to_string()];
    let mut b = record("b", false, vec![language("Go", i64::MAX)]);
    b.total_commit_count = i64::MAX;
    b.stargazer_count = i64::MAX;
    let mut c = commits("c", true, i64::MAX, i64::MAX);
    c.languages = vec![language("HTML", i64::MAX)];
    let records = vec![
        record("a", false, vec![language("Rust", 1), language("HTML", i64::MAX)]),
        b,
        c,
        commits("d", false, 1, 1),
    ];
    assert!(can_render(&records, &config));
    let summary = aggregate_languages(&records, &config, &NameTable::new());
    assert_eq!(summary.total_size, 1);
    let activity = aggregate_activity(&records, &config);
    assert_eq!(activity.lifetime_total, 1);
}

#[test]
fn the_share_of_an_entry_needs_a_total() {
    let records = vec![
        record("A", false, vec![language("Rust", 800), language("Go", 200)]),
        record("B", false, vec![language("Rust", 200)]),
    ];
    let summary = aggregate_languages(&records, &plain_config(), &NameTable::new());
    assert_eq!(summary.share(0), Some(83_333_333_333));
    assert_eq!(summary.share(1), Some(16_666_666_666));
    let empty = aggregate_languages(
        &vec![record("A", false, vec![language("Rust", 0)])],
        &plain_config(),
        &NameTable::new(),
    );
    assert_eq!(empty.data.len(), 1);
    assert_eq!(empty.share(0), None);
}

#[test]
fn the_share_of_a_repository_in_a_window() {
    let records = vec![commits("a", false, 6, 0), commits("b", false, 2, 0)];
    let summary = aggregate_activity(&records, &plain_config());
    assert_eq!(summary.share(CommitWindow::Lifetime, 0), Some(75_000_000_000));
    assert_eq!(summary.share(CommitWindow::Lifetime, 1), Some(25_000_000_000));
    assert_eq!(summary.share(CommitWindow::Recent, 0), None);
    assert_eq!(summary.share(CommitWindow::Recent, 1), None);
}
