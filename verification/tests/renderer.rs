use github_stats_generator::activity::CommitWindow;
use github_stats_generator::chart::compose;
use github_stats_generator::config::Config;
use github_stats_generator::graphql::{RepositoryLanguage, RepositoryStat};
use github_stats_generator::names::NameTable;
use github_stats_generator::panel::ChartPanel;
use github_stats_generator::renderer::Renderer;
use github_stats_generator::validate::can_render;
use github_stats_generator::AppError;

fn table(pairs: &[(&str, &str)]) -> NameTable {
    let mut t = NameTable::new();
    for (k, v) in pairs {
        t.insert(k.to_string(), v.to_string());
    }
    t
}

fn config(max: usize, ignored: &[&str]) -> Config {
    Config {
        languages_count: max,
        ignore_repositories: ignored.iter().map(|s| s.to_string()).collect(),
        ignore_languages: vec!["HTML".to_string()],
        language_mapping: table(&[("TypeScript React", "TypeScript")]),
        rename_language: table(&[("TypeScript", "TS")]),
    }
}

fn record(
    name: &str,
    private: bool,
    stars: i64,
    lifetime: i64,
    recent: i64,
    languages: &[(&str, i64)],
) -> RepositoryStat {
    RepositoryStat {
        id: name.to_string(),
        name: name.to_string(),
        is_private: private,
        is_fork: false,
        is_archived: false,
        is_template: false,
        disk_usage: 0,
        stargazer_count: stars,
        pushed_at: 0,
        topics: vec![],
        languages: languages
            .iter()
            .map(|(n, s)| RepositoryLanguage { name: n.to_string(), color: "own".to_string(), size: *s })
            .collect(),
        total_commit_count: lifetime,
        period_commit_count: recent,
    }
}

fn portfolio() -> Vec<RepositoryStat> {
    vec![
        record("alpha", false, 5, 60, 3, &[("Rust", 6000), ("HTML", 90000)]),
        record("beta", true, 2, 500, 50, &[("TypeScript React", 1000), ("Rust", 1000)]),
        record("gamma", false, 1, 30, 0, &[("TypeScript", 2000)]),
        record("delta", false, 100, 9000, 900, &[("Go", 123456)]),
        record("epsilon", false, 0, 10, 1, &[]),
    ]
}

fn colors() -> NameTable {
    table(&[("Rust", "#dea584"), ("TypeScript", "#3178c6"), ("TS", "#000")])
}

fn labels(panel: &ChartPanel) -> Vec<&str> {
    panel.items.iter().map(|i| i.label.as_str()).collect()
}

#[test]
fn the_renderer_holds_what_is_not_ignored() {
    let cfg = config(3, &["delta"]);
    assert!(can_render(&portfolio(), &cfg));
    let renderer = Renderer::new(portfolio(), colors(), cfg);
    let names: Vec<&str> = renderer.stats().iter().map(|r| r.name.as_str()).collect();
    assert_eq!(names, vec!["alpha", "beta", "gamma", "epsilon"]);
    assert_eq!(renderer.star_count(), 8);
    let languages = renderer.language_summary();
    assert_eq!(languages.total_size, 10000);
    let entries: Vec<(&str, &str, i64)> =
        languages.data.iter().map(|e| (e.name.as_str(), e.color.as_str(), e.size)).collect();
    assert_eq!(entries, vec![("Rust", "#dea584", 7000), ("TS", "#3178c6", 3000)]);
    let totals = renderer.repository_summary();
    assert_eq!(totals.total_commit_count, 100);
    assert_eq!(totals.total_active_commit_count, 4);
}

#[test]
fn the_panels_of_a_run() {
    let renderer = Renderer::new(portfolio(), colors(), config(2, &["delta"]));
    let languages = renderer.create_top_langs_chart().unwrap();
    assert_eq!(languages.title, "Top Languages");
    assert_eq!(labels(&languages), vec!["Rust: 70.0% (7KB)", "TS: 30.0% (3KB)"]);
    assert_eq!(languages.items[0].color, "#dea584");
    let lifetime = renderer.create_top_commits_chart().unwrap();
    assert_eq!(lifetime.title, "Top Commits");
    assert_eq!(labels(&lifetime), vec!["alpha: 60.0% (60)", "gamma: 30.0% (30)"]);
    assert_eq!(lifetime.items[0].color, "url(#blue-grad)");
    let recent = renderer.create_top_active_commits_chart().unwrap();
    assert_eq!(recent.title, "Top Active Commits(1week)");
    assert_eq!(labels(&recent), vec!["alpha: 75.0% (3)", "epsilon: 25.0% (1)"]);
    assert_eq!(recent.items[1].color, "url(#green-grad)");
    let same = renderer.create_commits_chart(CommitWindow::Recent).unwrap();
    assert_eq!(labels(&same), labels(&recent));
}

#[test]
fn a_repository_without_recent_commits_is_ranked_last() {
    let renderer = Renderer::new(portfolio(), colors(), config(10, &["delta"]));
    let recent = renderer.create_top_active_commits_chart().unwrap();
    assert_eq!(labels(&recent), vec!["alpha: 75.0% (3)", "epsilon: 25.0% (1)", "gamma: 0.0% (0)"]);
}

#[test]
fn rendering_is_composing_the_three_panels() {
    let renderer = Renderer::new(portfolio(), colors(), config(2, &["delta"]));
    let rendered = renderer.render("2024-03-09").unwrap().to_string();
    let panels = vec![
        renderer.create_top_langs_chart().unwrap(),
        renderer.create_top_commits_chart().unwrap(),
        renderer.create_top_active_commits_chart().unwrap(),
    ];
    assert_eq!(rendered, compose(8, &panels, "2024-03-09").to_string());
    assert!(rendered.contains("Total Stars Earned: 8<"));
    assert!(rendered.contains("<svg x=\"20\" xmlns=\"http://www.w3.org/2000/svg\" y=\"30\">\n<text class=\"title\" x=\"0\" y=\"30\">Top Languages</text>"));
    assert!(rendered.contains("<svg x=\"240\" xmlns=\"http://www.w3.org/2000/svg\" y=\"30\">\n<text class=\"title\" x=\"0\" y=\"30\">Top Commits</text>"));
    assert!(rendered.contains("<svg x=\"460\" xmlns=\"http://www.w3.org/2000/svg\" y=\"30\">\n<text class=\"title\" x=\"0\" y=\"30\">Top Active Commits(1week)</text>"));
    assert!(rendered.contains("<text x=\"0\" y=\"20\">Rust: 70.0% (7KB)</text>"));
    assert!(rendered.contains("fill=\"#dea584\" height=\"8\" rx=\"5\" ry=\"5\" width=\"70%\""));
    assert!(rendered.contains("<text x=\"210\" y=\"20\">at 2024-03-09</text>"));
    assert!(!rendered.contains("delta"));
    assert!(!rendered.contains("beta"));
    assert!(!rendered.contains("HTML"));
}

#[test]
fn rendering_twice_gives_the_same_document() {
    let first = Renderer::new(portfolio(), colors(), config(3, &[])).render("d").unwrap();
    let second = Renderer::new(portfolio(), colors(), config(3, &[])).render("d").unwrap();
    assert_eq!(first.to_string(), second.to_string());
}

#[test]
fn no_records_render_empty_panels() {
    let renderer = Renderer::new(vec![], NameTable::new(), config(5, &[]));
    assert_eq!(renderer.star_count(), 0);
    assert!(renderer.create_top_langs_chart().unwrap().items.is_empty());
    let rendered = renderer.render("d").unwrap().to_string();
    assert!(rendered.contains("Total Stars Earned: 0<"));
    assert!(rendered.contains("<svg class=\"chart\" x=\"0\" xmlns=\"http://www.w3.org/2000/svg\" y=\"50\"/>"));
}

#[test]
fn a_total_of_zero_with_something_to_show_is_refused() {
    let no_bytes = vec![record("a", false, 0, 5, 5, &[("Rust", 0)])];
    let renderer = Renderer::new(no_bytes, NameTable::new(), config(5, &[]));
    assert!(matches!(renderer.create_top_langs_chart(), Err(AppError::SvgOutputError)));
    assert!(renderer.create_top_commits_chart().is_ok());
    assert!(matches!(renderer.render("d"), Err(AppError::SvgOutputError)));

    let no_commits = vec![record("a", false, 0, 0, 0, &[("Rust", 5)])];
    let renderer = Renderer::new(no_commits, NameTable::new(), config(5, &[]));
    assert!(renderer.create_top_langs_chart().is_ok());
    assert!(matches!(renderer.create_top_commits_chart(), Err(AppError::SvgOutputError)));
    assert!(matches!(renderer.create_top_active_commits_chart(), Err(AppError::SvgOutputError)));
    assert!(matches!(renderer.render("d"), Err(AppError::SvgOutputError)));

    let no_recent = vec![record("a", false, 0, 4, 0, &[("Rust", 5)])];
    let renderer = Renderer::new(no_recent, NameTable::new(), config(5, &[]));
    assert!(renderer.create_top_commits_chart().is_ok());
    assert!(matches!(renderer.create_top_active_commits_chart(), Err(AppError::SvgOutputError)));
    assert!(matches!(renderer.render("d"), Err(AppError::SvgOutputError)));
}

#[test]
fn only_private_repositories_leave_the_commit_panels_empty() {
    let private = vec![record("a", true, 3, 4, 1, &[("Rust", 5)])];
    let renderer = Renderer::new(private, NameTable::new(), config(5, &[]));
    assert!(renderer.create_top_commits_chart().unwrap().items.is_empty());
    assert!(renderer.render("d").is_ok());
    assert_eq!(renderer.star_count(), 3);
    assert_eq!(renderer.repository_summary().total_commit_count, 0);
}

#[test]
fn a_maximum_of_zero_leaves_every_panel_empty() {
    let renderer = Renderer::new(portfolio(), colors(), config(0, &[]));
    assert!(renderer.create_top_langs_chart().unwrap().items.is_empty());
    assert!(renderer.create_top_commits_chart().unwrap().items.is_empty());
    assert!(renderer.render("d").is_ok());
}
