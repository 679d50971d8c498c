use github_stats_generator::convert::{to_svg_data, SvgData};
use github_stats_generator::generated::query::{
    GithubStatsViewer, GithubStatsViewerRepositories, GithubStatsViewerRepositoriesEdges,
    GithubStatsViewerRepositoriesEdgesNode, GithubStatsViewerRepositoriesEdgesNodeLanguages,
    GithubStatsViewerRepositoriesEdgesNodeLanguagesEdges,
    GithubStatsViewerRepositoriesEdgesNodeLanguagesEdgesNode, ResponseData,
};
use github_stats_generator::publish::{chart_total, create_bar_chart, make_label};
use github_stats_generator::AppError;
use sxd_document::parser;
use sxd_xpath::{Context, Factory};

const NS: &str = "xmlns=\"http://www.w3.org/2000/svg\"";

fn xpath_string(xml: &str, xpath_str: &str) -> String {
    let package = parser::parse(xml).unwrap();
    let document = package.as_document();
    let factory = Factory::new();
    let xpath = factory.build(xpath_str).unwrap().unwrap();
    let mut context = Context::new();
    context.set_namespace("ns", "http://www.w3.org/2000/svg");
    let value = xpath.evaluate(&context, document.root()).unwrap();
    value.string()
}

fn data(name: &str, size: i64, color: &str) -> SvgData {
    SvgData { name: name.to_string(), size, ratio: 0, color: color.to_string() }
}

fn lang(name: &str, color: Option<&str>, size: i64) -> Option<GithubStatsViewerRepositoriesEdgesNodeLanguagesEdges> {
    Some(GithubStatsViewerRepositoriesEdgesNodeLanguagesEdges {
        size,
        node: GithubStatsViewerRepositoriesEdgesNodeLanguagesEdgesNode {
            name: name.to_string(),
            color: color.map(|c| c.to_string()),
        },
    })
}

fn repo(
    name: &str,
    languages: Vec<Option<GithubStatsViewerRepositoriesEdgesNodeLanguagesEdges>>,
) -> Option<GithubStatsViewerRepositoriesEdges> {
    Some(GithubStatsViewerRepositoriesEdges {
        node: Some(GithubStatsViewerRepositoriesEdgesNode {
            name: name.to_string(),
            languages: Some(GithubStatsViewerRepositoriesEdgesNodeLanguages { edges: Some(languages) }),
        }),
    })
}

fn answer(edges: Option<Vec<Option<GithubStatsViewerRepositoriesEdges>>>) -> ResponseData {
    ResponseData { viewer: GithubStatsViewer { repositories: GithubStatsViewerRepositories { edges } } }
}

fn summary(converted: &Result<Vec<SvgData>, AppError>) -> Vec<(String, i64, u64, String)> {
    converted
        .as_ref()
        .unwrap()
        .iter()
        .map(|d| (d.name.clone(), d.size, d.ratio, d.color.clone()))
        .collect()
}

fn quad(name: &str, size: i64, color: &str) -> (String, i64, u64, String) {
    (name.to_string(), size, 0, color.to_string())
}

#[test]
fn publish_test_create_bar_chart() {
    let source = create_bar_chart("rust", 9_370_000_000, "red").to_string();
    let tests = [
        ("/ns:svg/ns:text", "rust"),
        ("/ns:svg/ns:text/text()", "rust"),
        ("/ns:svg/ns:rect[@class='whole']/@fill", "#ddd"),
        ("/ns:svg/ns:rect[@class='ratio']/@fill", "red"),
    ];
    for (xpath, expected) in tests {
        let actual = xpath_string(source.as_str(), xpath);
        assert_eq!(actual.trim(), expected);
    }
}

#[test]
fn a_language_bar_is_a_label_a_track_and_a_bar() {
    let expected = [
        format!("<svg width=\"250\" {}>", NS),
        "<text x=\"10\" y=\"20\">rust</text>".to_string(),
        "<rect class=\"whole\" fill=\"#ddd\" height=\"8\" rx=\"5\" ry=\"5\" width=\"205\" x=\"10\" y=\"27.5\"/>".to_string(),
        "<rect class=\"ratio\" fill=\"red\" height=\"8\" rx=\"5\" ry=\"5\" width=\"9.37%\" x=\"10\" y=\"27.5\"/>".to_string(),
        "</svg>".to_string(),
    ]
    .join("\n");
    assert_eq!(create_bar_chart("rust", 9_370_000_000, "red").to_string(), expected);
}

#[test]
fn language_labels_give_one_decimal_place() {
    assert_eq!(make_label(&"Rust".to_string(), 1000, 1200), "Rust: 83.3% (1KB)");
    assert_eq!(make_label(&"Go".to_string(), 200, 1200), "Go: 16.7% (0KB)");
    assert_eq!(make_label(&"Rust".to_string(), 2500, 3000), "Rust: 83.3% (2KB)");
    assert_eq!(make_label(&"C".to_string(), 3000, 3000), "C: 100.0% (3KB)");
    assert_eq!(make_label(&"D".to_string(), 0, 3000), "D: 0.0% (0KB)");
    assert_eq!(make_label(&"E".to_string(), 2999, 3000), "E: 100.0% (2KB)");
    assert_eq!(make_label(&"F".to_string(), 2998, 3000), "F: 99.9% (2KB)");
}

#[test]
fn the_chart_total_is_the_sum_of_the_sizes() {
    assert_eq!(chart_total(&vec![data("a", 1, "x"), data("b", 2, "x")]), Some(3));
    assert_eq!(chart_total(&vec![]), Some(0));
    assert_eq!(chart_total(&vec![data("a", 0, "x")]), None);
    assert_eq!(chart_total(&vec![data("a", 3, "x"), data("b", -1, "x")]), None);
    assert_eq!(chart_total(&vec![data("a", i64::MAX, "x"), data("b", 1, "x")]), None);
    assert_eq!(chart_total(&vec![data("a", i64::MAX, "x")]), Some(i64::MAX));
}

#[test]
fn the_language_chart_lists_every_language() {
    let written = github_stats_generator::publish::write(&vec![
        data("Rust", 2500, "#dea584"),
        data("Go", 500, "#00ADD8"),
    ]);
    let expected = [
        format!("<svg height=\"285\" viewBox=\"0 0 300 285\" width=\"300\" {}>", NS),
        "<style> text {\n    font: 400 11px 'Segoe UI', Ubuntu, Sans-Serif;\n}</style>".to_string(),
        format!("<svg width=\"250\" x=\"10\" {} y=\"0\">", NS),
        "<text x=\"10\" y=\"20\">Rust: 83.3% (2KB)</text>".to_string(),
        "<rect class=\"whole\" fill=\"#ddd\" height=\"8\" rx=\"5\" ry=\"5\" width=\"205\" x=\"10\" y=\"27.5\"/>".to_string(),
        "<rect class=\"ratio\" fill=\"#dea584\" height=\"8\" rx=\"5\" ry=\"5\" width=\"83.333333333%\" x=\"10\" y=\"27.5\"/>".to_string(),
        "</svg>".to_string(),
        format!("<svg width=\"250\" x=\"10\" {} y=\"35\">", NS),
        "<text x=\"10\" y=\"20\">Go: 16.7% (0KB)</text>".to_string(),
        "<rect class=\"whole\" fill=\"#ddd\" height=\"8\" rx=\"5\" ry=\"5\" width=\"205\" x=\"10\" y=\"27.5\"/>".to_string(),
        "<rect class=\"ratio\" fill=\"#00ADD8\" height=\"8\" rx=\"5\" ry=\"5\" width=\"16.666666666%\" x=\"10\" y=\"27.5\"/>".to_string(),
        "</svg>".to_string(),
        "</svg>".to_string(),
    ]
    .join("\n");
    assert_eq!(written, Ok(expected));
}

#[test]
fn the_language_chart_of_nothing_has_its_style_only() {
    let written = github_stats_generator::publish::write(&vec![]);
    let expected = format!(
        "<svg height=\"285\" viewBox=\"0 0 300 285\" width=\"300\" {}>\n<style> text {{\n    font: 400 11px 'Segoe UI', Ubuntu, Sans-Serif;\n}}</style>\n</svg>",
        NS
    );
    assert_eq!(written, Ok(expected));
}

#[test]
fn the_language_chart_needs_bytes_to_divide_by() {
    let written = github_stats_generator::publish::write(&vec![data("a", 0, "x"), data("b", 0, "y")]);
    assert_eq!(written, Err(AppError::SvgOutputError));
    let written = github_stats_generator::publish::write(&vec![data("a", 5, "x"), data("b", -5, "y")]);
    assert_eq!(written, Err(AppError::SvgOutputError));
    let written =
        github_stats_generator::publish::write(&vec![data("a", i64::MAX, "x"), data("b", 1, "y")]);
    assert_eq!(written, Err(AppError::SvgOutputError));
}

#[test]
fn an_answer_is_folded_by_language() {
    let stats = answer(Some(vec![
        repo("a", vec![lang("Rust", Some("#dea584"), 800), lang("Go", Some("#00ADD8"), 200)]),
        repo("b", vec![lang("Rust", Some("#other"), 200)]),
        repo("c", vec![]),
    ]));
    let converted = to_svg_data(&stats);
    assert_eq!(summary(&converted), vec![quad("Rust", 1000, "#dea584"), quad("Go", 200, "#00ADD8")]);
}

#[test]
fn the_skipped_language_is_left_out_even_without_colour() {
    let stats = answer(Some(vec![repo(
        "a",
        vec![lang("HTML", None, 999), lang("Rust", Some("#dea584"), 1), lang("HTML", Some("x"), -5)],
    )]));
    let converted = to_svg_data(&stats);
    assert_eq!(summary(&converted), vec![quad("Rust", 1, "#dea584")]);
}

#[test]
fn an_answer_without_repositories_converts_to_nothing() {
    assert_eq!(summary(&to_svg_data(&answer(Some(vec![])))), vec![]);
}

#[test]
fn a_missing_part_fails_the_conversion() {
    assert!(matches!(to_svg_data(&answer(None)), Err(AppError::ConvertError)));
    assert!(matches!(
        to_svg_data(&answer(Some(vec![repo("a", vec![]), None]))),
        Err(AppError::ConvertError)
    ));
    let no_node = Some(GithubStatsViewerRepositoriesEdges { node: None });
    assert!(matches!(to_svg_data(&answer(Some(vec![no_node]))), Err(AppError::ConvertError)));
    let no_languages = Some(GithubStatsViewerRepositoriesEdges {
        node: Some(GithubStatsViewerRepositoriesEdgesNode { name: "a".to_string(), languages: None }),
    });
    assert!(matches!(to_svg_data(&answer(Some(vec![no_languages]))), Err(AppError::ConvertError)));
    let no_edges = Some(GithubStatsViewerRepositoriesEdges {
        node: Some(GithubStatsViewerRepositoriesEdgesNode {
            name: "a".to_string(),
            languages: Some(GithubStatsViewerRepositoriesEdgesNodeLanguages { edges: None }),
        }),
    });
    assert!(matches!(to_svg_data(&answer(Some(vec![no_edges]))), Err(AppError::ConvertError)));
    assert!(matches!(
        to_svg_data(&answer(Some(vec![repo("a", vec![lang("Rust", Some("c"), 1), None])]))),
        Err(AppError::ConvertError)
    ));
}

#[test]
fn a_language_without_colour_gets_the_default_colour() {
    let converted = to_svg_data(&answer(Some(vec![repo("a", vec![lang("Rust", None, 1)])])));
    assert_eq!(summary(&converted), vec![quad("Rust", 1, "red")]);
    let converted = to_svg_data(&answer(Some(vec![
        repo("a", vec![lang("Rust", None, 1), lang("Go", Some("#00ADD8"), 2)]),
        repo("b", vec![lang("Rust", Some("#dea584"), 4), lang("Go", None, 8)]),
    ])));
    assert_eq!(summary(&converted), vec![quad("Rust", 5, "red"), quad("Go", 10, "#00ADD8")]);
}

#[test]
fn no_two_converted_entries_share_a_name() {
    let converted = to_svg_data(&answer(Some(vec![
        repo("a", vec![lang("C", Some("x"), 1), lang("D", Some("y"), 1), lang("C", None, 1)]),
        repo("b", vec![lang("D", Some("z"), 1), lang("E", None, 1), lang("C", Some("w"), 1)]),
    ])))
    .unwrap();
    let names: Vec<&str> = converted.iter().map(|d| d.name.as_str()).collect();
    assert_eq!(names, vec!["C", "D", "E"]);
}

#[test]
fn one_language_that_is_the_whole_fills_its_bar() {
    let written = github_stats_generator::publish::write(&vec![data("Rust", 5, "red")]).unwrap();
    assert!(written.contains("<text x=\"10\" y=\"20\">Rust: 100.0% (0KB)</text>"));
    assert!(written.contains("class=\"ratio\" fill=\"red\" height=\"8\" rx=\"5\" ry=\"5\" width=\"100%\""));
}

#[test]
fn a_size_out_of_range_fails_the_conversion() {
    assert!(matches!(
        to_svg_data(&answer(Some(vec![repo("a", vec![lang("Rust", Some("c"), -1)])]))),
        Err(AppError::ConvertError)
    ));
    assert!(matches!(
        to_svg_data(&answer(Some(vec![repo(
            "a",
            vec![lang("Rust", Some("c"), i64::MAX), lang("Go", Some("c"), 1)]
        )]))),
        Err(AppError::ConvertError)
    ));
    let fits = to_svg_data(&answer(Some(vec![repo(
        "a",
        vec![lang("Rust", Some("c"), i64::MAX - 1), lang("Go", Some("d"), 1)],
    )])));
    assert_eq!(summary(&fits), vec![quad("Rust", i64::MAX - 1, "c"), quad("Go", 1, "d")]);
}
