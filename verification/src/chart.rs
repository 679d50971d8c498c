//! The chart document: a header with the star count, one panel of bars for
//! each ranking, and a footer, on a canvas of fixed size.
//!
//! The model functions say which element stands where and with which
//! attributes; the functions next to them build exactly that.

use vstd::prelude::*;
use svg::node::element::Element;
use crate::markup::{model_of, new_element, with_attribute, with_child, with_text, ElementModel};
use crate::panel::{items_view, ChartPanel, ItemView};
use crate::share::{share_string, share_text};
use crate::text::{decimal, decimal_string};

verus! {

/// The style sheet of the chart.
pub const CSS: &'static str = ".chart text {\n    font: 400 9px 'Segoe UI', Ubuntu, Sans-Serif;\n}\n.title {\n    font: 600 11px 'Segoe UI', Ubuntu, Sans-Serif;\n    fill: #2f80ed;\n}\n.star path {\n    fill: #4c71f2;\n}\n.star text {\n    font: 600 14px 'Segoe UI', Ubuntu, \"Helvetica Neue\", Sans-Serif;\n    fill: #434d58;\n}\n.footer > text {\n    font: 200 11px 'Segoe UI', Ubuntu, Sans-Serif;\n    fill: gray;\n}\n.footer > a > text {\n    font: 200 11px 'Segoe UI', Ubuntu, Sans-Serif;\n    fill: gray;\n    text-decoration: underline;\n}";

/// The outline of the star in the header.
pub const STAR_ICON: &'static str = "M8 .25a.75.75 0 0 1 .673.418l1.882 3.815 4.21.612a.75.75 0 0 1 .416 1.279l-3.046 2.97.719 4.192a.751.751 0 0 1-1.088.791L8 12.347l-3.766 1.98a.75.75 0 0 1-1.088-.79l.72-4.194L.818 6.374a.75.75 0 0 1 .416-1.28l4.21-.611L7.327.668A.75.75 0 0 1 8 .25Zm0 2.445L6.615 5.5a.75.75 0 0 1-.564.41l-3.097.45 2.24 2.184a.75.75 0 0 1 .216.664l-.528 3.084 2.769-1.456a.75.75 0 0 1 .698 0l2.77 1.456-.53-3.084a.75.75 0 0 1 .216-.664l2.24-2.183-3.096-.45a.75.75 0 0 1-.564-.41L8 2.694Z";

/// The namespace of SVG.
pub const SVG_NAMESPACE: &'static str = "http://www.w3.org/2000/svg";

/// Where the attribution in the footer leads.
pub const PROJECT_LINK: &'static str = "https://github.com/kengo-k/github-stats-generator";

/// The colour of the track behind each bar.
pub const TRACK_COLOR: &'static str = "#ddd";

/// The fill of the bars of the lifetime commits.
pub const LIFETIME_FILL: &'static str = "url(#blue-grad)";

/// The fill of the bars of the recent commits.
pub const RECENT_FILL: &'static str = "url(#green-grad)";

/// The vertical distance from one bar of a panel to the next.
pub const BAR_STEP: u64 = 40;

/// The horizontal distance from one panel to the next.
pub const PANEL_STEP: u64 = 220;

/// The left edge of the first panel.
pub const PANEL_LEFT: u64 = 20;

/// The top edge of the panels.
pub const PANEL_TOP: u64 = 30;

/// An `svg` element in the SVG namespace, without further attributes.
pub open spec fn svg_model() -> ElementModel {
    ElementModel::new("svg"@).with_attribute("xmlns"@, SVG_NAMESPACE@)
}

/// A `text` element at a position, with one line of text.
pub open spec fn text_model(x: Seq<char>, y: Seq<char>, content: Seq<char>) -> ElementModel {
    ElementModel::new("text"@)
        .with_attribute("x"@, x)
        .with_attribute("y"@, y)
        .with_text(content)
}

/// One layer of a bar: a rounded rectangle of the given width.
pub open spec fn bar_layer_model(
    x: Seq<char>,
    width: Seq<char>,
    fill: Seq<char>,
    class: Seq<char>,
) -> ElementModel {
    ElementModel::new("rect"@)
        .with_attribute("x"@, x)
        .with_attribute("y"@, "27.5"@)
        .with_attribute("rx"@, "5"@)
        .with_attribute("ry"@, "5"@)
        .with_attribute("width"@, width)
        .with_attribute("height"@, "8"@)
        .with_attribute("fill"@, fill)
        .with_attribute("class"@, class)
}

/// A labelled bar: the label, a track over the whole width, and over it
/// the bar itself, as wide as its share of the whole.
pub open spec fn bar_chart_model(label: Seq<char>, share: nat, color: Seq<char>) -> ElementModel {
    svg_model()
        .with_attribute("width"@, "200"@)
        .with_child(text_model("0"@, "20"@, label))
        .with_child(bar_layer_model("0"@, "200"@, TRACK_COLOR@, "whole"@))
        .with_child(bar_layer_model("0"@, share_text(share), color, "ratio"@))
}

/// The title of a panel.
pub open spec fn chart_title_model(title: Seq<char>, x: nat, y: nat) -> ElementModel {
    ElementModel::new("text"@)
        .with_attribute("x"@, decimal(x))
        .with_attribute("y"@, decimal(y))
        .with_attribute("class"@, "title"@)
        .with_text(title)
}

/// One stop of a gradient.
pub open spec fn stop_model(offset: Seq<char>, color: Seq<char>) -> ElementModel {
    ElementModel::new("stop"@)
        .with_attribute("offset"@, offset)
        .with_attribute("style"@, "stop-color: "@ + color)
}

/// A gradient from the upper left to the lower right corner.
pub open spec fn gradient_model(id: Seq<char>, from: Seq<char>, to: Seq<char>) -> ElementModel {
    ElementModel::new("linearGradient"@)
        .with_attribute("id"@, id)
        .with_attribute("x1"@, "0%"@)
        .with_attribute("y1"@, "0%"@)
        .with_attribute("x2"@, "100%"@)
        .with_attribute("y2"@, "100%"@)
        .with_child(stop_model("0%"@, from))
        .with_child(stop_model("100%"@, to))
}

/// The line of the header that gives the number of stars.
pub open spec fn star_line_model(count: nat) -> ElementModel {
    ElementModel::new("text"@)
        .with_attribute("x"@, "25"@)
        .with_attribute("y"@, "13"@)
        .with_attribute("width"@, "100"@)
        .with_text("Total Stars Earned: "@ + decimal(count))
}

/// The star of the header.
pub open spec fn star_model() -> ElementModel {
    svg_model()
        .with_attribute("viewBox"@, "0 0 16 16"@)
        .with_attribute("width"@, "16"@)
        .with_attribute("height"@, "16"@)
        .with_child(ElementModel::new("path"@).with_attribute("d"@, STAR_ICON@))
}

/// The header: the number of stars, and a star.
pub open spec fn header_model(count: nat, x: nat, y: nat) -> ElementModel {
    svg_model()
        .with_attribute("class"@, "star"@)
        .with_attribute("x"@, decimal(x))
        .with_attribute("y"@, decimal(y))
        .with_child(star_line_model(count))
        .with_child(star_model())
}

/// The link of the footer.
pub open spec fn link_model() -> ElementModel {
    ElementModel::new("a"@)
        .with_attribute("href"@, PROJECT_LINK@)
        .with_child(text_model("80"@, "20"@, "github-stats-generator"@))
}

/// The footer: the attribution, with a link, and the date of rendering.
pub open spec fn footer_model(date: Seq<char>, x: nat, y: nat) -> ElementModel {
    svg_model()
        .with_attribute("class"@, "footer"@)
        .with_attribute("x"@, decimal(x))
        .with_attribute("y"@, decimal(y))
        .with_child(text_model("0"@, "20"@, "Generated by"@))
        .with_child(link_model())
        .with_child(text_model("210"@, "20"@, "at "@ + date))
}

/// The bar of the item at position `index` of a panel: each bar stands
/// `BAR_STEP` below the one before it.
pub open spec fn panel_bar_model(item: ItemView, index: nat) -> ElementModel {
    bar_chart_model(item.label, item.share as nat, item.color)
        .with_attribute("y"@, decimal(index * (BAR_STEP as nat)))
}

/// The frame that holds the bars of a panel.
pub open spec fn bars_frame_model() -> ElementModel {
    svg_model()
        .with_attribute("x"@, "0"@)
        .with_attribute("y"@, "50"@)
        .with_attribute("class"@, "chart"@)
}

/// The bars of the first `count` items of a panel, under one another.
pub open spec fn bars_model(items: Seq<ItemView>, count: nat) -> ElementModel
    decreases count,
{
    if count == 0 {
        bars_frame_model()
    } else {
        bars_model(items, (count - 1) as nat)
            .with_child(panel_bar_model(items[count - 1], (count - 1) as nat))
    }
}

/// A panel at a position: its title, and below it its bars.
pub open spec fn panel_model(
    title: Seq<char>,
    items: Seq<ItemView>,
    x: nat,
    y: nat,
) -> ElementModel {
    svg_model()
        .with_attribute("x"@, decimal(x))
        .with_attribute("y"@, decimal(y))
        .with_child(chart_title_model(title, 0, 30))
        .with_child(bars_model(items, items.len()))
}

/// The definitions of the document: the two gradients of the commit bars.
pub open spec fn definitions_model() -> ElementModel {
    ElementModel::new("defs"@)
        .with_child(gradient_model("green-grad"@, "#66ff66"@, "#009900"@))
        .with_child(gradient_model("blue-grad"@, "#66ccff"@, "#0000ff"@))
}

/// The document before its panels: canvas, style sheet, definitions and
/// header.
pub open spec fn document_head_model(star_count: nat) -> ElementModel {
    svg_model()
        .with_attribute("width"@, "660"@)
        .with_attribute("height"@, "540"@)
        .with_attribute("viewBox"@, "0 0 660 540"@)
        .with_child(ElementModel::new("style"@).with_text(CSS@))
        .with_child(definitions_model())
        .with_child(header_model(star_count, 20, 10))
}

/// The title and the items of a panel, as plain values.
pub struct PanelView {
    pub title: Seq<char>,
    pub items: Seq<ItemView>,
}

impl View for ChartPanel {
    type V = PanelView;

    open spec fn view(&self) -> PanelView {
        PanelView { title: self.title@, items: items_view(self.items@) }
    }
}

/// The panels in a list, as plain values.
pub open spec fn panels_view(panels: Seq<ChartPanel>) -> Seq<PanelView> {
    Seq::new(panels.len(), |i: int| panels[i]@)
}

/// The left edge of the panel at position `index`: each panel stands
/// `PANEL_STEP` to the right of the one before it.
pub open spec fn panel_left(index: nat) -> nat {
    (PANEL_LEFT as nat) + index * (PANEL_STEP as nat)
}

/// The document with its first `count` panels, side by side.
pub open spec fn document_body_model(
    star_count: nat,
    panels: Seq<PanelView>,
    count: nat,
) -> ElementModel
    decreases count,
{
    if count == 0 {
        document_head_model(star_count)
    } else {
        document_body_model(star_count, panels, (count - 1) as nat).with_child(
            panel_model(
                panels[count - 1].title,
                panels[count - 1].items,
                panel_left((count - 1) as nat),
                PANEL_TOP as nat,
            ),
        )
    }
}

/// The whole document: head, panels and footer.
pub open spec fn document_model(
    star_count: nat,
    panels: Seq<PanelView>,
    date: Seq<char>,
) -> ElementModel {
    document_body_model(star_count, panels, panels.len())
        .with_child(footer_model(date, 20, 500))
}

/// A new `svg` element in the SVG namespace.
pub fn new_svg() -> (e: Element)
    ensures
        model_of(e) == svg_model(),
{
    with_attribute(new_element("svg"), "xmlns", SVG_NAMESPACE)
}

/// A `text` element at a position, with one line of text.
pub fn create_text(x: &str, y: &str, content: &str) -> (e: Element)
    ensures
        model_of(e) == text_model(x@, y@, content@),
{
    let e = new_element("text");
    let e = with_attribute(e, "x", x);
    let e = with_attribute(e, "y", y);
    with_text(e, content)
}

/// One layer of a bar.
pub fn create_bar_layer(x: &str, width: &str, fill: &str, class: &str) -> (e: Element)
    ensures
        model_of(e) == bar_layer_model(x@, width@, fill@, class@),
{
    let e = new_element("rect");
    let e = with_attribute(e, "x", x);
    let e = with_attribute(e, "y", "27.5");
    let e = with_attribute(e, "rx", "5");
    let e = with_attribute(e, "ry", "5");
    let e = with_attribute(e, "width", width);
    let e = with_attribute(e, "height", "8");
    let e = with_attribute(e, "fill", fill);
    with_attribute(e, "class", class)
}

/// A labelled bar for a share given in billionths of a percent: a track
/// over the whole width, and over it a bar as wide as the share.
pub fn create_bar_chart(label: &str, share: u64, color: &str) -> (e: Element)
    ensures
        model_of(e) == bar_chart_model(label@, share as nat, color@),
{
    let width = share_string(share);
    let e = with_attribute(new_svg(), "width", "200");
    let e = with_child(e, create_text("0", "20", label));
    let e = with_child(e, create_bar_layer("0", "200", TRACK_COLOR, "whole"));
    with_child(e, create_bar_layer("0", width.as_str(), color, "ratio"))
}

/// The title of a panel.
pub fn create_chart_title(title: &str, x: u32, y: u32) -> (e: Element)
    ensures
        model_of(e) == chart_title_model(title@, x as nat, y as nat),
{
    let x_text = decimal_string(x as u128);
    let y_text = decimal_string(y as u128);
    let e = new_element("text");
    let e = with_attribute(e, "x", x_text.as_str());
    let e = with_attribute(e, "y", y_text.as_str());
    let e = with_attribute(e, "class", "title");
    with_text(e, title)
}

/// One stop of a gradient.
pub fn create_stop(offset: &str, color: &str) -> (e: Element)
    ensures
        model_of(e) == stop_model(offset@, color@),
{
    let mut style = String::from_str("stop-color: ");
    style.append(color);
    let e = new_element("stop");
    let e = with_attribute(e, "offset", offset);
    with_attribute(e, "style", style.as_str())
}

/// A gradient from the upper left to the lower right corner.
pub fn create_gradient(id: &str, from: &str, to: &str) -> (e: Element)
    ensures
        model_of(e) == gradient_model(id@, from@, to@),
{
    let e = new_element("linearGradient");
    let e = with_attribute(e, "id", id);
    let e = with_attribute(e, "x1", "0%");
    let e = with_attribute(e, "y1", "0%");
    let e = with_attribute(e, "x2", "100%");
    let e = with_attribute(e, "y2", "100%");
    let e = with_child(e, create_stop("0%", from));
    with_child(e, create_stop("100%", to))
}

/// The header: the number of stars, and a star.
pub fn create_header_pane(count: u64, x: u32, y: u32) -> (e: Element)
    ensures
        model_of(e) == header_model(count as nat, x as nat, y as nat),
{
    let x_text = decimal_string(x as u128);
    let y_text = decimal_string(y as u128);
    let mut line = String::from_str("Total Stars Earned: ");
    line.append(decimal_string(count as u128).as_str());
    let text = new_element("text");
    let text = with_attribute(text, "x", "25");
    let text = with_attribute(text, "y", "13");
    let text = with_attribute(text, "width", "100");
    let text = with_text(text, line.as_str());
    let path = with_attribute(new_element("path"), "d", STAR_ICON);
    let star = with_attribute(new_svg(), "viewBox", "0 0 16 16");
    let star = with_attribute(star, "width", "16");
    let star = with_attribute(star, "height", "16");
    let star = with_child(star, path);
    let e = with_attribute(new_svg(), "class", "star");
    let e = with_attribute(e, "x", x_text.as_str());
    let e = with_attribute(e, "y", y_text.as_str());
    let e = with_child(e, text);
    with_child(e, star)
}

/// The footer: the attribution, with a link, and the date of rendering.
pub fn create_footer_pane(date: &str, x: u32, y: u32) -> (e: Element)
    ensures
        model_of(e) == footer_model(date@, x as nat, y as nat),
{
    let x_text = decimal_string(x as u128);
    let y_text = decimal_string(y as u128);
    let mut dated = String::from_str("at ");
    dated.append(date);
    let link = with_attribute(new_element("a"), "href", PROJECT_LINK);
    let link = with_child(link, create_text("80", "20", "github-stats-generator"));
    let e = with_attribute(new_svg(), "class", "footer");
    let e = with_attribute(e, "x", x_text.as_str());
    let e = with_attribute(e, "y", y_text.as_str());
    let e = with_child(e, create_text("0", "20", "Generated by"));
    let e = with_child(e, link);
    with_child(e, create_text("210", "20", dated.as_str()))
}

/// A panel at a position: its title, and below it one bar for each item.
pub fn create_panel_chart(panel: &ChartPanel, x: u128, y: u128) -> (e: Element)
    ensures
        model_of(e) == panel_model(panel@.title, panel@.items, x as nat, y as nat),
{
    let ghost items = items_view(panel.items@);
    let bars = with_attribute(new_svg(), "x", "0");
    let bars = with_attribute(bars, "y", "50");
    let mut bars = with_attribute(bars, "class", "chart");
    let mut i: usize = 0;
    while i < panel.items.len()
        invariant
            i <= panel.items.len(),
            items == items_view(panel.items@),
            model_of(bars) == bars_model(items, i as nat),
        decreases panel.items.len() - i,
    {
        let item = &panel.items[i];
        assert(items[i as int] == item@);
        let offset = decimal_string((i as u128) * (BAR_STEP as u128));
        let bar = create_bar_chart(item.label.as_str(), item.share, item.color.as_str());
        let bar = with_attribute(bar, "y", offset.as_str());
        bars = with_child(bars, bar);
        i += 1;
    }
    let x_text = decimal_string(x);
    let y_text = decimal_string(y);
    let e = with_attribute(new_svg(), "x", x_text.as_str());
    let e = with_attribute(e, "y", y_text.as_str());
    let e = with_child(e, create_chart_title(panel.title.as_str(), 0, 30));
    with_child(e, bars)
}

/// Composes the chart document: the canvas with its style sheet and
/// gradients, the header with the star count, the panels side by side in
/// the order given, and the footer with the date.
pub fn compose(star_count: u64, panels: &Vec<ChartPanel>, date: &str) -> (document: Element)
    ensures
        model_of(document) == document_model(star_count as nat, panels_view(panels@), date@),
{
    let ghost shown = panels_view(panels@);
    let style = with_text(new_element("style"), CSS);
    let definitions = new_element("defs");
    let definitions = with_child(definitions, create_gradient("green-grad", "#66ff66", "#009900"));
    let definitions = with_child(definitions, create_gradient("blue-grad", "#66ccff", "#0000ff"));
    let root = with_attribute(new_svg(), "width", "660");
    let root = with_attribute(root, "height", "540");
    let root = with_attribute(root, "viewBox", "0 0 660 540");
    let root = with_child(root, style);
    let root = with_child(root, definitions);
    let mut root = with_child(root, create_header_pane(star_count, 20, 10));
    let mut i: usize = 0;
    while i < panels.len()
        invariant
            i <= panels.len(),
            shown == panels_view(panels@),
            model_of(root) == document_body_model(star_count as nat, shown, i as nat),
        decreases panels.len() - i,
    {
        let panel = &panels[i];
        assert(shown[i as int] == panel@);
        let x: u128 = (PANEL_LEFT as u128) + (i as u128) * (PANEL_STEP as u128);
        let chart = create_panel_chart(panel, x, PANEL_TOP as u128);
        root = with_child(root, chart);
        i += 1;
    }
    with_child(root, create_footer_pane(date, 20, 500))
}

} // verus!
