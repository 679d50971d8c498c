//! The language chart: one bar for each language, under one another.

use vstd::prelude::*;
use svg::node::element::Element;
use crate::aggregate::{
    entries_size, lemma_entries_size_grows, lemma_entry_within_total, sizes_not_negative,
};
use crate::chart::{
    bar_layer_model, create_bar_layer, create_text, new_svg, svg_model, text_model, TRACK_COLOR,
};
use crate::convert::{svg_data_view, SvgData};
use crate::markup::{
    model_of, new_element, to_markup, with_attribute, with_child, with_text, ElementModel,
};
use crate::renderer::EntryView;
use crate::share::{
    push_tenths, share, share_of, share_string, share_text, tenths, tenths_of, tenths_text,
};
use crate::text::{decimal, decimal_string, push_decimal};
use crate::AppError;

verus! {

/// The style sheet of the language chart.
pub const CSS: &'static str = " text {\n    font: 400 11px 'Segoe UI', Ubuntu, Sans-Serif;\n}";

/// The vertical distance from one bar to the next.
pub const BAR_STEP: u64 = 35;

/// Whether a chart can be made of these entries: no size is negative, the
/// sizes add up within a signed 64-bit integer, and where there are
/// entries there are bytes to measure them against.
pub open spec fn publishable(data: Seq<EntryView>) -> bool {
    &&& sizes_not_negative(data)
    &&& entries_size(data) <= i64::MAX
    &&& data.len() > 0 ==> entries_size(data) > 0
}

/// The label of a language: its name, its percentage of the total to one
/// decimal place, and its kilobytes, as in `"Rust: 83.3% (1KB)"`.
pub open spec fn label_text(name: Seq<char>, size: int, total: int) -> Seq<char> {
    name + ": "@ + tenths_text(tenths_of(size, total) as nat) + "% ("@ + decimal(
        (size / 1000) as nat,
    ) + "KB)"@
}

/// A labelled bar: the label, a track, and over it the bar itself, as wide
/// as its share of the whole.
pub open spec fn bar_chart_model(label: Seq<char>, share: nat, color: Seq<char>) -> ElementModel {
    svg_model()
        .with_attribute("width"@, "250"@)
        .with_child(text_model("10"@, "20"@, label))
        .with_child(bar_layer_model("10"@, "205"@, TRACK_COLOR@, "whole"@))
        .with_child(bar_layer_model("10"@, share_text(share), color, "ratio"@))
}

/// The bar of the entry at position `index`: each bar stands `BAR_STEP`
/// below the one before it.
pub open spec fn entry_bar_model(entry: EntryView, total: int, index: nat) -> ElementModel {
    bar_chart_model(
        label_text(entry.name, entry.size, total),
        share_of(entry.size, total) as nat,
        entry.color,
    )
        .with_attribute("x"@, "10"@)
        .with_attribute("y"@, decimal(index * (BAR_STEP as nat)))
}

/// The chart with the bars of its first `count` entries.
pub open spec fn chart_body_model(data: Seq<EntryView>, total: int, count: nat) -> ElementModel
    decreases count,
{
    if count == 0 {
        svg_model()
            .with_attribute("width"@, "300"@)
            .with_attribute("height"@, "285"@)
            .with_attribute("viewBox"@, "0 0 300 285"@)
            .with_child(ElementModel::new("style"@).with_text(CSS@))
    } else {
        chart_body_model(data, total, (count - 1) as nat)
            .with_child(entry_bar_model(data[count - 1], total, (count - 1) as nat))
    }
}

/// The chart of all entries, each measured against the bytes of all.
pub open spec fn chart_model(data: Seq<EntryView>) -> ElementModel {
    chart_body_model(data, entries_size(data), data.len())
}

/// A labelled bar for a share given in billionths of a percent.
pub fn create_bar_chart(label: &str, share: u64, color: &str) -> (e: Element)
    ensures
        model_of(e) == bar_chart_model(label@, share as nat, color@),
{
    let width = share_string(share);
    let e = with_attribute(new_svg(), "width", "250");
    let e = with_child(e, create_text("10", "20", label));
    let e = with_child(e, create_bar_layer("10", "205", TRACK_COLOR, "whole"));
    with_child(e, create_bar_layer("10", width.as_str(), color, "ratio"))
}

/// The label of a language.
pub fn make_label(name: &String, size: i64, total: i64) -> (label: String)
    requires
        0 <= size <= total,
        0 < total,
    ensures
        label@ == label_text(name@, size as int, total as int),
{
    let mut label = name.clone();
    label.append(": ");
    push_tenths(&mut label, tenths(size, total));
    label.append("% (");
    push_decimal(&mut label, (size / 1000) as u128);
    label.append("KB)");
    label
}

/// The bytes of all entries, if a chart can be made of them.
pub fn chart_total(data: &Vec<SvgData>) -> (total: Option<i64>)
    ensures
        total is Some <==> publishable(svg_data_view(data@)),
        total is Some ==> total->0 == entries_size(svg_data_view(data@)),
{
    let ghost all = svg_data_view(data@);
    let mut i: usize = 0;
    while i < data.len()
        invariant
            i <= data.len(),
            all == svg_data_view(data@),
            forall|k: int| 0 <= k < i ==> (#[trigger] all[k]).size >= 0,
        decreases data.len() - i,
    {
        if data[i].size < 0 {
            assert(all[i as int].size < 0);
            return None;
        }
        i += 1;
    }
    let mut total: i64 = 0;
    let mut i: usize = 0;
    assert(all.take(0) =~= Seq::<EntryView>::empty());
    while i < data.len()
        invariant
            i <= data.len(),
            all == svg_data_view(data@),
            sizes_not_negative(all),
            total == entries_size(all.take(i as int)),
            total >= 0,
        decreases data.len() - i,
    {
        proof {
            assert(all.take(i + 1).drop_last() =~= all.take(i as int));
            assert(all.take(i + 1).last() == all[i as int]);
            assert(all[i as int].size >= 0);
            lemma_entries_size_grows(all, i + 1);
        }
        if data[i].size > i64::MAX - total {
            return None;
        }
        total = total + data[i].size;
        i += 1;
    }
    assert(all.take(i as int) =~= all);
    if data.len() > 0 && total == 0 {
        return None;
    }
    Some(total)
}

/// Draws the chart of the entries, in the order given: for each a bar with
/// its share of the bytes of all. Fails if a size is negative, if the
/// sizes add up beyond a signed 64-bit integer, or if there are entries
/// and no bytes.
pub fn write(data: &Vec<SvgData>) -> (written: Result<String, AppError>)
    ensures
        match written {
            Ok(text) => publishable(svg_data_view(data@)) && text@ == chart_model(
                svg_data_view(data@),
            ).markup(),
            Err(error) => !publishable(svg_data_view(data@)) && error == AppError::SvgOutputError,
        },
{
    let ghost all = svg_data_view(data@);
    let total = match chart_total(data) {
        Some(total) => total,
        None => {
            return Err(AppError::SvgOutputError);
        },
    };
    let style = with_text(new_element("style"), CSS);
    let root = with_attribute(new_svg(), "width", "300");
    let root = with_attribute(root, "height", "285");
    let root = with_attribute(root, "viewBox", "0 0 300 285");
    let mut root = with_child(root, style);
    let mut i: usize = 0;
    while i < data.len()
        invariant
            i <= data.len(),
            all == svg_data_view(data@),
            sizes_not_negative(all),
            total == entries_size(all),
            data@.len() > 0 ==> total > 0,
            model_of(root) == chart_body_model(all, total as int, i as nat),
        decreases data.len() - i,
    {
        let entry = &data[i];
        proof {
            assert(all[i as int] == entry@);
            lemma_entry_within_total(all, i as int);
        }
        let label = make_label(&entry.name, entry.size, total);
        let bar = create_bar_chart(label.as_str(), share(entry.size, total), entry.color.as_str());
        let offset = decimal_string((i as u128) * (BAR_STEP as u128));
        let bar = with_attribute(with_attribute(bar, "x", "10"), "y", offset.as_str());
        root = with_child(root, bar);
        i += 1;
    }
    Ok(to_markup(&root))
}

} // verus!
