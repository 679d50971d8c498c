//! Panels: ranked lists of labelled shares, cut to a maximum length.

use vstd::prelude::*;
use crate::ranking::{
    int_positions, int_values, is_ranking, lemma_ranking_is_ranking, rank, ranking, ranks_before,
};
use crate::share::{
    lemma_share_is_close, push_tenths, share, share_of, tenths, tenths_of, tenths_text,
    FULL_SHARE,
};
use crate::text::{decimal, push_decimal};

verus! {

/// What the number in brackets at the end of a label is.
#[derive(Debug, Clone, Copy, PartialEq, Eq, Structural)]
pub enum ValueUnit {
    /// The metric counts bytes, and the label gives kilobytes.
    Kilobytes,
    /// The metric is a count, and the label gives it as it is.
    Count,
}

/// Something to be ranked: its name, the metric it is ranked by and the
/// colour of its bar.
#[derive(Debug, Clone)]
pub struct PanelSource {
    pub name: String,
    pub metric: i64,
    pub color: String,
}

/// A panel source, as plain values.
pub struct SourceView {
    pub name: Seq<char>,
    pub metric: int,
    pub color: Seq<char>,
}

impl View for PanelSource {
    type V = SourceView;

    open spec fn view(&self) -> SourceView {
        SourceView { name: self.name@, metric: self.metric as int, color: self.color@ }
    }
}

/// The sources in a list, as plain values.
pub open spec fn sources_view(sources: Seq<PanelSource>) -> Seq<SourceView> {
    Seq::new(sources.len(), |i: int| sources[i]@)
}

/// One bar of a panel: its label, its share of the total in billionths of a
/// percent, and its colour.
#[derive(Debug, Clone)]
pub struct PanelItem {
    pub label: String,
    pub share: u64,
    pub color: String,
}

/// A panel item, as plain values.
pub struct ItemView {
    pub label: Seq<char>,
    pub share: int,
    pub color: Seq<char>,
}

impl View for PanelItem {
    type V = ItemView;

    open spec fn view(&self) -> ItemView {
        ItemView { label: self.label@, share: self.share as int, color: self.color@ }
    }
}

/// The items in a list, as plain values.
pub open spec fn items_view(items: Seq<PanelItem>) -> Seq<ItemView> {
    Seq::new(items.len(), |i: int| items[i]@)
}

/// A titled list of bars, largest first.
#[derive(Debug, Clone)]
pub struct ChartPanel {
    pub title: String,
    pub items: Vec<PanelItem>,
}

/// The number in brackets at the end of a label.
pub open spec fn secondary_text(metric: int, unit: ValueUnit) -> Seq<char> {
    match unit {
        ValueUnit::Kilobytes => decimal((metric / 1000) as nat) + "KB"@,
        ValueUnit::Count => decimal(metric as nat),
    }
}

/// The label of an item: its name, its percentage of the total to one
/// decimal place, and its raw value, as in `"Rust: 83.3% (1KB)"`.
pub open spec fn label_text(
    name: Seq<char>,
    metric: int,
    total: int,
    unit: ValueUnit,
) -> Seq<char> {
    name + ": "@ + tenths_text(tenths_of(metric, total) as nat) + "% ("@
        + secondary_text(metric, unit) + ")"@
}

/// The panel item of a source.
pub open spec fn panel_item(source: SourceView, unit: ValueUnit, total: int) -> ItemView {
    ItemView {
        label: label_text(source.name, source.metric, total, unit),
        share: share_of(source.metric, total),
        color: source.color,
    }
}

/// The metrics of a list of sources.
pub open spec fn source_metrics(sources: Seq<SourceView>) -> Seq<int> {
    Seq::new(sources.len(), |i: int| sources[i].metric)
}

/// How many items a panel of `population` sources has.
pub open spec fn panel_length(population: nat, max_count: nat) -> nat {
    if max_count <= population {
        max_count
    } else {
        population
    }
}

/// The items of a panel: the sources in ranking order, as many as the
/// maximum allows, each with its share of `total`.
pub open spec fn panel_items(
    sources: Seq<SourceView>,
    unit: ValueUnit,
    total: int,
    max_count: nat,
) -> Seq<ItemView> {
    Seq::new(
        panel_length(sources.len(), max_count),
        |k: int| panel_item(sources[ranking(source_metrics(sources))[k]], unit, total),
    )
}

/// Whether every metric lies between nothing and the total.
pub open spec fn metrics_within(sources: Seq<SourceView>, total: int) -> bool {
    forall|i: int| 0 <= i < sources.len() ==> 0 <= (#[trigger] sources[i]).metric <= total
}

/// A panel has as many items as there are sources, or as the maximum
/// allows if there are more.
pub proof fn lemma_panel_length(
    sources: Seq<SourceView>,
    unit: ValueUnit,
    total: int,
    max_count: nat,
)
    ensures
        panel_items(sources, unit, total, max_count).len() == panel_length(
            sources.len(),
            max_count,
        ),
        panel_length(sources.len(), max_count) <= max_count,
        panel_length(sources.len(), max_count) <= sources.len(),
{
}

/// Cutting a panel short takes items away at its end and changes none: a
/// panel of at most `max_count` items is the beginning of the panel of
/// all sources.
pub proof fn lemma_panel_is_cut(
    sources: Seq<SourceView>,
    unit: ValueUnit,
    total: int,
    max_count: nat,
)
    ensures
        panel_items(sources, unit, total, max_count) == panel_items(
            sources,
            unit,
            total,
            sources.len(),
        ).take(panel_length(sources.len(), max_count) as int),
{
    assert(panel_items(sources, unit, total, max_count) =~= panel_items(
        sources,
        unit,
        total,
        sources.len(),
    ).take(panel_length(sources.len(), max_count) as int));
}

/// Each item of a panel stands for one source, and its share is less than a
/// billionth of a percent below the true percentage of that source in the
/// total, whatever the length of the panel.
pub proof fn lemma_panel_shares_are_close(
    sources: Seq<SourceView>,
    unit: ValueUnit,
    total: int,
    max_count: nat,
    k: int,
)
    requires
        0 < total,
        metrics_within(sources, total),
        0 <= k < panel_length(sources.len(), max_count),
    ensures
        0 <= ranking(source_metrics(sources))[k] < sources.len(),
        ({
            let item = panel_items(sources, unit, total, max_count)[k];
            let source = sources[ranking(source_metrics(sources))[k]];
            &&& 0 <= item.share <= FULL_SHARE
            &&& item.share * total <= source.metric * FULL_SHARE < (item.share + 1) * total
        }),
{
    let order = ranking(source_metrics(sources));
    lemma_ranking_is_ranking(source_metrics(sources));
    assert(0 <= order[k] < sources.len());
    lemma_share_is_close(sources[order[k]].metric, total);
}

/// Items follow in descending order of their metric, and two sources of
/// equal metric are shown in the order in which they were given.
pub proof fn lemma_panel_order(sources: Seq<SourceView>, max_count: nat, a: int, b: int)
    requires
        0 <= a < b < panel_length(sources.len(), max_count),
    ensures
        ({
            let order = ranking(source_metrics(sources));
            &&& 0 <= order[a] < sources.len()
            &&& 0 <= order[b] < sources.len()
            &&& sources[order[a]].metric >= sources[order[b]].metric
            &&& sources[order[a]].metric == sources[order[b]].metric ==> order[a] < order[b]
        }),
{
    let metrics = source_metrics(sources);
    let order = ranking(metrics);
    lemma_ranking_is_ranking(metrics);
    assert(0 <= order[a] < sources.len());
    assert(0 <= order[b] < sources.len());
    assert(ranks_before(metrics, order[a], order[b]));
}

/// The label of a source.
pub fn make_label(name: &String, metric: i64, total: i64, unit: ValueUnit) -> (label: String)
    requires
        0 <= metric <= total,
        0 < total,
    ensures
        label@ == label_text(name@, metric as int, total as int, unit),
{
    let mut label = name.clone();
    label.append(": ");
    push_tenths(&mut label, tenths(metric, total));
    label.append("% (");
    match unit {
        ValueUnit::Kilobytes => {
            let ghost before = label@;
            push_decimal(&mut label, (metric / 1000) as u128);
            label.append("KB");
            assert(before + decimal((metric / 1000) as nat) + "KB"@ =~= before + (decimal(
                (metric / 1000) as nat,
            ) + "KB"@));
        },
        ValueUnit::Count => {
            push_decimal(&mut label, metric as u128);
        },
    }
    label.append(")");
    label
}

/// Builds a panel: ranks the sources by their metric, largest first and
/// equal ones in input order, keeps the first `max_count` of them, and
/// gives each its label and its share of `total`.
///
/// The total is that of the whole population, so the shares of a panel that
/// was cut short do not add up to the whole.
pub fn build_panel(
    title: &str,
    sources: &Vec<PanelSource>,
    unit: ValueUnit,
    total: i64,
    max_count: usize,
) -> (panel: ChartPanel)
    requires
        sources@.len() > 0 ==> total > 0,
        metrics_within(sources_view(sources@), total as int),
    ensures
        panel.title@ == title@,
        panel.items@.len() == panel_length(sources@.len(), max_count as nat),
        items_view(panel.items@) == panel_items(
            sources_view(sources@),
            unit,
            total as int,
            max_count as nat,
        ),
{
    let ghost given = sources_view(sources@);
    let mut metrics: Vec<i64> = Vec::new();
    let mut i: usize = 0;
    while i < sources.len()
        invariant
            i <= sources.len(),
            metrics@.len() == i,
            forall|k: int| 0 <= k < i ==> metrics@[k] == (#[trigger] sources@[k]).metric,
        decreases sources.len() - i,
    {
        metrics.push(sources[i].metric);
        i += 1;
    }
    assert(int_values(metrics@) =~= source_metrics(given));
    let order = rank(&metrics);
    proof {
        lemma_ranking_is_ranking(source_metrics(given));
    }
    let ghost ranked = ranking(source_metrics(given));
    let length = if max_count <= sources.len() {
        max_count
    } else {
        sources.len()
    };
    let mut items: Vec<PanelItem> = Vec::new();
    let mut k: usize = 0;
    while k < length
        invariant
            k <= length,
            length == panel_length(sources@.len(), max_count as nat),
            given == sources_view(sources@),
            ranked == ranking(source_metrics(given)),
            int_positions(order@) == ranked,
            is_ranking(source_metrics(given), ranked),
            sources@.len() > 0 ==> total > 0,
            metrics_within(given, total as int),
            items@.len() == k,
            forall|m: int|
                0 <= m < k ==> (#[trigger] items@[m])@ == panel_item(
                    given[ranked[m]],
                    unit,
                    total as int,
                ),
        decreases length - k,
    {
        assert(order@[k as int] as int == int_positions(order@)[k as int]);
        assert(0 <= ranked[k as int] < sources@.len());
        let source = &sources[order[k]];
        assert(given[ranked[k as int]] == source@);
        let label = make_label(&source.name, source.metric, total, unit);
        let item = PanelItem {
            label,
            share: share(source.metric, total),
            color: source.color.clone(),
        };
        items.push(item);
        k += 1;
    }
    assert(items_view(items@) =~= panel_items(given, unit, total as int, max_count as nat));
    ChartPanel { title: String::from_str(title), items }
}

} // verus!
