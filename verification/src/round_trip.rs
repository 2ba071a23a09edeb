//! A converted report, held against the structural check.
//!
//! The check reads a document as items; a report is written as events. Each
//! event stands for one item: an opening tag for the start of an element
//! with the keys of its attributes, anything else for an item that the check
//! passes over. No element is written as a self-closing tag.

use vstd::prelude::*;
use crate::document::{
    asset_events, asset_head, assets_events, report_events, report_head, AssetView, EventView,
    ReportView,
};
use crate::validator::{
    accepted_iff_all_four, body, broken, document_finding, first_element, has_element,
    has_identified_root, has_key, opens, opens_identified_report, ItemView, Rejection,
};

verus! {

/// The item that an event is read back as.
pub open spec fn as_read(event: EventView) -> ItemView {
    match event {
        EventView::Open { name, attributes } => ItemView::Element {
            name,
            keys: Seq::new(attributes.len(), |i: int| Some(attributes[i].0)),
            empty: false,
        },
        _ => ItemView::Other,
    }
}

pub open spec fn items_of(events: Seq<EventView>) -> Seq<ItemView> {
    Seq::new(events.len(), |i: int| as_read(events[i]))
}

/// The items of a document that was written as `events`, with its end.
pub open spec fn read_back(events: Seq<EventView>) -> Seq<ItemView> {
    items_of(events).push(ItemView::Eof)
}

proof fn lemma_body_of_written(items: Seq<ItemView>)
    requires
        forall|i: int|
            0 <= i < items.len() ==> !((#[trigger] items[i]) is Eof) && !(items[i] is Malformed),
    ensures
        body(items.push(ItemView::Eof)) == items,
        !broken(items.push(ItemView::Eof)),
    decreases items.len(),
{
    let all = items.push(ItemView::Eof);
    if items.len() == 0 {
        assert(all[0] is Eof);
        assert(body(all) =~= items);
    } else {
        assert(all[0] == items[0]);
        assert(all.skip(1) =~= items.skip(1).push(ItemView::Eof));
        lemma_body_of_written(items.skip(1));
        assert(seq![items[0]] + items.skip(1) =~= items);
    }
}

proof fn lemma_asset_head(asset: AssetView)
    ensures
        asset_head(asset).len() == 38,
        opens(as_read(asset_head(asset)[0]), "Asset"@),
        opens(as_read(asset_head(asset)[9]), "FundamentalData"@),
        opens(as_read(asset_head(asset)[37]), "DailyData"@),
{
}

/// The events of a report with at least one asset pass the structural check,
/// and those of a report without an asset are rejected for having none.
pub proof fn converted_report_is_accepted(report: ReportView)
    ensures
        report.assets.len() > 0 ==> document_finding(read_back(report_events(report))) is Ok,
        report.assets.len() == 0 ==> document_finding(read_back(report_events(report))) == Err::<
            (),
            Rejection,
        >(Rejection::NoAssets),
{
    let events = report_events(report);
    let items = items_of(events);
    lemma_body_of_written(items);
    accepted_iff_all_four(read_back(events));
    reveal_with_fuel(has_key, 4);
    assert(events[0] == report_head(report));
    assert(opens_identified_report(items[0]));
    assert(first_element(items) == Some(items[0]));
    assert(has_identified_root(items));
    if report.assets.len() > 0 {
        let last = report.assets.last();
        let before = assets_events(report.assets.drop_last());
        let start: int = 1 + before.len() as int;
        lemma_asset_head(last);
        assert(assets_events(report.assets) == before + asset_events(last));
        assert forall|k: int| 0 <= k < 38 implies events[start + k] == asset_head(last)[k] by {
            assert(asset_events(last)[k] == asset_head(last)[k]);
            assert(assets_events(report.assets)[before.len() + k] == asset_events(last)[k]);
        }
        assert(events[start + 0] == asset_head(last)[0]);
        assert(events[start + 9] == asset_head(last)[9]);
        assert(events[start + 37] == asset_head(last)[37]);
        assert(opens(items[start + 0], "Asset"@));
        assert(opens(items[start + 9], "FundamentalData"@));
        assert(opens(items[start + 37], "DailyData"@));
    } else {
        assert(assets_events(report.assets) =~= Seq::<EventView>::empty());
        assert(events.len() == 2);
        lemma_no_asset(report);
    }
}

proof fn lemma_no_asset(report: ReportView)
    requires
        report.assets.len() == 0,
    ensures
        document_finding(read_back(report_events(report))) == Err::<(), Rejection>(
            Rejection::NoAssets,
        ),
{
    reveal_with_fuel(crate::validator::finding_from, 4);
    reveal_with_fuel(has_key, 4);
    let events = report_events(report);
    assert(assets_events(report.assets) =~= Seq::<EventView>::empty());
    assert(events =~= seq![report_head(report), crate::document::closing("MarketReport"@)]);
    let items = read_back(events);
    assert(items.len() == 3);
    assert(items[0] == as_read(report_head(report)));
    assert(items.skip(1)[0] == ItemView::Other);
    assert(items.skip(1).skip(1)[0] == ItemView::Eof);
    reveal_strlit("MarketReport");
    reveal_strlit("Asset");
    assert("MarketReport"@.len() != "Asset"@.len());
}

} // verus!
