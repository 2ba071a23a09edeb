//! The market report: one document per chunk, its assets, and its XML text.
//!
//! A report is first laid out as a flat series of XML events and then written
//! as text. Names are fixed by the schema; values are escaped.

use vstd::prelude::*;
use crate::text::{decimal, decimal_text};

verus! {

/// One day of an asset's price series.
#[derive(Debug, PartialEq, Eq)]
pub struct Day {
    pub index: u8,
    pub currency: String,
    pub closing_price: String,
    pub volume: String,
}

/// One asset record.
#[derive(Debug, PartialEq, Eq)]
pub struct Asset {
    pub ticker: String,
    pub name: String,
    pub sector: String,
    pub market_cap: String,
    pub pe_ratio: String,
    pub eps: String,
    pub open_price: String,
    pub prev_close: String,
    pub beta: String,
    pub price_sma: String,
    pub average_volume: String,
    pub days: Vec<Day>,
}

/// The document of one chunk.
#[derive(Debug, PartialEq, Eq)]
pub struct MarketReport {
    pub job_id: String,
    pub chunk_id: u32,
    pub generated_at: String,
    pub assets: Vec<Asset>,
}

pub struct DayView {
    pub index: nat,
    pub currency: Seq<char>,
    pub closing_price: Seq<char>,
    pub volume: Seq<char>,
}

pub struct AssetView {
    pub ticker: Seq<char>,
    pub name: Seq<char>,
    pub sector: Seq<char>,
    pub market_cap: Seq<char>,
    pub pe_ratio: Seq<char>,
    pub eps: Seq<char>,
    pub open_price: Seq<char>,
    pub prev_close: Seq<char>,
    pub beta: Seq<char>,
    pub price_sma: Seq<char>,
    pub average_volume: Seq<char>,
    pub days: Seq<DayView>,
}

pub struct ReportView {
    pub job_id: Seq<char>,
    pub chunk_id: u32,
    pub generated_at: Seq<char>,
    pub assets: Seq<AssetView>,
}

impl AssetView {
    /// The price series is bounded and ordered: at most ten days, numbered
    /// from one to ten, each later than the one before.
    pub open spec fn well_formed(self) -> bool {
        &&& self.days.len() <= 10
        &&& forall|i: int| 0 <= i < self.days.len() ==> 1 <= (#[trigger] self.days[i]).index <= 10
        &&& forall|i: int, j: int|
            0 <= i < j < self.days.len() ==> (#[trigger] self.days[i]).index
                < (#[trigger] self.days[j]).index
    }
}

impl View for Day {
    type V = DayView;

    open spec fn view(&self) -> DayView {
        DayView {
            index: self.index as nat,
            currency: self.currency@,
            closing_price: self.closing_price@,
            volume: self.volume@,
        }
    }
}

pub open spec fn day_views(days: Seq<Day>) -> Seq<DayView> {
    Seq::new(days.len(), |i: int| days[i]@)
}

impl View for Asset {
    type V = AssetView;

    open spec fn view(&self) -> AssetView {
        AssetView {
            ticker: self.ticker@,
            name: self.name@,
            sector: self.sector@,
            market_cap: self.market_cap@,
            pe_ratio: self.pe_ratio@,
            eps: self.eps@,
            open_price: self.open_price@,
            prev_close: self.prev_close@,
            beta: self.beta@,
            price_sma: self.price_sma@,
            average_volume: self.average_volume@,
            days: day_views(self.days@),
        }
    }
}

pub open spec fn asset_views(assets: Seq<Asset>) -> Seq<AssetView> {
    Seq::new(assets.len(), |i: int| assets[i]@)
}

impl View for MarketReport {
    type V = ReportView;

    open spec fn view(&self) -> ReportView {
        ReportView {
            job_id: self.job_id@,
            chunk_id: self.chunk_id,
            generated_at: self.generated_at@,
            assets: asset_views(self.assets@),
        }
    }
}

/// One piece of a document as it is written.
#[derive(Debug, PartialEq, Eq)]
pub enum XmlEvent {
    Open { name: String, attributes: Vec<(String, String)> },
    Close { name: String },
    Text { content: String },
}

pub enum EventView {
    Open { name: Seq<char>, attributes: Seq<(Seq<char>, Seq<char>)> },
    Close { name: Seq<char> },
    Text { content: Seq<char> },
}

pub open spec fn attribute_views(attributes: Seq<(String, String)>) -> Seq<(Seq<char>, Seq<char>)> {
    Seq::new(attributes.len(), |i: int| (attributes[i].0@, attributes[i].1@))
}

impl View for XmlEvent {
    type V = EventView;

    open spec fn view(&self) -> EventView {
        match *self {
            XmlEvent::Open { name, attributes } => EventView::Open {
                name: name@,
                attributes: attribute_views(attributes@),
            },
            XmlEvent::Close { name } => EventView::Close { name: name@ },
            XmlEvent::Text { content } => EventView::Text { content: content@ },
        }
    }
}

pub open spec fn event_views(events: Seq<XmlEvent>) -> Seq<EventView> {
    Seq::new(events.len(), |i: int| events[i]@)
}

pub open spec fn opening(name: Seq<char>) -> EventView {
    EventView::Open { name, attributes: Seq::empty() }
}

pub open spec fn opening_with(name: Seq<char>, key: Seq<char>, value: Seq<char>) -> EventView {
    EventView::Open { name, attributes: seq![(key, value)] }
}

pub open spec fn closing(name: Seq<char>) -> EventView {
    EventView::Close { name }
}

/// An element that holds text only.
pub open spec fn leaf(name: Seq<char>, content: Seq<char>) -> Seq<EventView> {
    seq![opening(name), EventView::Text { content }, closing(name)]
}

pub open spec fn day_events(day: DayView) -> Seq<EventView> {
    seq![
        opening_with("Day"@, "index"@, decimal(day.index)),
        opening_with("ClosingPrice"@, "Currency"@, day.currency),
        EventView::Text { content: day.closing_price },
        closing("ClosingPrice"@),
        opening("Volume"@),
        EventView::Text { content: day.volume },
        closing("Volume"@),
        closing("Day"@),
    ]
}

pub open spec fn days_events(days: Seq<DayView>) -> Seq<EventView>
    decreases days.len(),
{
    if days.len() == 0 {
        Seq::empty()
    } else {
        days_events(days.drop_last()) + day_events(days.last())
    }
}

/// An asset up to the start of its price series.
pub open spec fn asset_head(asset: AssetView) -> Seq<EventView> {
    seq![opening_with("Asset"@, "Ticker"@, asset.ticker), opening("Identification"@)] + leaf(
        "Name"@,
        asset.name,
    ) + leaf("Sector"@, asset.sector) + seq![closing("Identification"@), opening("FundamentalData"@)]
        + leaf("MarketCap"@, asset.market_cap) + leaf("PERatio"@, asset.pe_ratio) + leaf(
        "EPS"@,
        asset.eps,
    ) + leaf("OpenPrice"@, asset.open_price) + leaf("PrevClose"@, asset.prev_close) + leaf(
        "Beta"@,
        asset.beta,
    ) + seq![closing("FundamentalData"@), opening("Indicators"@)] + leaf("PriceSMA"@, asset.price_sma)
        + leaf("AverageVolume"@, asset.average_volume) + seq![
        closing("Indicators"@),
        opening("DailyData"@),
    ]
}

pub open spec fn asset_events(asset: AssetView) -> Seq<EventView> {
    asset_head(asset) + days_events(asset.days) + seq![closing("DailyData"@), closing("Asset"@)]
}

pub open spec fn assets_events(assets: Seq<AssetView>) -> Seq<EventView>
    decreases assets.len(),
{
    if assets.len() == 0 {
        Seq::empty()
    } else {
        assets_events(assets.drop_last()) + asset_events(assets.last())
    }
}

pub open spec fn report_head(report: ReportView) -> EventView {
    EventView::Open {
        name: "MarketReport"@,
        attributes: seq![
            ("JobID"@, report.job_id),
            ("ChunkID"@, decimal(report.chunk_id as nat)),
            ("GeneratedAt"@, report.generated_at),
        ],
    }
}

/// The events of a report, in document order: the report element with its
/// three attributes, and in it one `Asset` element per asset, each with its
/// identification, fundamentals, indicators and daily data.
pub open spec fn report_events(report: ReportView) -> Seq<EventView> {
    seq![report_head(report)] + assets_events(report.assets) + seq![closing("MarketReport"@)]
}

/// A character as it stands in XML text or in an attribute value.
pub open spec fn escaped_char(c: char) -> Seq<char> {
    if c == '<' {
        "&lt;"@
    } else if c == '>' {
        "&gt;"@
    } else if c == '&' {
        "&amp;"@
    } else if c == '\'' {
        "&apos;"@
    } else if c == '"' {
        "&quot;"@
    } else {
        seq![c]
    }
}

/// A text with its five special characters replaced by their entities.
pub open spec fn escaped(text: Seq<char>) -> Seq<char>
    decreases text.len(),
{
    if text.len() == 0 {
        Seq::empty()
    } else {
        escaped(text.drop_last()) + escaped_char(text.last())
    }
}

pub open spec fn attributes_text(attributes: Seq<(Seq<char>, Seq<char>)>) -> Seq<char>
    decreases attributes.len(),
{
    if attributes.len() == 0 {
        Seq::empty()
    } else {
        attributes_text(attributes.drop_last()) + " "@ + attributes.last().0 + "=\""@ + escaped(
            attributes.last().1,
        ) + "\""@
    }
}

pub open spec fn event_text(event: EventView) -> Seq<char> {
    match event {
        EventView::Open { name, attributes } => "<"@ + name + attributes_text(attributes) + ">"@,
        EventView::Close { name } => "</"@ + name + ">"@,
        EventView::Text { content } => escaped(content),
    }
}

/// The text of a series of events, written one behind the other.
pub open spec fn events_text(events: Seq<EventView>) -> Seq<char>
    decreases events.len(),
{
    if events.len() == 0 {
        Seq::empty()
    } else {
        events_text(events.drop_last()) + event_text(events.last())
    }
}

/// Whether a character has an entity of its own.
pub open spec fn is_special(c: char) -> bool {
    c == '<' || c == '>' || c == '&' || c == '\'' || c == '"'
}

proof fn lemma_plain_run(text: Seq<char>, start: int, end: int)
    requires
        0 <= start <= end <= text.len(),
        forall|k: int| start <= k < end ==> !is_special(#[trigger] text[k]),
    ensures
        escaped(text.take(end)) == escaped(text.take(start)) + text.subrange(start, end),
    decreases end - start,
{
    if start < end {
        lemma_plain_run(text, start, end - 1);
        assert(text.take(end).drop_last() == text.take(end - 1));
        assert(text.take(end).last() == text[end - 1]);
        assert(!is_special(text[end - 1]));
        assert(text.subrange(start, end - 1) + seq![text[end - 1]] =~= text.subrange(start, end));
        assert(escaped(text.take(end)) =~= escaped(text.take(start)) + text.subrange(start, end));
    } else {
        assert(text.subrange(start, end) =~= Seq::<char>::empty());
        assert(escaped(text.take(start)) + text.subrange(start, end) =~= escaped(
            text.take(start),
        ));
    }
}

fn entity_of(c: char) -> (entity: Option<&'static str>)
    ensures
        match entity {
            Some(text) => is_special(c) && text@ == escaped_char(c),
            None => !is_special(c),
        },
{
    if c == '<' {
        Some("&lt;")
    } else if c == '>' {
        Some("&gt;")
    } else if c == '&' {
        Some("&amp;")
    } else if c == '\'' {
        Some("&apos;")
    } else if c == '"' {
        Some("&quot;")
    } else {
        None
    }
}

/// Writes a text as it stands in a document: `<`, `>`, `&`, `'` and `"` as
/// their entities, every other character as it is.
pub fn escape_text(text: &str) -> (out: String)
    ensures
        out@ == escaped(text@),
{
    let chars = crate::text::chars_of(text);
    let mut out = String::new();
    let mut start: usize = 0;
    let mut i: usize = 0;
    assert(escaped(text@.take(0)) =~= Seq::<char>::empty());
    while i < chars.len()
        invariant
            start <= i <= chars.len(),
            chars@ == text@,
            out@ == escaped(text@.take(start as int)),
            forall|k: int| start <= k < i ==> !is_special(#[trigger] text@[k]),
        decreases chars.len() - i,
    {
        match entity_of(chars[i]) {
            Some(entity) => {
                proof {
                    lemma_plain_run(text@, start as int, i as int);
                    assert(text@.take(i + 1).drop_last() == text@.take(i as int));
                    assert(text@.take(i + 1).last() == text@[i as int]);
                }
                out.append(text.substring_char(start, i));
                out.append(entity);
                start = i + 1;
            },
            None => {},
        }
        i = i + 1;
    }
    proof {
        lemma_plain_run(text@, start as int, i as int);
        assert(text@.take(i as int) == text@);
    }
    out.append(text.substring_char(start, i));
    out
}

fn push_open(events: &mut Vec<XmlEvent>, name: &str)
    ensures
        event_views(final(events)@) == event_views(old(events)@).push(opening(name@)),
{
    events.push(XmlEvent::Open { name: String::from_str(name), attributes: Vec::new() });
    assert(attribute_views(Seq::<(String, String)>::empty()) == Seq::<
        (Seq<char>, Seq<char>),
    >::empty());
    assert(event_views(events@) == event_views(old(events)@).push(opening(name@)));
}

fn push_open_with(events: &mut Vec<XmlEvent>, name: &str, key: &str, value: &str)
    ensures
        event_views(final(events)@) == event_views(old(events)@).push(
            opening_with(name@, key@, value@),
        ),
{
    let mut attributes: Vec<(String, String)> = Vec::new();
    attributes.push((String::from_str(key), String::from_str(value)));
    assert(attribute_views(attributes@) == seq![(key@, value@)]);
    events.push(XmlEvent::Open { name: String::from_str(name), attributes });
    assert(event_views(events@) == event_views(old(events)@).push(
        opening_with(name@, key@, value@),
    ));
}

fn push_close(events: &mut Vec<XmlEvent>, name: &str)
    ensures
        event_views(final(events)@) == event_views(old(events)@).push(closing(name@)),
{
    events.push(XmlEvent::Close { name: String::from_str(name) });
    assert(event_views(events@) == event_views(old(events)@).push(closing(name@)));
}

fn push_text(events: &mut Vec<XmlEvent>, content: &str)
    ensures
        event_views(final(events)@) == event_views(old(events)@).push(
            EventView::Text { content: content@ },
        ),
{
    events.push(XmlEvent::Text { content: String::from_str(content) });
    assert(event_views(events@) == event_views(old(events)@).push(
        EventView::Text { content: content@ },
    ));
}

fn push_leaf(events: &mut Vec<XmlEvent>, name: &str, content: &str)
    ensures
        event_views(final(events)@) == event_views(old(events)@) + leaf(name@, content@),
{
    push_open(events, name);
    push_text(events, content);
    push_close(events, name);
    assert(event_views(events@) == event_views(old(events)@) + leaf(name@, content@));
}

fn push_day(events: &mut Vec<XmlEvent>, day: &Day)
    ensures
        event_views(final(events)@) == event_views(old(events)@) + day_events(day@),
{
    let index = decimal_text(day.index as u64);
    push_open_with(events, "Day", "index", index.as_str());
    push_open_with(events, "ClosingPrice", "Currency", day.currency.as_str());
    push_text(events, day.closing_price.as_str());
    push_close(events, "ClosingPrice");
    push_open(events, "Volume");
    push_text(events, day.volume.as_str());
    push_close(events, "Volume");
    push_close(events, "Day");
    assert(event_views(events@) == event_views(old(events)@) + day_events(day@));
}

fn push_asset(events: &mut Vec<XmlEvent>, asset: &Asset)
    ensures
        event_views(final(events)@) == event_views(old(events)@) + asset_events(asset@),
{
    push_open_with(events, "Asset", "Ticker", asset.ticker.as_str());
    push_open(events, "Identification");
    push_leaf(events, "Name", asset.name.as_str());
    push_leaf(events, "Sector", asset.sector.as_str());
    push_close(events, "Identification");
    push_open(events, "FundamentalData");
    push_leaf(events, "MarketCap", asset.market_cap.as_str());
    push_leaf(events, "PERatio", asset.pe_ratio.as_str());
    push_leaf(events, "EPS", asset.eps.as_str());
    push_leaf(events, "OpenPrice", asset.open_price.as_str());
    push_leaf(events, "PrevClose", asset.prev_close.as_str());
    push_leaf(events, "Beta", asset.beta.as_str());
    push_close(events, "FundamentalData");
    push_open(events, "Indicators");
    push_leaf(events, "PriceSMA", asset.price_sma.as_str());
    push_leaf(events, "AverageVolume", asset.average_volume.as_str());
    push_close(events, "Indicators");
    push_open(events, "DailyData");
    assert(event_views(events@) == event_views(old(events)@) + asset_head(asset@));
    let ghost before = event_views(events@);
    let mut i: usize = 0;
    while i < asset.days.len()
        invariant
            i <= asset.days.len(),
            event_views(events@) == before + days_events(day_views(asset.days@).take(i as int)),
        decreases asset.days.len() - i,
    {
        assert(day_views(asset.days@).take(i + 1).drop_last() == day_views(asset.days@).take(
            i as int,
        ));
        push_day(events, &asset.days[i]);
        i = i + 1;
    }
    assert(day_views(asset.days@).take(i as int) == day_views(asset.days@));
    push_close(events, "DailyData");
    push_close(events, "Asset");
    assert(event_views(events@) == event_views(old(events)@) + asset_events(asset@));
}

impl MarketReport {
    /// The report as a series of XML events.
    pub fn events(&self) -> (events: Vec<XmlEvent>)
        ensures
            event_views(events@) == report_events(self@),
    {
        let mut events: Vec<XmlEvent> = Vec::new();
        let mut attributes: Vec<(String, String)> = Vec::new();
        attributes.push((String::from_str("JobID"), self.job_id.clone()));
        attributes.push((String::from_str("ChunkID"), decimal_text(self.chunk_id as u64)));
        attributes.push((String::from_str("GeneratedAt"), self.generated_at.clone()));
        assert(attribute_views(attributes@) == report_head(self@)->attributes);
        events.push(XmlEvent::Open { name: String::from_str("MarketReport"), attributes });
        assert(event_views(events@) == seq![report_head(self@)]);
        let mut i: usize = 0;
        while i < self.assets.len()
            invariant
                i <= self.assets.len(),
                event_views(events@) == seq![report_head(self@)] + assets_events(
                    asset_views(self.assets@).take(i as int),
                ),
            decreases self.assets.len() - i,
        {
            assert(asset_views(self.assets@).take(i + 1).drop_last() == asset_views(
                self.assets@,
            ).take(i as int));
            push_asset(&mut events, &self.assets[i]);
            i = i + 1;
        }
        assert(asset_views(self.assets@).take(i as int) == asset_views(self.assets@));
        push_close(&mut events, "MarketReport");
        events
    }

    /// The report as XML text.
    pub fn to_xml(&self) -> (xml: String)
        ensures
            xml@ == events_text(report_events(self@)),
    {
        let events = self.events();
        render(&events)
    }
}

fn render_event(out: &mut String, event: &XmlEvent)
    ensures
        final(out)@ == old(out)@ + event_text(event@),
{
    match event {
        XmlEvent::Open { name, attributes } => {
            out.append("<");
            out.append(name.as_str());
            let ghost before = out@;
            let mut i: usize = 0;
            while i < attributes.len()
                invariant
                    i <= attributes.len(),
                    out@ == before + attributes_text(attribute_views(attributes@).take(i as int)),
                decreases attributes.len() - i,
            {
                assert(attribute_views(attributes@).take(i + 1).drop_last() == attribute_views(
                    attributes@,
                ).take(i as int));
                let value = escape_text(attributes[i].1.as_str());
                out.append(" ");
                out.append(attributes[i].0.as_str());
                out.append("=\"");
                out.append(value.as_str());
                out.append("\"");
                i = i + 1;
            }
            assert(attribute_views(attributes@).take(i as int) == attribute_views(attributes@));
            out.append(">");
        },
        XmlEvent::Close { name } => {
            out.append("</");
            out.append(name.as_str());
            out.append(">");
        },
        XmlEvent::Text { content } => {
            let text = escape_text(content.as_str());
            out.append(text.as_str());
        },
    }
}

/// Writes events as XML text, one behind the other, with every value escaped.
pub fn render(events: &Vec<XmlEvent>) -> (xml: String)
    ensures
        xml@ == events_text(event_views(events@)),
{
    let mut xml = String::new();
    let mut i: usize = 0;
    while i < events.len()
        invariant
            i <= events.len(),
            xml@ == events_text(event_views(events@).take(i as int)),
        decreases events.len() - i,
    {
        assert(event_views(events@).take(i + 1).drop_last() == event_views(events@).take(
            i as int,
        ));
        render_event(&mut xml, &events[i]);
        i = i + 1;
    }
    assert(event_views(events@).take(i as int) == event_views(events@));
    xml
}

} // verus!
