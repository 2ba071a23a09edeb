//! The structural check of a converted document: one pass over its tags.
//!
//! The tags are read by `quick_xml`; what counts as a valid document is decided
//! here, on plain items.

use vstd::prelude::*;
use crate::text::same_text;

verus! {

/// What the check reads of one piece of a document.
#[derive(Debug, PartialEq, Eq)]
pub enum XmlItem {
    /// The tag that starts an element, with the keys of its attributes in
    /// order; `None` stands for an attribute that could not be read. `empty`
    /// says that the tag closes the element at once, as in `<a/>`.
    Element { name: String, keys: Vec<Option<String>>, empty: bool },
    /// Anything else: a closing tag, text, a comment, a declaration.
    Other,
    /// The end of the document.
    Eof,
    /// A syntax error. Nothing can be read after it.
    Malformed,
}

/// An item as a value of sequences.
pub enum ItemView {
    Element { name: Seq<char>, keys: Seq<Option<Seq<char>>>, empty: bool },
    Other,
    Eof,
    Malformed,
}

pub open spec fn key_view(key: Option<String>) -> Option<Seq<char>> {
    match key {
        Some(text) => Some(text@),
        None => None,
    }
}

pub open spec fn key_views(keys: Seq<Option<String>>) -> Seq<Option<Seq<char>>> {
    Seq::new(keys.len(), |i: int| key_view(keys[i]))
}

impl View for XmlItem {
    type V = ItemView;

    open spec fn view(&self) -> ItemView {
        match *self {
            XmlItem::Element { name, keys, empty } => ItemView::Element {
                name: name@,
                keys: key_views(keys@),
                empty,
            },
            XmlItem::Other => ItemView::Other,
            XmlItem::Eof => ItemView::Eof,
            XmlItem::Malformed => ItemView::Malformed,
        }
    }
}

pub open spec fn views(items: Seq<XmlItem>) -> Seq<ItemView> {
    Seq::new(items.len(), |i: int| items[i]@)
}

/// Why a document was rejected.
#[derive(Clone, Copy, Debug, PartialEq, Eq, Structural)]
pub enum Rejection {
    /// The text is not well-formed.
    Syntax,
    /// The root is no report element that is opened with all three
    /// identifying attributes.
    MissingRoot,
    /// The report holds no asset.
    NoAssets,
    /// No fundamentals section.
    MissingFundamentals,
    /// No daily-data section.
    MissingDailyData,
}

/// What one pass has seen so far.
#[derive(Clone, Copy, Debug, PartialEq, Eq, Structural)]
pub struct Scan {
    /// An element was seen: the first one is the root.
    pub root_seen: bool,
    pub identified: bool,
    pub asset: bool,
    pub fundamentals: bool,
    pub daily_data: bool,
}

/// Whether an opening tag has an attribute `name`, as far as its attributes
/// can be read: the search ends at the first one that cannot.
pub open spec fn has_key(keys: Seq<Option<Seq<char>>>, name: Seq<char>) -> bool
    decreases keys.len(),
{
    if keys.len() == 0 {
        false
    } else {
        match keys[0] {
            Some(key) => key == name || has_key(keys.skip(1), name),
            None => false,
        }
    }
}

/// Whether an item opens an element called `tag`. A tag that closes its
/// element at once opens nothing: a section counts only where it is opened
/// by a tag of its own.
pub open spec fn opens(item: ItemView, tag: Seq<char>) -> bool {
    item matches ItemView::Element { name, empty, .. } && !empty && name == tag
}

/// Whether an item opens a report element that says which job and which
/// chunk it belongs to and when it was generated.
pub open spec fn opens_identified_report(item: ItemView) -> bool {
    item matches ItemView::Element { name, keys, empty } && !empty && name == "MarketReport"@
        && has_key(keys, "JobID"@) && has_key(keys, "ChunkID"@) && has_key(keys, "GeneratedAt"@)
}

impl Scan {
    pub open spec fn nothing() -> Scan {
        Scan {
            root_seen: false,
            identified: false,
            asset: false,
            fundamentals: false,
            daily_data: false,
        }
    }

    /// The scan after one more item. The root of a document is its first
    /// element: a report element anywhere else identifies nothing.
    pub open spec fn with(self, item: ItemView) -> Scan {
        Scan {
            root_seen: self.root_seen || item is Element,
            identified: self.identified || (!self.root_seen && opens_identified_report(item)),
            asset: self.asset || opens(item, "Asset"@),
            fundamentals: self.fundamentals || opens(item, "FundamentalData"@),
            daily_data: self.daily_data || opens(item, "DailyData"@),
        }
    }

    /// The finding at the end of the document: the first of the four
    /// requirements that was not met, in this order.
    pub open spec fn finding(self) -> Result<(), Rejection> {
        if !self.identified {
            Err(Rejection::MissingRoot)
        } else if !self.asset {
            Err(Rejection::NoAssets)
        } else if !self.fundamentals {
            Err(Rejection::MissingFundamentals)
        } else if !self.daily_data {
            Err(Rejection::MissingDailyData)
        } else {
            Ok(())
        }
    }

    pub fn new() -> (scan: Scan)
        ensures
            scan == Scan::nothing(),
    {
        Scan {
            root_seen: false,
            identified: false,
            asset: false,
            fundamentals: false,
            daily_data: false,
        }
    }

    pub fn observe(&self, item: &XmlItem) -> (next: Scan)
        ensures
            next == self.with(item@),
    {
        match item {
            XmlItem::Element { name, keys, empty } => {
                proof {
                    distinct_tags();
                }
                let seen = Scan { root_seen: true, ..*self };
                if *empty {
                    seen
                } else if same_text(name.as_str(), "MarketReport") {
                    let identified = self.identified || (!self.root_seen && has_attribute(
                        keys,
                        "JobID",
                    ) && has_attribute(keys, "ChunkID") && has_attribute(keys, "GeneratedAt"));
                    Scan { identified, ..seen }
                } else if same_text(name.as_str(), "Asset") {
                    Scan { asset: true, ..seen }
                } else if same_text(name.as_str(), "FundamentalData") {
                    Scan { fundamentals: true, ..seen }
                } else if same_text(name.as_str(), "DailyData") {
                    Scan { daily_data: true, ..seen }
                } else {
                    seen
                }
            },
            _ => *self,
        }
    }

    pub fn conclude(&self) -> (finding: Result<(), Rejection>)
        ensures
            finding == self.finding(),
    {
        if !self.identified {
            Err(Rejection::MissingRoot)
        } else if !self.asset {
            Err(Rejection::NoAssets)
        } else if !self.fundamentals {
            Err(Rejection::MissingFundamentals)
        } else if !self.daily_data {
            Err(Rejection::MissingDailyData)
        } else {
            Ok(())
        }
    }
}

proof fn distinct_tags()
    ensures
        "MarketReport"@ != "Asset"@,
        "MarketReport"@ != "FundamentalData"@,
        "MarketReport"@ != "DailyData"@,
        "Asset"@ != "FundamentalData"@,
        "Asset"@ != "DailyData"@,
        "FundamentalData"@ != "DailyData"@,
{
    reveal_strlit("MarketReport");
    reveal_strlit("Asset");
    reveal_strlit("FundamentalData");
    reveal_strlit("DailyData");
    assert("MarketReport"@.len() == 12);
    assert("Asset"@.len() == 5);
    assert("FundamentalData"@.len() == 15);
    assert("DailyData"@.len() == 9);
}

pub fn has_attribute(keys: &Vec<Option<String>>, name: &str) -> (found: bool)
    ensures
        found == has_key(key_views(keys@), name@),
{
    let mut i: usize = 0;
    assert(key_views(keys@).skip(0) == key_views(keys@));
    while i < keys.len()
        invariant
            i <= keys.len(),
            has_key(key_views(keys@), name@) == has_key(key_views(keys@).skip(i as int), name@),
        decreases keys.len() - i,
    {
        let ghost rest = key_views(keys@).skip(i as int);
        assert(rest[0] == key_view(keys@[i as int]));
        assert(rest.skip(1) == key_views(keys@).skip(i + 1));
        match &keys[i] {
            Some(key) => {
                if same_text(key.as_str(), name) {
                    return true;
                }
            },
            None => {
                return false;
            },
        }
        i = i + 1;
    }
    false
}

/// The finding for a document that yields `items`, from a scan that has seen
/// `scan` already. The document ends at its first `Eof`, or where the items
/// end; a syntax error rejects it whatever was seen before.
pub open spec fn finding_from(scan: Scan, items: Seq<ItemView>) -> Result<(), Rejection>
    decreases items.len(),
{
    if items.len() == 0 {
        scan.finding()
    } else {
        match items[0] {
            ItemView::Eof => scan.finding(),
            ItemView::Malformed => Err(Rejection::Syntax),
            item => finding_from(scan.with(item), items.skip(1)),
        }
    }
}

/// The finding for a whole document.
pub open spec fn document_finding(items: Seq<ItemView>) -> Result<(), Rejection> {
    finding_from(Scan::nothing(), items)
}

/// The items of a document before its end: before the first `Eof` or syntax error.
pub open spec fn body(items: Seq<ItemView>) -> Seq<ItemView>
    decreases items.len(),
{
    if items.len() == 0 || items[0] is Eof || items[0] is Malformed {
        Seq::empty()
    } else {
        seq![items[0]] + body(items.skip(1))
    }
}

/// Whether a document ends in a syntax error.
pub open spec fn broken(items: Seq<ItemView>) -> bool
    decreases items.len(),
{
    if items.len() == 0 {
        false
    } else {
        match items[0] {
            ItemView::Eof => false,
            ItemView::Malformed => true,
            _ => broken(items.skip(1)),
        }
    }
}

/// The first element among items: the root of their document.
pub open spec fn first_element(items: Seq<ItemView>) -> Option<ItemView>
    decreases items.len(),
{
    if items.len() == 0 {
        None
    } else if items[0] is Element {
        Some(items[0])
    } else {
        first_element(items.skip(1))
    }
}

/// Whether the root of a document is a report element that is opened with
/// `JobID`, `ChunkID` and `GeneratedAt`.
pub open spec fn has_identified_root(items: Seq<ItemView>) -> bool {
    first_element(items) matches Some(root) && opens_identified_report(root)
}

/// Whether one of the items opens an element called `tag`.
pub open spec fn has_element(items: Seq<ItemView>, tag: Seq<char>) -> bool {
    exists|i: int| 0 <= i < items.len() && opens(#[trigger] items[i], tag)
}

proof fn lemma_has_from_front(first: ItemView, rest: Seq<ItemView>, tag: Seq<char>)
    ensures
        first_element(seq![first] + rest) == if first is Element {
            Some(first)
        } else {
            first_element(rest)
        },
        has_element(seq![first] + rest, tag) <==> opens(first, tag) || has_element(rest, tag),
{
    let all = seq![first] + rest;
    assert(all[0] == first);
    assert(all.skip(1) =~= rest);
    assert forall|i: int| 0 <= i < rest.len() implies all[i + 1] == rest[i] by {}
    if has_element(rest, tag) {
        let i = choose|i: int| 0 <= i < rest.len() && opens(#[trigger] rest[i], tag);
        assert(opens(all[i + 1], tag));
    }
    if has_element(all, tag) {
        let i = choose|i: int| 0 <= i < all.len() && opens(#[trigger] all[i], tag);
        if i > 0 {
            assert(all[i] == rest[i - 1]);
        }
    }
}

proof fn lemma_finding_from(scan: Scan, items: Seq<ItemView>)
    ensures
        finding_from(scan, items) is Ok <==> {
            &&& !broken(items)
            &&& scan.identified || (!scan.root_seen && has_identified_root(body(items)))
            &&& scan.asset || has_element(body(items), "Asset"@)
            &&& scan.fundamentals || has_element(body(items), "FundamentalData"@)
            &&& scan.daily_data || has_element(body(items), "DailyData"@)
        },
        finding_from(scan, items) == Err::<(), Rejection>(Rejection::Syntax) <==> broken(items),
    decreases items.len(),
{
    if items.len() > 0 && !(items[0] is Eof) && !(items[0] is Malformed) {
        lemma_finding_from(scan.with(items[0]), items.skip(1));
        lemma_has_from_front(items[0], body(items.skip(1)), "Asset"@);
        lemma_has_from_front(items[0], body(items.skip(1)), "FundamentalData"@);
        lemma_has_from_front(items[0], body(items.skip(1)), "DailyData"@);
    }
}

/// A document is accepted if and only if it is well-formed to its end and
/// holds all four of: a root that is a report element opened with its three
/// identifying attributes, an asset, a fundamentals section, a daily-data
/// section. It is rejected for its syntax exactly where it is not well-formed.
pub proof fn accepted_iff_all_four(items: Seq<ItemView>)
    ensures
        document_finding(items) is Ok <==> {
            &&& !broken(items)
            &&& has_identified_root(body(items))
            &&& has_element(body(items), "Asset"@)
            &&& has_element(body(items), "FundamentalData"@)
            &&& has_element(body(items), "DailyData"@)
        },
        document_finding(items) == Err::<(), Rejection>(Rejection::Syntax) <==> broken(items),
{
    lemma_finding_from(Scan::nothing(), items);
}

/// A report element that lacks one of `JobID`, `ChunkID` and `GeneratedAt`
/// identifies nothing, whatever else it carries.
pub proof fn root_needs_all_three(item: ItemView, missing: Seq<char>)
    requires
        missing == "JobID"@ || missing == "ChunkID"@ || missing == "GeneratedAt"@,
        item matches ItemView::Element { keys, .. } && !has_key(keys, missing),
    ensures
        !opens_identified_report(item),
{
}

/// The check on items that were read already.
pub fn inspect_items(items: &Vec<XmlItem>) -> (finding: Result<(), Rejection>)
    ensures
        finding == document_finding(views(items@)),
{
    let mut scan = Scan::new();
    let mut i: usize = 0;
    assert(views(items@).skip(0) == views(items@));
    while i < items.len()
        invariant
            i <= items.len(),
            document_finding(views(items@)) == finding_from(scan, views(items@).skip(i as int)),
        decreases items.len() - i,
    {
        let ghost rest = views(items@).skip(i as int);
        assert(rest[0] == items@[i as int]@);
        assert(rest.skip(1) == views(items@).skip(i + 1));
        match &items[i] {
            XmlItem::Eof => {
                return scan.conclude();
            },
            XmlItem::Malformed => {
                return Err(Rejection::Syntax);
            },
            item => {
                scan = scan.observe(item);
            },
        }
        i = i + 1;
    }
    scan.conclude()
}

/// The items that a document yields, read to its end: the items that
/// `quick_xml::Reader::read_event_into` returns one after the other on a
/// reader made by `from_str` with text trimmed, each as an `XmlItem`.
pub uninterp spec fn xml_items(text: Seq<char>) -> Seq<ItemView>;

/// The items that a reader has yet to yield.
pub uninterp spec fn pending_items(reader: &quick_xml::Reader<&[u8]>) -> Seq<ItemView>;

/// `quick_xml::Reader`: a reader is carried through as it is; nothing inside
/// it is looked at.
#[verifier::external_type_specification]
#[verifier::external_body]
#[verifier::reject_recursive_types(R)]
pub struct ExXmlReader<R>(quick_xml::Reader<R>);

/// `quick_xml::Reader::from_str` followed by `trim_text(true)`: a reader at the
/// start of `xml`. All that is claimed is that what it will yield depends on
/// the text alone.
#[verifier::external_body]
fn open_document<'a>(xml: &'a str) -> (reader: quick_xml::Reader<&'a [u8]>)
    ensures
        pending_items(&reader) == xml_items(xml@),
{
    let mut reader = quick_xml::Reader::from_str(xml);
    reader.trim_text(true);
    reader
}

/// `quick_xml::Reader::read_event_into`: the next item, taken off what is
/// pending. A reader with nothing pending reports the end of the document.
/// A start tag and a self-closing tag come with their name and, from
/// `attributes()` without duplicate checks, the key of each attribute or
/// `None` for one in error; `empty` tells the two apart.
#[verifier::external_body]
fn next_item(reader: &mut quick_xml::Reader<&[u8]>) -> (item: XmlItem)
    ensures
        pending_items(old(reader)).len() > 0 ==> item@ == pending_items(old(reader))[0]
            && pending_items(final(reader)) == pending_items(old(reader)).skip(1),
        pending_items(old(reader)).len() == 0 ==> item@ == ItemView::Eof && pending_items(
            final(reader),
        ) == pending_items(old(reader)),
{
    let mut buffer = Vec::new();
    let event = reader.read_event_into(&mut buffer);
    let empty = matches!(event, Ok(quick_xml::events::Event::Empty(_)));
    match event {
        Ok(quick_xml::events::Event::Start(tag)) | Ok(quick_xml::events::Event::Empty(tag)) => XmlItem::Element {
            name: String::from_utf8_lossy(tag.name().as_ref()).into_owned(),
            keys: tag.attributes().with_checks(false).map(
                |a| a.ok().map(|a| String::from_utf8_lossy(a.key.as_ref()).into_owned()),
            ).collect(),
            empty,
        },
        Ok(quick_xml::events::Event::Eof) => XmlItem::Eof,
        Ok(_) => XmlItem::Other,
        Err(_) => XmlItem::Malformed,
    }
}

/// Reads a document tag by tag and says whether it is acceptable, and if not,
/// why not.
pub fn inspect_document(xml: &str) -> (finding: Result<(), Rejection>)
    ensures
        finding == document_finding(xml_items(xml@)),
{
    let mut reader = open_document(xml);
    let mut scan = Scan::new();
    loop
        invariant
            document_finding(xml_items(xml@)) == finding_from(scan, pending_items(&reader)),
        decreases pending_items(&reader).len(),
    {
        let item = next_item(&mut reader);
        match &item {
            XmlItem::Eof => {
                return scan.conclude();
            },
            XmlItem::Malformed => {
                return Err(Rejection::Syntax);
            },
            other => {
                scan = scan.observe(other);
            },
        }
    }
}

/// Whether a document passes the structural check.
pub fn validate_schema(xml: &str) -> (valid: bool)
    ensures
        valid == (document_finding(xml_items(xml@)) is Ok),
{
    inspect_document(xml).is_ok()
}

} // verus!
