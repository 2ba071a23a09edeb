use xml_service::validator::{
    has_attribute, inspect_document, inspect_items, validate_schema, Rejection, Scan, XmlItem,
};

const GOOD: &str = "<MarketReport JobID=\"j\" ChunkID=\"1\" GeneratedAt=\"t\"><Asset Ticker=\"A\"><FundamentalData></FundamentalData><DailyData></DailyData></Asset></MarketReport>";

const ROOT: &str = "<MarketReport JobID=\"j\" ChunkID=\"1\" GeneratedAt=\"t\">";

#[test]
fn document_with_all_four_is_valid() {
    assert!(validate_schema(GOOD));
    assert_eq!(inspect_document(GOOD), Ok(()));
    let with_prolog = format!("<?xml version=\"1.0\"?>\n<!-- report -->\n  {}\n", GOOD);
    assert_eq!(inspect_document(&with_prolog), Ok(()));
}

#[test]
fn missing_root_attribute_is_rejected() {
    for attribute in ["JobID=\"j\" ", "ChunkID=\"1\" ", " GeneratedAt=\"t\""] {
        let xml = GOOD.replace(attribute, "");
        assert_ne!(xml, GOOD);
        assert_eq!(inspect_document(&xml), Err(Rejection::MissingRoot));
        assert!(!validate_schema(&xml));
    }
}

#[test]
fn report_element_must_be_the_root() {
    let wrapped = format!("<Envelope>{}</Envelope>", GOOD);
    assert_eq!(inspect_document(&wrapped), Err(Rejection::MissingRoot));
    let other_root = GOOD.replace("MarketReport", "Report");
    assert_eq!(inspect_document(&other_root), Err(Rejection::MissingRoot));
    let after_empty = format!("<x/>{}", GOOD);
    assert_eq!(inspect_document(&after_empty), Err(Rejection::MissingRoot));
}

#[test]
fn missing_sections_are_rejected_in_order() {
    assert_eq!(inspect_document(&format!("{}</MarketReport>", ROOT)), Err(Rejection::NoAssets));
    assert_eq!(
        inspect_document(&format!("{}<Asset></Asset></MarketReport>", ROOT)),
        Err(Rejection::MissingFundamentals)
    );
    assert_eq!(
        inspect_document(&format!(
            "{}<Asset><FundamentalData></FundamentalData></Asset></MarketReport>",
            ROOT
        )),
        Err(Rejection::MissingDailyData)
    );
    assert_eq!(
        inspect_document(&format!("{}<Asset><DailyData></DailyData></Asset></MarketReport>", ROOT)),
        Err(Rejection::MissingFundamentals)
    );
}

#[test]
fn self_closing_tags_do_not_count() {
    assert_eq!(
        inspect_document(&format!("{}<Asset><FundamentalData/><DailyData/></Asset></MarketReport>", ROOT)),
        Err(Rejection::MissingFundamentals)
    );
    assert_eq!(
        inspect_document(&format!(
            "{}<Asset><FundamentalData></FundamentalData><DailyData/></Asset></MarketReport>",
            ROOT
        )),
        Err(Rejection::MissingDailyData)
    );
    assert_eq!(
        inspect_document(&format!("{}<Asset/></MarketReport>", ROOT)),
        Err(Rejection::NoAssets)
    );
    assert_eq!(
        inspect_document("<MarketReport JobID=\"j\" ChunkID=\"1\" GeneratedAt=\"t\"/>"),
        Err(Rejection::MissingRoot)
    );
}

#[test]
fn syntax_error_is_rejected() {
    assert_eq!(inspect_document(&GOOD.replace("</Asset>", "</Wrong>")), Err(Rejection::Syntax));
    assert!(!validate_schema("<MarketReport JobID=\"j\" ChunkID=\"1\" GeneratedAt=\"t\"><Asset"));
}

#[test]
fn empty_document_has_no_root() {
    assert_eq!(inspect_document(""), Err(Rejection::MissingRoot));
    assert_eq!(inspect_document("just text"), Err(Rejection::MissingRoot));
}

#[test]
fn unreadable_attribute_hides_the_ones_behind_it() {
    let xml = GOOD.replace("JobID=\"j\"", "broken JobID=\"j\"");
    assert_eq!(inspect_document(&xml), Err(Rejection::MissingRoot));
    let last = GOOD.replace("GeneratedAt=\"t\"", "GeneratedAt=\"t\" broken");
    assert_eq!(inspect_document(&last), Ok(()));
}

fn element(name: &str, keys: &[&str], empty: bool) -> XmlItem {
    XmlItem::Element {
        name: name.to_string(),
        keys: keys.iter().map(|k| Some(k.to_string())).collect(),
        empty,
    }
}

fn root() -> XmlItem {
    element("MarketReport", &["JobID", "ChunkID", "GeneratedAt"], false)
}

fn start(name: &str) -> XmlItem {
    element(name, &[], false)
}

#[test]
fn items_are_scanned_up_to_the_end_of_the_document() {
    let items = vec![
        XmlItem::Other,
        root(),
        start("Asset"),
        start("FundamentalData"),
        XmlItem::Other,
        start("DailyData"),
        XmlItem::Eof,
    ];
    assert_eq!(inspect_items(&items), Ok(()));
    let without_end = vec![root(), start("Asset"), start("FundamentalData"), start("DailyData")];
    assert_eq!(inspect_items(&without_end), Ok(()));
    let cut = vec![root(), start("Asset"), XmlItem::Eof, start("FundamentalData"), start("DailyData")];
    assert_eq!(inspect_items(&cut), Err(Rejection::MissingFundamentals));
    let broken = vec![root(), start("Asset"), start("FundamentalData"), start("DailyData"), XmlItem::Malformed];
    assert_eq!(inspect_items(&broken), Err(Rejection::Syntax));
    assert_eq!(inspect_items(&vec![]), Err(Rejection::MissingRoot));
}

#[test]
fn root_needs_all_three_attributes_readable() {
    let report = |keys: Vec<Option<String>>| {
        vec![
            XmlItem::Element { name: "MarketReport".to_string(), keys, empty: false },
            start("Asset"),
            start("FundamentalData"),
            start("DailyData"),
        ]
    };
    let key = |k: &str| Some(k.to_string());
    assert_eq!(inspect_items(&report(vec![key("GeneratedAt"), key("ChunkID"), key("JobID")])), Ok(()));
    assert_eq!(
        inspect_items(&report(vec![key("JobID"), key("GeneratedAt")])),
        Err(Rejection::MissingRoot)
    );
    assert_eq!(
        inspect_items(&report(vec![key("JobID"), key("ChunkID")])),
        Err(Rejection::MissingRoot)
    );
    assert_eq!(
        inspect_items(&report(vec![key("ChunkID"), key("GeneratedAt")])),
        Err(Rejection::MissingRoot)
    );
    assert_eq!(
        inspect_items(&report(vec![key("JobID"), key("ChunkID"), None, key("GeneratedAt")])),
        Err(Rejection::MissingRoot)
    );
    assert_eq!(
        inspect_items(&report(vec![key("jobid"), key("ChunkID"), key("GeneratedAt")])),
        Err(Rejection::MissingRoot)
    );
}

#[test]
fn only_the_first_element_can_be_the_root() {
    let nested = vec![start("Envelope"), root(), start("Asset"), start("FundamentalData"), start("DailyData")];
    assert_eq!(inspect_items(&nested), Err(Rejection::MissingRoot));
    let after_empty = vec![
        element("x", &[], true),
        root(),
        start("Asset"),
        start("FundamentalData"),
        start("DailyData"),
    ];
    assert_eq!(inspect_items(&after_empty), Err(Rejection::MissingRoot));
    let closed_root = vec![
        element("MarketReport", &["JobID", "ChunkID", "GeneratedAt"], true),
        start("Asset"),
        start("FundamentalData"),
        start("DailyData"),
    ];
    assert_eq!(inspect_items(&closed_root), Err(Rejection::MissingRoot));
    let closed_sections = vec![
        root(),
        start("Asset"),
        element("FundamentalData", &[], true),
        start("DailyData"),
    ];
    assert_eq!(inspect_items(&closed_sections), Err(Rejection::MissingFundamentals));
}

#[test]
fn scan_observes_one_item_at_a_time() {
    let scan = Scan::new();
    assert_eq!(scan.conclude(), Err(Rejection::MissingRoot));
    assert!(!scan.root_seen);
    let scan = scan.observe(&XmlItem::Other);
    assert!(!scan.root_seen);
    let scan = scan.observe(&root());
    assert!(scan.root_seen);
    assert!(scan.identified);
    assert_eq!(scan.conclude(), Err(Rejection::NoAssets));
    let scan = scan.observe(&start("Asset")).observe(&XmlItem::Other).observe(&start("Other"));
    assert_eq!(scan.conclude(), Err(Rejection::MissingFundamentals));
    let scan = scan.observe(&start("DailyData")).observe(&start("FundamentalData"));
    assert_eq!(scan.conclude(), Ok(()));
    assert!(has_attribute(&vec![Some("a".to_string()), Some("b".to_string())], "b"));
    assert!(!has_attribute(&vec![None, Some("b".to_string())], "b"));
    assert!(!has_attribute(&vec![], "b"));
}
