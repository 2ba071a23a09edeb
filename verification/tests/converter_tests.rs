use xml_service::converter::{
    asset_from_row, assets_from_table, convert_at, convert_to_xml, find_column, report_from_table,
    ConvertError,
};
use xml_service::document::{escape_text, render, Asset, Day, MarketReport, XmlEvent};
use xml_service::table::read_table;
use xml_service::validator::{inspect_document, validate_schema, Rejection};

const HEADER: &str = "Ticker,Nome,Sector,PriceSMA_EUR,VolumeAvg,Market Cap,PE Ratio (TTM),EPS (TTM),Open,Previous Close,Beta (5Y Monthly),Price_1,Volume_1,Price_2,Volume_2,Price_3,Volume_3";

fn strings(fields: &[&str]) -> Vec<String> {
    fields.iter().map(|f| f.to_string()).collect()
}

#[test]
fn table_is_read_with_its_header_as_first_record() {
    let records = read_table("a,b\n1,2\n\"x,y\",\"q\"\"r\"\n");
    assert_eq!(
        records,
        vec![Some(strings(&["a", "b"])), Some(strings(&["1", "2"])), Some(strings(&["x,y", "q\"r"]))]
    );
}

#[test]
fn record_of_another_length_is_malformed() {
    let records = read_table("a,b\n1,2,3\n4,5\n");
    assert_eq!(records, vec![Some(strings(&["a", "b"])), None, Some(strings(&["4", "5"]))]);
    assert!(read_table("").is_empty());
}

#[test]
fn one_asset_per_row_in_order() {
    let csv = format!(
        "{}\nAAA,Alpha,Tech,1.5,100,1B,10,2,3,4,0.5,11,110,,,13,\nBBB,Beta,Oil,2.5,200,,,,,,,,,,,,\n",
        HEADER
    );
    let records = read_table(&csv);
    let assets = assets_from_table(&records).unwrap();
    assert_eq!(assets.len(), 2);
    assert_eq!(
        assets[0],
        Asset {
            ticker: "AAA".into(),
            name: "Alpha".into(),
            sector: "Tech".into(),
            market_cap: "1B".into(),
            pe_ratio: "10".into(),
            eps: "2".into(),
            open_price: "3".into(),
            prev_close: "4".into(),
            beta: "0.5".into(),
            price_sma: "1.5".into(),
            average_volume: "100".into(),
            days: vec![
                Day { index: 1, currency: "EUR".into(), closing_price: "11".into(), volume: "110".into() },
                Day { index: 3, currency: "EUR".into(), closing_price: "13".into(), volume: "0".into() },
            ],
        }
    );
    assert_eq!(assets[1].ticker, "BBB");
    assert_eq!(assets[1].market_cap, "");
    assert_eq!(assets[1].pe_ratio, "");
    assert!(assets[1].days.is_empty());
}

#[test]
fn columns_are_found_by_name_in_any_order() {
    let header = strings(&["Extra", "Sector", "Price_10", "Ticker", "VolumeAvg", "Nome", "PriceSMA_EUR"]);
    let row = strings(&["ignored", "Tech", "9.9", "ZZZ", "5", "Zed", "1"]);
    assert_eq!(find_column(&header, "Ticker"), Some(3));
    assert_eq!(find_column(&header, "Nope"), None);
    let asset = asset_from_row(&header, &row);
    assert_eq!(asset.ticker, "ZZZ");
    assert_eq!(asset.name, "Zed");
    assert_eq!(asset.sector, "Tech");
    assert_eq!(asset.market_cap, "");
    assert_eq!(
        asset.days,
        vec![Day { index: 10, currency: "EUR".into(), closing_price: "9.9".into(), volume: "0".into() }]
    );
}

#[test]
fn fields_that_a_row_does_not_give_are_empty() {
    let csv = "Ticker,Nome,Sector,PriceSMA_EUR,VolumeAvg,Market Cap,Beta (5Y Monthly),Price_2,Volume_2\nA,B,C,1,2,,,7,\n";
    let assets = assets_from_table(&read_table(csv)).unwrap();
    assert_eq!(assets.len(), 1);
    assert_eq!(assets[0].market_cap, "");
    assert_eq!(assets[0].pe_ratio, "");
    assert_eq!(assets[0].eps, "");
    assert_eq!(assets[0].open_price, "");
    assert_eq!(assets[0].prev_close, "");
    assert_eq!(assets[0].beta, "");
    assert_eq!(
        assets[0].days,
        vec![Day { index: 2, currency: "EUR".into(), closing_price: "7".into(), volume: "0".into() }]
    );
    let xml = convert_at(csv, "j", 1, "t").unwrap();
    assert!(xml.contains("<FundamentalData><MarketCap></MarketCap><PERatio></PERatio>"));
    assert!(xml.contains("<Volume>0</Volume>"));
}

#[test]
fn table_without_rows_gives_no_assets() {
    assert_eq!(assets_from_table(&vec![]), Ok(vec![]));
    assert_eq!(assets_from_table(&vec![Some(strings(&["whatever"]))]), Ok(vec![]));
    assert_eq!(assets_from_table(&vec![None]), Err(ConvertError::MalformedCsv));
}

#[test]
fn missing_required_column_fails_the_chunk() {
    let records = read_table("Ticker,Nome,Sector,PriceSMA_EUR\nA,B,C,1\n");
    assert_eq!(assets_from_table(&records), Err(ConvertError::MissingColumn));
}

#[test]
fn duplicate_known_column_fails_the_chunk() {
    let records = read_table("Ticker,Nome,Sector,PriceSMA_EUR,VolumeAvg,Price_1,Price_1\nA,B,C,1,2,3,4\n");
    assert_eq!(assets_from_table(&records), Err(ConvertError::DuplicateColumn));
    let unknown_twice = read_table("Ticker,Nome,Sector,PriceSMA_EUR,VolumeAvg,X,X\nA,B,C,1,2,3,4\n");
    assert_eq!(assets_from_table(&unknown_twice).map(|a| a.len()), Ok(1));
    let both = read_table("Ticker,Ticker,Nome\nA,B,C\n");
    assert_eq!(assets_from_table(&both), Err(ConvertError::DuplicateColumn));
}

#[test]
fn malformed_row_fails_the_chunk() {
    let csv = "Ticker,Nome,Sector,PriceSMA_EUR,VolumeAvg\nA,B,C,1,2\nA,B,C,1\n";
    assert_eq!(convert_at(csv, "j", 1, "t"), Err(ConvertError::MalformedCsv));
    let first_bad = "Ticker,Nome\nA\n";
    assert_eq!(convert_at(first_bad, "j", 1, "t"), Err(ConvertError::MalformedCsv));
    let short = vec![Some(strings(&["Ticker", "Nome", "Sector", "PriceSMA_EUR", "VolumeAvg"])), Some(strings(&["A"]))];
    assert_eq!(assets_from_table(&short), Err(ConvertError::MalformedCsv));
}

#[test]
fn report_carries_job_chunk_and_moment() {
    let records = read_table("Ticker,Nome,Sector,PriceSMA_EUR,VolumeAvg\nA,B,C,1,2\n");
    let report = report_from_table(&records, "job-9", 4, "2024-05-01T00:00:00+00:00").unwrap();
    assert_eq!(report.job_id, "job-9");
    assert_eq!(report.chunk_id, 4);
    assert_eq!(report.generated_at, "2024-05-01T00:00:00+00:00");
    assert_eq!(report.assets.len(), 1);
}

#[test]
fn conversion_writes_the_document() {
    let csv = "Ticker,Nome,Sector,PriceSMA_EUR,VolumeAvg,Price_1\nA&B,\"Al, Inc\",<T>,1.5,100,10\n";
    let xml = convert_at(csv, "job-1", 7, "now").unwrap();
    assert_eq!(
        xml,
        "<MarketReport JobID=\"job-1\" ChunkID=\"7\" GeneratedAt=\"now\">\
<Asset Ticker=\"A&amp;B\">\
<Identification><Name>Al, Inc</Name><Sector>&lt;T&gt;</Sector></Identification>\
<FundamentalData><MarketCap></MarketCap><PERatio></PERatio><EPS></EPS>\
<OpenPrice></OpenPrice><PrevClose></PrevClose><Beta></Beta></FundamentalData>\
<Indicators><PriceSMA>1.5</PriceSMA><AverageVolume>100</AverageVolume></Indicators>\
<DailyData><Day index=\"1\"><ClosingPrice Currency=\"EUR\">10</ClosingPrice><Volume>0</Volume></Day></DailyData>\
</Asset></MarketReport>"
    );
}

#[test]
fn values_are_escaped() {
    let events = vec![
        XmlEvent::Open {
            name: "a".into(),
            attributes: vec![("k".into(), "1 < 2 & \"q\" 'a' >".into()), ("l".into(), "".into())],
        },
        XmlEvent::Text { content: "x<y>&'\"z".into() },
        XmlEvent::Close { name: "a".into() },
    ];
    assert_eq!(
        render(&events),
        "<a k=\"1 &lt; 2 &amp; &quot;q&quot; &apos;a&apos; &gt;\" l=\"\">x&lt;y&gt;&amp;&apos;&quot;z</a>"
    );
    assert_eq!(render(&vec![]), "");
}

#[test]
fn converted_document_passes_validation() {
    let csv = format!("{}\nAAA,Alpha,Tech,1.5,100,1B,10,2,3,4,0.5,11,110,,,13,\nB<B,\"x\"\"y\",Oil,2.5,200,,,,,,,,,,,,\n", HEADER);
    let xml = convert_at(&csv, "job \"1\"", 0, "2024-01-01T00:00:00+00:00").unwrap();
    assert!(validate_schema(&xml));
    let no_days = "Ticker,Nome,Sector,PriceSMA_EUR,VolumeAvg\nA,B,C,1,2\n";
    assert_eq!(inspect_document(&convert_at(no_days, "j", 1, "t").unwrap()), Ok(()));
}

#[test]
fn document_without_rows_is_rejected_for_having_no_asset() {
    let xml = convert_at("Ticker,Nome,Sector,PriceSMA_EUR,VolumeAvg\n", "j", 1, "t").unwrap();
    assert_eq!(xml, "<MarketReport JobID=\"j\" ChunkID=\"1\" GeneratedAt=\"t\"></MarketReport>");
    assert_eq!(inspect_document(&xml), Err(Rejection::NoAssets));
    assert_eq!(inspect_document(&convert_at("", "j", 1, "t").unwrap()), Err(Rejection::NoAssets));
}

#[test]
fn conversion_now_stamps_the_document() {
    let csv = "Ticker,Nome,Sector,PriceSMA_EUR,VolumeAvg\nA,B,C,1,2\n".to_string();
    let xml = convert_to_xml(csv, "job-1", 3).unwrap();
    assert!(xml.starts_with("<MarketReport JobID=\"job-1\" ChunkID=\"3\" GeneratedAt=\"2"));
    assert!(validate_schema(&xml));
    assert_eq!(
        convert_to_xml("Ticker\nA\n".to_string(), "job-1", 3),
        Err(ConvertError::MissingColumn)
    );
}

#[test]
fn report_events_nest_as_the_schema_says() {
    let report = MarketReport {
        job_id: "j".into(),
        chunk_id: 4294967295,
        generated_at: "t".into(),
        assets: vec![],
    };
    assert_eq!(
        report.events(),
        vec![
            XmlEvent::Open {
                name: "MarketReport".into(),
                attributes: vec![
                    ("JobID".into(), "j".into()),
                    ("ChunkID".into(), "4294967295".into()),
                    ("GeneratedAt".into(), "t".into()),
                ],
            },
            XmlEvent::Close { name: "MarketReport".into() },
        ]
    );
    assert_eq!(
        report.to_xml(),
        "<MarketReport JobID=\"j\" ChunkID=\"4294967295\" GeneratedAt=\"t\"></MarketReport>"
    );
}

#[test]
fn escaping_replaces_the_five_special_characters() {
    assert_eq!(escape_text(""), "");
    assert_eq!(escape_text("plain text"), "plain text");
    assert_eq!(escape_text("<"), "&lt;");
    assert_eq!(escape_text("a<b>c&d'e\"f"), "a&lt;b&gt;c&amp;d&apos;e&quot;f");
    assert_eq!(escape_text("&&"), "&amp;&amp;");
    assert_eq!(escape_text("é<€>ü"), "é&lt;€&gt;ü");
    assert_eq!(escape_text("tab\tnew\nline"), "tab\tnew\nline");
}

#[test]
fn escaping_agrees_with_the_xml_reader_of_the_validator() {
    for text in ["", "a", "<>&'\"", "x < y && y > z", "ça coûte 5 € & plus", "'quoted' \"twice\""] {
        assert_eq!(escape_text(text), quick_xml::escape::escape(text));
        assert_eq!(quick_xml::escape::unescape(&escape_text(text)).unwrap(), text);
    }
}
