//! The conversion of one chunk: tabular rows to a market report.
//!
//! The first record of a table names its columns. Every further record
//! becomes one asset. Columns are found by name, whatever their order; a
//! column that the schema does not know is passed over.

use vstd::prelude::*;
use crate::document::{
    events_text, report_events, Asset, AssetView, Day, DayView, MarketReport, ReportView,
};
use crate::table::{csv_records, field_views, read_table, record_view, record_views};
use crate::text::same_text;

verus! {

/// Why a chunk could not be converted.
#[derive(Clone, Copy, Debug, PartialEq, Eq, Structural)]
pub enum ConvertError {
    /// A record could not be read, or has not as many fields as the header.
    MalformedCsv,
    /// A column of the schema is named twice.
    DuplicateColumn,
    /// A column that every row must fill is not in the header.
    MissingColumn,
}

/// The unit in which every price of a report is given.
pub const CURRENCY: &'static str = "EUR";

/// What stands for the volume of a day whose row gives none.
pub const NO_VOLUME: &'static str = "0";

/// The name of the column that holds the closing price of a day.
pub open spec fn price_column(day: nat) -> Seq<char> {
    if day == 1 {
        "Price_1"@
    } else if day == 2 {
        "Price_2"@
    } else if day == 3 {
        "Price_3"@
    } else if day == 4 {
        "Price_4"@
    } else if day == 5 {
        "Price_5"@
    } else if day == 6 {
        "Price_6"@
    } else if day == 7 {
        "Price_7"@
    } else if day == 8 {
        "Price_8"@
    } else if day == 9 {
        "Price_9"@
    } else {
        "Price_10"@
    }
}

/// The name of the column that holds the volume of a day.
pub open spec fn volume_column(day: nat) -> Seq<char> {
    if day == 1 {
        "Volume_1"@
    } else if day == 2 {
        "Volume_2"@
    } else if day == 3 {
        "Volume_3"@
    } else if day == 4 {
        "Volume_4"@
    } else if day == 5 {
        "Volume_5"@
    } else if day == 6 {
        "Volume_6"@
    } else if day == 7 {
        "Volume_7"@
    } else if day == 8 {
        "Volume_8"@
    } else if day == 9 {
        "Volume_9"@
    } else {
        "Volume_10"@
    }
}

/// Whether every row must fill the column.
pub open spec fn is_required(name: Seq<char>) -> bool {
    name == "Ticker"@ || name == "Nome"@ || name == "Sector"@ || name == "PriceSMA_EUR"@ || name
        == "VolumeAvg"@
}

/// Whether the column is one of the fundamentals, which a row may leave empty.
pub open spec fn is_fundamental(name: Seq<char>) -> bool {
    name == "Market Cap"@ || name == "PE Ratio (TTM)"@ || name == "EPS (TTM)"@ || name == "Open"@
        || name == "Previous Close"@ || name == "Beta (5Y Monthly)"@
}

/// Whether the column belongs to the daily series.
pub open spec fn is_daily(name: Seq<char>) -> bool {
    exists|day: nat|
        1 <= day <= 10 && (name == #[trigger] price_column(day) || name == volume_column(day))
}

/// Whether the schema knows the column.
pub open spec fn is_known(name: Seq<char>) -> bool {
    is_required(name) || is_fundamental(name) || is_daily(name)
}

/// Whether `at` is the first column called `name`.
pub open spec fn is_first_column(header: Seq<Seq<char>>, name: Seq<char>, at: int) -> bool {
    0 <= at < header.len() && header[at] == name && forall|before: int|
        0 <= before < at ==> header[before] != name
}

/// The first column called `name`, if there is one.
pub open spec fn column_of(header: Seq<Seq<char>>, name: Seq<char>) -> Option<int> {
    if exists|at: int| is_first_column(header, name, at) {
        Some(choose|at: int| is_first_column(header, name, at))
    } else {
        None
    }
}

/// The field of a record under the column called `name`.
pub open spec fn cell(header: Seq<Seq<char>>, fields: Seq<Seq<char>>, name: Seq<char>) -> Option<
    Seq<char>,
> {
    match column_of(header, name) {
        Some(at) => if at < fields.len() {
            Some(fields[at])
        } else {
            None
        },
        None => None,
    }
}

/// The field under a column, where it is there and not empty.
pub open spec fn filled(header: Seq<Seq<char>>, fields: Seq<Seq<char>>, name: Seq<char>) -> Option<
    Seq<char>,
> {
    match cell(header, fields, name) {
        Some(value) => if value.len() > 0 {
            Some(value)
        } else {
            None
        },
        None => None,
    }
}

/// The field under a column, or `fallback` where it is missing or empty.
pub open spec fn filled_or(
    header: Seq<Seq<char>>,
    fields: Seq<Seq<char>>,
    name: Seq<char>,
    fallback: Seq<char>,
) -> Seq<char> {
    match filled(header, fields, name) {
        Some(value) => value,
        None => fallback,
    }
}

/// The days of a row up to day `upto`: one entry for each day whose price is
/// filled, in the order of the days, priced in `CURRENCY`, with `NO_VOLUME`
/// where the row gives no volume.
pub open spec fn days_upto(header: Seq<Seq<char>>, fields: Seq<Seq<char>>, upto: nat) -> Seq<
    DayView,
>
    decreases upto,
{
    if upto == 0 {
        Seq::empty()
    } else {
        let before = days_upto(header, fields, (upto - 1) as nat);
        match filled(header, fields, price_column(upto)) {
            Some(price) => before.push(
                DayView {
                    index: upto,
                    currency: CURRENCY@,
                    closing_price: price,
                    volume: filled_or(header, fields, volume_column(upto), NO_VOLUME@),
                },
            ),
            None => before,
        }
    }
}

/// The asset that a row stands for. A field that the row leaves empty, or
/// whose column the table does not have, is empty in the asset.
pub open spec fn asset_of(header: Seq<Seq<char>>, fields: Seq<Seq<char>>) -> AssetView {
    AssetView {
        ticker: filled_or(header, fields, "Ticker"@, Seq::empty()),
        name: filled_or(header, fields, "Nome"@, Seq::empty()),
        sector: filled_or(header, fields, "Sector"@, Seq::empty()),
        market_cap: filled_or(header, fields, "Market Cap"@, Seq::empty()),
        pe_ratio: filled_or(header, fields, "PE Ratio (TTM)"@, Seq::empty()),
        eps: filled_or(header, fields, "EPS (TTM)"@, Seq::empty()),
        open_price: filled_or(header, fields, "Open"@, Seq::empty()),
        prev_close: filled_or(header, fields, "Previous Close"@, Seq::empty()),
        beta: filled_or(header, fields, "Beta (5Y Monthly)"@, Seq::empty()),
        price_sma: filled_or(header, fields, "PriceSMA_EUR"@, Seq::empty()),
        average_volume: filled_or(header, fields, "VolumeAvg"@, Seq::empty()),
        days: days_upto(header, fields, 10),
    }
}

/// Whether a column of the schema is named twice.
pub open spec fn has_duplicate(header: Seq<Seq<char>>) -> bool {
    exists|i: int, j: int|
        0 <= i < j < header.len() && #[trigger] header[i] == #[trigger] header[j] && is_known(
            header[i],
        )
}

/// Whether a column that every row must fill is not in the header.
pub open spec fn lacks_required(header: Seq<Seq<char>>) -> bool {
    column_of(header, "Ticker"@) is None || column_of(header, "Nome"@) is None || column_of(
        header,
        "Sector"@,
    ) is None || column_of(header, "PriceSMA_EUR"@) is None || column_of(header, "VolumeAvg"@)
        is None
}

/// Whether a record was read and has as many fields as the header.
pub open spec fn fits(header: Seq<Seq<char>>, record: Option<Seq<Seq<char>>>) -> bool {
    record matches Some(fields) && fields.len() == header.len()
}

/// The assets of rows that all fit the header.
pub open spec fn assets_of(header: Seq<Seq<char>>, rows: Seq<Option<Seq<Seq<char>>>>) -> Seq<
    AssetView,
> {
    Seq::new(rows.len(), |i: int| asset_of(header, rows[i]->0))
}

/// The assets of a table, or why it cannot be converted.
///
/// A table without rows gives no assets, whatever its header says. The header
/// is held against the schema at the first row; a row that does not fit fails
/// the whole table.
pub open spec fn table_assets(records: Seq<Option<Seq<Seq<char>>>>) -> Result<
    Seq<AssetView>,
    ConvertError,
> {
    if records.len() == 0 {
        Ok(Seq::empty())
    } else if records[0] is None {
        Err(ConvertError::MalformedCsv)
    } else if records.len() == 1 {
        Ok(Seq::empty())
    } else {
        let header = records[0]->0;
        let rows = records.skip(1);
        if !fits(header, rows[0]) {
            Err(ConvertError::MalformedCsv)
        } else if has_duplicate(header) {
            Err(ConvertError::DuplicateColumn)
        } else if lacks_required(header) {
            Err(ConvertError::MissingColumn)
        } else if exists|i: int| 0 <= i < rows.len() && !fits(header, #[trigger] rows[i]) {
            Err(ConvertError::MalformedCsv)
        } else {
            Ok(assets_of(header, rows))
        }
    }
}

/// The text of the report of a table, or why there is none.
pub open spec fn conversion(
    records: Seq<Option<Seq<Seq<char>>>>,
    job_id: Seq<char>,
    chunk_id: u32,
    generated_at: Seq<char>,
) -> Result<Seq<char>, ConvertError> {
    match table_assets(records) {
        Ok(assets) => Ok(
            events_text(report_events(ReportView { job_id, chunk_id, generated_at, assets })),
        ),
        Err(error) => Err(error),
    }
}

/// Every row of a table that converts becomes exactly one asset, in the
/// order of the rows: each record behind the header was read, fits the
/// header, and gives the asset at its place.
pub proof fn one_asset_per_row(records: Seq<Option<Seq<Seq<char>>>>)
    requires
        table_assets(records) is Ok,
    ensures
        table_assets(records)->Ok_0.len() == if records.len() == 0 {
            0
        } else {
            records.len() - 1
        },
        forall|row: int|
            1 <= row < records.len() ==> records[0] is Some && fits(
                records[0]->0,
                #[trigger] records[row],
            ) && table_assets(records)->Ok_0[row - 1] == asset_of(records[0]->0, records[row]->0),
{
    if records.len() > 1 {
        let header = records[0]->0;
        let rows = records.skip(1);
        assert(table_assets(records)->Ok_0 == assets_of(header, rows));
        assert forall|row: int| 1 <= row < records.len() implies fits(
            header,
            #[trigger] records[row],
        ) && table_assets(records)->Ok_0[row - 1] == asset_of(header, records[row]->0) by {
            assert(fits(header, rows[row - 1]));
            assert(rows[row - 1] == records[row]);
            assert(assets_of(header, rows)[row - 1] == asset_of(header, rows[row - 1]->0));
        }
    }
}

/// The asset of a row has a bounded, ordered price series, whatever the row holds.
pub proof fn assets_are_well_formed(header: Seq<Seq<char>>, fields: Seq<Seq<char>>)
    ensures
        asset_of(header, fields).well_formed(),
{
    days_follow_prices(header, fields, 10);
}

/// A fundamental that a row does not give is written as empty text: the
/// asset is there all the same, with every one of its fields.
pub proof fn missing_fundamentals_are_empty(
    header: Seq<Seq<char>>,
    fields: Seq<Seq<char>>,
    name: Seq<char>,
)
    requires
        filled(header, fields, name) is None,
    ensures
        name == "Market Cap"@ ==> asset_of(header, fields).market_cap.len() == 0,
        name == "PE Ratio (TTM)"@ ==> asset_of(header, fields).pe_ratio.len() == 0,
        name == "EPS (TTM)"@ ==> asset_of(header, fields).eps.len() == 0,
        name == "Open"@ ==> asset_of(header, fields).open_price.len() == 0,
        name == "Previous Close"@ ==> asset_of(header, fields).prev_close.len() == 0,
        name == "Beta (5Y Monthly)"@ ==> asset_of(header, fields).beta.len() == 0,
{
}

/// The days of an asset follow the prices of its row: every entry stands for
/// a day from one to ten whose price is filled and carries that price in
/// `CURRENCY`; every day whose price is filled has its entry; and the
/// entries stand in the order of the days.
pub proof fn days_follow_prices(header: Seq<Seq<char>>, fields: Seq<Seq<char>>, upto: nat)
    ensures
        days_upto(header, fields, upto).len() <= upto,
        forall|j: int|
            0 <= j < days_upto(header, fields, upto).len() ==> {
                let day = #[trigger] days_upto(header, fields, upto)[j];
                &&& 1 <= day.index <= upto
                &&& day.currency == CURRENCY@
                &&& day.closing_price.len() > 0
                &&& filled(header, fields, price_column(day.index)) == Some(day.closing_price)
                &&& day.volume == filled_or(header, fields, volume_column(day.index), NO_VOLUME@)
            },
        forall|day: nat|
            1 <= day <= upto && filled(header, fields, #[trigger] price_column(day)) is Some
                ==> exists|j: int|
                0 <= j < days_upto(header, fields, upto).len() && (#[trigger] days_upto(
                    header,
                    fields,
                    upto,
                )[j]).index == day,
        forall|j: int, k: int|
            0 <= j < k < days_upto(header, fields, upto).len() ==> (#[trigger] days_upto(
                header,
                fields,
                upto,
            )[j]).index < (#[trigger] days_upto(header, fields, upto)[k]).index,
    decreases upto,
{
    if upto > 0 {
        let before = days_upto(header, fields, (upto - 1) as nat);
        let days = days_upto(header, fields, upto);
        days_follow_prices(header, fields, (upto - 1) as nat);
        assert forall|day: nat|
            1 <= day <= upto && filled(header, fields, #[trigger] price_column(day))
                is Some implies exists|j: int|
            0 <= j < days.len() && (#[trigger] days[j]).index == day by {
            if day < upto {
                let j = choose|j: int| 0 <= j < before.len() && (#[trigger] before[j]).index == day;
                assert(days[j] == before[j]);
            } else {
                assert(days[days.len() - 1].index == upto);
            }
        }
        assert forall|j: int| 0 <= j < days.len() implies {
            let day = #[trigger] days[j];
            &&& 1 <= day.index <= upto
            &&& day.currency == CURRENCY@
            &&& day.closing_price.len() > 0
            &&& filled(header, fields, price_column(day.index)) == Some(day.closing_price)
            &&& day.volume == filled_or(header, fields, volume_column(day.index), NO_VOLUME@)
        } by {
            if j < before.len() {
                assert(days[j] == before[j]);
            }
        }
        assert forall|j: int, k: int| 0 <= j < k < days.len() implies (#[trigger] days[j]).index
            < (#[trigger] days[k]).index by {
            assert(days[j] == before[j]);
            if k < before.len() {
                assert(days[k] == before[k]);
            }
        }
    }
}

fn price_name(day: u8) -> (name: &'static str)
    requires
        1 <= day <= 10,
    ensures
        name@ == price_column(day as nat),
{
    if day == 1 {
        "Price_1"
    } else if day == 2 {
        "Price_2"
    } else if day == 3 {
        "Price_3"
    } else if day == 4 {
        "Price_4"
    } else if day == 5 {
        "Price_5"
    } else if day == 6 {
        "Price_6"
    } else if day == 7 {
        "Price_7"
    } else if day == 8 {
        "Price_8"
    } else if day == 9 {
        "Price_9"
    } else {
        "Price_10"
    }
}

fn volume_name(day: u8) -> (name: &'static str)
    requires
        1 <= day <= 10,
    ensures
        name@ == volume_column(day as nat),
{
    if day == 1 {
        "Volume_1"
    } else if day == 2 {
        "Volume_2"
    } else if day == 3 {
        "Volume_3"
    } else if day == 4 {
        "Volume_4"
    } else if day == 5 {
        "Volume_5"
    } else if day == 6 {
        "Volume_6"
    } else if day == 7 {
        "Volume_7"
    } else if day == 8 {
        "Volume_8"
    } else if day == 9 {
        "Volume_9"
    } else {
        "Volume_10"
    }
}

fn names_daily(name: &str) -> (daily: bool)
    ensures
        daily == is_daily(name@),
{
    let mut day: u8 = 1;
    while day <= 10
        invariant
            1 <= day <= 11,
            forall|seen: nat|
                1 <= seen < day ==> name@ != #[trigger] price_column(seen) && name@
                    != volume_column(seen),
        decreases 11 - day,
    {
        if same_text(name, price_name(day)) || same_text(name, volume_name(day)) {
            assert(name@ == price_column(day as nat) || name@ == volume_column(day as nat));
            return true;
        }
        assert(name@ != price_column(day as nat) && name@ != volume_column(day as nat));
        assert forall|seen: nat| 1 <= seen < day + 1 implies name@ != #[trigger] price_column(seen)
            && name@ != volume_column(seen) by {
            if seen == day {
                assert(seen == day as nat);
            }
        }
        day = day + 1;
    }
    false
}

fn names_known(name: &str) -> (known: bool)
    ensures
        known == is_known(name@),
{
    same_text(name, "Ticker") || same_text(name, "Nome") || same_text(name, "Sector") || same_text(
        name,
        "PriceSMA_EUR",
    ) || same_text(name, "VolumeAvg") || same_text(name, "Market Cap") || same_text(
        name,
        "PE Ratio (TTM)",
    ) || same_text(name, "EPS (TTM)") || same_text(name, "Open") || same_text(
        name,
        "Previous Close",
    ) || same_text(name, "Beta (5Y Monthly)") || names_daily(name)
}

/// The first column called `name`.
pub fn find_column(header: &Vec<String>, name: &str) -> (at: Option<usize>)
    ensures
        match at {
            Some(at) => column_of(field_views(header@), name@) == Some(at as int) && at
                < header.len(),
            None => column_of(field_views(header@), name@) is None,
        },
{
    let wanted = String::from_str(name);
    let mut i: usize = 0;
    while i < header.len()
        invariant
            i <= header.len(),
            wanted@ == name@,
            forall|before: int| 0 <= before < i ==> field_views(header@)[before] != name@,
        decreases header.len() - i,
    {
        if header[i] == wanted {
            proof {
                let views = field_views(header@);
                assert(is_first_column(views, name@, i as int));
                let chosen = choose|at: int| is_first_column(views, name@, at);
                assert(is_first_column(views, name@, chosen));
                assert(chosen == i);
            }
            return Some(i);
        }
        i = i + 1;
    }
    None
}

fn text_under(header: &Vec<String>, fields: &Vec<String>, name: &str) -> (value: Option<String>)
    ensures
        match value {
            Some(text) => filled(field_views(header@), field_views(fields@), name@) == Some(text@),
            None => filled(field_views(header@), field_views(fields@), name@) is None,
        },
{
    match find_column(header, name) {
        Some(at) => {
            if at < fields.len() && !fields[at].as_str().is_empty() {
                Some(fields[at].clone())
            } else {
                None
            }
        },
        None => None,
    }
}

fn text_or(header: &Vec<String>, fields: &Vec<String>, name: &str, fallback: &str) -> (value:
    String)
    ensures
        value@ == filled_or(field_views(header@), field_views(fields@), name@, fallback@),
{
    match text_under(header, fields, name) {
        Some(text) => text,
        None => String::from_str(fallback),
    }
}

fn days_of_row(header: &Vec<String>, fields: &Vec<String>) -> (days: Vec<Day>)
    ensures
        crate::document::day_views(days@) == days_upto(
            field_views(header@),
            field_views(fields@),
            10,
        ),
{
    let mut days: Vec<Day> = Vec::new();
    let mut day: u8 = 1;
    assert(crate::document::day_views(days@) == Seq::<DayView>::empty());
    while day <= 10
        invariant
            1 <= day <= 11,
            crate::document::day_views(days@) == days_upto(
                field_views(header@),
                field_views(fields@),
                (day - 1) as nat,
            ),
        decreases 11 - day,
    {
        let ghost before = crate::document::day_views(days@);
        match text_under(header, fields, price_name(day)) {
            Some(price) => {
                let volume = text_or(header, fields, volume_name(day), NO_VOLUME);
                days.push(
                    Day {
                        index: day,
                        currency: String::from_str(CURRENCY),
                        closing_price: price,
                        volume,
                    },
                );
                assert(crate::document::day_views(days@) == before.push(days@.last()@));
            },
            None => {},
        }
        day = day + 1;
    }
    days
}

/// The asset of one row.
pub fn asset_from_row(header: &Vec<String>, fields: &Vec<String>) -> (asset: Asset)
    ensures
        asset@ == asset_of(field_views(header@), field_views(fields@)),
        asset@.well_formed(),
{
    proof {
        days_follow_prices(field_views(header@), field_views(fields@), 10);
        reveal_strlit("");
        assert(""@ =~= Seq::<char>::empty());
    }
    Asset {
        ticker: text_or(header, fields, "Ticker", ""),
        name: text_or(header, fields, "Nome", ""),
        sector: text_or(header, fields, "Sector", ""),
        market_cap: text_or(header, fields, "Market Cap", ""),
        pe_ratio: text_or(header, fields, "PE Ratio (TTM)", ""),
        eps: text_or(header, fields, "EPS (TTM)", ""),
        open_price: text_or(header, fields, "Open", ""),
        prev_close: text_or(header, fields, "Previous Close", ""),
        beta: text_or(header, fields, "Beta (5Y Monthly)", ""),
        price_sma: text_or(header, fields, "PriceSMA_EUR", ""),
        average_volume: text_or(header, fields, "VolumeAvg", ""),
        days: days_of_row(header, fields),
    }
}

fn header_has_duplicate(header: &Vec<String>) -> (twice: bool)
    ensures
        twice == has_duplicate(field_views(header@)),
{
    let ghost views = field_views(header@);
    let mut i: usize = 0;
    while i < header.len()
        invariant
            i <= header.len(),
            views == field_views(header@),
            forall|a: int, b: int|
                0 <= a < i && a < b < header.len() ==> !(#[trigger] views[a] == #[trigger] views[b]
                    && is_known(views[a])),
        decreases header.len() - i,
    {
        if names_known(header[i].as_str()) {
            let mut j: usize = i + 1;
            while j < header.len()
                invariant
                    i < j <= header.len(),
                    i < header.len(),
                    views == field_views(header@),
                    is_known(views[i as int]),
                    forall|b: int| i < b < j ==> views[i as int] != views[b],
                decreases header.len() - j,
            {
                if header[j] == header[i] {
                    assert(views[i as int] == views[j as int]);
                    return true;
                }
                j = j + 1;
            }
        }
        i = i + 1;
    }
    false
}

fn header_lacks_required(header: &Vec<String>) -> (lacking: bool)
    ensures
        lacking == lacks_required(field_views(header@)),
{
    find_column(header, "Ticker").is_none() || find_column(header, "Nome").is_none()
        || find_column(header, "Sector").is_none() || find_column(header, "PriceSMA_EUR").is_none()
        || find_column(header, "VolumeAvg").is_none()
}

/// The assets of a table that was read already.
pub fn assets_from_table(records: &Vec<Option<Vec<String>>>) -> (assets: Result<
    Vec<Asset>,
    ConvertError,
>)
    ensures
        match assets {
            Ok(list) => table_assets(record_views(records@)) == Ok::<
                Seq<AssetView>,
                ConvertError,
            >(crate::document::asset_views(list@)),
            Err(error) => table_assets(record_views(records@)) == Err::<
                Seq<AssetView>,
                ConvertError,
            >(error),
        },
{
    let ghost views = record_views(records@);
    let mut assets: Vec<Asset> = Vec::new();
    assert(crate::document::asset_views(assets@) == Seq::<AssetView>::empty());
    if records.len() == 0 {
        return Ok(assets);
    }
    let header: &Vec<String> = match &records[0] {
        Some(header) => header,
        None => {
            assert(views[0] is None);
            return Err(ConvertError::MalformedCsv);
        },
    };
    assert(views[0] == Some(field_views(header@)));
    if records.len() == 1 {
        return Ok(assets);
    }
    let ghost head = field_views(header@);
    let ghost rows = views.skip(1);
    assert(rows[0] == record_view(records@[1]));
    match &records[1] {
        Some(fields) => {
            if fields.len() != header.len() {
                return Err(ConvertError::MalformedCsv);
            }
        },
        None => {
            return Err(ConvertError::MalformedCsv);
        },
    }
    if header_has_duplicate(header) {
        return Err(ConvertError::DuplicateColumn);
    }
    if header_lacks_required(header) {
        return Err(ConvertError::MissingColumn);
    }
    let mut i: usize = 1;
    while i < records.len()
        invariant
            1 <= i <= records.len(),
            views == record_views(records@),
            rows == views.skip(1),
            head == field_views(header@),
            views[0] == Some(head),
            fits(head, rows[0]),
            !has_duplicate(head),
            !lacks_required(head),
            assets.len() == i - 1,
            forall|k: int| 0 <= k < i - 1 ==> fits(head, #[trigger] rows[k]),
            forall|k: int|
                0 <= k < i - 1 ==> (#[trigger] crate::document::asset_views(assets@)[k])
                    == asset_of(head, rows[k]->0),
        decreases records.len() - i,
    {
        assert(rows[i - 1] == record_view(records@[i as int]));
        let ghost before = assets@;
        match &records[i] {
            Some(fields) => {
                if fields.len() != header.len() {
                    assert(!fits(head, rows[i - 1]));
                    return Err(ConvertError::MalformedCsv);
                }
                assets.push(asset_from_row(header, fields));
            },
            None => {
                assert(!fits(head, rows[i - 1]));
                return Err(ConvertError::MalformedCsv);
            },
        }
        assert forall|k: int| 0 <= k < i implies (#[trigger] crate::document::asset_views(
            assets@,
        )[k]) == asset_of(head, rows[k]->0) by {
            if k < i - 1 {
                assert(assets@[k] == before[k]);
                assert(crate::document::asset_views(before)[k] == asset_of(head, rows[k]->0));
            }
        }
        i = i + 1;
    }
    assert(crate::document::asset_views(assets@) =~= assets_of(head, rows));
    Ok(assets)
}

/// One document for the rows of a chunk.
pub fn report_from_table(
    records: &Vec<Option<Vec<String>>>,
    job_id: &str,
    chunk_id: u32,
    generated_at: &str,
) -> (report: Result<MarketReport, ConvertError>)
    ensures
        match report {
            Ok(report) => table_assets(record_views(records@)) == Ok::<
                Seq<AssetView>,
                ConvertError,
            >(report@.assets) && report@.job_id == job_id@ && report@.chunk_id == chunk_id
                && report@.generated_at == generated_at@,
            Err(error) => table_assets(record_views(records@)) == Err::<
                Seq<AssetView>,
                ConvertError,
            >(error),
        },
{
    match assets_from_table(records) {
        Ok(assets) => Ok(
            MarketReport {
                job_id: String::from_str(job_id),
                chunk_id,
                generated_at: String::from_str(generated_at),
                assets,
            },
        ),
        Err(error) => Err(error),
    }
}

pub open spec fn text_result(result: Result<String, ConvertError>) -> Result<
    Seq<char>,
    ConvertError,
> {
    match result {
        Ok(text) => Ok(text@),
        Err(error) => Err(error),
    }
}

/// Converts the tabular text of a chunk to the text of its report, generated
/// at the given moment.
pub fn convert_at(csv_data: &str, job_id: &str, chunk_id: u32, generated_at: &str) -> (xml: Result<
    String,
    ConvertError,
>)
    ensures
        text_result(xml) == conversion(csv_records(csv_data@), job_id@, chunk_id, generated_at@),
{
    let records = read_table(csv_data);
    match report_from_table(&records, job_id, chunk_id, generated_at) {
        Ok(report) => {
            assert(report@ == ReportView {
                job_id: job_id@,
                chunk_id,
                generated_at: generated_at@,
                assets: report@.assets,
            });
            Ok(report.to_xml())
        },
        Err(error) => Err(error),
    }
}

/// `chrono::Utc::now` written by `to_rfc3339`: the moment of the call.
/// Nothing is claimed of it.
#[verifier::external_body]
fn current_timestamp() -> String {
    chrono::Utc::now().to_rfc3339()
}

/// Converts the tabular text of a chunk to the text of its report, generated now.
///
/// Whether the chunk converts depends on the table alone. The text is the one
/// that `convert_at` gives for some moment.
pub fn convert_to_xml(csv_data: String, job_id: &str, chunk_id: u32) -> (xml: Result<
    String,
    ConvertError,
>)
    ensures
        match xml {
            Ok(text) => exists|generated_at: Seq<char>|
                #[trigger] conversion(csv_records(csv_data@), job_id@, chunk_id, generated_at)
                    == Ok::<Seq<char>, ConvertError>(text@),
            Err(error) => table_assets(csv_records(csv_data@)) == Err::<
                Seq<AssetView>,
                ConvertError,
            >(error),
        },
{
    let generated_at = current_timestamp();
    let xml = convert_at(csv_data.as_str(), job_id, chunk_id, generated_at.as_str());
    proof {
        let moment = generated_at@;
        assert(text_result(xml) == conversion(csv_records(csv_data@), job_id@, chunk_id, moment));
    }
    xml
}

} // verus!
