//! Tabular input: the records of a delimited text, read by the `csv` crate.

use vstd::prelude::*;

verus! {

/// What one read of a table gives.
#[derive(Debug, PartialEq, Eq)]
pub enum TableRead {
    /// The fields of the next record.
    Record(Vec<String>),
    /// A record that the reader refused; reading can go on behind it.
    Malformed,
    /// The table has ended.
    End,
}

pub open spec fn field_views(fields: Seq<String>) -> Seq<Seq<char>> {
    Seq::new(fields.len(), |i: int| fields[i]@)
}

pub open spec fn record_view(record: Option<Vec<String>>) -> Option<Seq<Seq<char>>> {
    match record {
        Some(fields) => Some(field_views(fields@)),
        None => None,
    }
}

pub open spec fn record_views(records: Seq<Option<Vec<String>>>) -> Seq<Option<Seq<Seq<char>>>> {
    Seq::new(records.len(), |i: int| record_view(records[i]))
}

/// The records of a text, the header line among them as the first: what
/// `csv::Reader::read_record` returns one after the other on a reader over the
/// text that treats no line as a header. `None` stands for a record that the
/// reader refused.
pub uninterp spec fn csv_records(text: Seq<char>) -> Seq<Option<Seq<Seq<char>>>>;

/// The records that a reader has yet to yield.
pub uninterp spec fn pending_records(reader: &csv::Reader<&[u8]>) -> Seq<
    Option<Seq<Seq<char>>>,
>;

/// `csv::Reader`: a reader is carried through as it is; nothing inside it is
/// looked at.
#[verifier::external_type_specification]
#[verifier::external_body]
#[verifier::reject_recursive_types(R)]
pub struct ExCsvReader<R>(csv::Reader<R>);

/// `csv::ReaderBuilder::from_reader` with `has_headers(false)`: a reader at
/// the start of `text`. All that is claimed is that what it will yield
/// depends on the text alone.
#[verifier::external_body]
fn open_table<'a>(text: &'a str) -> (reader: csv::Reader<&'a [u8]>)
    ensures
        pending_records(&reader) == csv_records(text@),
{
    csv::ReaderBuilder::new().has_headers(false).from_reader(text.as_bytes())
}

/// `csv::Reader::read_record`: the next record, taken off what is pending, with
/// its fields as owned strings. A reader with nothing pending reports the end.
#[verifier::external_body]
fn next_record(reader: &mut csv::Reader<&[u8]>) -> (read: TableRead)
    ensures
        pending_records(old(reader)).len() == 0 ==> read is End && pending_records(final(reader))
            == pending_records(old(reader)),
        pending_records(old(reader)).len() > 0 ==> pending_records(final(reader))
            == pending_records(old(reader)).skip(1) && match read {
            TableRead::Record(fields) => pending_records(old(reader))[0] == Some(
                field_views(fields@),
            ),
            TableRead::Malformed => pending_records(old(reader))[0] is None,
            TableRead::End => false,
        },
{
    let mut record = csv::StringRecord::new();
    match reader.read_record(&mut record) {
        Ok(true) => TableRead::Record(record.iter().map(String::from).collect()),
        Ok(false) => TableRead::End,
        Err(_) => TableRead::Malformed,
    }
}

/// Reads every record of a delimited text.
pub fn read_table(text: &str) -> (records: Vec<Option<Vec<String>>>)
    ensures
        record_views(records@) == csv_records(text@),
{
    let mut reader = open_table(text);
    let mut records: Vec<Option<Vec<String>>> = Vec::new();
    let ghost all = csv_records(text@);
    assert(all.skip(0) == all);
    loop
        invariant
            all == csv_records(text@),
            records.len() <= all.len(),
            pending_records(&reader) == all.skip(records.len() as int),
            record_views(records@) == all.take(records.len() as int),
        decreases pending_records(&reader).len(),
    {
        let ghost before = records@;
        let ghost n = records.len() as int;
        match next_record(&mut reader) {
            TableRead::Record(fields) => {
                records.push(Some(fields));
            },
            TableRead::Malformed => {
                records.push(None);
            },
            TableRead::End => {
                assert(all.take(n) == all);
                return records;
            },
        }
        assert(all.skip(n)[0] == all[n]);
        assert(all.skip(n).skip(1) == all.skip(n + 1));
        assert(record_views(records@) =~= all.take(n + 1)) by {
            assert forall|i: int| 0 <= i < n + 1 implies record_views(records@)[i] == all.take(
                n + 1,
            )[i] by {
                if i < n {
                    assert(records@[i] == before[i]);
                    assert(record_views(before)[i] == all.take(n)[i]);
                }
            }
        }
    }
}

} // verus!
