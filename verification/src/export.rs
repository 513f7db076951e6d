//! The export serializer: a finished sequence of records turned into
//! CSV rows and bytes. Stateless; writing the bytes anywhere is the
//! caller's business.

use vstd::prelude::*;
use crate::record::PacketRecord;
use crate::strutil::{spec_decimal, u64_string};

verus! {

/// The eleven CSV column names, in their fixed order.
pub open spec fn spec_csv_header() -> Seq<Seq<char>> {
    seq![
        "timestamp"@,
        "packet_number"@,
        "src_ip"@,
        "dst_ip"@,
        "protocol"@,
        "src_port"@,
        "dst_port"@,
        "packet_size"@,
        "flags"@,
        "application_protocol"@,
        "description"@,
    ]
}

/// What the timestamp column holds for a given capture time.
pub uninterp spec fn rfc3339_of(millis: u64) -> Seq<char>;

/// Relies on chrono's `DateTime::<Utc>::from_timestamp_millis` and
/// `to_rfc3339`: the rendering depends on the timestamp alone. A
/// timestamp outside chrono's representable range renders as the empty
/// string instead of failing.
#[verifier::external_body]
fn rfc3339_utc(millis: u64) -> (r: String)
    ensures
        r@ == rfc3339_of(millis),
{
    if millis <= i64::MAX as u64 {
        match chrono::DateTime::<chrono::Utc>::from_timestamp_millis(millis as i64) {
            Some(dt) => dt.to_rfc3339(),
            None => String::new(),
        }
    } else {
        String::new()
    }
}

/// The header row.
pub fn csv_header() -> (r: Vec<String>)
    ensures
        r.deep_view() == spec_csv_header(),
{
    let mut r: Vec<String> = Vec::new();
    r.push("timestamp".to_owned());
    r.push("packet_number".to_owned());
    r.push("src_ip".to_owned());
    r.push("dst_ip".to_owned());
    r.push("protocol".to_owned());
    r.push("src_port".to_owned());
    r.push("dst_port".to_owned());
    r.push("packet_size".to_owned());
    r.push("flags".to_owned());
    r.push("application_protocol".to_owned());
    r.push("description".to_owned());
    proof {
        assert(r.deep_view() =~~= spec_csv_header());
    }
    r
}

/// An optional text cell: the text, or the empty string.
pub open spec fn spec_opt_text(s: Option<String>) -> Seq<char> {
    match s {
        Some(text) => text@,
        None => Seq::empty(),
    }
}

/// An optional port cell: the port in decimal, or the empty string.
pub open spec fn spec_opt_port(p: Option<u16>) -> Seq<char> {
    match p {
        Some(port) => spec_decimal(port as int),
        None => Seq::empty(),
    }
}

/// The eleven cells of one record's CSV row: absent optional fields
/// serialize to empty cells.
pub open spec fn spec_csv_row(r: PacketRecord) -> Seq<Seq<char>> {
    seq![
        rfc3339_of(r.timestamp_millis),
        spec_decimal(r.packet_number as int),
        spec_opt_text(r.src_ip),
        spec_opt_text(r.dst_ip),
        r.protocol@,
        spec_opt_port(r.src_port),
        spec_opt_port(r.dst_port),
        spec_decimal(r.packet_size as int),
        spec_opt_text(r.flags),
        spec_opt_text(r.application_protocol),
        r.description@,
    ]
}

fn opt_text_cell(s: &Option<String>) -> (r: String)
    ensures
        r@ == spec_opt_text(*s),
{
    match s {
        Some(text) => text.clone(),
        None => String::new(),
    }
}

fn opt_port_cell(p: Option<u16>) -> (r: String)
    ensures
        r@ == spec_opt_port(p),
{
    match p {
        Some(port) => u64_string(port as u64),
        None => String::new(),
    }
}

/// One record's CSV row.
pub fn csv_row(r: &PacketRecord) -> (row: Vec<String>)
    ensures
        row.deep_view() == spec_csv_row(*r),
{
    let mut row: Vec<String> = Vec::new();
    row.push(rfc3339_utc(r.timestamp_millis));
    row.push(u64_string(r.packet_number as u64));
    row.push(opt_text_cell(&r.src_ip));
    row.push(opt_text_cell(&r.dst_ip));
    row.push(r.protocol.clone());
    row.push(opt_port_cell(r.src_port));
    row.push(opt_port_cell(r.dst_port));
    row.push(u64_string(r.packet_size as u64));
    row.push(opt_text_cell(&r.flags));
    row.push(opt_text_cell(&r.application_protocol));
    row.push(r.description.clone());
    proof {
        assert(row.deep_view() =~~= spec_csv_row(*r));
    }
    row
}

/// The whole table: the header row, then one row of eleven cells per
/// record, in order, with absent optional fields as empty cells.
pub fn to_csv_rows(records: &Vec<PacketRecord>) -> (rows: Vec<Vec<String>>)
    ensures
        rows.len() == records.len() + 1,
        rows[0].deep_view() == spec_csv_header(),
        forall|i: int|
            0 <= i < records.len() ==> (#[trigger] rows[i + 1].deep_view()) == spec_csv_row(
                records[i],
            ),
        forall|i: int| 0 <= i < rows.len() ==> (#[trigger] rows[i]).len() == 11,
{
    let mut rows: Vec<Vec<String>> = Vec::new();
    let header = csv_header();
    proof {
        assert(header@.len() == header.deep_view().len());
        assert(header.deep_view().len() == 11);
    }
    rows.push(header);
    let n = records.len();
    let mut i: usize = 0;
    while i < n
        invariant
            i <= n,
            n == records.len(),
            rows.len() == i + 1,
            rows[0].deep_view() == spec_csv_header(),
            forall|j: int|
                0 <= j < i ==> (#[trigger] rows[j + 1].deep_view()) == spec_csv_row(records[j]),
            forall|j: int| 0 <= j < rows.len() ==> (#[trigger] rows[j]).len() == 11,
        decreases n - i,
    {
        let row = csv_row(&records[i]);
        proof {
            assert(row@.len() == row.deep_view().len());
            assert(row.deep_view().len() == 11);
        }
        rows.push(row);
        i = i + 1;
    }
    rows
}

/// What one row encodes to.
pub uninterp spec fn csv_line_of(cells: Seq<Seq<char>>) -> Seq<u8>;

/// Relies on `csv::Writer` with its defaults (comma separator, `\n`
/// terminator, minimal quoting) writing one record to an in-memory
/// buffer: the encoding of a row depends on its cells alone. With a
/// `Vec<u8>` sink and a single record per writer, neither
/// `write_record` nor `into_inner` can fail.
#[verifier::external_body]
fn csv_line_bytes(row: &Vec<String>) -> (r: Vec<u8>)
    ensures
        r@ == csv_line_of(row.deep_view()),
{
    let mut w = csv::Writer::from_writer(Vec::new());
    match w.write_record(row) {
        Ok(()) => {},
        Err(_) => return Vec::new(),
    }
    match w.into_inner() {
        Ok(buf) => buf,
        Err(_) => Vec::new(),
    }
}

/// The encoded lines of a record sequence, without the header.
pub open spec fn spec_csv_lines(records: Seq<PacketRecord>) -> Seq<u8>
    decreases records.len(),
{
    if records.len() == 0 {
        Seq::empty()
    } else {
        spec_csv_lines(records.drop_last()) + csv_line_of(spec_csv_row(records.last()))
    }
}

/// The whole encoded table: the header line, then one line per record.
pub open spec fn spec_csv_bytes(records: Seq<PacketRecord>) -> Seq<u8> {
    csv_line_of(spec_csv_header()) + spec_csv_lines(records)
}

/// Encodes a finished record sequence as CSV bytes: the header line,
/// then one line per record in order.
pub fn export_to_csv_bytes(records: &Vec<PacketRecord>) -> (out: Vec<u8>)
    ensures
        out@ == spec_csv_bytes(records@),
{
    let header = csv_header();
    let mut out = csv_line_bytes(&header);
    let n = records.len();
    let mut i: usize = 0;
    while i < n
        invariant
            i <= n,
            n == records.len(),
            out@ == csv_line_of(spec_csv_header()) + spec_csv_lines(records@.take(i as int)),
        decreases n - i,
    {
        let row = csv_row(&records[i]);
        let mut line = csv_line_bytes(&row);
        out.append(&mut line);
        proof {
            assert(records@.take(i + 1).drop_last() =~= records@.take(i as int));
            assert(records@.take(i + 1).last() == records@[i as int]);
            assert(out@ =~= csv_line_of(spec_csv_header()) + spec_csv_lines(
                records@.take(i + 1),
            ));
        }
        i = i + 1;
    }
    proof {
        assert(records@.take(n as int) =~= records@);
    }
    out
}

} // verus!
