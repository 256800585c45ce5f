//! The text of the result file: its header, its data rows and its name.

use crate::decimal::{decimal, is_digit, lemma_decimal_is_numeral, push_decimal};
use vstd::prelude::*;
use vstd::string::StringExecFns;

verus! {

/// One data row of the result file, by its seven columns.
pub struct Row {
    pub recv_ts: nat,
    pub client_id: nat,
    pub msg_id: nat,
    pub server_created_at: nat,
    pub client_created_at: nat,
    pub client_latency: nat,
    pub server_latency: nat,
}

/// The line that a row occupies in the file: the seven columns as decimal
/// numerals, separated by commas and closed by a line feed.
pub open spec fn row_text(r: Row) -> Seq<char> {
    decimal(r.recv_ts) + seq![','] + decimal(r.client_id) + seq![','] + decimal(r.msg_id) + seq![
        ',',
    ] + decimal(r.server_created_at) + seq![','] + decimal(r.client_created_at) + seq![',']
        + decimal(r.client_latency) + seq![','] + decimal(r.server_latency) + seq!['\n']
}

/// Whether `line` is the text of some data row.
pub open spec fn is_data_row(line: Seq<char>) -> bool {
    exists|r: Row| line == #[trigger] row_text(r)
}

/// The header line of the result file, line feed included.
pub open spec fn header_text() -> Seq<char> {
    "timestamp,client_id,msg_id,server_created_at,client_created_at,client_latency,server_latency\n"@
}

/// The header line of the result file.
pub fn csv_header() -> (header: String)
    ensures
        header@ == header_text(),
{
    String::from_str(
        "timestamp,client_id,msg_id,server_created_at,client_created_at,client_latency,server_latency\n",
    )
}

/// The name of the result file of a run with these settings.
pub open spec fn file_name_text(n_clients: nat, batch_size: nat, n_batch: nat, wait_ms: nat) -> Seq<
    char,
> {
    "result_c"@ + decimal(n_clients) + "_b"@ + decimal(batch_size) + "_n"@ + decimal(n_batch)
        + "_w"@ + decimal(wait_ms) + ".csv"@
}

/// The name of the result file of a run with these settings:
/// `result_c{n_clients}_b{batch_size}_n{n_batch}_w{wait_ms}.csv`.
pub fn result_file_name(n_clients: usize, batch_size: usize, n_batch: usize, wait_ms: usize) -> (name:
    String)
    ensures
        name@ == file_name_text(
            n_clients as nat,
            batch_size as nat,
            n_batch as nat,
            wait_ms as nat,
        ),
{
    let mut name = String::from_str("result_c");
    push_decimal(&mut name, n_clients as u128);
    name.append("_b");
    push_decimal(&mut name, batch_size as u128);
    name.append("_n");
    push_decimal(&mut name, n_batch as u128);
    name.append("_w");
    push_decimal(&mut name, wait_ms as u128);
    name.append(".csv");
    name
}

/// Writes the line of the row with these columns at the end of `out`.
pub fn push_row(
    out: &mut String,
    recv_ts: u128,
    client_id: u128,
    msg_id: u128,
    server_created_at: u128,
    client_created_at: u128,
    client_latency: u128,
    server_latency: u128,
)
    ensures
        final(out)@ == old(out)@ + row_text(
            Row {
                recv_ts: recv_ts as nat,
                client_id: client_id as nat,
                msg_id: msg_id as nat,
                server_created_at: server_created_at as nat,
                client_created_at: client_created_at as nat,
                client_latency: client_latency as nat,
                server_latency: server_latency as nat,
            },
        ),
{
    push_decimal(out, recv_ts);
    out.push(',');
    push_decimal(out, client_id);
    out.push(',');
    push_decimal(out, msg_id);
    out.push(',');
    push_decimal(out, server_created_at);
    out.push(',');
    push_decimal(out, client_created_at);
    out.push(',');
    push_decimal(out, client_latency);
    out.push(',');
    push_decimal(out, server_latency);
    out.push('\n');
}


/// A data row is one line: it ends with a line feed and holds no other,
/// and everything before that is a digit or a comma.
pub proof fn lemma_row_is_one_line(r: Row)
    ensures
        row_text(r).len() >= 14,
        row_text(r).last() == '\n',
        forall|i: int|
            0 <= i < row_text(r).len() - 1 ==> is_digit(#[trigger] row_text(r)[i]) || row_text(
                r,
            )[i] == ',',
{
    lemma_decimal_is_numeral(r.recv_ts);
    lemma_decimal_is_numeral(r.client_id);
    lemma_decimal_is_numeral(r.msg_id);
    lemma_decimal_is_numeral(r.server_created_at);
    lemma_decimal_is_numeral(r.client_created_at);
    lemma_decimal_is_numeral(r.client_latency);
    lemma_decimal_is_numeral(r.server_latency);
}

} // verus!
