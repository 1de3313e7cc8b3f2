use vstd::prelude::*;

use crate::amount::{
    btc_fixed_text, btc_text, decimal, denoted_sat, format_btc, format_btc_fixed, is_digit,
    lemma_btc_text_round_trip, BTC_DECIMALS,
};
use crate::classify::Classification;

verus! {

/// Regtest block subsidy, in satoshis, of the coinbase output that funds the
/// transfer: 50 BTC.
pub const COINBASE_SUBSIDY_SAT: u64 = 5_000_000_000;

/// The ten facts written about a confirmed transfer.
pub struct ReportRecord {
    pub txid: String,
    pub sender_input_address: String,
    pub sender_input_amount_sat: u64,
    pub recipient_address: String,
    pub recipient_amount_sat: u64,
    pub change_address: String,
    pub change_amount_sat: u64,
    pub fee_sat: u64,
    pub confirmation_height: u64,
    pub confirmation_block_hash: String,
}

/// `s` as one line of text.
pub open spec fn line(s: Seq<char>) -> Seq<char> {
    s.push('\n')
}

/// How a change amount is written: with all eight decimals, but `0.0` where
/// there is no change.
pub open spec fn change_text(sat: nat) -> Seq<char> {
    if sat == 0 {
        btc_text(0)
    } else {
        btc_fixed_text(sat)
    }
}

/// The ten lines of the report, in order.
pub open spec fn report_lines(r: ReportRecord) -> Seq<Seq<char>> {
    seq![
        r.txid@,
        r.sender_input_address@,
        btc_text(r.sender_input_amount_sat as nat),
        r.recipient_address@,
        btc_text(r.recipient_amount_sat as nat),
        r.change_address@,
        change_text(r.change_amount_sat as nat),
        btc_fixed_text(r.fee_sat as nat),
        decimal(r.confirmation_height as nat),
        r.confirmation_block_hash@,
    ]
}

/// The report's text: each of its lines followed by a newline.
pub open spec fn report_text(r: ReportRecord) -> Seq<char> {
    line(report_lines(r)[0]) + line(report_lines(r)[1]) + line(report_lines(r)[2]) + line(
        report_lines(r)[3],
    ) + line(report_lines(r)[4]) + line(report_lines(r)[5]) + line(report_lines(r)[6]) + line(
        report_lines(r)[7],
    ) + line(report_lines(r)[8]) + line(report_lines(r)[9])
}

fn append_line(s: &mut String, text: &str)
    ensures
        final(s)@ == old(s)@ + line(text@),
{
    s.append(text);
    s.append("\n");
    proof {
        reveal_strlit("\n");
        assert(final(s)@ =~= old(s)@ + line(text@));
    }
}

/// Assembles the record of a transfer of `requested_sat` satoshis, spent from
/// a coinbase output of `sender_input_sat` at `sender_address`, whose outputs
/// were classified as `outputs`, with its fee and the block that confirmed it.
/// The recipient amount written is the amount requested.
pub fn build_report(
    txid: String,
    sender_address: String,
    sender_input_sat: u64,
    requested_sat: u64,
    outputs: Classification,
    fee_sat: u64,
    confirmation_height: u64,
    confirmation_block_hash: String,
) -> (r: ReportRecord)
    ensures
        r.txid@ == txid@,
        r.sender_input_address@ == sender_address@,
        r.sender_input_amount_sat == sender_input_sat,
        r.recipient_address@ == outputs.recipient_address@,
        r.recipient_amount_sat == requested_sat,
        r.change_address@ == outputs.change_address@,
        r.change_amount_sat == outputs.change_amount_sat,
        r.fee_sat == fee_sat,
        r.confirmation_height == confirmation_height,
        r.confirmation_block_hash@ == confirmation_block_hash@,
{
    ReportRecord {
        txid,
        sender_input_address: sender_address,
        sender_input_amount_sat: sender_input_sat,
        recipient_address: outputs.recipient_address,
        recipient_amount_sat: requested_sat,
        change_address: outputs.change_address,
        change_amount_sat: outputs.change_amount_sat,
        fee_sat,
        confirmation_height,
        confirmation_block_hash,
    }
}

/// Writes the change amount of a report.
pub fn format_change(sat: u64) -> (r: String)
    ensures
        r@ == change_text(sat as nat),
{
    if sat == 0 {
        format_btc(0)
    } else {
        format_btc_fixed(sat)
    }
}

/// Writes the height of the confirming block.
pub fn format_height(height: u64) -> (r: String)
    ensures
        r@ == decimal(height as nat),
{
    let mut s = String::new();
    crate::amount::append_decimal(&mut s, height);
    s
}

/// Renders the report: its ten fields in fixed order, one per line, each line
/// ended by a newline.
pub fn render_report(record: &ReportRecord) -> (r: String)
    ensures
        r@ == report_text(*record),
{
    let mut s = String::new();
    append_line(&mut s, record.txid.as_str());
    append_line(&mut s, record.sender_input_address.as_str());
    let input = format_btc(record.sender_input_amount_sat);
    append_line(&mut s, input.as_str());
    append_line(&mut s, record.recipient_address.as_str());
    let sent = format_btc(record.recipient_amount_sat);
    append_line(&mut s, sent.as_str());
    append_line(&mut s, record.change_address.as_str());
    let change = format_change(record.change_amount_sat);
    append_line(&mut s, change.as_str());
    let fee = format_btc_fixed(record.fee_sat);
    append_line(&mut s, fee.as_str());
    let height = format_height(record.confirmation_height);
    append_line(&mut s, height.as_str());
    append_line(&mut s, record.confirmation_block_hash.as_str());
    s
}

/// The recipient line of a report reads back, to the eighth decimal, as the
/// amount requested for the transfer (which `build_report` puts in the
/// record).
pub proof fn lemma_recipient_line_round_trip(requested_sat: u64, record: ReportRecord)
    requires
        record.recipient_amount_sat == requested_sat,
    ensures
        exists|whole: Seq<char>, frac: Seq<char>|
            {
                &&& report_lines(record)[4] == whole + seq!['.'] + frac
                &&& 1 <= frac.len() <= BTC_DECIMALS
                &&& forall|i: int| 0 <= i < whole.len() ==> is_digit(#[trigger] whole[i])
                &&& forall|i: int| 0 <= i < frac.len() ==> is_digit(#[trigger] frac[i])
                &&& denoted_sat(whole, frac) == requested_sat
            },
{
    lemma_btc_text_round_trip(requested_sat);
}

} // verus!
