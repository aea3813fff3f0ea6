//! Retrieving the data of a topic.

use vstd::prelude::*;
use vstd::utf8::{decode_utf8, valid_utf8};
use crate::repo::sql_models::records::TopicStats;
use crate::server::errors::ServerError;

verus! {

/// The text that the bytes spell in UTF-8, as `String::from_utf8` reads it:
/// the characters that the bytes encode; where the bytes are not UTF-8, the
/// message of the decoder's error.
#[verifier::external_body]
fn utf8_text(bytes: Vec<u8>) -> (r: Result<String, String>)
    ensures
        r is Ok <==> valid_utf8(bytes@),
        r matches Ok(s) ==> s@ == decode_utf8(bytes@),
{
    match String::from_utf8(bytes) {
        Ok(s) => Ok(s),
        Err(e) => Err(e.to_string()),
    }
}

/// The topic that a ticket names: the ticket as text. A ticket that is not
/// UTF-8 is a bad ticket, with what the decoder says of it.
pub fn ticket_topic(ticket: Vec<u8>) -> (r: Result<String, ServerError>)
    ensures
        match r {
            Ok(topic) => valid_utf8(ticket@) && topic@ == decode_utf8(ticket@),
            Err(e) => !valid_utf8(ticket@) && e is BadTicket,
        },
{
    match utf8_text(ticket) {
        Ok(topic) => Ok(topic),
        Err(reason) => Err(ServerError::BadTicket(reason)),
    }
}

/// The number of rows that fill a message of `target` bytes, for a topic
/// of `size` bytes in `rows` rows: the rows of `target` bytes at the mean
/// row size, rounded down, and at least one; capped where the machine's
/// integers end.
pub open spec fn batch_rows(target: int, rows: int, size: int) -> int {
    let n = (target * rows) / size;
    if n < 1 {
        1
    } else if n > usize::MAX {
        usize::MAX as int
    } else {
        n
    }
}

/// The number of rows to ask the engine for in each batch, so that a
/// message comes near the target size. For a topic without rows or
/// without bytes the engine is left to its default.
pub fn compute_optimal_batch_size(stats: &TopicStats, target_size: usize) -> (r: Option<usize>)
    ensures
        stats.total_size_bytes <= 0 || stats.total_row_count <= 0 ==> r is None,
        stats.total_size_bytes > 0 && stats.total_row_count > 0 ==> r == Some(
            batch_rows(
                target_size as int,
                stats.total_row_count as int,
                stats.total_size_bytes as int,
            ) as usize,
        ),
{
    if stats.total_size_bytes <= 0 || stats.total_row_count <= 0 {
        return None;
    }
    let target: u128 = target_size as u128;
    let rows: u128 = stats.total_row_count as u128;
    let size: u128 = stats.total_size_bytes as u128;
    assert(target * rows <= 0xFFFF_FFFF_FFFF_FFFF * 0x7FFF_FFFF_FFFF_FFFF) by (nonlinear_arith)
        requires
            target <= 0xFFFF_FFFF_FFFF_FFFF,
            rows <= 0x7FFF_FFFF_FFFF_FFFF,
    ;
    let n: u128 = (target * rows) / size;
    if n < 1 {
        Some(1)
    } else if n > usize::MAX as u128 {
        Some(usize::MAX)
    } else {
        Some(n as usize)
    }
}

} // verus!
