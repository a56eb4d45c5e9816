//! The vocabulary file: one token per line, its bytes in base64, a space, its
//! rank in decimal.

use crate::tokenizer::codec::{base64_decode, is_utf8, standard_base64};
use crate::tokenizer::decimal::{parse_rank, rank_error_text, rank_of};
use crate::tokenizer::ranks::{
    rank_table_contents, rank_table_insert, rank_table_new, RankMap, RankTable,
};
use crate::search::{lemma_next_index_of, next_index_of};
use crate::tokenizer::scan::find_byte;
use vstd::prelude::*;
use vstd::slice::slice_subrange;
use vstd::string::*;
use vstd::utf8::valid_utf8;

verus! {

/// The byte that ends a line.
pub const LINE_FEED: u8 = 10;

/// The byte that may stand before the end of a line.
pub const CARRIAGE_RETURN: u8 = 13;

/// The byte that separates the fields of a line.
pub const SPACE: u8 = 32;

/// What is reported for a line that is no UTF-8.
pub open spec fn invalid_utf8_text() -> Seq<char> {
    "stream did not contain valid UTF-8"@
}

/// What is reported for a line without a second field.
pub open spec fn missing_rank_text() -> Seq<char> {
    "Missing rank"@
}

/// The token and rank that two fields give: the token field as base64 made
/// of it, the rank field if the line has one. A token that did not decode is
/// reported before a rank that is missing.
pub open spec fn entry_of(token: Result<Seq<u8>, Seq<char>>, rank_field: Option<Seq<u8>>) -> Result<
    (Seq<u8>, u32),
    Seq<char>,
> {
    match token {
        Err(text) => Err(text),
        Ok(bytes) => match rank_field {
            None => Err(missing_rank_text()),
            Some(field) => match rank_of(field) {
                Err(error) => Err(rank_error_text(error)),
                Ok(rank) => Ok((bytes, rank)),
            },
        },
    }
}

/// The token and rank that a line gives, or the text of what is wrong with
/// it. The fields are separated by single spaces; a third field and what
/// follows it are not read.
pub open spec fn line_entry(line: Seq<u8>) -> Result<(Seq<u8>, u32), Seq<char>> {
    let token_end = next_index_of(line, 0, SPACE);
    let rank_end = next_index_of(line, token_end + 1, SPACE);
    if !valid_utf8(line) {
        Err(invalid_utf8_text())
    } else {
        entry_of(
            standard_base64(line.subrange(0, token_end)),
            if token_end == line.len() {
                None
            } else {
                Some(line.subrange(token_end + 1, rank_end))
            },
        )
    }
}

/// The line that starts at `start` and runs to `end`, where the next line feed
/// or the end of the file is. A carriage return directly before the line feed
/// does not belong to it.
pub open spec fn line_content(bytes: Seq<u8>, start: int, end: int) -> Seq<u8> {
    if start < end < bytes.len() && bytes[end - 1] == CARRIAGE_RETURN {
        bytes.subrange(start, end - 1)
    } else {
        bytes.subrange(start, end)
    }
}

/// The vocabulary that the lines from `start` on add to `ranks`, each line
/// replacing what an earlier one said of the same token; or the text of the
/// first line that is wrong.
pub open spec fn vocabulary_from(bytes: Seq<u8>, start: int, ranks: RankMap) -> Result<
    RankMap,
    Seq<char>,
>
    decreases bytes.len() + 1 - start,
    via vocabulary_from_decreases
{
    if start < 0 || start >= bytes.len() {
        Ok(ranks)
    } else {
        let end = next_index_of(bytes, start, LINE_FEED);
        match line_entry(line_content(bytes, start, end)) {
            Err(text) => Err(text),
            Ok(entry) => vocabulary_from(bytes, end + 1, ranks.insert(entry.0, entry.1)),
        }
    }
}

#[via_fn]
proof fn vocabulary_from_decreases(bytes: Seq<u8>, start: int, ranks: RankMap) {
    if 0 <= start < bytes.len() {
        lemma_next_index_of(bytes, start, LINE_FEED);
    }
}

/// The vocabulary of a file.
pub open spec fn vocabulary_of(bytes: Seq<u8>) -> Result<RankMap, Seq<char>> {
    vocabulary_from(bytes, 0, Map::empty())
}

/// Which single bytes are tokens of `ranks`.
pub open spec fn marks_single_bytes(single: Seq<bool>, ranks: RankMap) -> bool {
    &&& single.len() == 256
    &&& forall|byte: u8| single[byte as int] == ranks.contains_key(seq![byte])
}

/// A vocabulary as it is read: the table of ranks, and for each byte whether
/// it is a token by itself.
pub struct Vocabulary {
    pub table: RankTable,
    pub single: Vec<bool>,
}

impl Vocabulary {
    /// The ranks it holds.
    pub open spec fn ranks(&self) -> RankMap {
        rank_table_contents(self.table)
    }

    /// What `read_vocabulary` gives: a finite table, and marks that are true
    /// of it.
    pub open spec fn wf(&self) -> bool {
        &&& self.ranks().dom().finite()
        &&& marks_single_bytes(self.single@, self.ranks())
    }
}

/// Makes an entry of a decoded token field and a rank field.
pub fn entry_from_fields(token: Result<Vec<u8>, String>, rank_field: Option<&[u8]>) -> (entry:
    Result<(Vec<u8>, u32), String>)
    ensures
        token is Err ==> entry is Err && entry->Err_0@ == token->Err_0@,
        token is Ok && rank_field is None ==> entry is Err && entry->Err_0@ == missing_rank_text(),
        token is Ok && rank_field is Some ==> match rank_of(rank_field->Some_0@) {
            Ok(rank) => entry is Ok && entry->Ok_0.0@ == token->Ok_0@ && entry->Ok_0.1 == rank,
            Err(error) => entry is Err && entry->Err_0@ == rank_error_text(error),
        },
{
    let bytes = match token {
        Ok(bytes) => bytes,
        Err(text) => {
            return Err(text);
        },
    };
    let field = match rank_field {
        Some(field) => field,
        None => {
            return Err(String::from_str("Missing rank"));
        },
    };
    match parse_rank(field) {
        Ok(rank) => Ok((bytes, rank)),
        Err(error) => Err(error.message()),
    }
}

/// Reads one line.
pub fn parse_line(line: &[u8]) -> (entry: Result<(Vec<u8>, u32), String>)
    ensures
        match line_entry(line@) {
            Ok(pair) => entry is Ok && entry->Ok_0.0@ == pair.0 && entry->Ok_0.1 == pair.1,
            Err(text) => entry is Err && entry->Err_0@ == text,
        },
{
    if !is_utf8(line) {
        return Err(String::from_str("stream did not contain valid UTF-8"));
    }
    let token_end = find_byte(line, 0, SPACE);
    let token = base64_decode(slice_subrange(line, 0, token_end));
    if token_end == line.len() {
        entry_from_fields(token, None)
    } else {
        let rank_end = find_byte(line, token_end + 1, SPACE);
        entry_from_fields(token, Some(slice_subrange(line, token_end + 1, rank_end)))
    }
}

/// Reads a vocabulary file.
pub fn read_vocabulary(bytes: &[u8]) -> (out: Result<Vocabulary, String>)
    ensures
        match vocabulary_of(bytes@) {
            Ok(ranks) => out is Ok && out->Ok_0.ranks() == ranks && out->Ok_0.wf(),
            Err(text) => out is Err && out->Err_0@ == text,
        },
{
    let mut table = rank_table_new();
    let mut single: Vec<bool> = Vec::new();
    let mut byte: usize = 0;
    while byte < 256
        invariant
            byte <= 256,
            single@.len() == byte,
            forall|i: int| 0 <= i < byte ==> !single@[i],
        decreases 256 - byte,
    {
        single.push(false);
        byte = byte + 1;
    }
    let mut start: usize = 0;
    while start < bytes.len()
        invariant
            start <= bytes.len(),
            rank_table_contents(table).dom().finite(),
            marks_single_bytes(single@, rank_table_contents(table)),
            vocabulary_from(bytes@, start as int, rank_table_contents(table)) == vocabulary_of(
                bytes@,
            ),
        decreases bytes.len() - start,
    {
        let end = find_byte(bytes, start, LINE_FEED);
        let stop = if start < end && end < bytes.len() && bytes[end - 1] == CARRIAGE_RETURN {
            end - 1
        } else {
            end
        };
        let (token, rank) = match parse_line(slice_subrange(bytes, start, stop)) {
            Ok(entry) => entry,
            Err(text) => {
                return Err(text);
            },
        };
        let ghost before = rank_table_contents(table);
        if token.len() == 1 {
            single.set(token[0] as usize, true);
        }
        proof {
            assert forall|b: u8| single@[b as int] == before.insert(token@, rank).contains_key(
                seq![b],
            ) by {
                if token@.len() == 1 && token@[0] == b {
                    assert(token@ =~= seq![b]);
                } else if before.insert(token@, rank).contains_key(seq![b]) && !before.contains_key(
                    seq![b],
                ) {
                    assert(token@ == seq![b]);
                    assert(seq![b][0] == b);
                }
            }
        }
        rank_table_insert(&mut table, token, rank);
        proof {
            let after = rank_table_contents(table);
            assert(bytes@.subrange(start as int, stop as int) == line_content(
                bytes@,
                start as int,
                end as int,
            ));
            if end == bytes.len() {
                assert(vocabulary_from(bytes@, end + 1, after) == vocabulary_from(
                    bytes@,
                    end as int,
                    after,
                ));
            }
        }
        start = if end < bytes.len() { end + 1 } else { end };
    }
    Ok(Vocabulary { table, single })
}

} // verus!
