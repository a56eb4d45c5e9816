//! The byte-pair encoder of `tiktoken_rs`.

use crate::tokenizer::ranks::{one_token_per_rank, rank_table_contents, RankMap, RankTable};
use rustc_hash::FxHashMap;
use tiktoken_rs::CoreBPE;
use vstd::prelude::*;
use vstd::string::*;

verus! {

/// `tiktoken_rs::CoreBPE`: held and handed on, never looked into.
#[verifier::external_type_specification]
#[verifier::external_body]
pub struct ExCoreBPE(CoreBPE);

/// Special token names to their ids.
pub type SpecialMap = Map<Seq<char>, u32>;

/// The mergeable ranks an encoder was built from.
pub uninterp spec fn bpe_ranks(bpe: CoreBPE) -> RankMap;

/// The special tokens an encoder was built from.
pub uninterp spec fn bpe_specials(bpe: CoreBPE) -> SpecialMap;

/// The pattern by which an encoder splits text into pieces.
pub uninterp spec fn bpe_pattern(bpe: CoreBPE) -> Seq<char>;

/// The tokens that an encoder with these ranks, these special tokens and
/// this pattern makes of a text, special tokens in the text included.
pub uninterp spec fn bpe_encoding(
    ranks: RankMap,
    specials: SpecialMap,
    pattern: Seq<char>,
    text: Seq<char>,
) -> Seq<u32>;

/// The text that an encoder with these ranks and these special tokens makes
/// of tokens; `None` when a token is unknown or the bytes are no UTF-8.
pub uninterp spec fn bpe_decoding(ranks: RankMap, specials: SpecialMap, tokens: Seq<u32>) -> Option<
    Seq<char>,
>;

/// No name is the beginning of another.
pub open spec fn prefix_free(specials: SpecialMap) -> bool {
    forall|a: Seq<char>, b: Seq<char>|
        #![trigger specials.contains_key(a), specials.contains_key(b)]
        specials.contains_key(a) && specials.contains_key(b) && a != b ==> !a.is_prefix_of(b)
}

/// No id belongs to two names.
pub open spec fn one_name_per_id(specials: SpecialMap) -> bool {
    forall|a: Seq<char>, b: Seq<char>|
        specials.contains_key(a) && specials.contains_key(b) && #[trigger] specials[a]
            == #[trigger] specials[b] ==> a == b
}

/// Why `CoreBPE::new` refuses a pattern with these special tokens, if it
/// does.
pub uninterp spec fn bpe_refusal(specials: Seq<(Seq<char>, u32)>, pattern: Seq<char>) -> Option<
    Seq<char>,
>;

/// Names and ids as plain values.
pub open spec fn plain_entries(entries: Seq<(String, u32)>) -> Seq<(Seq<char>, u32)> {
    entries.map_values(|entry: (String, u32)| (entry.0@, entry.1))
}

/// The map that a list of entries gives when each is inserted in turn.
pub open spec fn special_map_of(entries: Seq<(Seq<char>, u32)>) -> SpecialMap
    decreases entries.len(),
{
    if entries.len() == 0 {
        Map::empty()
    } else {
        special_map_of(entries.drop_last()).insert(entries.last().0, entries.last().1)
    }
}

/// The pattern by which this library's encoders split a text into pieces.
pub open spec fn split_pattern() -> Seq<char> {
    SPLIT_PATTERN@
}

/// The pattern by which this library's encoders split a text into pieces.
pub const SPLIT_PATTERN: &'static str =
    r#"(?i:'s|'t|'re|'ve|'m|'ll|'d)|[^\r\n\p{L}\p{N}]?\p{L}+|\p{N}{1,3}| ?[^\s\p{L}\p{N}]+[\r\n]*|\s*[\r\n]+|\s+(?!\S)|\s+"#;

/// The kinds of characters of which the split pattern reads runs of any
/// length: white space, letters, and what is neither of these nor a digit.
#[derive(Clone, Copy, Debug, PartialEq, Eq, Structural)]
pub enum ByteClass {
    Blank,
    Letter,
    Mark,
}

/// ASCII white space.
pub open spec fn is_ascii_blank(byte: u8) -> bool {
    (9 <= byte <= 13) || byte == 32
}

/// An ASCII letter.
pub open spec fn is_ascii_letter(byte: u8) -> bool {
    (65 <= byte <= 90) || (97 <= byte <= 122)
}

/// An ASCII digit.
pub open spec fn is_ascii_digit(byte: u8) -> bool {
    48 <= byte <= 57
}

/// Whether a byte may belong to a character of a class. A byte of a
/// character beyond ASCII may belong to a character of any class; an ASCII
/// digit belongs to none.
pub open spec fn in_class(class: ByteClass, byte: u8) -> bool {
    byte >= 128 || match class {
        ByteClass::Blank => is_ascii_blank(byte),
        ByteClass::Letter => is_ascii_letter(byte),
        ByteClass::Mark => !is_ascii_blank(byte) && !is_ascii_letter(byte) && !is_ascii_digit(
            byte,
        ),
    }
}

/// The number of bytes of a class that stand directly before index `at`.
pub open spec fn run_before(bytes: Seq<u8>, at: int, class: ByteClass) -> nat
    decreases at,
{
    if at <= 0 || at > bytes.len() || !in_class(class, bytes[at - 1]) {
        0
    } else {
        1 + run_before(bytes, at - 1, class)
    }
}

/// The longest run of bytes of one class that an encoder is handed. The
/// matcher that splits the text keeps a frame for every character that it
/// reads of a run, of marks and then of line breaks in the worst case, and
/// gives up at a million frames.
pub const MAX_RUN: usize = 400_000;

/// No run of bytes of one class is longer than `MAX_RUN`.
pub open spec fn runs_bounded(bytes: Seq<u8>) -> bool {
    forall|class: ByteClass, at: int|
        0 <= at <= bytes.len() ==> #[trigger] run_before(bytes, at, class) <= MAX_RUN
}

/// The encoders whose special tokens are found in a text in one way only,
/// whatever the order in which the encoder holds them: there are some, none
/// has an empty name, and none has a name that another's begins with.
pub open spec fn specials_well_named(specials: SpecialMap) -> bool {
    &&& exists|name: Seq<char>| specials.contains_key(name)
    &&& !specials.contains_key(Seq::<char>::empty())
    &&& prefix_free(specials)
}

/// The inputs on which `CoreBPE::encode_with_special_tokens` returns, and
/// returns what the ranks, the special tokens, the pattern and the text
/// determine: the encoder has this library's pattern and well-named special
/// tokens, every byte of the text is a token by itself, and no run of bytes
/// of one class is longer than `MAX_RUN`.
pub open spec fn encodable(bpe: CoreBPE, text: Seq<u8>) -> bool {
    &&& bpe_pattern(bpe) == split_pattern()
    &&& specials_well_named(bpe_specials(bpe))
    &&& forall|i: int| 0 <= i < text.len() ==> bpe_ranks(bpe).contains_key(seq![#[trigger] text[i]])
    &&& runs_bounded(text)
}

/// The encoders that give every token one text: no rank belongs to two
/// tokens and no id to two special tokens.
pub open spec fn decodable(bpe: CoreBPE) -> bool {
    &&& one_token_per_rank(bpe_ranks(bpe))
    &&& one_name_per_id(bpe_specials(bpe))
}

/// `CoreBPE`'s derived `clone`. Trusted: the copy is the same encoder.
pub assume_specification[ <CoreBPE as Clone>::clone ](bpe: &CoreBPE) -> (copy: CoreBPE)
    ensures
        copy == *bpe,
;

/// `CoreBPE::new`, with the special tokens collected into their map and the
/// error turned into its text. Trusted: whether it builds depends on the
/// special tokens and the pattern alone, and an encoder that was built holds
/// what it was given. Two tokens of one rank make `CoreBPE::new` panic, so
/// they are not admitted.
#[verifier::external_body]
pub(crate) fn bpe_new(ranks: RankTable, specials: Vec<(String, u32)>, pattern: &str) -> (out: Result<
    CoreBPE,
    String,
>)
    requires
        one_token_per_rank(rank_table_contents(ranks)),
    ensures
        out is Ok <==> bpe_refusal(plain_entries(specials@), pattern@) is None,
        out is Err ==> bpe_refusal(plain_entries(specials@), pattern@) == Some(out->Err_0@),
        out is Ok ==> bpe_ranks(out->Ok_0) == rank_table_contents(ranks),
        out is Ok ==> bpe_specials(out->Ok_0) == special_map_of(plain_entries(specials@)),
        out is Ok ==> bpe_pattern(out->Ok_0) == pattern@,
{
    let specials: FxHashMap<String, u32> = specials.into_iter().collect();
    CoreBPE::new(ranks, specials, pattern).map_err(|error| error.to_string())
}

/// `CoreBPE::encode_with_special_tokens`. Trusted: on `encodable` input it
/// returns, and what it returns depends on what the encoder was built from
/// and on the text alone.
#[verifier::external_body]
pub(crate) fn bpe_encode(bpe: &CoreBPE, text: &str) -> (tokens: Vec<u32>)
    requires
        encodable(*bpe, text.spec_bytes()),
    ensures
        tokens@ == bpe_encoding(bpe_ranks(*bpe), bpe_specials(*bpe), bpe_pattern(*bpe), text@),
{
    bpe.encode_with_special_tokens(text)
}

/// `CoreBPE::decode`, with the error dropped. Trusted: for a `decodable`
/// encoder the outcome depends on what the encoder was built from and on the
/// tokens alone.
#[verifier::external_body]
pub(crate) fn bpe_decode(bpe: &CoreBPE, tokens: Vec<u32>) -> (text: Option<String>)
    requires
        decodable(*bpe),
    ensures
        text is Some ==> bpe_decoding(bpe_ranks(*bpe), bpe_specials(*bpe), tokens@) == Some(
            text->Some_0@,
        ),
        text is None ==> bpe_decoding(bpe_ranks(*bpe), bpe_specials(*bpe), tokens@) is None,
{
    bpe.decode(tokens).ok()
}

} // verus!
