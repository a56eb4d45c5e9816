//! The tokenizer: a vocabulary file, 256 special tokens after it, and the
//! byte-pair encoder of `tiktoken_rs` over both.

use crate::tokenizer::bpe::{
    bpe_decode, bpe_decoding, bpe_encode, bpe_encoding, bpe_new, bpe_pattern, bpe_ranks,
    bpe_refusal, bpe_specials, run_before, runs_bounded, split_pattern, ByteClass, MAX_RUN,
    SPLIT_PATTERN,
};
use crate::tokenizer::decimal::{decimal_text, format_decimal};
use crate::tokenizer::ranks::{lists_ranks, one_token_per_rank, rank_table_ranks, RankMap};
use crate::tokenizer::special::{
    lemma_special_tokens, special_entries, special_token_entries, special_token_id,
    special_tokens, BOS_INDEX, EOM_INDEX, EOS_INDEX, EOT_INDEX,
};
use crate::tokenizer::vocabulary::{
    marks_single_bytes, read_vocabulary, vocabulary_of, Vocabulary,
};
use std::collections::HashSet;
use tiktoken_rs::CoreBPE;
use vstd::prelude::*;
use vstd::slice::slice_to_vec;
use vstd::string::*;

verus! {

/// What is reported for a vocabulary in which two tokens have one rank.
pub open spec fn duplicate_rank_text() -> Seq<char> {
    "Encoder and decoder must be of equal length; maybe you had duplicate token indices in your encoder?"@
}

/// The id of the first special token: the number of tokens in the
/// vocabulary, as `u32` wraps it.
pub open spec fn special_base(ranks: RankMap) -> u32 {
    (ranks.len() % 0x1_0000_0000) as u32
}

/// What loading a file comes to: its vocabulary, or the text of the first
/// thing that is wrong. A line that cannot be read comes first, then a rank
/// that two tokens share, then what the encoder refuses.
pub open spec fn load_outcome(bytes: Seq<u8>) -> Result<RankMap, Seq<char>> {
    match vocabulary_of(bytes) {
        Err(text) => Err(text),
        Ok(ranks) => if !one_token_per_rank(ranks) {
            Err(duplicate_rank_text())
        } else {
            match bpe_refusal(special_entries(special_base(ranks)), split_pattern()) {
                Some(text) => Err(text),
                None => Ok(ranks),
            }
        },
    }
}

/// The tokens that a tokenizer with this vocabulary makes of a text, special
/// tokens in the text included.
pub open spec fn encoding_of(ranks: RankMap, text: Seq<char>) -> Seq<u32> {
    bpe_encoding(ranks, special_tokens(special_base(ranks)), split_pattern(), text)
}

/// The text that a tokenizer with this vocabulary makes of tokens, if it
/// makes one: it makes none when a token is unknown, or when the bytes of
/// the tokens are no UTF-8.
pub open spec fn decoding_of(ranks: RankMap, tokens: Seq<u32>) -> Option<Seq<char>> {
    bpe_decoding(ranks, special_tokens(special_base(ranks)), tokens)
}

/// `tokens` between an optional first and an optional last token.
pub open spec fn framed(tokens: Seq<u32>, first: Option<u32>, last: Option<u32>) -> Seq<u32> {
    let head = match first {
        Some(token) => seq![token],
        None => Seq::empty(),
    };
    let tail = match last {
        Some(token) => seq![token],
        None => Seq::empty(),
    };
    head + tokens + tail
}

/// Puts `first` before `tokens` and `last` after them.
pub fn frame_tokens(tokens: Vec<u32>, first: Option<u32>, last: Option<u32>) -> (out: Vec<u32>)
    ensures
        out@ == framed(tokens@, first, last),
{
    let mut out: Vec<u32> = Vec::new();
    if let Some(token) = first {
        out.push(token);
    }
    let mut tokens = tokens;
    let ghost body = tokens@;
    let ghost head = out@;
    out.append(&mut tokens);
    if let Some(token) = last {
        out.push(token);
    }
    assert(out@ =~= framed(body, first, last));
    out
}

/// Whether no value occurs twice.
pub fn all_distinct(values: &Vec<u32>) -> (distinct: bool)
    ensures
        distinct == values@.no_duplicates(),
{
    let mut seen: HashSet<u32> = HashSet::new();
    let mut at: usize = 0;
    while at < values.len()
        invariant
            at <= values.len(),
            forall|value: u32|
                seen@.contains(value) <==> exists|i: int| 0 <= i < at && values@[i] == value,
            forall|i: int, j: int| 0 <= i < j < at ==> values@[i] != values@[j],
        decreases values.len() - at,
    {
        let value = values[at];
        let fresh = seen.insert(value);
        if !fresh {
            proof {
                let i = choose|i: int| 0 <= i < at && values@[i] == value;
                assert(values@[i] == values@[at as int]);
            }
            return false;
        }
        proof {
            assert forall|other: u32| seen@.contains(other) implies exists|i: int|
                0 <= i < at + 1 && values@[i] == other by {
                if other == value {
                    assert(values@[at as int] == other);
                } else {
                    let i = choose|i: int| 0 <= i < at && values@[i] == other;
                    assert(0 <= i < at + 1 && values@[i] == other);
                }
            }
        }
        at = at + 1;
    }
    true
}

/// A list of the ranks of a table is as long as the table, and repeats a rank
/// exactly when two tokens share one.
proof fn lemma_lists_ranks(contents: RankMap, keys: Seq<Seq<u8>>, ranks: Seq<u32>)
    requires
        lists_ranks(contents, keys, ranks),
    ensures
        ranks.len() == contents.len(),
        ranks.no_duplicates() <==> one_token_per_rank(contents),
{
    keys.unique_seq_to_set();
    if ranks.no_duplicates() {
        assert forall|a: Seq<u8>, b: Seq<u8>|
            contents.contains_key(a) && contents.contains_key(b) && #[trigger] contents[a]
                == #[trigger] contents[b] implies a == b by {
            assert(keys.to_set().contains(a));
            assert(keys.to_set().contains(b));
            let i = choose|i: int| 0 <= i < keys.len() && keys[i] == a;
            let j = choose|j: int| 0 <= j < keys.len() && keys[j] == b;
            assert(ranks[i] == ranks[j]);
        }
    }
    if one_token_per_rank(contents) {
        assert forall|i: int, j: int| 0 <= i < ranks.len() && 0 <= j < ranks.len() && i != j implies ranks[i]
            != ranks[j] by {
            assert(keys.to_set().contains(keys[i]));
            assert(keys.to_set().contains(keys[j]));
            assert(contents[keys[i]] == ranks[i] && contents[keys[j]] == ranks[j]);
        }
    }
}

/// A tokenizer loaded from a vocabulary file.
pub struct Tiktoken {
    bpe: CoreBPE,
    bos_token_id: u32,
    eos_token_id: u32,
    eot_token_id: u32,
    eom_token_id: u32,
    single: Vec<bool>,
}

impl Clone for Tiktoken {
    /// A second tokenizer with the same vocabulary.
    fn clone(&self) -> (copy: Self)
        ensures
            copy.vocabulary() == self.vocabulary(),
    {
        proof {
            use_type_invariant(self);
        }
        let single = self.single.clone();
        assert(single@ =~= self.single@);
        Tiktoken {
            bpe: self.bpe.clone(),
            bos_token_id: self.bos_token_id,
            eos_token_id: self.eos_token_id,
            eot_token_id: self.eot_token_id,
            eom_token_id: self.eom_token_id,
            single,
        }
    }
}

impl Tiktoken {
    #[verifier::type_invariant]
    spec fn inv(&self) -> bool {
        &&& bpe_ranks(self.bpe).dom().finite()
        &&& one_token_per_rank(bpe_ranks(self.bpe))
        &&& bpe_pattern(self.bpe) == split_pattern()
        &&& bpe_specials(self.bpe) == special_tokens(special_base(bpe_ranks(self.bpe)))
        &&& marks_single_bytes(self.single@, bpe_ranks(self.bpe))
        &&& self.bos_token_id == self.special_id(BOS_INDEX as int)
        &&& self.eos_token_id == self.special_id(EOS_INDEX as int)
        &&& self.eot_token_id == self.special_id(EOT_INDEX as int)
        &&& self.eom_token_id == self.special_id(EOM_INDEX as int)
    }

    /// The tokens of the file with their ranks.
    pub closed spec fn vocabulary(&self) -> RankMap {
        bpe_ranks(self.bpe)
    }

    /// The id of the special token at `index`.
    pub open spec fn special_id(&self, index: int) -> u32 {
        special_token_id(special_base(self.vocabulary()), index)
    }

    /// The tokens that this tokenizer makes of `text`.
    pub open spec fn encoding(&self, text: Seq<char>) -> Seq<u32> {
        encoding_of(self.vocabulary(), text)
    }

    /// The text that this tokenizer makes of `tokens`, if it makes one.
    pub open spec fn decoding(&self, tokens: Seq<u32>) -> Option<Seq<char>> {
        decoding_of(self.vocabulary(), tokens)
    }

    /// The texts that can be encoded, by their bytes: each byte is a token of
    /// the vocabulary by itself, and no run of blank bytes, of letter bytes
    /// or of mark bytes is longer than `MAX_RUN`.
    pub open spec fn can_encode(&self, text: Seq<u8>) -> bool {
        &&& forall|i: int|
            0 <= i < text.len() ==> self.vocabulary().contains_key(seq![#[trigger] text[i]])
        &&& runs_bounded(text)
    }

    /// What `describe` returns.
    pub open spec fn description(&self) -> Seq<char> {
        "Tiktoken { bos_token_id: "@ + decimal_text(self.special_id(BOS_INDEX as int) as nat)
            + ", eos_token_id: "@ + decimal_text(self.special_id(EOS_INDEX as int) as nat)
            + ", eot_token_id: "@ + decimal_text(self.special_id(EOT_INDEX as int) as nat)
            + ", eom_token_id: "@ + decimal_text(self.special_id(EOM_INDEX as int) as nat) + " }"@
    }

    fn assemble(vocabulary: Vocabulary, count: usize) -> (built: Result<Tiktoken, String>)
        requires
            vocabulary.wf(),
            one_token_per_rank(vocabulary.ranks()),
            count == vocabulary.ranks().len(),
        ensures
            match bpe_refusal(special_entries(special_base(vocabulary.ranks())), split_pattern()) {
                None => built is Ok && built->Ok_0.vocabulary() == vocabulary.ranks(),
                Some(text) => built is Err && built->Err_0@ == text,
            },
    {
        let base: u32 = ((count as u64) % 0x1_0000_0000) as u32;
        let specials = special_token_entries(base);
        let single = vocabulary.single;
        let bpe = match bpe_new(vocabulary.table, specials, SPLIT_PATTERN) {
            Ok(bpe) => bpe,
            Err(text) => {
                return Err(text);
            },
        };
        Ok(
            Tiktoken {
                bpe,
                bos_token_id: base.wrapping_add(BOS_INDEX),
                eos_token_id: base.wrapping_add(EOS_INDEX),
                eot_token_id: base.wrapping_add(EOT_INDEX),
                eom_token_id: base.wrapping_add(EOM_INDEX),
                single,
            },
        )
    }

    /// Builds the tokenizer of a vocabulary in which no rank belongs to two
    /// tokens. The encoder may still refuse to be built.
    pub fn from_vocabulary(vocabulary: Vocabulary) -> (built: Result<Tiktoken, String>)
        requires
            vocabulary.wf(),
            one_token_per_rank(vocabulary.ranks()),
        ensures
            match bpe_refusal(special_entries(special_base(vocabulary.ranks())), split_pattern()) {
                None => built is Ok && built->Ok_0.vocabulary() == vocabulary.ranks(),
                Some(text) => built is Err && built->Err_0@ == text,
            },
    {
        let ranks = rank_table_ranks(&vocabulary.table);
        proof {
            let keys = choose|keys: Seq<Seq<u8>>| #[trigger]
                lists_ranks(vocabulary.ranks(), keys, ranks@);
            lemma_lists_ranks(vocabulary.ranks(), keys, ranks@);
        }
        Tiktoken::assemble(vocabulary, ranks.len())
    }

    /// Loads the tokenizer from the bytes of a vocabulary file. A file in
    /// which two tokens have one rank is refused before the encoder is built.
    pub fn from_bytes(bytes: &[u8]) -> (loaded: Result<Tiktoken, String>)
        ensures
            match load_outcome(bytes@) {
                Ok(ranks) => loaded is Ok && loaded->Ok_0.vocabulary() == ranks,
                Err(text) => loaded is Err && loaded->Err_0@ == text,
            },
    {
        let vocabulary = match read_vocabulary(bytes) {
            Ok(vocabulary) => vocabulary,
            Err(text) => {
                return Err(text);
            },
        };
        let ranks = rank_table_ranks(&vocabulary.table);
        proof {
            let keys = choose|keys: Seq<Seq<u8>>| #[trigger]
                lists_ranks(vocabulary.ranks(), keys, ranks@);
            lemma_lists_ranks(vocabulary.ranks(), keys, ranks@);
        }
        if !all_distinct(&ranks) {
            return Err(
                String::from_str(
                    "Encoder and decoder must be of equal length; maybe you had duplicate token indices in your encoder?",
                ),
            );
        }
        Tiktoken::assemble(vocabulary, ranks.len())
    }

    /// Whether `encode` takes this text.
    pub fn accepts(&self, text: &str) -> (accepted: bool)
        ensures
            accepted == self.can_encode(text.spec_bytes()),
    {
        proof {
            use_type_invariant(self);
        }
        let bytes = text.as_bytes();
        let mut at: usize = 0;
        let mut blanks: usize = 0;
        let mut letters: usize = 0;
        let mut marks: usize = 0;
        while at < bytes.len()
            invariant
                at <= bytes.len(),
                bytes@ == text.spec_bytes(),
                marks_single_bytes(self.single@, self.vocabulary()),
                blanks == run_before(bytes@, at as int, ByteClass::Blank),
                letters == run_before(bytes@, at as int, ByteClass::Letter),
                marks == run_before(bytes@, at as int, ByteClass::Mark),
                forall|i: int|
                    0 <= i < at ==> self.vocabulary().contains_key(seq![#[trigger] bytes@[i]]),
                forall|class: ByteClass, i: int|
                    0 <= i <= at ==> #[trigger] run_before(bytes@, i, class) <= MAX_RUN,
            decreases bytes.len() - at,
        {
            let byte: u8 = bytes[at];
            if !self.single[byte as usize] {
                return false;
            }
            let wide = byte >= 128;
            let blank = (9 <= byte && byte <= 13) || byte == 32;
            let letter = (65 <= byte && byte <= 90) || (97 <= byte && byte <= 122);
            let digit = 48 <= byte && byte <= 57;
            blanks = if wide || blank {
                blanks + 1
            } else {
                0
            };
            letters = if wide || letter {
                letters + 1
            } else {
                0
            };
            marks = if wide || !(blank || letter || digit) {
                marks + 1
            } else {
                0
            };
            if blanks > MAX_RUN || letters > MAX_RUN || marks > MAX_RUN {
                assert(run_before(bytes@, at + 1, ByteClass::Blank) > MAX_RUN || run_before(
                    bytes@,
                    at + 1,
                    ByteClass::Letter,
                ) > MAX_RUN || run_before(bytes@, at + 1, ByteClass::Mark) > MAX_RUN);
                return false;
            }
            assert forall|class: ByteClass, i: int| 0 <= i <= at + 1 implies #[trigger] run_before(
                bytes@,
                i,
                class,
            ) <= MAX_RUN by {
                if i == at + 1 {
                    match class {
                        ByteClass::Blank => {},
                        ByteClass::Letter => {},
                        ByteClass::Mark => {},
                    }
                }
            }
            at = at + 1;
        }
        true
    }

    /// Encodes `text`, with the begin-of-text token before it if `bos` and the
    /// end-of-text token after it if `eos`.
    pub fn encode(&self, text: &str, bos: bool, eos: bool) -> (tokens: Vec<u32>)
        requires
            self.can_encode(text.spec_bytes()),
        ensures
            tokens@ == framed(
                self.encoding(text@),
                if bos {
                    Some(self.special_id(BOS_INDEX as int))
                } else {
                    None
                },
                if eos {
                    Some(self.special_id(EOS_INDEX as int))
                } else {
                    None
                },
            ),
    {
        proof {
            use_type_invariant(self);
            lemma_special_tokens(special_base(bpe_ranks(self.bpe)));
        }
        let first = if bos {
            Some(self.bos_token_id)
        } else {
            None
        };
        let last = if eos {
            Some(self.eos_token_id)
        } else {
            None
        };
        frame_tokens(bpe_encode(&self.bpe, text), first, last)
    }

    /// Encodes `text` if `encode` takes it.
    pub fn try_encode(&self, text: &str, bos: bool, eos: bool) -> (tokens: Option<Vec<u32>>)
        ensures
            tokens is Some <==> self.can_encode(text.spec_bytes()),
            tokens is Some ==> tokens->Some_0@ == framed(
                self.encoding(text@),
                if bos {
                    Some(self.special_id(BOS_INDEX as int))
                } else {
                    None
                },
                if eos {
                    Some(self.special_id(EOS_INDEX as int))
                } else {
                    None
                },
            ),
    {
        if self.accepts(text) {
            Some(self.encode(text, bos, eos))
        } else {
            None
        }
    }

    /// Decodes `tokens` if each is known and their bytes are a text.
    pub fn try_decode(&self, tokens: &[u32]) -> (text: Option<String>)
        ensures
            text is Some ==> self.decoding(tokens@) == Some(text->Some_0@),
            text is None ==> self.decoding(tokens@) is None,
    {
        proof {
            use_type_invariant(self);
            lemma_special_tokens(special_base(bpe_ranks(self.bpe)));
        }
        bpe_decode(&self.bpe, slice_to_vec(tokens))
    }

    /// Decodes `tokens`.
    pub fn decode(&self, tokens: &[u32]) -> (text: String)
        requires
            self.decoding(tokens@) is Some,
        ensures
            self.decoding(tokens@) == Some(text@),
    {
        self.try_decode(tokens).unwrap()
    }

    /// The id of the begin-of-text token.
    pub fn bos_id(&self) -> (id: u32)
        ensures
            id == self.special_id(BOS_INDEX as int),
    {
        proof {
            use_type_invariant(self);
        }
        self.bos_token_id
    }

    /// The id of the end-of-text token.
    pub fn eos_id(&self) -> (id: u32)
        ensures
            id == self.special_id(EOS_INDEX as int),
    {
        proof {
            use_type_invariant(self);
        }
        self.eos_token_id
    }

    /// The ids at which generation stops: end of text, end of message, end of
    /// turn.
    pub fn stop_ids(&self) -> (ids: Vec<u32>)
        ensures
            ids@ == seq![
                self.special_id(EOS_INDEX as int),
                self.special_id(EOM_INDEX as int),
                self.special_id(EOT_INDEX as int),
            ],
    {
        proof {
            use_type_invariant(self);
        }
        let mut ids: Vec<u32> = Vec::new();
        ids.push(self.eos_id());
        ids.push(self.eom_token_id);
        ids.push(self.eot_token_id);
        assert(ids@ =~= seq![
            self.special_id(EOS_INDEX as int),
            self.special_id(EOM_INDEX as int),
            self.special_id(EOT_INDEX as int),
        ]);
        ids
    }

    /// The tokenizer in one line: its name and the four ids it keeps.
    pub fn describe(&self) -> (text: String)
        ensures
            text@ == self.description(),
    {
        proof {
            use_type_invariant(self);
        }
        let mut text = String::from_str("Tiktoken { bos_token_id: ");
        text.append(format_decimal(self.bos_token_id).as_str());
        text.append(", eos_token_id: ");
        text.append(format_decimal(self.eos_token_id).as_str());
        text.append(", eot_token_id: ");
        text.append(format_decimal(self.eot_token_id).as_str());
        text.append(", eom_token_id: ");
        text.append(format_decimal(self.eom_token_id).as_str());
        text.append(" }");
        text
    }
}

} // verus!
