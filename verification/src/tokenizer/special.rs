//! The special tokens that follow the vocabulary of the file.

use crate::tokenizer::bpe::{
    one_name_per_id, plain_entries, prefix_free, special_map_of, SpecialMap,
};
use crate::tokenizer::decimal::{
    decimal_text, format_decimal, lemma_decimal_text, lemma_decimal_text_injective,
};
use vstd::prelude::*;
use vstd::string::*;

verus! {

/// How many special tokens there are, named or reserved.
pub const SPECIAL_TOKEN_COUNT: u32 = 256;

/// How many of them have a name of their own.
pub const NAMED_TOKEN_COUNT: u32 = 11;

/// Where the begin-of-text token stands among the special tokens.
pub const BOS_INDEX: u32 = 0;

/// Where the end-of-text token stands.
pub const EOS_INDEX: u32 = 1;

/// Where the end-of-message token stands.
pub const EOM_INDEX: u32 = 8;

/// Where the end-of-turn token stands.
pub const EOT_INDEX: u32 = 9;

/// The name of the special token at `index`: eleven fixed names, then
/// `<|reserved_special_token_2|>` and onwards.
pub open spec fn special_token_name(index: int) -> Seq<char> {
    if index == 0 {
        "<|begin_of_text|>"@
    } else if index == 1 {
        "<|end_of_text|>"@
    } else if index == 2 {
        "<|reserved_special_token_0|>"@
    } else if index == 3 {
        "<|reserved_special_token_1|>"@
    } else if index == 4 {
        "<|finetune_right_pad_id|>"@
    } else if index == 5 {
        "<|step_id|>"@
    } else if index == 6 {
        "<|start_header_id|>"@
    } else if index == 7 {
        "<|end_header_id|>"@
    } else if index == 8 {
        "<|eom_id|>"@
    } else if index == 9 {
        "<|eot_id|>"@
    } else if index == 10 {
        "<|python_tag|>"@
    } else {
        "<|reserved_special_token_"@ + decimal_text((index - 9) as nat) + "|>"@
    }
}

/// The id of the special token at `index` when the vocabulary holds `base`
/// tokens: the ids follow the vocabulary, and wrap as `u32` does.
pub open spec fn special_token_id(base: u32, index: int) -> u32 {
    ((base + index) % 0x1_0000_0000) as u32
}

/// The special tokens with their ids, in the order of their indices.
pub open spec fn special_entries(base: u32) -> Seq<(Seq<char>, u32)> {
    Seq::new(
        SPECIAL_TOKEN_COUNT as nat,
        |index: int| (special_token_name(index), special_token_id(base, index)),
    )
}

/// The special tokens by name.
pub open spec fn special_tokens(base: u32) -> SpecialMap {
    special_map_of(special_entries(base))
}

/// A name that ends in a closing bracket and holds no other.
pub open spec fn closes_once(name: Seq<char>) -> bool {
    &&& name.len() > 0
    &&& name.last() == '>'
    &&& forall|k: int| 0 <= k < name.len() - 1 ==> name[k] != '>'
}

proof fn reveal_names()
    ensures
        "<|begin_of_text|>"@.len() == 17 && "<|begin_of_text|>"@[2] == 'b',
        "<|end_of_text|>"@.len() == 15 && "<|end_of_text|>"@[2] == 'e',
        "<|reserved_special_token_0|>"@.len() == 28 && "<|reserved_special_token_0|>"@[2] == 'r'
            && "<|reserved_special_token_0|>"@[25] == '0',
        "<|reserved_special_token_1|>"@.len() == 28 && "<|reserved_special_token_1|>"@[2] == 'r'
            && "<|reserved_special_token_1|>"@[25] == '1',
        "<|finetune_right_pad_id|>"@.len() == 25 && "<|finetune_right_pad_id|>"@[2] == 'f',
        "<|step_id|>"@.len() == 11 && "<|step_id|>"@[2] == 's',
        "<|start_header_id|>"@.len() == 19 && "<|start_header_id|>"@[2] == 's',
        "<|end_header_id|>"@.len() == 17 && "<|end_header_id|>"@[2] == 'e',
        "<|eom_id|>"@.len() == 10 && "<|eom_id|>"@[2] == 'e' && "<|eom_id|>"@[4] == 'm',
        "<|eot_id|>"@.len() == 10 && "<|eot_id|>"@[2] == 'e' && "<|eot_id|>"@[4] == 't',
        "<|python_tag|>"@.len() == 14 && "<|python_tag|>"@[2] == 'p',
        "<|reserved_special_token_"@.len() == 25 && "<|reserved_special_token_"@[2] == 'r',
        "|>"@.len() == 2 && "|>"@[0] == '|' && "|>"@[1] == '>',
        closes_once("<|begin_of_text|>"@),
        closes_once("<|end_of_text|>"@),
        closes_once("<|reserved_special_token_0|>"@),
        closes_once("<|reserved_special_token_1|>"@),
        closes_once("<|finetune_right_pad_id|>"@),
        closes_once("<|step_id|>"@),
        closes_once("<|start_header_id|>"@),
        closes_once("<|end_header_id|>"@),
        closes_once("<|eom_id|>"@),
        closes_once("<|eot_id|>"@),
        closes_once("<|python_tag|>"@),
        forall|k: int| 0 <= k < 25 ==> "<|reserved_special_token_"@[k] != '>',
{
    reveal_strlit("<|begin_of_text|>");
    reveal_strlit("<|end_of_text|>");
    reveal_strlit("<|reserved_special_token_0|>");
    reveal_strlit("<|reserved_special_token_1|>");
    reveal_strlit("<|finetune_right_pad_id|>");
    reveal_strlit("<|step_id|>");
    reveal_strlit("<|start_header_id|>");
    reveal_strlit("<|end_header_id|>");
    reveal_strlit("<|eom_id|>");
    reveal_strlit("<|eot_id|>");
    reveal_strlit("<|python_tag|>");
    reveal_strlit("<|reserved_special_token_");
    reveal_strlit("|>");
}

/// What the name of a reserved token from the eleventh on is made of.
proof fn lemma_reserved_name(index: int)
    requires
        NAMED_TOKEN_COUNT <= index,
    ensures
        ({
            let name = special_token_name(index);
            let number = decimal_text((index - 9) as nat);
            &&& name.len() == 27 + number.len()
            &&& name[2] == 'r'
            &&& name.subrange(25, 25 + number.len() as int) == number
            &&& closes_once(name)
        }),
{
    reveal_names();
    let name = special_token_name(index);
    let number = decimal_text((index - 9) as nat);
    lemma_decimal_text((index - 9) as nat);
    assert(name.subrange(25, 25 + number.len() as int) =~= number);
    assert forall|k: int| 0 <= k < name.len() - 1 implies name[k] != '>' by {
        if 25 <= k < 25 + number.len() {
            assert(name[k] == number[k - 25]);
        }
    }
}

/// The name of a special token ends in a closing bracket and holds no other.
proof fn lemma_special_token_name_closes(index: int)
    requires
        0 <= index < SPECIAL_TOKEN_COUNT,
    ensures
        closes_once(special_token_name(index)),
{
    reveal_names();
    if index >= NAMED_TOKEN_COUNT {
        lemma_reserved_name(index);
    }
}

/// Two special tokens have two names.
proof fn lemma_special_token_names_differ(i: int, j: int)
    requires
        0 <= i < SPECIAL_TOKEN_COUNT,
        0 <= j < SPECIAL_TOKEN_COUNT,
        i != j,
    ensures
        special_token_name(i) != special_token_name(j),
{
    reveal_names();
    if i >= NAMED_TOKEN_COUNT {
        lemma_reserved_name(i);
        lemma_decimal_text((i - 9) as nat);
    }
    if j >= NAMED_TOKEN_COUNT {
        lemma_reserved_name(j);
        lemma_decimal_text((j - 9) as nat);
    }
    if i >= NAMED_TOKEN_COUNT && j >= NAMED_TOKEN_COUNT {
        if special_token_name(i) == special_token_name(j) {
            lemma_decimal_text_injective((i - 9) as nat, (j - 9) as nat);
        }
    } else if i >= NAMED_TOKEN_COUNT && (j == 2 || j == 3) {
        let number = decimal_text((i - 9) as nat);
        if number.len() == 1 {
            assert(special_token_name(i).subrange(25, 26)[0] == number[0]);
        }
    } else if j >= NAMED_TOKEN_COUNT && (i == 2 || i == 3) {
        let number = decimal_text((j - 9) as nat);
        if number.len() == 1 {
            assert(special_token_name(j).subrange(25, 26)[0] == number[0]);
        }
    }
}

/// No special token's name is the beginning of another's.
proof fn lemma_special_token_names_prefix_free(i: int, j: int)
    requires
        0 <= i < SPECIAL_TOKEN_COUNT,
        0 <= j < SPECIAL_TOKEN_COUNT,
        i != j,
    ensures
        !special_token_name(i).is_prefix_of(special_token_name(j)),
{
    let short = special_token_name(i);
    let long = special_token_name(j);
    lemma_special_token_name_closes(i);
    lemma_special_token_name_closes(j);
    lemma_special_token_names_differ(i, j);
    if short.is_prefix_of(long) {
        if short.len() == long.len() {
            assert(short =~= long);
        } else {
            assert(long[short.len() - 1] == short[short.len() - 1]);
        }
    }
}

/// In the map of entries with names of their own, each name has the id of
/// its entry, and there is no other name.
proof fn lemma_special_map(entries: Seq<(Seq<char>, u32)>)
    requires
        forall|i: int, j: int|
            0 <= i < j < entries.len() ==> (#[trigger] entries[i]).0 != (#[trigger] entries[j]).0,
    ensures
        forall|i: int|
            0 <= i < entries.len() ==> special_map_of(entries).contains_key(
                (#[trigger] entries[i]).0,
            ) && special_map_of(entries)[entries[i].0] == entries[i].1,
        forall|name: Seq<char>| #[trigger]
            special_map_of(entries).contains_key(name) ==> exists|i: int|
                0 <= i < entries.len() && (#[trigger] entries[i]).0 == name,
    decreases entries.len(),
{
    if entries.len() > 0 {
        let rest = entries.drop_last();
        assert forall|i: int, j: int| 0 <= i < j < rest.len() implies (#[trigger] rest[i]).0 != (
        #[trigger] rest[j]).0 by {
            assert(rest[i] == entries[i] && rest[j] == entries[j]);
        }
        lemma_special_map(rest);
        assert forall|i: int| 0 <= i < entries.len() implies special_map_of(entries).contains_key(
            (#[trigger] entries[i]).0,
        ) && special_map_of(entries)[entries[i].0] == entries[i].1 by {
            if i < rest.len() {
                assert(rest[i] == entries[i]);
                assert(entries[i].0 != entries[entries.len() - 1].0);
            }
        }
        assert forall|name: Seq<char>| #[trigger]
            special_map_of(entries).contains_key(name) implies exists|i: int|
            0 <= i < entries.len() && (#[trigger] entries[i]).0 == name by {
            if name == entries.last().0 {
                assert(entries[entries.len() - 1].0 == name);
            } else {
                assert(special_map_of(rest).contains_key(name));
                let i = choose|i: int| 0 <= i < rest.len() && (#[trigger] rest[i]).0 == name;
                assert(entries[i] == rest[i]);
            }
        }
    }
}

/// What holds of the special tokens of this library: there are some, none
/// has an empty name, none has a name that another's begins with, and none
/// shares its id.
pub proof fn lemma_special_tokens(base: u32)
    ensures
        special_tokens(base).contains_key(special_token_name(0)),
        !special_tokens(base).contains_key(Seq::<char>::empty()),
        prefix_free(special_tokens(base)),
        one_name_per_id(special_tokens(base)),
        forall|i: int|
            0 <= i < SPECIAL_TOKEN_COUNT ==> special_tokens(base).contains_key(
                #[trigger] special_token_name(i),
            ) && special_tokens(base)[special_token_name(i)] == special_token_id(base, i),
{
    let entries = special_entries(base);
    let tokens = special_tokens(base);
    assert forall|i: int, j: int| 0 <= i < j < entries.len() implies (#[trigger] entries[i]).0 != (
    #[trigger] entries[j]).0 by {
        lemma_special_token_names_differ(i, j);
    }
    lemma_special_map(entries);
    assert forall|i: int| 0 <= i < SPECIAL_TOKEN_COUNT implies tokens.contains_key(
        #[trigger] special_token_name(i),
    ) && tokens[special_token_name(i)] == special_token_id(base, i) by {
        assert(entries[i].0 == special_token_name(i));
    }
    if tokens.contains_key(Seq::<char>::empty()) {
        let i = choose|i: int|
            0 <= i < entries.len() && (#[trigger] entries[i]).0 == Seq::<char>::empty();
        lemma_special_token_name_closes(i);
    }
    assert forall|a: Seq<char>, b: Seq<char>|
        #![trigger tokens.contains_key(a), tokens.contains_key(b)]
        tokens.contains_key(a) && tokens.contains_key(b) && a != b implies !a.is_prefix_of(b) by {
        let i = choose|i: int| 0 <= i < entries.len() && (#[trigger] entries[i]).0 == a;
        let j = choose|j: int| 0 <= j < entries.len() && (#[trigger] entries[j]).0 == b;
        lemma_special_token_names_prefix_free(i, j);
    }
    assert forall|a: Seq<char>, b: Seq<char>|
        tokens.contains_key(a) && tokens.contains_key(b) && #[trigger] tokens[a]
            == #[trigger] tokens[b] implies a == b by {
        let i = choose|i: int| 0 <= i < entries.len() && (#[trigger] entries[i]).0 == a;
        let j = choose|j: int| 0 <= j < entries.len() && (#[trigger] entries[j]).0 == b;
        assert(tokens[entries[i].0] == entries[i].1);
        assert(tokens[entries[j].0] == entries[j].1);
        assert(special_token_id(base, i) == special_token_id(base, j));
    }
}

fn special_token_text(index: u32) -> (name: String)
    requires
        index < SPECIAL_TOKEN_COUNT,
    ensures
        name@ == special_token_name(index as int),
{
    if index == 0 {
        String::from_str("<|begin_of_text|>")
    } else if index == 1 {
        String::from_str("<|end_of_text|>")
    } else if index == 2 {
        String::from_str("<|reserved_special_token_0|>")
    } else if index == 3 {
        String::from_str("<|reserved_special_token_1|>")
    } else if index == 4 {
        String::from_str("<|finetune_right_pad_id|>")
    } else if index == 5 {
        String::from_str("<|step_id|>")
    } else if index == 6 {
        String::from_str("<|start_header_id|>")
    } else if index == 7 {
        String::from_str("<|end_header_id|>")
    } else if index == 8 {
        String::from_str("<|eom_id|>")
    } else if index == 9 {
        String::from_str("<|eot_id|>")
    } else if index == 10 {
        String::from_str("<|python_tag|>")
    } else {
        let mut name = String::from_str("<|reserved_special_token_");
        let number = format_decimal(index - 9);
        name.append(number.as_str());
        name.append("|>");
        name
    }
}

/// The special tokens with their ids, in the order of their indices.
pub fn special_token_entries(base: u32) -> (entries: Vec<(String, u32)>)
    ensures
        plain_entries(entries@) == special_entries(base),
{
    let mut entries: Vec<(String, u32)> = Vec::new();
    let mut index: u32 = 0;
    while index < SPECIAL_TOKEN_COUNT
        invariant
            index <= SPECIAL_TOKEN_COUNT,
            entries@.len() == index,
            forall|i: int|
                0 <= i < index ==> (#[trigger] entries@[i]).0@ == special_token_name(i)
                    && entries@[i].1 == special_token_id(base, i),
        decreases SPECIAL_TOKEN_COUNT - index,
    {
        let name = special_token_text(index);
        let id = base.wrapping_add(index);
        entries.push((name, id));
        index = index + 1;
    }
    assert(plain_entries(entries@) =~= special_entries(base));
    entries
}

} // verus!
