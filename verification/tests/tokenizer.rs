use autoagents::tokenizer::bpe::MAX_RUN;
use autoagents::tokenizer::decimal::{format_decimal, parse_rank, RankError};
use autoagents::tokenizer::scan::find_byte;
use autoagents::tokenizer::special::special_token_entries;
use autoagents::tokenizer::tiktoken::{all_distinct, frame_tokens, Tiktoken};
use autoagents::tokenizer::vocabulary::{entry_from_fields, parse_line, read_vocabulary};
use base64::engine::general_purpose::STANDARD;
use base64::Engine;

/// Every single byte with its value as rank, then `extra` from rank 256 on.
fn vocabulary(extra: &[&[u8]]) -> Vec<u8> {
    let mut file = String::new();
    for byte in 0..=255u8 {
        file.push_str(&format!("{} {}\n", STANDARD.encode([byte]), byte));
    }
    for (at, token) in extra.iter().enumerate() {
        file.push_str(&format!("{} {}\n", STANDARD.encode(token), 256 + at));
    }
    file.into_bytes()
}

fn tokenizer() -> Tiktoken {
    Tiktoken::from_bytes(&vocabulary(&[b"ab", b"abc", b" b"])).unwrap()
}

fn load_error(file: &[u8]) -> String {
    match Tiktoken::from_bytes(file) {
        Ok(_) => panic!("the file was accepted"),
        Err(text) => text,
    }
}

#[test]
fn special_tokens_follow_the_vocabulary() {
    let tokenizer = tokenizer();
    assert_eq!(tokenizer.bos_id(), 259);
    assert_eq!(tokenizer.eos_id(), 260);
    assert_eq!(tokenizer.stop_ids(), vec![260, 267, 268]);
}

#[test]
fn describe_names_the_four_ids() {
    assert_eq!(
        tokenizer().describe(),
        "Tiktoken { bos_token_id: 259, eos_token_id: 260, eot_token_id: 268, eom_token_id: 267 }"
    );
}

#[test]
fn encode_merges_bytes_by_rank() {
    let tokenizer = tokenizer();
    assert_eq!(tokenizer.encode("abc ab", false, false), vec![257, 32, 256]);
    assert_eq!(tokenizer.encode("ab", false, false), vec![256]);
    assert_eq!(tokenizer.encode("ba", false, false), vec![98, 97]);
    assert_eq!(tokenizer.encode("", false, false), Vec::<u32>::new());
}

#[test]
fn encode_frames_the_tokens() {
    let tokenizer = tokenizer();
    assert_eq!(tokenizer.encode("abc ab", true, false), vec![259, 257, 32, 256]);
    assert_eq!(tokenizer.encode("abc ab", false, true), vec![257, 32, 256, 260]);
    assert_eq!(tokenizer.encode("abc ab", true, true), vec![259, 257, 32, 256, 260]);
    assert_eq!(tokenizer.encode("", true, true), vec![259, 260]);
}

#[test]
fn encode_knows_special_tokens_in_the_text() {
    let tokenizer = tokenizer();
    assert_eq!(tokenizer.encode("<|begin_of_text|>ab<|eot_id|>", false, false), vec![259, 256, 268]);
    assert_eq!(
        tokenizer.encode("<|reserved_special_token_246|>", false, false),
        vec![259 + 255]
    );
    assert_eq!(tokenizer.encode("<|python_tag|>", false, false), vec![259 + 10]);
}

#[test]
fn try_encode_is_encode_where_the_text_is_taken() {
    let tokenizer = tokenizer();
    assert!(tokenizer.accepts("abc ab"));
    assert_eq!(tokenizer.try_encode("abc ab", true, true), Some(vec![259, 257, 32, 256, 260]));
}

#[test]
fn text_with_a_byte_that_is_no_token_is_not_taken() {
    let tokenizer = Tiktoken::from_bytes(b"YQ== 0\n").unwrap();
    assert_eq!(tokenizer.bos_id(), 1);
    assert!(tokenizer.accepts("aaa"));
    assert_eq!(tokenizer.try_encode("aaa", false, false), Some(vec![0, 0, 0]));
    assert!(!tokenizer.accepts("ab"));
    assert_eq!(tokenizer.try_encode("ab", false, false), None);
}

#[test]
fn longest_run_of_blanks_is_taken_and_one_more_is_not() {
    let tokenizer = tokenizer();
    let longest = format!("{}x", " ".repeat(MAX_RUN));
    assert!(tokenizer.accepts(&longest));
    let tokens = tokenizer.encode(&longest, false, false);
    assert_eq!(tokens.len(), MAX_RUN + 1);
    assert!(tokens[..MAX_RUN - 1].iter().all(|token| *token == 32));
    let too_long = " ".repeat(MAX_RUN + 1);
    assert!(!tokenizer.accepts(&too_long));
    assert_eq!(tokenizer.try_encode(&too_long, false, false), None);
    let mixed = "\t \r\n".repeat(MAX_RUN / 4 + 1);
    assert!(!tokenizer.accepts(&mixed));
}

#[test]
fn longest_run_of_letters_is_taken_and_one_more_is_not() {
    let tokenizer = tokenizer();
    let longest = "x".repeat(MAX_RUN);
    assert!(tokenizer.accepts(&longest));
    assert_eq!(tokenizer.encode(&longest, false, false).len(), MAX_RUN);
    assert!(!tokenizer.accepts(&"x".repeat(MAX_RUN + 1)));
    assert!(!tokenizer.accepts(&"xY".repeat(MAX_RUN / 2 + 1)));
}

#[test]
fn longest_run_of_marks_is_taken_and_one_more_is_not() {
    let tokenizer = tokenizer();
    let longest = format!("{}{}", "!".repeat(MAX_RUN), "\n".repeat(MAX_RUN));
    assert!(tokenizer.accepts(&longest));
    assert_eq!(tokenizer.encode(&longest, false, false).len(), 2 * MAX_RUN);
    assert!(!tokenizer.accepts(&"!".repeat(MAX_RUN + 1)));
    assert!(!tokenizer.accepts(&"!?\u{0}".repeat(MAX_RUN / 3 + 1)));
}

#[test]
fn runs_end_where_another_class_begins() {
    let tokenizer = tokenizer();
    let text = format!(
        "{}{}{}7{}",
        "x".repeat(MAX_RUN),
        " ".repeat(MAX_RUN),
        "!".repeat(MAX_RUN),
        "x".repeat(MAX_RUN)
    );
    assert!(tokenizer.accepts(&text));
    let words = "word and word, ".repeat(200_000);
    assert!(tokenizer.accepts(&words));
    let words = "one, two; ".repeat(20_000);
    assert_eq!(tokenizer.encode(&words, false, false).len(), 10 * 20_000);
}

#[test]
fn digits_run_as_long_as_they_like() {
    let tokenizer = tokenizer();
    let digits = "7".repeat(MAX_RUN + 100_000);
    assert!(tokenizer.accepts(&digits));
    assert_eq!(tokenizer.encode(&digits, false, false).len(), MAX_RUN + 100_000);
}

#[test]
fn bytes_beyond_ascii_count_for_every_class() {
    let tokenizer = tokenizer();
    let text = "\u{e9}".repeat(MAX_RUN / 2);
    assert!(tokenizer.accepts(&text));
    assert_eq!(tokenizer.encode(&text, false, false).len(), MAX_RUN);
    assert!(!tokenizer.accepts(&"\u{e9}".repeat(MAX_RUN / 2 + 1)));
    let joined = format!("{}\u{e9}{}", "x".repeat(MAX_RUN / 2), " ".repeat(MAX_RUN / 2));
    assert!(tokenizer.accepts(&joined));
    let joined = format!("{}\u{e9}{}", "x".repeat(MAX_RUN - 1), " ".repeat(MAX_RUN - 1));
    assert!(!tokenizer.accepts(&joined));
}

#[test]
fn decode_gives_the_text_back() {
    let tokenizer = tokenizer();
    assert_eq!(tokenizer.decode(&[257, 32, 256]), "abc ab");
    assert_eq!(tokenizer.decode(&[]), "");
    assert_eq!(tokenizer.decode(&[259, 97, 268]), "<|begin_of_text|>a<|eot_id|>");
    let tokens = tokenizer.encode("a b\u{e9}", false, false);
    assert_eq!(tokenizer.decode(&tokens), "a b\u{e9}");
}

#[test]
fn try_decode_fails_on_unknown_tokens_and_broken_text() {
    let tokenizer = tokenizer();
    assert_eq!(tokenizer.try_decode(&[97, 98]), Some("ab".to_string()));
    assert_eq!(tokenizer.try_decode(&[1_000_000]), None);
    assert_eq!(tokenizer.try_decode(&[255]), None);
    assert_eq!(tokenizer.try_decode(&[0xc3, 0xa9]), Some("\u{e9}".to_string()));
}

#[test]
fn clone_is_the_same_tokenizer() {
    let tokenizer = tokenizer();
    let copy = tokenizer.clone();
    assert_eq!(copy.bos_id(), tokenizer.bos_id());
    assert_eq!(copy.encode("abc ab", true, true), tokenizer.encode("abc ab", true, true));
    assert_eq!(copy.decode(&[257]), "abc");
    assert!(!copy.accepts(&" ".repeat(MAX_RUN + 1)));
}

#[test]
fn empty_file_gives_a_tokenizer_of_special_tokens_only() {
    let tokenizer = Tiktoken::from_bytes(b"").unwrap();
    assert_eq!(tokenizer.bos_id(), 0);
    assert_eq!(tokenizer.eos_id(), 1);
    assert_eq!(tokenizer.stop_ids(), vec![1, 8, 9]);
    assert_eq!(tokenizer.try_encode("", true, false), Some(vec![0]));
    assert_eq!(tokenizer.try_encode("a", false, false), None);
    assert_eq!(tokenizer.decode(&[1]), "<|end_of_text|>");
}

#[test]
fn later_line_replaces_an_earlier_one_for_the_same_token() {
    let tokenizer = Tiktoken::from_bytes(b"YQ== 0\nYQ== 5\n").unwrap();
    assert_eq!(tokenizer.bos_id(), 1);
    assert_eq!(tokenizer.encode("a", false, false), vec![5]);
    let tokenizer = Tiktoken::from_bytes(b"YQ== 0\nYg== 0\nYg== 1").unwrap();
    assert_eq!(tokenizer.bos_id(), 2);
    assert_eq!(tokenizer.encode("ab", false, false), vec![0, 1]);
}

#[test]
fn carriage_return_before_a_line_feed_is_dropped() {
    let tokenizer = Tiktoken::from_bytes(b"YQ== 0\r\nYg== 1\r\n").unwrap();
    assert_eq!(tokenizer.bos_id(), 2);
    assert_eq!(tokenizer.encode("ba", false, false), vec![1, 0]);
    assert_eq!(load_error(b"YQ== 0\r\nYg== 1\r"), "invalid digit found in string");
}

#[test]
fn third_field_is_not_read() {
    let tokenizer = Tiktoken::from_bytes(b"YQ== 3 and more\n").unwrap();
    assert_eq!(tokenizer.encode("a", false, false), vec![3]);
}

#[test]
fn sign_before_the_rank() {
    let tokenizer = Tiktoken::from_bytes(b"YQ== +7\n").unwrap();
    assert_eq!(tokenizer.encode("a", false, false), vec![7]);
    assert_eq!(load_error(b"YQ== -7\n"), "invalid digit found in string");
    assert_eq!(load_error(b"YQ== +\n"), "invalid digit found in string");
}

#[test]
fn line_without_rank_is_reported() {
    assert_eq!(load_error(b"YQ=="), "Missing rank");
    assert_eq!(load_error(b"YQ== 0\n\nYg== 1\n"), "Missing rank");
}

#[test]
fn rank_that_is_no_number_is_reported() {
    assert_eq!(load_error(b"YQ== x\n"), "invalid digit found in string");
    assert_eq!(load_error(b"YQ== 1x\n"), "invalid digit found in string");
    assert_eq!(load_error(b"YQ== \n"), "cannot parse integer from empty string");
    assert_eq!(load_error(b"YQ==  1\n"), "cannot parse integer from empty string");
    assert_eq!(load_error(b"YQ== 4294967296\n"), "number too large to fit in target type");
    assert_eq!(load_error(b"YQ== 99999999999x\n"), "number too large to fit in target type");
}

#[test]
fn largest_rank_is_read() {
    let tokenizer = Tiktoken::from_bytes(b"YQ== 4294967295\n").unwrap();
    assert_eq!(tokenizer.encode("a", false, false), vec![u32::MAX]);
}

#[test]
fn token_that_is_no_base64_is_reported() {
    assert_eq!(load_error(b"@@@@ 1\n"), "Invalid symbol 64, offset 0.");
    assert_eq!(load_error(b"YQ= 1\n"), "Invalid padding");
    assert_eq!(load_error(b"@@@@"), "Invalid symbol 64, offset 0.");
}

#[test]
fn line_that_is_no_utf8_is_reported() {
    assert_eq!(load_error(&[0xff, b' ', b'1']), "stream did not contain valid UTF-8");
    assert_eq!(load_error(&[b'Y', b'Q', b'=', b'=', b' ', b'1', b' ', 0xff]), "stream did not contain valid UTF-8");
    assert_eq!(load_error(b"@@@@ 1\n\xff"), "Invalid symbol 64, offset 0.");
}

#[test]
fn two_tokens_of_one_rank_are_reported() {
    assert_eq!(
        load_error(b"YQ== 0\nYg== 0\n"),
        "Encoder and decoder must be of equal length; maybe you had duplicate token indices in your encoder?"
    );
}

#[test]
fn first_wrong_line_decides() {
    assert_eq!(load_error(b"YQ== 0\nYg==\nYw== x\n"), "Missing rank");
    assert_eq!(load_error(b"YQ== 0\nYg== 0\nYw== x\n"), "invalid digit found in string");
}

#[test]
fn vocabulary_marks_the_single_bytes() {
    let vocabulary = read_vocabulary(b"YQ== 0\nYWI= 1\n").ok().unwrap();
    assert_eq!(vocabulary.table.len(), 2);
    assert_eq!(vocabulary.table.get(b"a".as_slice()), Some(&0));
    assert_eq!(vocabulary.table.get(b"ab".as_slice()), Some(&1));
    assert_eq!(vocabulary.single.len(), 256);
    assert!(vocabulary.single[b'a' as usize]);
    assert!(!vocabulary.single[b'b' as usize]);
    assert_eq!(vocabulary.single.iter().filter(|single| **single).count(), 1);
}

#[test]
fn tokenizer_is_built_of_a_vocabulary() {
    let vocabulary = read_vocabulary(b"YQ== 0\nYg== 1\nYWI= 2\n").ok().unwrap();
    let tokenizer = Tiktoken::from_vocabulary(vocabulary).unwrap();
    assert_eq!(tokenizer.bos_id(), 3);
    assert_eq!(tokenizer.encode("abab", true, false), vec![3, 2, 2]);
}

#[test]
fn line_is_split_at_single_spaces() {
    assert_eq!(parse_line(b"YWI= 12"), Ok((b"ab".to_vec(), 12)));
    assert_eq!(parse_line(b" 12"), Ok((Vec::new(), 12)));
    assert_eq!(parse_line(b"YWI= 12 13"), Ok((b"ab".to_vec(), 12)));
    assert_eq!(parse_line(b""), Err("Missing rank".to_string()));
}

#[test]
fn entry_is_made_of_its_fields() {
    assert_eq!(entry_from_fields(Ok(vec![1, 2]), Some(b"7")), Ok((vec![1, 2], 7)));
    assert_eq!(
        entry_from_fields(Err("bad token".to_string()), Some(b"7")),
        Err("bad token".to_string())
    );
    assert_eq!(entry_from_fields(Err("bad token".to_string()), None), Err("bad token".to_string()));
    assert_eq!(entry_from_fields(Ok(vec![1]), None), Err("Missing rank".to_string()));
    assert_eq!(
        entry_from_fields(Ok(vec![1]), Some(b"seven")),
        Err("invalid digit found in string".to_string())
    );
}

#[test]
fn rank_fields() {
    assert_eq!(parse_rank(b"0"), Ok(0));
    assert_eq!(parse_rank(b"007"), Ok(7));
    assert_eq!(parse_rank(b"+12"), Ok(12));
    assert_eq!(parse_rank(b"4294967295"), Ok(u32::MAX));
    assert_eq!(parse_rank(b"0000000000004294967295"), Ok(u32::MAX));
    assert_eq!(parse_rank(b""), Err(RankError::Empty));
    assert_eq!(parse_rank(b"+"), Err(RankError::InvalidDigit));
    assert_eq!(parse_rank(b"-"), Err(RankError::InvalidDigit));
    assert_eq!(parse_rank(b"-1"), Err(RankError::InvalidDigit));
    assert_eq!(parse_rank(b"1 "), Err(RankError::InvalidDigit));
    assert_eq!(parse_rank(b"12a"), Err(RankError::InvalidDigit));
    assert_eq!(parse_rank(b"4294967296"), Err(RankError::Overflow));
    assert_eq!(parse_rank(b"42949672950"), Err(RankError::Overflow));
    assert_eq!(parse_rank(b"a4294967296"), Err(RankError::InvalidDigit));
}

#[test]
fn rank_fields_are_read_as_std_reads_them() {
    let fields: [&str; 12] =
        ["", "+", "-", "0", "+0", "-0", "12", "1_2", "4294967295", "4294967296", "99999999999x", "x9"];
    for field in fields {
        let ours = parse_rank(field.as_bytes());
        let theirs = field.parse::<u32>();
        assert_eq!(ours.ok(), theirs.clone().ok(), "field {:?}", field);
        if let (Err(ours), Err(theirs)) = (ours, theirs) {
            assert_eq!(ours.message(), theirs.to_string(), "field {:?}", field);
        }
    }
}

#[test]
fn rank_error_messages() {
    assert_eq!(RankError::Empty.message(), "cannot parse integer from empty string");
    assert_eq!(RankError::InvalidDigit.message(), "invalid digit found in string");
    assert_eq!(RankError::Overflow.message(), "number too large to fit in target type");
}

#[test]
fn decimal_numbers_are_written_without_leading_zeros() {
    assert_eq!(format_decimal(0), "0");
    assert_eq!(format_decimal(7), "7");
    assert_eq!(format_decimal(10), "10");
    assert_eq!(format_decimal(246), "246");
    assert_eq!(format_decimal(1000), "1000");
    assert_eq!(format_decimal(u32::MAX), "4294967295");
}

#[test]
fn written_numbers_are_read_back() {
    for n in [0u32, 1, 9, 10, 99, 100, 12345, u32::MAX - 1, u32::MAX] {
        assert_eq!(parse_rank(format_decimal(n).as_bytes()), Ok(n));
    }
}

#[test]
fn special_tokens_are_named_and_numbered() {
    let names = [
        "<|begin_of_text|>",
        "<|end_of_text|>",
        "<|reserved_special_token_0|>",
        "<|reserved_special_token_1|>",
        "<|finetune_right_pad_id|>",
        "<|step_id|>",
        "<|start_header_id|>",
        "<|end_header_id|>",
        "<|eom_id|>",
        "<|eot_id|>",
        "<|python_tag|>",
    ];
    let entries = special_token_entries(5);
    assert_eq!(entries.len(), 256);
    for (at, name) in names.iter().enumerate() {
        assert_eq!(entries[at], (name.to_string(), 5 + at as u32));
    }
    for at in 11..256usize {
        assert_eq!(
            entries[at],
            (format!("<|reserved_special_token_{}|>", at - 9), 5 + at as u32)
        );
    }
    assert_eq!(entries[11].0, "<|reserved_special_token_2|>");
    assert_eq!(entries[255], ("<|reserved_special_token_246|>".to_string(), 260));
}

#[test]
fn special_token_ids_wrap() {
    let entries = special_token_entries(u32::MAX);
    assert_eq!(entries[0].1, u32::MAX);
    assert_eq!(entries[1].1, 0);
    assert_eq!(entries[255].1, 254);
}

#[test]
fn distinct_values() {
    assert!(all_distinct(&vec![]));
    assert!(all_distinct(&vec![3]));
    assert!(all_distinct(&vec![3, 1, 2]));
    assert!(!all_distinct(&vec![3, 1, 3]));
    assert!(!all_distinct(&vec![0, 0]));
}

#[test]
fn tokens_are_framed() {
    assert_eq!(frame_tokens(vec![1, 2], None, None), vec![1, 2]);
    assert_eq!(frame_tokens(vec![1, 2], Some(9), None), vec![9, 1, 2]);
    assert_eq!(frame_tokens(vec![1, 2], None, Some(8)), vec![1, 2, 8]);
    assert_eq!(frame_tokens(vec![], Some(9), Some(8)), vec![9, 8]);
}

#[test]
fn bytes_are_found() {
    assert_eq!(find_byte(b"a b c", 0, b' '), 1);
    assert_eq!(find_byte(b"a b c", 2, b' '), 3);
    assert_eq!(find_byte(b"a b c", 4, b' '), 5);
    assert_eq!(find_byte(b"", 0, b' '), 0);
    assert_eq!(find_byte(b"a b", 7, b' '), 3);
}
