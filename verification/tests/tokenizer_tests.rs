use mistralrs_oxide::tokenizer::SimpleTokenizer;

#[test]
fn numbered_vocabulary() {
    let t = SimpleTokenizer::new(7);
    assert_eq!(t.vocab_size(), 7);
    assert_eq!(t.bos_token_id(), 0);
    assert_eq!(t.eos_token_id(), 1);
    assert_eq!(t.pad_token_id(), 2);
    assert_eq!(t.decode(&[0, 3, 5, 1], false), "<s><unk>?</s>");
    assert_eq!(t.decode(&[0, 3, 2, 1], true), "<unk>");
    assert_eq!(t.decode(&[9], false), "?");
    let small = SimpleTokenizer::new(2);
    assert_eq!(small.vocab_size(), 4);
}

#[test]
fn numbered_vocabulary_looks_up_placeholders() {
    let t = SimpleTokenizer::new(7);
    assert_eq!(t.encode("", true), vec![0, 1]);
    assert_eq!(t.encode("   ", false), Vec::<usize>::new());
}

#[test]
fn word_vocabulary_encodes_words_and_spaces() {
    let t = SimpleTokenizer::from_simple_words(vec!["hello", "world"]);
    assert_eq!(t.vocab_size(), 7);
    assert_eq!(t.encode("hello  world\tfoo", true), vec![0, 5, 4, 6, 4, 3, 4, 1]);
    assert_eq!(t.encode("hello", false), vec![5, 4]);
}

#[test]
fn word_vocabulary_decodes() {
    let t = SimpleTokenizer::from_simple_words(vec!["hello", "world"]);
    assert_eq!(t.decode(&[0, 5, 4, 6, 4, 3, 4, 1], false), "<s>hello world <unk> </s>");
    assert_eq!(t.decode(&[0, 5, 4, 6, 4, 1], true), "hello world ");
}

#[test]
fn round_trip_gives_words_with_spaces() {
    let t = SimpleTokenizer::from_simple_words(vec!["the", "quick", "fox"]);
    let ids = t.encode("  the quick\n fox ", false);
    assert_eq!(t.decode(&ids, false), "the quick fox ");
}

#[test]
fn repeated_word_takes_its_last_id() {
    let t = SimpleTokenizer::from_simple_words(vec!["a", "b", "a"]);
    assert_eq!(t.vocab_size(), 7);
    assert_eq!(t.encode("a b", false), vec![7, 4, 6, 4]);
    assert_eq!(t.decode(&[5, 7], false), "aa");
}

#[test]
fn placeholder_words_decode_as_question_marks() {
    let t = SimpleTokenizer::from_simple_words(vec!["token_x"]);
    assert_eq!(t.decode(&t.encode("token_x", false), false), "? ");
}

#[test]
fn unicode_white_space_separates_words() {
    let t = SimpleTokenizer::from_simple_words(vec!["a", "b"]);
    assert_eq!(t.encode("a\u{3000}b\u{a0}a", false), vec![5, 4, 6, 4, 5, 4]);
}
