use puzzle_tokenizer::tokenize::{
    keep_content_words, tokenize, AnalyzerNode, MalformedFeature, Poc, Token, BOS_NODE, EOS_NODE,
};

fn token(text: &str, category: &str) -> Token {
    Token::new(text.to_string(), category.to_string())
}

fn node(stat: u8, feature: &str) -> AnalyzerNode {
    AnalyzerNode { stat, feature: feature.to_string() }
}

#[test]
fn every_tag_of_the_table_has_its_part_of_speech() {
    assert_eq!(token("x", "名詞,一般").get_poc(), Poc::Noun);
    assert_eq!(token("x", "動詞,自立").get_poc(), Poc::Verb);
    assert_eq!(token("x", "形容詞,自立").get_poc(), Poc::Adjactive);
    assert_eq!(token("x", "副詞,一般").get_poc(), Poc::Adverb);
    assert_eq!(token("x", "助詞,格助詞").get_poc(), Poc::Partical);
    assert_eq!(token("x", "接続詞,*").get_poc(), Poc::Conjunctive);
    assert_eq!(token("x", "助動詞,*").get_poc(), Poc::Partical);
    assert_eq!(token("x", "連体詞,*").get_poc(), Poc::Determiner);
    assert_eq!(token("x", "感動詞,*").get_poc(), Poc::Interjection);
}

#[test]
fn a_tag_outside_the_table_is_others() {
    assert_eq!(token("x", "記号,句点").get_poc(), Poc::Others);
    assert_eq!(token("x", "").get_poc(), Poc::Others);
    assert_eq!(token("x", ",名詞").get_poc(), Poc::Others);
    assert_eq!(token("x", "名詞一般").get_poc(), Poc::Others);
    assert_eq!(token("x", "名").get_poc(), Poc::Others);
    assert_eq!(token("x", "noun").get_poc(), Poc::Others);
}

#[test]
fn the_part_of_speech_is_read_from_the_category_alone() {
    assert_eq!(token("名詞", "動詞,自立").get_poc(), Poc::Verb);
    assert_eq!(token("動詞,自立", "歩く").get_poc(), Poc::Others);
    assert_eq!(token("x", "名詞").get_poc(), Poc::Noun);
}

#[test]
fn the_detail_is_the_second_field() {
    assert_eq!(token("x", "名詞,一般").get_poc_detail(), "一般");
    assert_eq!(token("x", "名詞,数,more").get_poc_detail(), "数");
    assert_eq!(token("x", "名詞,").get_poc_detail(), "");
}

#[test]
fn the_detail_defaults_to_the_wildcard() {
    assert_eq!(token("x", "名詞").get_poc_detail(), "*");
    assert_eq!(token("x", "").get_poc_detail(), "*");
}

#[test]
fn verbs_and_plain_nouns_are_content_words() {
    assert!(token("歩く", "動詞,自立").is_content());
    assert!(token("歩く", "動詞,数").is_content());
    assert!(token("歩く", "動詞").is_content());
    assert!(token("猫", "名詞,一般").is_content());
    assert!(token("猫", "名詞").is_content());
    assert!(token("猫", "名詞,*").is_content());
}

#[test]
fn numerals_and_other_parts_of_speech_are_dropped() {
    assert!(!token("*", "名詞,数").is_content());
    for category in
        ["形容詞,自立", "副詞,一般", "助詞,格助詞", "接続詞,*", "助動詞,*", "連体詞,*", "感動詞,*", "記号,句点", ""]
    {
        assert!(!token("x", category).is_content(), "{}", category);
    }
}

#[test]
fn the_filter_keeps_order_and_repeats() {
    let kept = keep_content_words(vec![
        token("猫", "名詞,一般"),
        token("が", "助詞,格助詞"),
        token("歩く", "動詞,自立"),
        token("。", "記号,句点"),
        token("*", "名詞,数"),
        token("猫", "名詞,一般"),
    ]);
    assert_eq!(kept, vec![token("猫", "名詞,一般"), token("歩く", "動詞,自立"), token("猫", "名詞,一般")]);
    assert_eq!(keep_content_words(Vec::new()), Vec::<Token>::new());
}

#[test]
fn a_feature_string_gives_base_form_as_text_and_tags_as_category() {
    let t = Token::from_feature("動詞,自立,*,*,五段・カ行イ音便,基本形,歩く,アルク,アルク").unwrap();
    assert_eq!(t.text, "歩く");
    assert_eq!(t.category, "動詞,自立");
    assert_eq!(t.get_poc(), Poc::Verb);
    assert_eq!(t.get_poc_detail(), "自立");
    assert_eq!(Token::from_feature("動詞,自立"), None);
}

#[test]
fn sentence_marks_are_dropped() {
    let nodes = vec![
        node(BOS_NODE, "BOS/EOS,*,*,*,*,*,*,*,*"),
        node(0, "名詞,一般,*,*,*,*,猫,ネコ,ネコ"),
        node(0, "助詞,格助詞,一般,*,*,*,が,ガ,ガ"),
        node(1, "名詞,一般,*,*,*,*,*"),
        node(EOS_NODE, "BOS/EOS,*,*,*,*,*,*,*,*"),
    ];
    assert_eq!(
        tokenize(&nodes),
        Ok(vec![token("猫", "名詞,一般"), token("が", "助詞,格助詞"), token("*", "名詞,一般")])
    );
}

#[test]
fn a_sentence_mark_need_not_be_well_formed() {
    let nodes = vec![node(BOS_NODE, ""), node(EOS_NODE, "x")];
    assert_eq!(tokenize(&nodes), Ok(Vec::new()));
    assert_eq!(tokenize(&Vec::new()), Ok(Vec::new()));
}

#[test]
fn the_first_malformed_word_is_reported() {
    let nodes = vec![
        node(BOS_NODE, ""),
        node(0, "名詞,一般,*,*,*,*,猫,ネコ,ネコ"),
        node(0, "名詞,一般"),
        node(4, ""),
        node(EOS_NODE, ""),
    ];
    assert_eq!(tokenize(&nodes), Err(MalformedFeature { index: 2 }));
}
