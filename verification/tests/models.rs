use puzzle_tokenizer::json::{find_member, JsonValue};
use puzzle_tokenizer::models::{
    document_of_tokens, tokens_from_document, DialogueTokens, MalformedDocument,
    NewPuzzleTokenCache, PuzzleTokenCache,
};
use puzzle_tokenizer::tokenize::Token;

fn token(text: &str, category: &str) -> Token {
    Token::new(text.to_string(), category.to_string())
}

fn text(s: &str) -> JsonValue {
    JsonValue::Text(s.to_string())
}

fn object(members: Vec<(&str, JsonValue)>) -> JsonValue {
    JsonValue::Object(members.into_iter().map(|(k, v)| (k.to_string(), v)).collect())
}

fn token_json(t: &str, c: &str) -> JsonValue {
    object(vec![("text", text(t)), ("category", text(c))])
}

fn sample() -> Vec<DialogueTokens> {
    vec![
        DialogueTokens { id: 11, tokens: vec![token("猫", "名詞,一般"), token("歩く", "動詞,自立")] },
        DialogueTokens { id: -3, tokens: Vec::new() },
        DialogueTokens { id: i32::MAX, tokens: vec![token("", "")] },
    ]
}

fn sample_document() -> JsonValue {
    JsonValue::Array(vec![
        object(vec![
            ("id", JsonValue::Integer(11)),
            ("tokens", JsonValue::Array(vec![token_json("猫", "名詞,一般"), token_json("歩く", "動詞,自立")])),
        ]),
        object(vec![("id", JsonValue::Integer(-3)), ("tokens", JsonValue::Array(Vec::new()))]),
        object(vec![
            ("id", JsonValue::Integer(2147483647)),
            ("tokens", JsonValue::Array(vec![token_json("", "")])),
        ]),
    ])
}

fn read(v: JsonValue) -> Result<Vec<DialogueTokens>, MalformedDocument> {
    PuzzleTokenCache { id: 1, puzzle_id: 7, tokens: v }.to_tokens()
}

#[test]
fn a_token_list_is_written_as_an_array_of_objects() {
    assert_eq!(document_of_tokens(&sample()), sample_document());
    assert_eq!(document_of_tokens(&Vec::new()), JsonValue::Array(Vec::new()));
}

#[test]
fn a_new_row_holds_the_puzzle_and_the_document() {
    let row = NewPuzzleTokenCache::new(7, &sample());
    assert_eq!(row.puzzle_id, 7);
    assert_eq!(row.tokens, sample_document());
}

#[test]
fn what_is_written_is_read_back() {
    let row = NewPuzzleTokenCache::new(7, &sample());
    assert_eq!(read(row.tokens), Ok(sample()));
    let empty = NewPuzzleTokenCache::new(8, &Vec::new());
    assert_eq!(read(empty.tokens), Ok(Vec::new()));
}

#[test]
fn members_may_come_in_any_order_and_with_others() {
    let document = JsonValue::Array(vec![object(vec![
        ("note", JsonValue::Null),
        (
            "tokens",
            JsonValue::Array(vec![object(vec![
                ("category", text("名詞,一般")),
                ("reading", text("ネコ")),
                ("text", text("猫")),
            ])]),
        ),
        ("id", JsonValue::Integer(5)),
    ])]);
    assert_eq!(
        tokens_from_document(&document),
        Ok(vec![DialogueTokens { id: 5, tokens: vec![token("猫", "名詞,一般")] }])
    );
}

#[test]
fn the_first_of_two_members_with_one_key_counts() {
    let members =
        vec![("id".to_string(), JsonValue::Integer(1)), ("id".to_string(), JsonValue::Integer(2))];
    assert_eq!(find_member(&members, "id"), Some(&JsonValue::Integer(1)));
    assert_eq!(find_member(&members, "tokens"), None);
    assert_eq!(find_member(&Vec::new(), "id"), None);
}

#[test]
fn a_document_that_is_no_array_is_malformed() {
    assert_eq!(read(JsonValue::Null), Err(MalformedDocument));
    assert_eq!(read(JsonValue::Bool(true)), Err(MalformedDocument));
    assert_eq!(read(JsonValue::Integer(0)), Err(MalformedDocument));
    assert_eq!(read(text("[]")), Err(MalformedDocument));
    assert_eq!(read(object(Vec::new())), Err(MalformedDocument));
}

#[test]
fn an_entry_that_is_no_dialogue_object_is_malformed() {
    let good = || object(vec![("id", JsonValue::Integer(1)), ("tokens", JsonValue::Array(Vec::new()))]);
    assert_eq!(read(JsonValue::Array(vec![good()])), Ok(vec![DialogueTokens { id: 1, tokens: Vec::new() }]));
    let bad = [
        JsonValue::Null,
        JsonValue::Array(vec![JsonValue::Integer(1), JsonValue::Array(Vec::new())]),
        object(vec![("id", JsonValue::Integer(1))]),
        object(vec![("tokens", JsonValue::Array(Vec::new()))]),
        object(vec![("id", text("1")), ("tokens", JsonValue::Array(Vec::new()))]),
        object(vec![("id", JsonValue::Integer(1)), ("tokens", JsonValue::Null)]),
        object(vec![("ID", JsonValue::Integer(1)), ("tokens", JsonValue::Array(Vec::new()))]),
    ];
    for entry in bad {
        assert_eq!(read(JsonValue::Array(vec![good(), entry])), Err(MalformedDocument));
    }
}

#[test]
fn an_identifier_must_be_an_integer_of_32_bits() {
    let with_id = |id: JsonValue| JsonValue::Array(vec![object(vec![("id", id), ("tokens", JsonValue::Array(Vec::new()))])]);
    assert_eq!(
        read(with_id(JsonValue::Integer(-2147483648))),
        Ok(vec![DialogueTokens { id: i32::MIN, tokens: Vec::new() }])
    );
    assert_eq!(read(with_id(JsonValue::Integer(2147483648))), Err(MalformedDocument));
    assert_eq!(read(with_id(JsonValue::Integer(-2147483649))), Err(MalformedDocument));
    assert_eq!(read(with_id(JsonValue::Unsigned(u64::MAX))), Err(MalformedDocument));
    assert_eq!(read(with_id(JsonValue::Real(0x401C000000000000))), Err(MalformedDocument));
}

#[test]
fn a_token_that_is_no_token_object_is_malformed() {
    let with_token = |t: JsonValue| {
        JsonValue::Array(vec![object(vec![
            ("id", JsonValue::Integer(1)),
            ("tokens", JsonValue::Array(vec![token_json("猫", "名詞,一般"), t])),
        ])])
    };
    let bad = [
        JsonValue::Null,
        text("猫"),
        object(vec![("text", text("猫"))]),
        object(vec![("category", text("名詞,一般"))]),
        object(vec![("text", text("猫")), ("poc", text("名詞,一般"))]),
        object(vec![("text", JsonValue::Integer(1)), ("category", text("名詞,一般"))]),
        object(vec![("text", text("猫")), ("category", JsonValue::Null)]),
    ];
    for t in bad {
        assert_eq!(read(with_token(t)), Err(MalformedDocument));
    }
}
