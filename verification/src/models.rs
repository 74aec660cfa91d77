//! The records of the pipeline, and the document in which a puzzle's tokens
//! are cached: an array with one object `{id, tokens}` for each dialogue,
//! where `tokens` is an array of objects `{text, category}`.

use vstd::prelude::*;
use vstd::string::StringExecFns;
use crate::json::{find_member, member, JsonValue};
use crate::tokenize::{Token, TokenView, token_views};

verus! {

/// A dialogue of a puzzle, as far as the pipeline reads it.
#[derive(Clone, Debug, PartialEq, Eq)]
pub struct Dialogue {
    pub id: i32,
    pub question: String,
    pub puzzle_id: i32,
}

/// What a `Dialogue` is.
pub struct DialogueView {
    pub id: i32,
    pub question: Seq<char>,
    pub puzzle_id: i32,
}

impl View for Dialogue {
    type V = DialogueView;

    open spec fn view(&self) -> DialogueView {
        DialogueView { id: self.id, question: self.question@, puzzle_id: self.puzzle_id }
    }
}

/// The views of a sequence of dialogues, in order.
pub open spec fn dialogue_views(dialogues: Seq<Dialogue>) -> Seq<DialogueView> {
    dialogues.map_values(|d: Dialogue| d@)
}

/// The tokens of one dialogue.
#[derive(Clone, Debug, PartialEq, Eq)]
pub struct DialogueTokens {
    /// The dialogue's identifier.
    pub id: i32,
    /// Its tokens, in the analyzer's order.
    pub tokens: Vec<Token>,
}

/// What a `DialogueTokens` is: an identifier and a sequence of token views.
pub struct DialogueTokensView {
    pub id: i32,
    pub tokens: Seq<TokenView>,
}

impl View for DialogueTokens {
    type V = DialogueTokensView;

    open spec fn view(&self) -> DialogueTokensView {
        DialogueTokensView { id: self.id, tokens: token_views(self.tokens@) }
    }
}

/// The views of a sequence of `DialogueTokens`, in order.
pub open spec fn dialogue_tokens_views(list: Seq<DialogueTokens>) -> Seq<DialogueTokensView> {
    list.map_values(|d: DialogueTokens| d@)
}

/// A row of the token cache.
#[derive(Debug, PartialEq, Eq)]
pub struct PuzzleTokenCache {
    pub id: i32,
    pub puzzle_id: i32,
    pub tokens: JsonValue,
}

/// A row of the token cache that is still to be stored.
#[derive(Debug, PartialEq, Eq)]
pub struct NewPuzzleTokenCache {
    pub puzzle_id: i32,
    pub tokens: JsonValue,
}

/// A cached document that has not the shape of a token list.
#[derive(Clone, Copy, Debug, PartialEq, Eq)]
pub struct MalformedDocument;

/// The token that `v` holds: `v` is an object whose members `text` and
/// `category` are strings. Other members are passed over.
pub open spec fn token_of_json(v: JsonValue) -> Option<TokenView> {
    match v {
        JsonValue::Object(members) => match (
            member(members@, "text"@),
            member(members@, "category"@),
        ) {
            (Some(JsonValue::Text(text)), Some(JsonValue::Text(category))) => Some(
                TokenView { text: text@, category: category@ },
            ),
            _ => None,
        },
        _ => None,
    }
}

/// The tokens that the items hold, if each of them holds one.
pub open spec fn tokens_of_json(items: Seq<JsonValue>) -> Option<Seq<TokenView>> {
    if forall|i: int| 0 <= i < items.len() ==> token_of_json(#[trigger] items[i]) is Some {
        Some(Seq::new(items.len(), |i: int| token_of_json(items[i]).unwrap()))
    } else {
        None
    }
}

/// The dialogue's tokens that `v` holds: `v` is an object whose member `id`
/// is an integer of 32 bits and whose member `tokens` is an array of tokens.
pub open spec fn dialogue_of_json(v: JsonValue) -> Option<DialogueTokensView> {
    match v {
        JsonValue::Object(members) => match (member(members@, "id"@), member(members@, "tokens"@)) {
            (Some(JsonValue::Integer(id)), Some(JsonValue::Array(items))) => {
                if i32::MIN <= id <= i32::MAX && tokens_of_json(items@) is Some {
                    Some(DialogueTokensView { id: id as i32, tokens: tokens_of_json(items@).unwrap() })
                } else {
                    None
                }
            },
            _ => None,
        },
        _ => None,
    }
}

/// The dialogues' tokens that the items hold, if each of them holds some.
pub open spec fn dialogues_of_json(items: Seq<JsonValue>) -> Option<Seq<DialogueTokensView>> {
    if forall|i: int| 0 <= i < items.len() ==> dialogue_of_json(#[trigger] items[i]) is Some {
        Some(Seq::new(items.len(), |i: int| dialogue_of_json(items[i]).unwrap()))
    } else {
        None
    }
}

/// The token list that the document `v` holds: `v` is an array, and each of
/// its items holds a dialogue's tokens.
pub open spec fn document_tokens(v: JsonValue) -> Option<Seq<DialogueTokensView>> {
    match v {
        JsonValue::Array(items) => dialogues_of_json(items@),
        _ => None,
    }
}

/// `v` is the object written for the token `t`: the members `text` and
/// `category`, in this order, and no other.
pub open spec fn is_token_json(v: JsonValue, t: TokenView) -> bool {
    &&& v matches JsonValue::Object(members)
    &&& members@.len() == 2
    &&& members@[0].0@ == "text"@
    &&& members@[0].1 matches JsonValue::Text(text)
    &&& text@ == t.text
    &&& members@[1].0@ == "category"@
    &&& members@[1].1 matches JsonValue::Text(category)
    &&& category@ == t.category
}

/// `v` is the object written for the dialogue's tokens `d`: the members `id`
/// and `tokens`, in this order, and no other.
pub open spec fn is_dialogue_json(v: JsonValue, d: DialogueTokensView) -> bool {
    &&& v matches JsonValue::Object(members)
    &&& members@.len() == 2
    &&& members@[0].0@ == "id"@
    &&& members@[0].1 == JsonValue::Integer(d.id as i64)
    &&& members@[1].0@ == "tokens"@
    &&& members@[1].1 matches JsonValue::Array(items)
    &&& items@.len() == d.tokens.len()
    &&& forall|j: int| 0 <= j < items@.len() ==> is_token_json(#[trigger] items@[j], d.tokens[j])
}

/// `v` is the document written for the token list `list`: an array with the
/// object of each dialogue, in order.
pub open spec fn is_document_of(v: JsonValue, list: Seq<DialogueTokensView>) -> bool {
    &&& v matches JsonValue::Array(items)
    &&& items@.len() == list.len()
    &&& forall|i: int| 0 <= i < items@.len() ==> is_dialogue_json(#[trigger] items@[i], list[i])
}

/// The token that `v` holds, if it holds one.
pub fn token_from_json(v: &JsonValue) -> (token: Option<Token>)
    ensures
        token_of_json(*v) == match token {
            Some(t) => Some(t@),
            None => None,
        },
{
    match v {
        JsonValue::Object(members) => {
            match (find_member(members, "text"), find_member(members, "category")) {
                (Some(JsonValue::Text(text)), Some(JsonValue::Text(category))) => Some(
                    Token { text: text.clone(), category: category.clone() },
                ),
                _ => None,
            }
        },
        _ => None,
    }
}

/// The tokens that the items hold, if each of them holds one.
pub fn tokens_from_json(items: &Vec<JsonValue>) -> (tokens: Option<Vec<Token>>)
    ensures
        tokens_of_json(items@) == match tokens {
            Some(list) => Some(token_views(list@)),
            None => None,
        },
{
    let mut list: Vec<Token> = Vec::new();
    let mut i: usize = 0;
    while i < items.len()
        invariant
            i <= items.len(),
            list@.len() == i,
            forall|j: int| 0 <= j < i ==> token_of_json(#[trigger] items@[j]) == Some(list@[j]@),
        decreases items.len() - i,
    {
        match token_from_json(&items[i]) {
            Some(t) => {
                list.push(t);
            },
            None => {
                return None;
            },
        }
        i += 1;
    }
    assert(tokens_of_json(items@).unwrap() =~= token_views(list@));
    Some(list)
}

/// The dialogue's tokens that `v` holds, if it holds them.
pub fn dialogue_from_json(v: &JsonValue) -> (dialogue: Option<DialogueTokens>)
    ensures
        dialogue_of_json(*v) == match dialogue {
            Some(d) => Some(d@),
            None => None,
        },
{
    match v {
        JsonValue::Object(members) => {
            match (find_member(members, "id"), find_member(members, "tokens")) {
                (Some(JsonValue::Integer(id)), Some(JsonValue::Array(items))) => {
                    if -2147483648 <= *id && *id <= 2147483647 {
                        match tokens_from_json(items) {
                            Some(tokens) => Some(DialogueTokens { id: *id as i32, tokens }),
                            None => None,
                        }
                    } else {
                        None
                    }
                },
                _ => None,
            }
        },
        _ => None,
    }
}

/// The dialogues' tokens that the items hold, if each of them holds some.
pub fn dialogues_from_json(items: &Vec<JsonValue>) -> (dialogues: Option<Vec<DialogueTokens>>)
    ensures
        dialogues_of_json(items@) == match dialogues {
            Some(list) => Some(dialogue_tokens_views(list@)),
            None => None,
        },
{
    let mut list: Vec<DialogueTokens> = Vec::new();
    let mut i: usize = 0;
    while i < items.len()
        invariant
            i <= items.len(),
            list@.len() == i,
            forall|j: int| 0 <= j < i ==> dialogue_of_json(#[trigger] items@[j]) == Some(list@[j]@),
        decreases items.len() - i,
    {
        match dialogue_from_json(&items[i]) {
            Some(d) => {
                list.push(d);
            },
            None => {
                return None;
            },
        }
        i += 1;
    }
    assert(dialogues_of_json(items@).unwrap() =~= dialogue_tokens_views(list@));
    Some(list)
}

/// Reads the token list out of a cached document. Fails exactly where the
/// document has not the shape of one.
pub fn tokens_from_document(v: &JsonValue) -> (tokens: Result<
    Vec<DialogueTokens>,
    MalformedDocument,
>)
    ensures
        document_tokens(*v) == match tokens {
            Ok(list) => Some(dialogue_tokens_views(list@)),
            Err(_) => None,
        },
{
    match v {
        JsonValue::Array(items) => match dialogues_from_json(items) {
            Some(list) => Ok(list),
            None => Err(MalformedDocument),
        },
        _ => Err(MalformedDocument),
    }
}

/// The object written for a token.
pub fn token_to_json(t: &Token) -> (v: JsonValue)
    ensures
        is_token_json(v, t@),
{
    let mut members: Vec<(String, JsonValue)> = Vec::new();
    members.push((String::from_str("text"), JsonValue::Text(t.text.clone())));
    members.push((String::from_str("category"), JsonValue::Text(t.category.clone())));
    JsonValue::Object(members)
}

/// The object written for a dialogue's tokens.
pub fn dialogue_to_json(d: &DialogueTokens) -> (v: JsonValue)
    ensures
        is_dialogue_json(v, d@),
{
    let mut items: Vec<JsonValue> = Vec::new();
    let mut j: usize = 0;
    while j < d.tokens.len()
        invariant
            j <= d.tokens.len(),
            items@.len() == j,
            forall|k: int| 0 <= k < j ==> is_token_json(#[trigger] items@[k], d.tokens@[k]@),
        decreases d.tokens.len() - j,
    {
        items.push(token_to_json(&d.tokens[j]));
        j += 1;
    }
    let mut members: Vec<(String, JsonValue)> = Vec::new();
    members.push((String::from_str("id"), JsonValue::Integer(d.id as i64)));
    members.push((String::from_str("tokens"), JsonValue::Array(items)));
    JsonValue::Object(members)
}

/// The document written for a token list.
pub fn document_of_tokens(list: &Vec<DialogueTokens>) -> (v: JsonValue)
    ensures
        is_document_of(v, dialogue_tokens_views(list@)),
        document_tokens(v) == Some(dialogue_tokens_views(list@)),
{
    let mut items: Vec<JsonValue> = Vec::new();
    let mut i: usize = 0;
    while i < list.len()
        invariant
            i <= list.len(),
            items@.len() == i,
            forall|k: int| 0 <= k < i ==> is_dialogue_json(#[trigger] items@[k], list@[k]@),
        decreases list.len() - i,
    {
        items.push(dialogue_to_json(&list[i]));
        i += 1;
    }
    let v = JsonValue::Array(items);
    proof {
        lemma_document_round_trip(v, dialogue_tokens_views(list@));
    }
    v
}

impl PuzzleTokenCache {
    /// The token list that the row caches. Fails exactly where the row's
    /// document has not the shape of one.
    pub fn to_tokens(self) -> (tokens: Result<Vec<DialogueTokens>, MalformedDocument>)
        ensures
            document_tokens(self.tokens) == match tokens {
                Ok(list) => Some(dialogue_tokens_views(list@)),
                Err(_) => None,
            },
    {
        tokens_from_document(&self.tokens)
    }
}

impl NewPuzzleTokenCache {
    /// The row that caches `tokens` for the puzzle `puzzle_id`.
    pub fn new(puzzle_id: i32, tokens: &Vec<DialogueTokens>) -> (row: NewPuzzleTokenCache)
        ensures
            row.puzzle_id == puzzle_id,
            is_document_of(row.tokens, dialogue_tokens_views(tokens@)),
            document_tokens(row.tokens) == Some(dialogue_tokens_views(tokens@)),
    {
        NewPuzzleTokenCache { puzzle_id, tokens: document_of_tokens(tokens) }
    }
}

/// Reading the object written for a token gives the token back.
pub proof fn lemma_token_round_trip(v: JsonValue, t: TokenView)
    requires
        is_token_json(v, t),
    ensures
        token_of_json(v) == Some(t),
{
    let members = v->Object_0@;
    reveal_strlit("text");
    reveal_strlit("category");
    assert("text"@.len() != "category"@.len());
    assert(member(members, "text"@) == Some(members[0].1));
    assert(members.drop_first()[0] == members[1]);
    assert(member(members.drop_first(), "category"@) == Some(members[1].1));
    assert(member(members, "category"@) == Some(members[1].1));
}

/// Reading the object written for a dialogue's tokens gives them back.
pub proof fn lemma_dialogue_round_trip(v: JsonValue, d: DialogueTokensView)
    requires
        is_dialogue_json(v, d),
    ensures
        dialogue_of_json(v) == Some(d),
{
    let members = v->Object_0@;
    reveal_strlit("id");
    reveal_strlit("tokens");
    assert("id"@.len() != "tokens"@.len());
    assert(member(members, "id"@) == Some(members[0].1));
    assert(members.drop_first()[0] == members[1]);
    assert(member(members.drop_first(), "tokens"@) == Some(members[1].1));
    assert(member(members, "tokens"@) == Some(members[1].1));
    let items = members[1].1->Array_0@;
    assert forall|j: int| 0 <= j < items.len() implies token_of_json(#[trigger] items[j]) == Some(
        d.tokens[j],
    ) by {
        lemma_token_round_trip(items[j], d.tokens[j]);
    }
    assert(tokens_of_json(items).unwrap() =~= d.tokens);
}

/// Writing a token list as a document and reading the document gives the
/// same list: the same dialogue identifiers, texts and category strings, in
/// the same order.
pub proof fn lemma_document_round_trip(v: JsonValue, list: Seq<DialogueTokensView>)
    requires
        is_document_of(v, list),
    ensures
        document_tokens(v) == Some(list),
{
    let items = v->Array_0@;
    assert forall|i: int| 0 <= i < items.len() implies dialogue_of_json(#[trigger] items[i])
        == Some(list[i]) by {
        lemma_dialogue_round_trip(items[i], list[i]);
    }
    assert(document_tokens(v).unwrap() =~= list);
}

} // verus!
