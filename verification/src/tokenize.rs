//! Tokens, their part of speech, and the content-word filter.
//!
//! A token holds two strings. `text` is the word's base form as the analyzer
//! reports it; `category` is the string `pos,detail` made of the first two
//! fields of the analyzer's feature string. Classification reads `category`
//! and nothing else.

use vstd::prelude::*;
use vstd::string::StrSliceExecFns;
use crate::features::{cut, field_bounds, fields, lemma_category_fields, simplified,
    simplify_features, well_formed};
use crate::text::{chars_of, slice_equals};

verus! {

/// One word of a dialogue.
#[derive(Clone, Debug, PartialEq, Eq)]
pub struct Token {
    /// The base form of the word.
    pub text: String,
    /// The part of speech and its sub-detail, separated by a comma.
    pub category: String,
}

/// What a token is, as two sequences of characters.
pub struct TokenView {
    pub text: Seq<char>,
    pub category: Seq<char>,
}

impl View for Token {
    type V = TokenView;

    open spec fn view(&self) -> TokenView {
        TokenView { text: self.text@, category: self.category@ }
    }
}

/// The views of a sequence of tokens, in order.
pub open spec fn token_views(tokens: Seq<Token>) -> Seq<TokenView> {
    tokens.map_values(|t: Token| t@)
}

/// Parts of speech.
///
/// `Partical` stands for particles and for auxiliary verbs alike, and
/// `Determiner` for prenominal modifiers; `AuxilliaryVerb` is never given to a
/// token.
#[derive(Clone, Copy, Debug, PartialEq, Eq, Structural)]
pub enum Poc {
    Noun,
    Verb,
    Adjactive,
    Adverb,
    Partical,
    Conjunctive,
    AuxilliaryVerb,
    Determiner,
    Interjection,
    Others,
}

/// The part of speech that the analyzer's tag `tag` names. The table is
/// fixed; a tag that is not in it is `Others`.
pub open spec fn poc_of_tag(tag: Seq<char>) -> Poc {
    if tag == "名詞"@ {
        Poc::Noun
    } else if tag == "動詞"@ {
        Poc::Verb
    } else if tag == "形容詞"@ {
        Poc::Adjactive
    } else if tag == "副詞"@ {
        Poc::Adverb
    } else if tag == "助詞"@ {
        Poc::Partical
    } else if tag == "接続詞"@ {
        Poc::Conjunctive
    } else if tag == "助動詞"@ {
        Poc::Partical
    } else if tag == "連体詞"@ {
        Poc::Determiner
    } else if tag == "感動詞"@ {
        Poc::Interjection
    } else {
        Poc::Others
    }
}

/// The part of speech of a category string: that of its first field.
pub open spec fn poc_of(category: Seq<char>) -> Poc {
    poc_of_tag(fields(category)[0])
}

/// The sub-detail of a category string: its second field, or `*` where it
/// has none.
pub open spec fn detail_of(category: Seq<char>) -> Seq<char> {
    if fields(category).len() >= 2 {
        fields(category)[1]
    } else {
        "*"@
    }
}

/// The sub-detail that marks a noun as a numeral.
pub open spec fn numeral_detail() -> Seq<char> {
    "数"@
}

/// Whether a token is a content word: a verb, or a noun that is no numeral.
pub open spec fn is_content_word(t: TokenView) -> bool {
    match poc_of(t.category) {
        Poc::Verb => true,
        Poc::Noun => detail_of(t.category) != numeral_detail(),
        _ => false,
    }
}

/// The content words among `tokens`, in their order.
pub open spec fn content_words(tokens: Seq<TokenView>) -> Seq<TokenView> {
    tokens.filter(|t: TokenView| is_content_word(t))
}

impl Token {
    /// A token with the given base form and category string.
    pub fn new(text: String, category: String) -> (token: Token)
        ensures
            token@ == (TokenView { text: text@, category: category@ }),
    {
        Token { text, category }
    }

    /// The token of a feature string, or `None` where the string has not
    /// the shape of one. The base form goes to `text`, the string
    /// `pos,detail` to `category`.
    pub fn from_feature(feature: &str) -> (token: Option<Token>)
        ensures
            token_of_feature(feature@) == match token {
                Some(t) => Some(t@),
                None => None,
            },
    {
        match simplify_features(feature) {
            Some((category, base)) => Some(Token { text: base, category }),
            None => None,
        }
    }

    /// The token's part of speech.
    pub fn get_poc(&self) -> (poc: Poc)
        ensures
            poc == poc_of(self@.category),
    {
        let v = chars_of(self.category.as_str());
        let bounds = field_bounds(&v);
        let (from, to) = bounds[0];
        assert(cut(v@, bounds@)[0] == v@.subrange(from as int, to as int));
        if slice_equals(&v, from, to, "名詞") {
            Poc::Noun
        } else if slice_equals(&v, from, to, "動詞") {
            Poc::Verb
        } else if slice_equals(&v, from, to, "形容詞") {
            Poc::Adjactive
        } else if slice_equals(&v, from, to, "副詞") {
            Poc::Adverb
        } else if slice_equals(&v, from, to, "助詞") {
            Poc::Partical
        } else if slice_equals(&v, from, to, "接続詞") {
            Poc::Conjunctive
        } else if slice_equals(&v, from, to, "助動詞") {
            Poc::Partical
        } else if slice_equals(&v, from, to, "連体詞") {
            Poc::Determiner
        } else if slice_equals(&v, from, to, "感動詞") {
            Poc::Interjection
        } else {
            Poc::Others
        }
    }

    /// The sub-detail of the token's part of speech, `*` where the category
    /// string has no second field.
    pub fn get_poc_detail(&self) -> (detail: &str)
        ensures
            detail@ == detail_of(self@.category),
    {
        let s = self.category.as_str();
        let v = chars_of(s);
        let bounds = field_bounds(&v);
        if bounds.len() >= 2 {
            let (from, to) = bounds[1];
            assert(cut(v@, bounds@)[1] == v@.subrange(from as int, to as int));
            s.substring_char(from, to)
        } else {
            "*"
        }
    }

    /// Whether the token is a content word.
    pub fn is_content(&self) -> (keep: bool)
        ensures
            keep == is_content_word(self@),
    {
        match self.get_poc() {
            Poc::Verb => true,
            Poc::Noun => {
                let detail = chars_of(self.get_poc_detail());
                let n = detail.len();
                assert(detail@.subrange(0, n as int) == detail@);
                !slice_equals(&detail, 0, n, "数")
            },
            _ => false,
        }
    }
}

/// The token that a feature string stands for.
pub open spec fn token_of_feature(feature: Seq<char>) -> Option<TokenView> {
    match simplified(feature) {
        Some((category, base)) => Some(TokenView { text: base, category }),
        None => None,
    }
}

/// Keeps the content words of `tokens`, in their order, and drops the rest.
pub fn keep_content_words(tokens: Vec<Token>) -> (kept: Vec<Token>)
    ensures
        token_views(kept@) == content_words(token_views(tokens@)),
{
    let ghost all = token_views(tokens@);
    let ghost pred = |t: TokenView| is_content_word(t);
    let mut kept: Vec<Token> = Vec::new();
    proof {
        reveal(Seq::filter);
        assert(all.take(0) =~= Seq::<TokenView>::empty());
        assert(token_views(kept@) =~= all.take(0).filter(pred));
    }
    for t in it: tokens.into_iter()
        invariant
            it.seq() == tokens@,
            all == token_views(tokens@),
            pred == |t: TokenView| is_content_word(t),
            token_views(kept@) == all.take(it.index() as int).filter(pred),
    {
        let ghost before = token_views(kept@);
        let ghost seen = all.take(it.index() + 1);
        proof {
            reveal(Seq::filter);
            assert(seen.drop_last() == all.take(it.index() as int));
            assert(seen.last() == t@);
        }
        if t.is_content() {
            kept.push(t);
            assert(token_views(kept@) =~= before.push(t@));
        }
    }
    assert(all.take(all.len() as int) == all);
    kept
}

/// The status of the node that opens a sentence.
pub const BOS_NODE: u8 = 2;

/// The status of the node that closes a sentence.
pub const EOS_NODE: u8 = 3;

/// One unit of the analyzer's output: its status and its feature string.
#[derive(Clone, Debug, PartialEq, Eq)]
pub struct AnalyzerNode {
    pub stat: u8,
    pub feature: String,
}

/// What an `AnalyzerNode` is.
pub struct NodeView {
    pub stat: u8,
    pub feature: Seq<char>,
}

impl View for AnalyzerNode {
    type V = NodeView;

    open spec fn view(&self) -> NodeView {
        NodeView { stat: self.stat, feature: self.feature@ }
    }
}

/// The views of a sequence of nodes, in order.
pub open spec fn node_views(nodes: Seq<AnalyzerNode>) -> Seq<NodeView> {
    nodes.map_values(|n: AnalyzerNode| n@)
}

/// A node that stands for a word: any node but the two sentence marks.
pub open spec fn is_word(n: NodeView) -> bool {
    n.stat != BOS_NODE && n.stat != EOS_NODE
}

/// Every word among `nodes` has a well-formed feature string.
pub open spec fn readable(nodes: Seq<NodeView>) -> bool {
    forall|i: int|
        0 <= i < nodes.len() && is_word(#[trigger] nodes[i]) ==> well_formed(nodes[i].feature)
}

/// The tokens of the words among `nodes`, in order.
pub open spec fn tokens_of_nodes(nodes: Seq<NodeView>) -> Seq<TokenView> {
    nodes.filter(|n: NodeView| is_word(n)).map_values(
        |n: NodeView| token_of_feature(n.feature).unwrap(),
    )
}

/// A word whose feature string has not the shape of one; `index` is the
/// node's place in the analyzer's output.
#[derive(Clone, Copy, Debug, PartialEq, Eq)]
pub struct MalformedFeature {
    pub index: usize,
}

/// Turns the analyzer's output for one text into tokens: the sentence marks
/// are dropped, and every other node gives one token, in order. Fails at the
/// first word whose feature string is malformed.
pub fn tokenize(nodes: &Vec<AnalyzerNode>) -> (tokens: Result<Vec<Token>, MalformedFeature>)
    ensures
        match tokens {
            Ok(list) => readable(node_views(nodes@)) && token_views(list@) == tokens_of_nodes(
                node_views(nodes@),
            ),
            Err(e) => {
                &&& e.index < nodes@.len()
                &&& is_word(nodes@[e.index as int]@)
                &&& !well_formed(nodes@[e.index as int]@.feature)
                &&& readable(node_views(nodes@).take(e.index as int))
            },
        },
{
    let ghost all = node_views(nodes@);
    let ghost word = |n: NodeView| is_word(n);
    let ghost token = |n: NodeView| token_of_feature(n.feature).unwrap();
    let mut list: Vec<Token> = Vec::new();
    let mut i: usize = 0;
    proof {
        reveal(Seq::filter);
        assert(all.take(0) =~= Seq::<NodeView>::empty());
        assert(token_views(list@) =~= all.take(0).filter(word).map_values(token));
    }
    while i < nodes.len()
        invariant
            i <= nodes.len(),
            all == node_views(nodes@),
            word == |n: NodeView| is_word(n),
            token == |n: NodeView| token_of_feature(n.feature).unwrap(),
            readable(all.take(i as int)),
            token_views(list@) == all.take(i as int).filter(word).map_values(token),
        decreases nodes.len() - i,
    {
        let node = &nodes[i];
        let ghost seen = all.take(i + 1);
        let ghost before = token_views(list@);
        proof {
            reveal(Seq::filter);
            assert(seen.drop_last() == all.take(i as int));
            assert(seen.last() == node@);
        }
        if node.stat != BOS_NODE && node.stat != EOS_NODE {
            match Token::from_feature(node.feature.as_str()) {
                Some(t) => {
                    list.push(t);
                    assert(token_views(list@) =~= before.push(t@));
                    assert(seen.filter(word).map_values(token) =~= before.push(t@));
                },
                None => {
                    return Err(MalformedFeature { index: i });
                },
            }
        }
        assert forall|j: int| 0 <= j < seen.len() && is_word(#[trigger] seen[j]) implies well_formed(
            seen[j].feature,
        ) by {
            if j < i {
                assert(seen[j] == all.take(i as int)[j]);
            }
        }
        i += 1;
    }
    assert(all.take(all.len() as int) == all);
    Ok(list)
}

/// In the token of a well-formed feature string, classification finds the
/// feature string's first field as the part of speech and its second as the
/// sub-detail; the text is its seventh field.
pub proof fn lemma_token_of_feature(feature: Seq<char>)
    requires
        well_formed(feature),
    ensures
        token_of_feature(feature) is Some,
        poc_of(token_of_feature(feature).unwrap().category) == poc_of_tag(fields(feature)[0]),
        detail_of(token_of_feature(feature).unwrap().category) == fields(feature)[1],
        token_of_feature(feature).unwrap().text == fields(feature)[6],
{
    lemma_category_fields(feature);
}

/// Only verbs and nouns are content words, and a numeral never is.
pub proof fn lemma_content_word_categories(t: TokenView)
    ensures
        is_content_word(t) <==> (poc_of(t.category) == Poc::Verb || (poc_of(t.category)
            == Poc::Noun && detail_of(t.category) != numeral_detail())),
        is_content_word(t) ==> poc_of(t.category) == Poc::Verb || poc_of(t.category) == Poc::Noun,
{
}

/// The filter keeps exactly the content words: what it gives holds a token
/// if and only if the input holds it and it is a content word.
pub proof fn lemma_content_words_exact(tokens: Seq<TokenView>, t: TokenView)
    ensures
        content_words(tokens).contains(t) <==> tokens.contains(t) && is_content_word(t),
{
    let pred = |t: TokenView| is_content_word(t);
    if content_words(tokens).contains(t) {
        let i = choose|i: int| 0 <= i < content_words(tokens).len() && content_words(tokens)[i] == t;
        tokens.lemma_filter_pred(pred, i);
        tokens.lemma_filter_contains_rev(pred, t);
    }
    if tokens.contains(t) && is_content_word(t) {
        let i = choose|i: int| 0 <= i < tokens.len() && tokens[i] == t;
        tokens.lemma_filter_contains(pred, i);
    }
}

} // verus!
