//! The tokens of a parsed chapter, as far as the book rewrites them.
use vstd::prelude::*;

verus! {

/// One markup token of a chapter.
#[derive(Clone, Debug)]
pub enum Token {
    /// Text, and any markup that the book does not look into.
    Text(String),
    /// A link: its target, and its text.
    Link(String, String),
    /// An image: its source, and its alternative text.
    Image(String, String),
}

pub enum TokenModel {
    Text(Seq<char>),
    Link(Seq<char>, Seq<char>),
    Image(Seq<char>, Seq<char>),
}

impl View for Token {
    type V = TokenModel;

    open spec fn view(&self) -> TokenModel {
        match self {
            Token::Text(s) => TokenModel::Text(s@),
            Token::Link(u, t) => TokenModel::Link(u@, t@),
            Token::Image(u, t) => TokenModel::Image(u@, t@),
        }
    }
}

pub open spec fn tokens_view(v: Seq<Token>) -> Seq<TokenModel> {
    Seq::new(v.len(), |i: int| v[i]@)
}

} // verus!
