//! What is handed to the embedding models, and the state of the query.
//!
//! The models themselves stay outside: this module decides what they are
//! asked and what becomes of their answers.

use vstd::prelude::*;
use vstd::string::StringExecFns;
use crate::content::{data_uri_bytes, decode_data_uri, ClipboardContent, ContentView};
use crate::search::is_blank;
use crate::text::{occurs_at, trim, trimmed};

verus! {

/// What the model is given for a text that is stored: the text behind the
/// prefix that marks a document.
pub open spec fn document_text(text: Seq<char>) -> Seq<char> {
    "search_document: "@ + text
}

/// What the model is given for a text that is searched for: the text behind
/// the prefix that marks a query.
pub open spec fn query_text(text: Seq<char>) -> Seq<char> {
    "search_query: "@ + text
}

/// The input of an embedding model for one content.
#[derive(Debug, PartialEq)]
pub enum EmbeddingInput {
    /// A prompt for the text model.
    Document(String),
    /// An image file for the image model.
    Image(Vec<u8>),
    /// The content gets no embedding.
    Nothing,
}

/// The value of an [`EmbeddingInput`].
pub enum EmbeddingInputView {
    Document(Seq<char>),
    Image(Seq<u8>),
    Nothing,
}

impl View for EmbeddingInput {
    type V = EmbeddingInputView;

    open spec fn view(&self) -> EmbeddingInputView {
        match self {
            EmbeddingInput::Document(prompt) => EmbeddingInputView::Document(prompt@),
            EmbeddingInput::Image(file) => EmbeddingInputView::Image(file@),
            EmbeddingInput::Nothing => EmbeddingInputView::Nothing,
        }
    }
}

/// The model input for a content: the document prompt of a text, the file
/// that the data URI of an image carries, and nothing for an empty content
/// or an image whose data URI cannot be read.
pub open spec fn input_for(content: ContentView) -> EmbeddingInputView {
    match content {
        ContentView::Text(t) => EmbeddingInputView::Document(document_text(t)),
        ContentView::Image(uri) => match data_uri_bytes(uri) {
            Some(file) => EmbeddingInputView::Image(file),
            None => EmbeddingInputView::Nothing,
        },
        ContentView::Empty => EmbeddingInputView::Nothing,
    }
}

/// Makes the prompt for a text that is stored.
pub fn document_prompt(text: &str) -> (res: String)
    ensures
        res@ == document_text(text@),
{
    "search_document: ".to_owned().concat(text)
}

/// Makes the prompt for a text that is searched for.
pub fn query_prompt(text: &str) -> (res: String)
    ensures
        res@ == query_text(text@),
{
    "search_query: ".to_owned().concat(text)
}

/// Decides what an embedding model is asked for a captured content.
pub fn embedding_input(content: &ClipboardContent) -> (res: EmbeddingInput)
    ensures
        res@ == input_for(content@),
{
    match content {
        ClipboardContent::Text(t) => EmbeddingInput::Document(document_prompt(t.as_str())),
        ClipboardContent::Image(uri) => match decode_data_uri(uri.as_str()) {
            Some(file) => EmbeddingInput::Image(file),
            None => EmbeddingInput::Nothing,
        },
        ClipboardContent::Empty => EmbeddingInput::Nothing,
    }
}

/// The query as it was typed, and its embedding once that has been computed.
#[derive(Debug)]
pub struct QueryState {
    pub query: String,
    pub embedding: Option<Vec<u32>>,
}

/// The value of a [`QueryState`].
pub struct QueryView {
    pub query: Seq<char>,
    pub embedding: Option<Seq<u32>>,
}

impl View for QueryState {
    type V = QueryView;

    open spec fn view(&self) -> QueryView {
        QueryView {
            query: self.query@,
            embedding: match self.embedding {
                Some(e) => Some(e@),
                None => None,
            },
        }
    }
}

/// The prompt that is still to be embedded for a query: that of its trimmed
/// text, if the query is not blank and has no embedding yet.
pub open spec fn pending_prompt(state: QueryView) -> Option<Seq<char>> {
    if !is_blank(state.query) && state.embedding is None {
        Some(query_text(trimmed(state.query)))
    } else {
        None
    }
}

impl QueryState {
    /// The state before anything was typed.
    pub fn new() -> (res: QueryState)
        ensures
            res@ == (QueryView { query: Seq::empty(), embedding: None }),
    {
        QueryState { query: String::new(), embedding: None }
    }

    /// Takes a new query. The embedding of the query before it is dropped.
    pub fn set_query(&mut self, query: String)
        ensures
            final(self)@ == (QueryView { query: query@, embedding: None }),
    {
        self.query = query;
        self.embedding = None;
    }

    /// Tells what the text model is to be asked next for this query, if
    /// anything.
    pub fn next_prompt(&self) -> (res: Option<String>)
        ensures
            match res {
                Some(prompt) => pending_prompt(self@) == Some(prompt@),
                None => pending_prompt(self@) is None,
            },
    {
        let asked = trim(self.query.as_str());
        proof {
            let i = choose|i: int| occurs_at(self.query@, asked@, i);
            assert(asked@.len() <= self.query@.len());
        }
        if !asked.is_empty() && self.embedding.is_none() {
            Some(query_prompt(asked))
        } else {
            None
        }
    }

    /// Takes the embedding that was computed for the query `asked`. It is
    /// kept if that is still the query, and dropped if the query has changed
    /// in the meantime.
    pub fn set_embedding(&mut self, asked: &String, embedding: Vec<u32>)
        ensures
            final(self)@.query == old(self)@.query,
            final(self)@.embedding == if asked@ == old(self)@.query {
                Some(embedding@)
            } else {
                old(self)@.embedding
            },
    {
        if *asked == self.query {
            self.embedding = Some(embedding);
        }
    }
}

} // verus!
