//! The engines that can be swapped while the session runs: chat models,
//! embedders, chunking strategies and document parsers.

use vstd::prelude::*;

use ragrig::ChatAgentSpec;
use ragrig::ChunkConfig;
use ragrig::EmbedderSpec;

use crate::text;

verus! {

/// A chat engine to be built.
#[derive(Debug, Clone)]
pub enum ChatSpec {
    /// A model on the local Ollama server.
    Ollama { model: String },
    /// A model of the DeepSeek service; the key may also come from the
    /// environment.
    DeepSeek { model: String, api_key: Option<String> },
    /// An engine that this library cannot name.
    Other,
}

/// An embedding engine to be built.
#[derive(Debug, Clone)]
pub enum EmbedSpec {
    /// A model on the local Ollama server.
    Ollama { model: String },
    /// No embeddings at all.
    Disabled,
    /// An engine that this library cannot name.
    Other,
}

/// The mathematical value of a [`ChatSpec`].
pub enum ChatSpecView {
    Ollama { model: Seq<char> },
    DeepSeek { model: Seq<char>, api_key: Option<Seq<char>> },
    Other,
}

/// The mathematical value of an [`EmbedSpec`].
pub enum EmbedSpecView {
    Ollama { model: Seq<char> },
    Disabled,
    Other,
}

impl View for ChatSpec {
    type V = ChatSpecView;

    open spec fn view(&self) -> ChatSpecView {
        match self {
            ChatSpec::Ollama { model } => ChatSpecView::Ollama { model: model@ },
            ChatSpec::DeepSeek { model, api_key } => ChatSpecView::DeepSeek {
                model: model@,
                api_key: text::opt_text(*api_key),
            },
            ChatSpec::Other => ChatSpecView::Other,
        }
    }
}

impl View for EmbedSpec {
    type V = EmbedSpecView;

    open spec fn view(&self) -> EmbedSpecView {
        match self {
            EmbedSpec::Ollama { model } => EmbedSpecView::Ollama { model: model@ },
            EmbedSpec::Disabled => EmbedSpecView::Disabled,
            EmbedSpec::Other => EmbedSpecView::Other,
        }
    }
}

/// `o`, or `default` where there is nothing.
pub open spec fn or_default(o: Option<Seq<char>>, default: Seq<char>) -> Seq<char> {
    match o {
        Some(s) => s,
        None => default,
    }
}

/// The chat engine that a backend name in lower case stands for, with the
/// model and the key that were asked for.
pub open spec fn chat_spec_of(
    backend: Seq<char>,
    model: Option<Seq<char>>,
    api_key: Option<Seq<char>>,
) -> Result<ChatSpecView, Seq<char>> {
    if backend == "ollama"@ {
        Ok(ChatSpecView::Ollama { model: or_default(model, "qwen3.5:9b"@) })
    } else if backend == "deepseek"@ {
        Ok(ChatSpecView::DeepSeek { model: or_default(model, "deepseek-chat"@), api_key })
    } else {
        Err("Unknown chat backend: '"@ + backend + "'. Available: ollama, deepseek"@)
    }
}

/// The embedding engine that a backend name in lower case stands for, with the
/// model that was asked for.
pub open spec fn embed_spec_of(backend: Seq<char>, model: Option<Seq<char>>) -> Result<
    EmbedSpecView,
    Seq<char>,
> {
    if backend == "ollama"@ {
        Ok(EmbedSpecView::Ollama { model: or_default(model, "nomic-embed-text:latest"@) })
    } else if backend == "none"@ || backend == "off"@ {
        Ok(EmbedSpecView::Disabled)
    } else {
        Err("Unknown embedding backend: '"@ + backend + "'. Available: ollama, none"@)
    }
}

/// Whether `r` is the engine or the complaint that `v` stands for.
pub open spec fn is_chat_spec(
    r: Result<ChatSpec, String>,
    v: Result<ChatSpecView, Seq<char>>,
) -> bool {
    match r {
        Ok(s) => v == Ok::<ChatSpecView, Seq<char>>(s@),
        Err(e) => v == Err::<ChatSpecView, Seq<char>>(e@),
    }
}

/// Whether `r` is the engine or the complaint that `v` stands for.
pub open spec fn is_embed_spec(
    r: Result<EmbedSpec, String>,
    v: Result<EmbedSpecView, Seq<char>>,
) -> bool {
    match r {
        Ok(s) => v == Ok::<EmbedSpecView, Seq<char>>(s@),
        Err(e) => v == Err::<EmbedSpecView, Seq<char>>(e@),
    }
}

/// Reads `<backend> [model] [api_key]` with `ragrig::ChatAgentSpec::parse`: the
/// backend name counts in lower case, each of the two backends of this build
/// has a default model, the key is kept for DeepSeek alone, and any other name
/// is refused with a message that quotes it.
#[verifier::external_body]
pub(crate) fn parse_chat_spec(backend: &str, model: Option<&str>, api_key: Option<&str>) -> (r:
    Result<ChatSpec, String>)
    ensures
        is_chat_spec(
            r,
            chat_spec_of(
                text::lowercase_of(backend@),
                text::opt_str(model),
                text::opt_str(api_key),
            ),
        ),
{
    match ChatAgentSpec::parse(backend, model, api_key, None) {
        Ok(ChatAgentSpec::Ollama { model, .. }) => Ok(ChatSpec::Ollama { model }),
        Ok(ChatAgentSpec::DeepSeek { model, api_key, .. }) => Ok(
            ChatSpec::DeepSeek { model, api_key },
        ),
        Ok(_) => Ok(ChatSpec::Other),
        Err(e) => Err(e.to_string()),
    }
}

/// Reads `<backend> [model]` with `ragrig::EmbedderSpec::parse`: the backend
/// name counts in lower case, Ollama has a default model, `none` and `off`
/// disable embeddings, and any other name is refused with a message that
/// quotes it.
#[verifier::external_body]
pub(crate) fn parse_embed_spec(backend: &str, model: Option<&str>) -> (r: Result<
    EmbedSpec,
    String,
>)
    ensures
        is_embed_spec(r, embed_spec_of(text::lowercase_of(backend@), text::opt_str(model))),
{
    match EmbedderSpec::parse(backend, model) {
        Ok(EmbedderSpec::Ollama { model, .. }) => Ok(EmbedSpec::Ollama { model }),
        Ok(EmbedderSpec::None) => Ok(EmbedSpec::Disabled),
        Ok(_) => Ok(EmbedSpec::Other),
        Err(e) => Err(e.to_string()),
    }
}

/// The embedding backends of this build, as
/// `ragrig::EmbedderSpec::available_backends` lists them.
#[verifier::external_body]
pub(crate) fn embed_backends() -> (r: Vec<String>)
    ensures
        text::texts(r@) == seq!["ollama"@, "none"@],
{
    EmbedderSpec::available_backends().iter().map(|s| s.to_string()).collect()
}

/// The names of the chunking strategies of this build, in the order of
/// `ragrig::available_chunkers`.
pub open spec fn chunker_list() -> Seq<Seq<char>> {
    seq![
        "markdown"@,
        "token"@,
        "chunkedrs-recursive"@,
        "chunkedrs-markdown"@,
        "chunkedrs-code"@,
        "chunkedrs-html"@,
    ]
}

/// The names that the strategies of `ragrig::available_chunkers` report.
#[verifier::external_body]
pub(crate) fn chunker_names() -> (r: Vec<String>)
    ensures
        text::texts(r@) == chunker_list(),
{
    ragrig::available_chunkers().iter().map(|c| c.name().to_string()).collect()
}

/// What is wrong with a chunk size and an overlap, if anything: the size must
/// be positive and the overlap smaller than it.
pub open spec fn chunk_complaint(size: nat, overlap: nat) -> Option<Seq<char>> {
    if size == 0 {
        Some("ChunkConfig::size must be > 0, got "@ + crate::number::decimal(size))
    } else if overlap >= size {
        Some(
            "ChunkConfig::overlap ("@ + crate::number::decimal(overlap)
                + ") must be less than size ("@ + crate::number::decimal(size) + ")"@,
        )
    } else {
        None
    }
}

/// Whether `ragrig::ChunkConfig::new` accepts a chunk size and an overlap, or
/// the message with which it refuses them.
#[verifier::external_body]
pub(crate) fn refuse_chunk_sizes(size: usize, overlap: usize) -> (r: Option<String>)
    ensures
        text::opt_text(r) == chunk_complaint(size as nat, overlap as nat),
{
    match ChunkConfig::new(size, overlap) {
        Ok(_) => None,
        Err(e) => Some(e.to_string()),
    }
}

/// Checks a chunk size and an overlap.
pub fn check_chunk_sizes(size: usize, overlap: usize) -> (r: Result<(), String>)
    ensures
        match chunk_complaint(size as nat, overlap as nat) {
            Some(m) => r matches Err(e) && e@ == m,
            None => r is Ok,
        },
{
    match refuse_chunk_sizes(size, overlap) {
        Some(m) => Err(m),
        None => Ok(()),
    }
}

/// A document parser: its name and the file extensions that it reads.
#[derive(Debug)]
pub struct ParserInfo {
    pub name: String,
    pub extensions: Vec<String>,
}

/// The mathematical value of a [`ParserInfo`].
pub struct ParserView {
    pub name: Seq<char>,
    pub extensions: Seq<Seq<char>>,
}

impl View for ParserInfo {
    type V = ParserView;

    open spec fn view(&self) -> ParserView {
        ParserView { name: self.name@, extensions: text::texts(self.extensions@) }
    }
}

impl ParserInfo {
    /// The same parser once more.
    pub fn copy(&self) -> (r: ParserInfo)
        ensures
            r@ == self@,
    {
        ParserInfo { name: self.name.clone(), extensions: text::copy_all(&self.extensions) }
    }
}

/// The values of a list of parsers.
pub open spec fn parser_views(v: Seq<ParserInfo>) -> Seq<ParserView> {
    Seq::new(v.len(), |i: int| v[i]@)
}

/// One parser for PDF files.
pub open spec fn pdf_parser(name: Seq<char>) -> ParserView {
    ParserView { name, extensions: seq!["pdf"@] }
}

/// The parsers of this build, in the order of
/// `ragrig::parsers::build_parsers`.
pub open spec fn parser_list() -> Seq<ParserView> {
    seq![
        pdf_parser("unpdf"@),
        pdf_parser("pdfsink"@),
        pdf_parser("pdf-extract"@),
        pdf_parser("sloppy-pdf"@),
        (ParserView { name: "epub-parser"@, extensions: seq!["epub"@] }),
        (ParserView { name: "html"@, extensions: seq!["html"@, "htm"@] }),
        (ParserView { name: "docx"@, extensions: seq!["docx"@] }),
        (ParserView {
            name: "markdown"@,
            extensions: seq!["md"@, "rmd"@, "qmd"@, "Rmd"@, "Qmd"@],
        }),
    ]
}

/// The names and extensions that the parsers of
/// `ragrig::parsers::build_parsers` report.
#[verifier::external_body]
pub(crate) fn built_parsers() -> (r: Vec<ParserInfo>)
    ensures
        parser_views(r@) == parser_list(),
{
    let list = ragrig::parsers::build_parsers();
    list.iter().map(
        |p| ParserInfo {
            name: p.name().to_string(),
            extensions: p.extensions().iter().map(|e| e.to_string()).collect(),
        },
    ).collect()
}

} // verus!
