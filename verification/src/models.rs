//! The request and response types of the Gemini streaming API.
use vstd::prelude::*;

use crate::error::GeminiError;
use crate::json::JsonValue;
use crate::text::chars_of;

verus! {

/// The model used when none is named.
pub const DEFAULT_MODEL: &'static str = "gemini-3-flash-preview";

/// The model used for tool calls that ask for deeper reasoning.
pub const HIGH_PERF_MODEL: &'static str = "gemini-3.1-pro-preview";

// --- Request types ---

/// One part of a message; only text parts are used.
#[derive(Clone, Debug)]
pub struct Part {
    pub text: Option<String>,
}

impl View for Part {
    type V = Option<Seq<char>>;

    open spec fn view(&self) -> Option<Seq<char>> {
        match self.text {
            Some(t) => Some(t@),
            None => None,
        }
    }
}

/// The view of a list of parts.
pub open spec fn parts_view(parts: Seq<Part>) -> Seq<Option<Seq<char>>> {
    parts.map_values(|p: Part| p@)
}

impl Part {
    /// A part holding `text`.
    pub fn text(text: &str) -> (part: Part)
        ensures
            part@ == Some(text@),
    {
        Part { text: Some(text.to_owned()) }
    }

    /// A copy of this part.
    pub fn duplicate(&self) -> (part: Part)
        ensures
            part@ == self@,
    {
        match &self.text {
            Some(t) => Part { text: Some(t.clone()) },
            None => Part { text: None },
        }
    }
}

/// A copy of a list of parts.
fn duplicate_parts(parts: &Vec<Part>) -> (copy: Vec<Part>)
    ensures
        parts_view(copy@) == parts_view(parts@),
{
    let mut copy: Vec<Part> = Vec::new();
    let mut i: usize = 0;
    while i < parts.len()
        invariant
            i <= parts@.len(),
            copy@.len() == i,
            forall|j: int| 0 <= j < i ==> #[trigger] copy@[j]@ == parts@[j]@,
        decreases parts@.len() - i,
    {
        copy.push(parts[i].duplicate());
        i = i + 1;
    }
    assert(parts_view(copy@) =~= parts_view(parts@));
    copy
}

/// The system-level instruction sent with a request.
#[derive(Clone, Debug)]
pub struct SystemInstruction {
    pub parts: Vec<Part>,
}

impl SystemInstruction {
    /// An instruction made of the single text part `text`.
    pub fn new(text: &str) -> (si: SystemInstruction)
        ensures
            parts_view(si.parts@) == seq![Some(text@)],
    {
        let parts = vec![Part::text(text)];
        assert(parts_view(parts@) =~= seq![Some(text@)]);
        SystemInstruction { parts }
    }
}

/// A tool definition. Only Google Search grounding is used, whose
/// configuration is an empty JSON object.
#[derive(Debug)]
pub struct Tool {
    pub google_search: JsonValue,
}

/// The view of a message.
pub struct ContentView {
    pub role: Seq<char>,
    pub parts: Seq<Option<Seq<char>>>,
}

/// A message of the conversation.
#[derive(Clone, Debug)]
pub struct Content {
    pub role: String,
    pub parts: Vec<Part>,
}

impl View for Content {
    type V = ContentView;

    open spec fn view(&self) -> ContentView {
        ContentView { role: self.role@, parts: parts_view(self.parts@) }
    }
}

/// The view of a list of messages.
pub open spec fn contents_view(contents: Seq<Content>) -> Seq<ContentView> {
    contents.map_values(|c: Content| c@)
}

impl Content {
    /// A message from the user holding the single text part `text`.
    pub fn user(text: &str) -> (c: Content)
        ensures
            c@.role == "user"@,
            c@.parts == seq![Some(text@)],
    {
        let parts = vec![Part::text(text)];
        assert(parts_view(parts@) =~= seq![Some(text@)]);
        Content { role: String::from_str("user"), parts }
    }

    /// A copy of this message.
    pub fn duplicate(&self) -> (c: Content)
        ensures
            c@ == self@,
    {
        Content { role: self.role.clone(), parts: duplicate_parts(&self.parts) }
    }
}

/// A request to `streamGenerateContent`.
#[derive(Debug)]
pub struct GenerateRequest {
    pub contents: Vec<Content>,
    pub system_instruction: Option<SystemInstruction>,
    pub tools: Vec<Tool>,
}

// --- Response types ---

/// One event of the response stream.
#[derive(Debug)]
pub struct StreamChunk {
    pub candidates: Option<Vec<Candidate>>,
}

/// One candidate answer within a stream event.
#[derive(Debug)]
pub struct Candidate {
    pub content: Option<Content>,
    pub finish_reason: Option<String>,
    pub grounding_metadata: Option<GroundingMetadata>,
}

/// The search sources that grounded an answer.
#[derive(Debug)]
pub struct GroundingMetadata {
    pub grounding_chunks: Vec<GroundingChunk>,
}

impl Default for GroundingMetadata {
    fn default() -> (g: GroundingMetadata)
        ensures
            g.grounding_chunks@.len() == 0,
    {
        GroundingMetadata { grounding_chunks: Vec::new() }
    }
}

/// One grounding source.
#[derive(Debug)]
pub struct GroundingChunk {
    pub web: Option<GroundingChunkWeb>,
}

/// A web page used as a grounding source.
#[derive(Debug)]
pub struct GroundingChunkWeb {
    pub uri: Option<String>,
    pub title: Option<String>,
}

// --- Model names ---

/// The characters allowed in a model name.
pub open spec fn is_model_name_char(c: char) -> bool {
    ||| 'a' <= c <= 'z'
    ||| 'A' <= c <= 'Z'
    ||| '0' <= c <= '9'
    ||| c == '-'
    ||| c == '.'
}

/// A model name is non-empty, at most 100 characters long, and made of ASCII
/// letters, digits, `-` and `.` only.
pub open spec fn valid_model_name(name: Seq<char>) -> bool {
    &&& 0 < name.len() <= 100
    &&& forall|i: int| 0 <= i < name.len() ==> is_model_name_char(#[trigger] name[i])
}

/// Checks a model name before it is placed in a request URL.
pub fn validate_model_name(name: &str) -> (r: Result<(), GeminiError>)
    ensures
        r is Ok <==> valid_model_name(name@),
        r matches Err(e) ==> e == GeminiError::InvalidModelName,
{
    let cs = chars_of(name);
    let n = cs.len();
    if n == 0 || n > 100 {
        return Err(GeminiError::InvalidModelName);
    }
    let mut i: usize = 0;
    while i < n
        invariant
            i <= n,
            n == cs@.len(),
            cs@ == name@,
            forall|j: int| 0 <= j < i ==> is_model_name_char(#[trigger] cs@[j]),
        decreases n - i,
    {
        let c = cs[i];
        let ok = ('a' <= c && c <= 'z') || ('A' <= c && c <= 'Z') || ('0' <= c && c <= '9') || c
            == '-' || c == '.';
        if !ok {
            assert(!is_model_name_char(name@[i as int]));
            return Err(GeminiError::InvalidModelName);
        }
        i = i + 1;
    }
    Ok(())
}

} // verus!
