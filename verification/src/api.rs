//! The Gemini API client: request construction and the grounding-source
//! report appended to or printed after an answer.
use vstd::prelude::*;

use crate::error::GeminiError;
use crate::json::{Json, JsonValue};
use crate::models::{
    contents_view, parts_view, validate_model_name, valid_model_name, Content, GenerateRequest,
    GroundingChunk, GroundingChunkWeb, GroundingMetadata, SystemInstruction, Tool,
};

verus! {

/// The web sources among `chunks`, in order.
pub open spec fn web_of_chunks(chunks: Seq<GroundingChunk>) -> Seq<GroundingChunkWeb>
    decreases chunks.len(),
{
    if chunks.len() == 0 {
        Seq::empty()
    } else {
        let prev = web_of_chunks(chunks.drop_last());
        match chunks.last().web {
            Some(w) => prev.push(w),
            None => prev,
        }
    }
}

/// The title shown for a source.
pub open spec fn shown_title(web: GroundingChunkWeb) -> Seq<char> {
    match web.title {
        Some(t) => t@,
        None => "Unknown"@,
    }
}

/// The URI shown for a source.
pub open spec fn shown_uri(web: GroundingChunkWeb) -> Seq<char> {
    match web.uri {
        Some(u) => u@,
        None => Seq::empty(),
    }
}

/// The line that lists one source: `- {title} ({uri})`.
pub open spec fn source_line(web: GroundingChunkWeb) -> Seq<char> {
    "- "@ + shown_title(web) + " ("@ + shown_uri(web) + ")"@
}

/// The lines of `webs`, each followed by a newline.
pub open spec fn source_lines(webs: Seq<GroundingChunkWeb>) -> Seq<char>
    decreases webs.len(),
{
    if webs.len() == 0 {
        Seq::empty()
    } else {
        source_lines(webs.drop_last()) + source_line(webs.last()) + "\n"@
    }
}

/// The block appended to a collected answer: nothing when there is no web
/// source, else a blank line, `[Sources]` and one line per source.
pub open spec fn sources_text(grounding: GroundingMetadata) -> Seq<char> {
    let webs = web_of_chunks(grounding.grounding_chunks@);
    if webs.len() == 0 {
        Seq::empty()
    } else {
        "\n\n[Sources]\n"@ + source_lines(webs)
    }
}

/// The web sources of `grounding`, in order.
pub fn web_sources(grounding: &GroundingMetadata) -> (webs: Vec<&GroundingChunkWeb>)
    ensures
        webs@.map_values(|w: &GroundingChunkWeb| *w) == web_of_chunks(grounding.grounding_chunks@),
{
    let chunks = &grounding.grounding_chunks;
    let mut webs: Vec<&GroundingChunkWeb> = Vec::new();
    let mut i: usize = 0;
    while i < chunks.len()
        invariant
            i <= chunks@.len(),
            chunks == &grounding.grounding_chunks,
            webs@.map_values(|w: &GroundingChunkWeb| *w) == web_of_chunks(chunks@.take(i as int)),
        decreases chunks@.len() - i,
    {
        proof {
            assert(chunks@.take(i as int + 1).drop_last() =~= chunks@.take(i as int));
        }
        let ghost before = webs@;
        match &chunks[i].web {
            Some(w) => {
                webs.push(w);
                proof {
                    assert(webs@.map_values(|w: &GroundingChunkWeb| *w) =~= before.map_values(
                        |w: &GroundingChunkWeb| *w,
                    ).push(*w));
                }
            },
            None => {},
        }
        i = i + 1;
    }
    proof {
        assert(chunks@.take(chunks@.len() as int) =~= chunks@);
    }
    webs
}

/// The line that lists `web`, without a newline.
pub fn format_source_line(web: &GroundingChunkWeb) -> (line: String)
    ensures
        line@ == source_line(*web),
{
    let mut line = String::from_str("- ");
    match &web.title {
        Some(t) => line.append(t.as_str()),
        None => line.append("Unknown"),
    }
    line.append(" (");
    match &web.uri {
        Some(u) => line.append(u.as_str()),
        None => {
            proof {
                reveal_strlit("");
            }
            line.append("");
        },
    }
    line.append(")");
    line
}

/// Appends one line per source in `sources`, each followed by a newline.
fn append_source_lines(buf: &mut String, sources: &Vec<&GroundingChunkWeb>)
    ensures
        final(buf)@ == old(buf)@ + source_lines(sources@.map_values(|w: &GroundingChunkWeb| *w)),
{
    let ghost webs = sources@.map_values(|w: &GroundingChunkWeb| *w);
    let ghost head = buf@;
    let mut i: usize = 0;
    proof {
        assert(webs.take(0) =~= Seq::<GroundingChunkWeb>::empty());
        assert(head + source_lines(webs.take(0)) =~= head);
    }
    while i < sources.len()
        invariant
            i <= sources@.len(),
            webs == sources@.map_values(|w: &GroundingChunkWeb| *w),
            buf@ == head + source_lines(webs.take(i as int)),
        decreases sources@.len() - i,
    {
        let line = format_source_line(sources[i]);
        buf.append(line.as_str());
        buf.append("\n");
        proof {
            assert(webs.take(i as int + 1).drop_last() =~= webs.take(i as int));
            assert(webs.take(i as int + 1).last() == webs[i as int]);
            assert(webs[i as int] == *sources@[i as int]);
        }
        i = i + 1;
    }
    proof {
        assert(webs.take(webs.len() as int) =~= webs);
    }
}

/// Appends the sources block of `grounding` to `buf`.
pub fn append_grounding_sources(buf: &mut String, grounding: &GroundingMetadata)
    ensures
        final(buf)@ == old(buf)@ + sources_text(*grounding),
{
    let sources = web_sources(grounding);
    if sources.len() == 0 {
        proof {
            assert(old(buf)@ + sources_text(*grounding) =~= old(buf)@);
        }
        return;
    }
    buf.append("\n\n[Sources]\n");
    append_source_lines(buf, &sources);
}

/// The sources report printed to standard error after a streamed answer:
/// nothing when there is no web source, else `[Sources]` on a line of its
/// own after an empty line, then one line per source.
pub open spec fn sources_report_text(grounding: GroundingMetadata) -> Seq<char> {
    let webs = web_of_chunks(grounding.grounding_chunks@);
    if webs.len() == 0 {
        Seq::empty()
    } else {
        "\n[Sources]\n"@ + source_lines(webs)
    }
}

/// The sources report of `grounding`, as `sources_report_text` says.
pub fn sources_report(grounding: &GroundingMetadata) -> (report: String)
    ensures
        report@ == sources_report_text(*grounding),
{
    let sources = web_sources(grounding);
    let mut report = String::new();
    if sources.len() == 0 {
        return report;
    }
    report.append("\n[Sources]\n");
    append_source_lines(&mut report, &sources);
    proof {
        assert(Seq::<char>::empty() + "\n[Sources]\n"@ =~= "\n[Sources]\n"@);
    }
    report
}

/// The report printed after a streamed answer is the block appended to a
/// collected answer without its first newline: both list the same sources,
/// the same way.
pub proof fn law_report_matches_appended_block(grounding: GroundingMetadata)
    ensures
        sources_report_text(grounding).len() == 0 <==> sources_text(grounding).len() == 0,
        sources_report_text(grounding).len() > 0 ==> "\n"@ + sources_report_text(grounding)
            == sources_text(grounding),
{
    reveal_strlit("\n");
    reveal_strlit("\n[Sources]\n");
    reveal_strlit("\n\n[Sources]\n");
    let webs = web_of_chunks(grounding.grounding_chunks@);
    if webs.len() > 0 {
        assert("\n"@ + ("\n[Sources]\n"@ + source_lines(webs)) =~= "\n\n[Sources]\n"@ + source_lines(
            webs,
        ));
    }
}

/// The base URL of the model endpoints.
pub const API_BASE: &'static str = "https://generativelanguage.googleapis.com/v1beta/models";

/// How long, in seconds, establishing a connection may take. No overall
/// timeout is set, since an answer streams for as long as it needs.
pub const CONNECT_TIMEOUT_SECS: u64 = 10;

#[verifier::external_type_specification]
#[verifier::external_body]
pub struct ExHttpClient(reqwest::Client);

#[verifier::external_type_specification]
#[verifier::external_body]
pub struct ExHttpClientBuilder(reqwest::ClientBuilder);

/// The connect timeout a client builder is set to, as seconds and
/// nanoseconds; none when it has no connect timeout.
pub uninterp spec fn builder_connect_timeout(b: reqwest::ClientBuilder) -> Option<(u64, u32)>;

/// The overall request timeout a client builder is set to, as seconds and
/// nanoseconds; none when it has none.
pub uninterp spec fn builder_total_timeout(b: reqwest::ClientBuilder) -> Option<(u64, u32)>;

/// The connect timeout a client was built with.
pub uninterp spec fn client_connect_timeout(c: reqwest::Client) -> Option<(u64, u32)>;

/// The overall request timeout a client was built with.
pub uninterp spec fn client_total_timeout(c: reqwest::Client) -> Option<(u64, u32)>;

/// Calls `reqwest::Client::builder`. Trusted: a fresh builder has neither a
/// connect timeout nor an overall timeout (`ClientBuilder::new` sets both
/// to `None`).
#[verifier::external_body]
fn http_client_builder() -> (b: reqwest::ClientBuilder)
    ensures
        builder_connect_timeout(b) is None,
        builder_total_timeout(b) is None,
{
    reqwest::Client::builder()
}

/// Calls `reqwest::ClientBuilder::connect_timeout` with `secs` whole seconds.
/// Trusted: the builder's connect timeout becomes that, and its overall
/// timeout is left as it was (the method sets only the connect timeout).
#[verifier::external_body]
fn with_connect_timeout(b: reqwest::ClientBuilder, secs: u64) -> (b2: reqwest::ClientBuilder)
    ensures
        builder_connect_timeout(b2) == Some((secs, 0u32)),
        builder_total_timeout(b2) == builder_total_timeout(b),
{
    b.connect_timeout(std::time::Duration::from_secs(secs))
}

/// Calls `reqwest::ClientBuilder::build`, with its error turned into `None`.
/// Whether it succeeds depends on the machine (TLS backend, resolver
/// configuration), so success is not stated. Trusted: a client that is built
/// carries the builder's connect timeout and overall timeout (`build` hands
/// both from the builder's configuration to the connector and the request
/// defaults).
#[verifier::external_body]
fn build_http_client(b: reqwest::ClientBuilder) -> (c: Option<reqwest::Client>)
    ensures
        c matches Some(x) ==> client_connect_timeout(x) == builder_connect_timeout(b)
            && client_total_timeout(x) == builder_total_timeout(b),
{
    b.build().ok()
}

/// An HTTP client with a connect timeout of `CONNECT_TIMEOUT_SECS` seconds
/// and no overall timeout, since an answer streams for as long as it needs;
/// none when the HTTP library cannot set one up on this machine.
pub fn new_http_client() -> (r: Option<reqwest::Client>)
    ensures
        r matches Some(x) ==> client_connect_timeout(x) == Some((CONNECT_TIMEOUT_SECS, 0u32))
            && client_total_timeout(x) is None,
{
    let b = http_client_builder();
    let b = with_connect_timeout(b, CONNECT_TIMEOUT_SECS);
    build_http_client(b)
}

/// A client of the Gemini streaming API for one model and one API key.
pub struct GeminiClient {
    client: reqwest::Client,
    api_key: String,
    model: String,
    system_prompt: Option<String>,
    api_base: String,
}

/// The text of an optional string.
pub open spec fn opt_view(s: Option<String>) -> Option<Seq<char>> {
    match s {
        Some(t) => Some(t@),
        None => None,
    }
}

/// The URL of the streaming endpoint of `model` under `base`.
pub open spec fn stream_url_of(base: Seq<char>, model: Seq<char>) -> Seq<char> {
    base + "/"@ + model + ":streamGenerateContent?alt=sse"@
}

impl GeminiClient {
    pub closed spec fn key(&self) -> Seq<char> {
        self.api_key@
    }

    pub closed spec fn model_name(&self) -> Seq<char> {
        self.model@
    }

    pub closed spec fn system_text(&self) -> Option<Seq<char>> {
        opt_view(self.system_prompt)
    }

    pub closed spec fn base(&self) -> Seq<char> {
        self.api_base@
    }

    /// The HTTP client the requests go through.
    pub closed spec fn transport(&self) -> reqwest::Client {
        self.client
    }

    /// A client with a fresh HTTP client (used for a single prompt); none
    /// when no HTTP client can be set up.
    pub fn new(api_key: String, model: String, system_prompt: Option<String>) -> (c: Option<
        GeminiClient,
    >)
        ensures
            c matches Some(c) ==> c.key() == api_key@ && c.model_name() == model@ && c.system_text()
                == opt_view(system_prompt) && c.base() == API_BASE@ && client_connect_timeout(
                c.transport(),
            ) == Some((CONNECT_TIMEOUT_SECS, 0u32)) && client_total_timeout(c.transport()) is None,
    {
        match new_http_client() {
            Some(client) => Some(GeminiClient::with_client(client, api_key, model, system_prompt)),
            None => None,
        }
    }

    /// A client that shares an existing HTTP client (used by the servers).
    pub fn with_client(
        client: reqwest::Client,
        api_key: String,
        model: String,
        system_prompt: Option<String>,
    ) -> (c: GeminiClient)
        ensures
            c.transport() == client,
            c.key() == api_key@,
            c.model_name() == model@,
            c.system_text() == opt_view(system_prompt),
            c.base() == API_BASE@,
    {
        GeminiClient::with_api_base(client, api_key, model, system_prompt, API_BASE.to_owned())
    }

    /// A client that talks to the endpoints under `api_base`.
    pub fn with_api_base(
        client: reqwest::Client,
        api_key: String,
        model: String,
        system_prompt: Option<String>,
        api_base: String,
    ) -> (c: GeminiClient)
        ensures
            c.transport() == client,
            c.key() == api_key@,
            c.model_name() == model@,
            c.system_text() == opt_view(system_prompt),
            c.base() == api_base@,
    {
        GeminiClient { client, api_key, model, system_prompt, api_base }
    }

    /// The HTTP client that carries the requests.
    pub fn http(&self) -> (c: &reqwest::Client)
        ensures
            *c == self.transport(),
    {
        &self.client
    }

    /// The API key, sent in the `x-goog-api-key` header.
    pub fn api_key(&self) -> (k: &str)
        ensures
            k@ == self.key(),
    {
        self.api_key.as_str()
    }

    /// The URL of the streaming endpoint. The model name is checked first,
    /// so that nothing but a valid name is ever placed in the URL.
    pub fn stream_url(&self) -> (r: Result<String, GeminiError>)
        ensures
            r is Ok <==> valid_model_name(self.model_name()),
            r matches Ok(u) ==> u@ == stream_url_of(self.base(), self.model_name()),
            r matches Err(e) ==> e == GeminiError::InvalidModelName,
    {
        validate_model_name(self.model.as_str())?;
        let mut url = self.api_base.clone();
        url.append("/");
        url.append(self.model.as_str());
        url.append(":streamGenerateContent?alt=sse");
        Ok(url)
    }

    /// The request for `history`: the messages, the system instruction when
    /// there is a system prompt, and the Google Search tool.
    pub fn request_body(&self, history: &[Content]) -> (req: GenerateRequest)
        ensures
            contents_view(req.contents@) == contents_view(history@),
            match req.system_instruction {
                Some(si) => self.system_text() matches Some(p) && parts_view(si.parts@) == seq![
                    Some(p),
                ],
                None => self.system_text() is None,
            },
            req.tools@.len() == 1,
            req.tools@[0].google_search@ == Json::Object(Seq::empty()),
    {
        let mut contents: Vec<Content> = Vec::new();
        let mut i: usize = 0;
        while i < history.len()
            invariant
                i <= history@.len(),
                contents@.len() == i,
                forall|j: int| 0 <= j < i ==> #[trigger] contents@[j]@ == history@[j]@,
            decreases history@.len() - i,
        {
            contents.push(history[i].duplicate());
            i = i + 1;
        }
        assert(contents_view(contents@) =~= contents_view(history@));
        let system_instruction = match &self.system_prompt {
            Some(p) => Some(SystemInstruction::new(p.as_str())),
            None => None,
        };
        let search = JsonValue::empty_object();
        let tools = vec![Tool { google_search: search }];
        GenerateRequest { contents, system_instruction, tools }
    }
}

/// Whether an HTTP status is a success: 200 to 299, as
/// `http::StatusCode::is_success` decides.
pub open spec fn is_success_status(code: u16) -> bool {
    200 <= code < 300
}

/// Turns an unsuccessful status into an error that carries the status only,
/// never the response body.
pub fn check_status(code: u16, reason: Option<String>) -> (r: Result<(), GeminiError>)
    ensures
        is_success_status(code) ==> r is Ok,
        !is_success_status(code) ==> r == Err::<(), GeminiError>(
            GeminiError::ApiStatus { code, reason },
        ),
{
    if 200 <= code && code < 300 {
        Ok(())
    } else {
        Err(GeminiError::ApiStatus { code, reason })
    }
}

/// The web sources of chunks put one after the other are those of the
/// first chunks followed by those of the rest: no source is dropped,
/// added or moved.
pub proof fn law_web_sources_concat(a: Seq<GroundingChunk>, b: Seq<GroundingChunk>)
    ensures
        web_of_chunks(a + b) == web_of_chunks(a) + web_of_chunks(b),
    decreases b.len(),
{
    if b.len() == 0 {
        assert(a + b =~= a);
        assert(web_of_chunks(a) + Seq::<GroundingChunkWeb>::empty() =~= web_of_chunks(a));
    } else {
        assert((a + b).drop_last() =~= a + b.drop_last());
        assert((a + b).last() == b.last());
        law_web_sources_concat(a, b.drop_last());
        match b.last().web {
            Some(w) => {
                assert((web_of_chunks(a) + web_of_chunks(b.drop_last())).push(w) =~= web_of_chunks(a)
                    + web_of_chunks(b.drop_last()).push(w));
            },
            None => {},
        }
    }
}

/// One chunk gives its web source when it has one, and nothing otherwise.
pub proof fn law_web_sources_single(c: GroundingChunk)
    ensures
        web_of_chunks(seq![c]) == match c.web {
            Some(w) => seq![w],
            None => Seq::<GroundingChunkWeb>::empty(),
        },
{
    let s = seq![c];
    assert(s.drop_last() =~= Seq::<GroundingChunk>::empty());
    assert(web_of_chunks(s.drop_last()) == Seq::<GroundingChunkWeb>::empty());
    assert(s.last() == c);
    if let Some(w) = c.web {
        assert(Seq::<GroundingChunkWeb>::empty().push(w) =~= seq![w]);
    }
}

/// The web sources are what `filter_map` keeps of the chunks' web fields:
/// each chunk that carries one gives it, in order, and the others nothing.
pub proof fn law_web_sources_filter_map(chunks: Seq<GroundingChunk>)
    ensures
        web_of_chunks(chunks) == chunks.filter_map(|c: GroundingChunk| c.web),
    decreases chunks.len(),
{
    if chunks.len() > 0 {
        law_web_sources_filter_map(chunks.drop_last());
        if let Some(w) = chunks.last().web {
            assert(web_of_chunks(chunks.drop_last()).push(w) =~= web_of_chunks(chunks.drop_last())
                + seq![w]);
        }
    }
}

/// The lines of sources put one after the other are the lines of the first
/// ones followed by those of the rest.
pub proof fn law_source_lines_concat(a: Seq<GroundingChunkWeb>, b: Seq<GroundingChunkWeb>)
    ensures
        source_lines(a + b) == source_lines(a) + source_lines(b),
    decreases b.len(),
{
    if b.len() == 0 {
        assert(a + b =~= a);
        assert(source_lines(a) + Seq::<char>::empty() =~= source_lines(a));
    } else {
        assert((a + b).drop_last() =~= a + b.drop_last());
        assert((a + b).last() == b.last());
        law_source_lines_concat(a, b.drop_last());
        assert(source_lines(a) + source_lines(b.drop_last()) + source_line(b.last()) + "\n"@
            =~= source_lines(a) + (source_lines(b.drop_last()) + source_line(b.last()) + "\n"@));
    }
}

/// One source gives exactly its line, `- {title} ({uri})`, and a newline.
pub proof fn law_source_lines_single(w: GroundingChunkWeb)
    ensures
        source_lines(seq![w]) == "- "@ + shown_title(w) + " ("@ + shown_uri(w) + ")\n"@,
{
    reveal_strlit(")");
    reveal_strlit("\n");
    reveal_strlit(")\n");
    assert(seq![w].drop_last().len() == 0);
    assert(source_lines(seq![w].drop_last()) == Seq::<char>::empty());
    assert(Seq::<char>::empty() + source_line(w) + "\n"@ =~= "- "@ + shown_title(w) + " ("@
        + shown_uri(w) + ")\n"@);
}

/// A status is a success exactly when it is 200 to 299: any other code,
/// 404 among them, is refused.
pub proof fn law_success_is_2xx(code: u16)
    ensures
        is_success_status(code) <==> (200 <= code && code <= 299),
        !is_success_status(404),
        !is_success_status(199),
        !is_success_status(300),
{
}

} // verus!
