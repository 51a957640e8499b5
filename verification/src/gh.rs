//! The GitHub API by way of the `gh` program: how it is called, and how its answers are
//! read and recorded.

use vstd::hash_map::StringHashMap;
use vstd::prelude::*;

use crate::db::{log_call, log_costed_call, set_poll_state, CallLogEntry, CallLogView};
use crate::json::{parse, to_text, Json, JsonView};
use crate::number::{parse_i64, parse_unsigned};
use crate::process::{Invocation, InvocationView};
use crate::report::gql_cost;
use crate::sql::{SqlView, Statement, StatementView};
use crate::text::{
    cat, cat3, cut, find, from_utf8_lossy, lines, rfind, same, second_word, split, to_lowercase,
    trim,
};
use crate::{db, json, number, outcome, report, sql, text};

verus! {

// ---- requests ----------------------------------------------------------------------
/// The `gh` program.
pub struct GhClient {
    pub binary: String,
}

/// A request to the API.
pub struct GhRequest<'a> {
    pub endpoint: &'a str,
    pub method: &'a str,
    pub headers: Vec<(&'a str, &'a str)>,
    pub body: Option<&'a str>,
    pub paginate: bool,
}

/// What a request is.
#[verifier::ext_equal]
pub struct GhRequestView {
    pub endpoint: Seq<char>,
    pub method: Seq<char>,
    pub headers: Seq<(Seq<char>, Seq<char>)>,
    pub body: Option<Seq<char>>,
    pub paginate: bool,
}

impl<'a> DeepView for GhRequest<'a> {
    type V = GhRequestView;

    open spec fn deep_view(&self) -> GhRequestView {
        GhRequestView {
            endpoint: self.endpoint@,
            method: self.method@,
            headers: self.headers.deep_view(),
            body: self.body.deep_view(),
            paginate: self.paginate,
        }
    }
}

impl GhRequestView {
    /// A plain request for what an endpoint holds.
    pub open spec fn get(endpoint: Seq<char>) -> GhRequestView {
        GhRequestView {
            endpoint,
            method: "GET"@,
            headers: Seq::empty(),
            body: None,
            paginate: false,
        }
    }

    /// The request with one more header.
    pub open spec fn with_header(self, name: Seq<char>, value: Seq<char>) -> GhRequestView {
        GhRequestView { headers: self.headers.push((name, value)), ..self }
    }

    /// The request with the tag of what is known, if one is known: the answer is then
    /// wanted only where the tag has changed.
    pub open spec fn with_known_etag(self, etag: Option<Seq<char>>) -> GhRequestView {
        match etag {
            Some(t) => self.with_header("If-None-Match"@, t),
            None => self,
        }
    }

    /// The request with the date of what is known, if one is known: the answer is then
    /// wanted only where there is something newer.
    pub open spec fn with_known_date(self, date: Option<Seq<char>>) -> GhRequestView {
        match date {
            Some(d) => self.with_header("If-Modified-Since"@, d),
            None => self,
        }
    }
}

impl<'a> GhRequest<'a> {
    /// A plain request for what an endpoint holds.
    pub fn get(endpoint: &'a str) -> (r: GhRequest<'a>)
        ensures
            r.deep_view() == GhRequestView::get(endpoint@),
    {
        let r: GhRequest<'a> = GhRequest {
            endpoint,
            method: "GET",
            headers: Vec::new(),
            body: None,
            paginate: false,
        };
        assert(r.deep_view() =~= GhRequestView::get(endpoint@));
        r
    }

    /// Asks for an answer only if the tag of the resource is no longer `etag`.
    pub fn with_etag(self, etag: &'a str) -> (r: GhRequest<'a>)
        ensures
            r.deep_view() == self.deep_view().with_header("If-None-Match"@, etag@),
    {
        let ghost before = self.headers.deep_view();
        let mut r: GhRequest<'a> = self;
        r.headers.push(("If-None-Match", etag));
        assert(r.headers.deep_view() =~= before.push(("If-None-Match"@, etag@)));
        r
    }

    /// Asks for an answer only if the resource was changed after `lm`.
    pub fn with_last_modified(self, lm: &'a str) -> (r: GhRequest<'a>)
        ensures
            r.deep_view() == self.deep_view().with_header("If-Modified-Since"@, lm@),
    {
        let ghost before = self.headers.deep_view();
        let mut r: GhRequest<'a> = self;
        r.headers.push(("If-Modified-Since", lm));
        assert(r.headers.deep_view() =~= before.push(("If-Modified-Since"@, lm@)));
        r
    }

    /// Asks for all pages of the answer.
    pub fn paginated(self) -> (r: GhRequest<'a>)
        ensures
            r.deep_view() == (GhRequestView { paginate: true, ..self.deep_view() }),
    {
        GhRequest { paginate: true, ..self }
    }

    /// The request with the tag of what is known, if one is known.
    pub fn with_known_etag(self, etag: &'a Option<String>) -> (r: GhRequest<'a>)
        ensures
            r.deep_view() == self.deep_view().with_known_etag(etag.deep_view()),
    {
        match etag {
            Some(t) => self.with_etag(t.as_str()),
            None => self,
        }
    }

    /// The request with the date of what is known, if one is known.
    pub fn with_known_date(self, date: &'a Option<String>) -> (r: GhRequest<'a>)
        ensures
            r.deep_view() == self.deep_view().with_known_date(date.deep_view()),
    {
        match date {
            Some(d) => self.with_last_modified(d.as_str()),
            None => self,
        }
    }
}

/// A request for what an endpoint holds, to be sent later.
pub struct Poll {
    pub endpoint: String,
    pub etag: Option<String>,
    pub last_modified: Option<String>,
    pub paginate: bool,
}

/// A request for all pages of what an endpoint holds, unless its tag is still the known
/// one.
pub open spec fn pages_request(
    endpoint: Seq<char>,
    etag: Option<Seq<char>>,
) -> GhRequestView {
    (GhRequestView { paginate: true, ..GhRequestView::get(endpoint) }).with_known_etag(etag)
}

impl DeepView for Poll {
    type V = GhRequestView;

    open spec fn deep_view(&self) -> GhRequestView {
        (GhRequestView {
            paginate: self.paginate,
            ..GhRequestView::get(self.endpoint@)
        }).with_known_etag(self.etag.deep_view()).with_known_date(self.last_modified.deep_view())
    }
}

impl Poll {
    /// A request for all pages of what an endpoint holds, unless its tag is still the
    /// known one.
    pub fn pages(endpoint: String, etag: Option<String>) -> (r: Poll)
        ensures
            r.deep_view() == pages_request(endpoint@, etag.deep_view()),
    {
        Poll { endpoint, etag, last_modified: None, paginate: true }
    }

    /// The request itself.
    pub fn request(&self) -> (r: GhRequest<'_>)
        ensures
            r.deep_view() == self.deep_view(),
    {
        let plain: GhRequest<'_> = GhRequest::get(self.endpoint.as_str());
        let paged: GhRequest<'_> = if self.paginate {
            plain.paginated()
        } else {
            plain
        };
        paged.with_known_etag(&self.etag).with_known_date(&self.last_modified)
    }
}

/// The arguments that hand headers to `gh`.
pub open spec fn header_args(headers: Seq<(Seq<char>, Seq<char>)>) -> Seq<Seq<char>>
    decreases headers.len(),
{
    if headers.len() == 0 {
        Seq::empty()
    } else {
        header_args(headers.drop_last()).push("-H"@).push(
            headers.last().0 + ": "@ + headers.last().1,
        )
    }
}

/// The arguments that make `gh` send a request.
pub open spec fn request_args(req: GhRequestView) -> Seq<Seq<char>> {
    let start = seq!["api"@, "--include"@];
    let method = if req.method != "GET"@ {
        start.push("-X"@).push(req.method)
    } else {
        start
    };
    let pages = if req.paginate {
        method.push("--paginate"@)
    } else {
        method
    };
    let headers = pages + header_args(req.headers);
    let input = if req.body is Some {
        headers.push("--input"@).push("-"@)
    } else {
        headers
    };
    input.push(req.endpoint)
}

/// The arguments that make `gh` send a GraphQL query.
pub open spec fn graphql_args(query: Seq<char>) -> Seq<Seq<char>> {
    seq!["api"@, "graphql"@, "--include"@, "-f"@, "query="@ + query]
}

fn push_arg(args: &mut Vec<String>, arg: &str)
    ensures
        final(args).deep_view() == old(args).deep_view().push(arg@),
{
    args.push(arg.to_owned());
    assert(args.deep_view() =~= old(args).deep_view().push(arg@));
}

impl GhClient {
    /// The program of that name.
    pub fn new(binary: &str) -> (r: GhClient)
        ensures
            r.binary@ == binary@,
    {
        GhClient { binary: binary.to_owned() }
    }

    /// How the program is started to send a request. The body of the request, if it has
    /// one, is written to the standard input of the program.
    pub fn call(&self, req: &GhRequest) -> (r: Invocation)
        ensures
            r.deep_view() == (InvocationView {
                program: self.binary@,
                args: request_args(req.deep_view()),
            }),
    {
        let mut args: Vec<String> = vec!["api".to_owned(), "--include".to_owned()];
        assert(args.deep_view() =~= seq!["api"@, "--include"@]);
        if !same(req.method, "GET") {
            push_arg(&mut args, "-X");
            push_arg(&mut args, req.method);
        }
        if req.paginate {
            push_arg(&mut args, "--paginate");
        }
        let ghost start = args.deep_view();
        let ghost headers = req.headers.deep_view();
        let mut i: usize = 0;
        assert(headers.take(0) =~= Seq::empty());
        assert(start + Seq::<Seq<char>>::empty() =~= start);
        while i < req.headers.len()
            invariant
                i <= req.headers.len(),
                headers == req.headers.deep_view(),
                args.deep_view() == start + header_args(headers.take(i as int)),
            decreases req.headers.len() - i,
        {
            let (k, v) = req.headers[i];
            let ghost before = args.deep_view();
            push_arg(&mut args, "-H");
            let line: String = cat3(k, ": ", v);
            push_arg(&mut args, line.as_str());
            proof {
                let next = headers.take(i + 1);
                assert(next.drop_last() =~= headers.take(i as int));
                assert(next.last() == (k@, v@));
                assert(args.deep_view() =~= start + header_args(next));
            }
            i += 1;
        }
        assert(headers.take(i as int) =~= headers);
        if req.body.is_some() {
            push_arg(&mut args, "--input");
            push_arg(&mut args, "-");
        }
        push_arg(&mut args, req.endpoint);
        Invocation { program: self.binary.clone(), args }
    }

    /// How the program is started to send a GraphQL query.
    pub fn graphql(&self, query: &str) -> (r: Invocation)
        ensures
            r.deep_view() == (InvocationView {
                program: self.binary@,
                args: graphql_args(query@),
            }),
    {
        let args: Vec<String> = vec![
            "api".to_owned(),
            "graphql".to_owned(),
            "--include".to_owned(),
            "-f".to_owned(),
            cat("query=", query),
        ];
        assert(args.deep_view() =~= graphql_args(query@));
        Invocation { program: self.binary.clone(), args }
    }
}

// ---- answers -----------------------------------------------------------------------
/// The headers of an answer, by their names in lower case.
pub struct Headers {
    map: StringHashMap<String>,
}

impl DeepView for Headers {
    type V = Map<Seq<char>, Seq<char>>;

    closed spec fn deep_view(&self) -> Map<Seq<char>, Seq<char>> {
        self.map@.map_values(|v: String| v@)
    }
}

/// The value of a header, if the answer has it.
pub open spec fn header(headers: Map<Seq<char>, Seq<char>>, name: Seq<char>) -> Option<Seq<char>> {
    if headers.dom().contains(name) {
        Some(headers[name])
    } else {
        None
    }
}

/// The value of a header as a number, if the answer has the header and it holds one.
pub open spec fn header_number(
    headers: Map<Seq<char>, Seq<char>>,
    name: Seq<char>,
) -> Option<i64> {
    match header(headers, name) {
        Some(v) => match number::signed_of(v) {
            Some(n) => Some(n as i64),
            None => None,
        },
        None => None,
    }
}

impl Headers {
    /// No headers.
    pub fn new() -> (r: Headers)
        ensures
            r.deep_view() == Map::<Seq<char>, Seq<char>>::empty(),
    {
        let r: Headers = Headers { map: StringHashMap::new() };
        assert(r.deep_view() =~= Map::<Seq<char>, Seq<char>>::empty());
        r
    }

    /// Sets a header, in place of one of that name.
    pub fn insert(&mut self, name: String, value: String)
        ensures
            final(self).deep_view() == old(self).deep_view().insert(name@, value@),
    {
        self.map.insert(name, value);
        assert(self.deep_view() =~= old(self).deep_view().insert(name@, value@));
    }

    /// The value of a header.
    pub fn get(&self, name: &str) -> (r: Option<&String>)
        ensures
            r.deep_view() == header(self.deep_view(), name@),
    {
        self.map.get(name)
    }

    /// The value of a header, as a text.
    pub fn text(&self, name: &str) -> (r: Option<&str>)
        ensures
            r.deep_view() == header(self.deep_view(), name@),
    {
        match self.get(name) {
            Some(v) => Some(v.as_str()),
            None => None,
        }
    }

    /// The value of a header, as a number.
    pub fn number(&self, name: &str) -> (r: Option<i64>)
        ensures
            r == header_number(self.deep_view(), name@),
    {
        match self.get(name) {
            Some(v) => parse_i64(v.as_str()),
            None => None,
        }
    }
}

/// What can be wrong with the text of an answer.
#[derive(Clone, Copy, PartialEq, Eq, Structural, Debug)]
pub enum ResponseError {
    /// No blank line parts the headers from the body.
    NoSeparator,
    /// There is no status line.
    Empty,
    /// The status line holds no status.
    NoStatus,
    /// The status is not a number.
    BadStatus,
}

/// The last answer in a text: where several follow one another, each begins with its
/// status line on a line of its own.
pub open spec fn last_answer(raw: Seq<char>) -> Seq<char> {
    match text::rfound(raw, "\nHTTP/"@) {
        Some(i) => raw.skip(i + 1),
        None => raw,
    }
}

/// The head of an answer and its body: what stands before the first blank line and what
/// stands after it. A line may end with a line feed alone only where no blank line is
/// written with carriage returns.
pub open spec fn head_and_body(answer: Seq<char>) -> Option<(Seq<char>, Seq<char>)> {
    match text::found(answer, "\r\n\r\n"@) {
        Some(i) => Some((answer.take(i), answer.skip(i + 4))),
        None => match text::found(answer, "\n\n"@) {
            Some(i) => Some((answer.take(i), answer.skip(i + 2))),
            None => None,
        },
    }
}

/// The headers that lines hold. A line without a colon holds none; of two headers of one
/// name the later one counts.
pub open spec fn headers_of(lines: Seq<Seq<char>>) -> Map<Seq<char>, Seq<char>>
    decreases lines.len(),
{
    if lines.len() == 0 {
        Map::empty()
    } else {
        let before = headers_of(lines.drop_last());
        match text::cut_at(lines.last(), ':') {
            Some((k, v)) => before.insert(
                text::unicode_lowercase(text::trimmed(k)),
                text::trimmed(v),
            ),
            None => before,
        }
    }
}

/// The status that a status line holds: its second word.
pub open spec fn status_of(line: Seq<char>) -> Result<u16, ResponseError> {
    let words = text::words_of(line);
    if words.len() < 2 {
        Err(ResponseError::NoStatus)
    } else {
        match number::unsigned_of(words[1], 65535) {
            Some(n) => Ok(n as u16),
            None => Err(ResponseError::BadStatus),
        }
    }
}

/// The status, the headers and the body in the text of an answer.
pub open spec fn response_of(raw: Seq<char>) -> Result<
    (u16, Map<Seq<char>, Seq<char>>, Seq<char>),
    ResponseError,
> {
    match head_and_body(last_answer(raw)) {
        None => Err(ResponseError::NoSeparator),
        Some((head, body)) => {
            let lines = text::lines_of(head);
            if lines.len() == 0 {
                Err(ResponseError::Empty)
            } else {
                match status_of(lines[0]) {
                    Ok(status) => Ok((status, headers_of(lines.skip(1)), body)),
                    Err(e) => Err(e),
                }
            }
        },
    }
}

fn find_body<'a>(answer: &'a str) -> (r: Option<(&'a str, &'a str)>)
    ensures
        r.deep_view() == head_and_body(answer@),
{
    let n: usize = answer.unicode_len();
    proof {
        reveal_strlit("\r\n\r\n");
        reveal_strlit("\n\n");
    }
    match find(answer, "\r\n\r\n") {
        Some(i) => {
            let head: &'a str = answer.substring_char(0, i);
            let body: &'a str = answer.substring_char(i + 4, n);
            assert(head@ =~= answer@.take(i as int));
            assert(body@ =~= answer@.skip(i + 4));
            Some((head, body))
        },
        None => match find(answer, "\n\n") {
            Some(i) => {
                let head: &'a str = answer.substring_char(0, i);
                let body: &'a str = answer.substring_char(i + 2, n);
                assert(head@ =~= answer@.take(i as int));
                assert(body@ =~= answer@.skip(i + 2));
                Some((head, body))
            },
            None => None,
        },
    }
}

fn read_status(line: &str) -> (r: Result<u16, ResponseError>)
    ensures
        r == status_of(line@),
{
    match second_word(line) {
        None => Err(ResponseError::NoStatus),
        Some(w) => match parse_unsigned(w, 65535) {
            Some(n) => Ok(n as u16),
            None => Err(ResponseError::BadStatus),
        },
    }
}

/// Reads the text of an answer: a status line and headers, a blank line, the body. Where
/// the text holds several answers one after the other, the last one is read.
pub fn parse_response<'a>(raw: &'a str) -> (r: Result<(u16, Headers, &'a str), ResponseError>)
    ensures
        match r {
            Ok((status, headers, body)) => response_of(raw@) == Ok::<_, ResponseError>(
                (status, headers.deep_view(), body@),
            ),
            Err(e) => response_of(raw@) == Err::<
                (u16, Map<Seq<char>, Seq<char>>, Seq<char>),
                ResponseError,
            >(e),
        },
{
    let n: usize = raw.unicode_len();
    proof {
        reveal_strlit("\nHTTP/");
    }
    let answer: &'a str = match rfind(raw, "\nHTTP/") {
        Some(i) => raw.substring_char(i + 1, n),
        None => raw,
    };
    assert(answer@ =~= last_answer(raw@));
    let (head, body): (&'a str, &'a str) = match find_body(answer) {
        Some(parts) => parts,
        None => {
            return Err(ResponseError::NoSeparator);
        },
    };
    let head_lines: Vec<String> = lines(head);
    if head_lines.len() == 0 {
        return Err(ResponseError::Empty);
    }
    let status: u16 = match read_status(head_lines[0].as_str()) {
        Ok(s) => s,
        Err(e) => {
            return Err(e);
        },
    };
    let mut headers: Headers = Headers::new();
    let ghost all = head_lines.deep_view();
    let mut i: usize = 1;
    assert(all.subrange(1, 1) =~= Seq::empty());
    while i < head_lines.len()
        invariant
            1 <= i <= head_lines.len(),
            all == head_lines.deep_view(),
            headers.deep_view() == headers_of(all.subrange(1, i as int)),
        decreases head_lines.len() - i,
    {
        proof {
            let next = all.subrange(1, i + 1);
            assert(next.drop_last() =~= all.subrange(1, i as int));
            assert(next.last() == head_lines@[i as int]@);
        }
        if let Some((k, v)) = cut(head_lines[i].as_str(), ':') {
            headers.insert(to_lowercase(trim(k)), trim(v).to_owned());
        }
        i += 1;
    }
    assert(all.subrange(1, i as int) =~= all.skip(1));
    Ok((status, headers, body))
}

/// What can go wrong with a call.
#[derive(Debug)]
pub enum GhError {
    /// The answer cannot be read.
    Response(ResponseError),
    /// The body of the answer is not JSON.
    Body,
    /// A page of the answer is not JSON.
    Page,
    /// The answer to a query has a status other than 200.
    Status { status: u16, body: String },
    /// The answer to a query reports errors; the text is their JSON.
    GraphQl(String),
}

/// What an error is.
pub enum GhErrorView {
    Response(ResponseError),
    Body,
    Page,
    Status { status: u16, body: Seq<char> },
    GraphQl(Seq<char>),
}

impl DeepView for GhError {
    type V = GhErrorView;

    open spec fn deep_view(&self) -> GhErrorView {
        match self {
            GhError::Response(e) => GhErrorView::Response(*e),
            GhError::Body => GhErrorView::Body,
            GhError::Page => GhErrorView::Page,
            GhError::Status { status, body } => GhErrorView::Status { status: *status, body: body@ },
            GhError::GraphQl(t) => GhErrorView::GraphQl(t@),
        }
    }
}

/// An answer of the API.
pub struct GhResponse {
    pub status: u16,
    pub headers: Headers,
    pub body: Json,
    pub duration_ms: u64,
}

/// What an answer is.
#[verifier::ext_equal]
pub struct GhResponseView {
    pub status: u16,
    pub headers: Map<Seq<char>, Seq<char>>,
    pub body: JsonView,
    pub duration_ms: u64,
}

impl DeepView for GhResponse {
    type V = GhResponseView;

    open spec fn deep_view(&self) -> GhResponseView {
        GhResponseView {
            status: self.status,
            headers: self.headers.deep_view(),
            body: self.body.deep_view(),
            duration_ms: self.duration_ms,
        }
    }
}

impl GhResponse {
    /// Whether the answer says that nothing has changed.
    pub fn is_not_modified(&self) -> (r: bool)
        ensures
            r == (self.status == 304),
    {
        self.status == 304
    }

    /// The tag of what was asked for.
    pub fn etag(&self) -> (r: Option<&str>)
        ensures
            r.deep_view() == header(self.headers.deep_view(), "etag"@),
    {
        self.headers.text("etag")
    }

    /// When what was asked for last changed.
    pub fn last_modified(&self) -> (r: Option<&str>)
        ensures
            r.deep_view() == header(self.headers.deep_view(), "last-modified"@),
    {
        self.headers.text("last-modified")
    }

    /// The seconds to wait before the endpoint is asked again.
    pub fn poll_interval(&self) -> (r: Option<i64>)
        ensures
            r == header_number(self.headers.deep_view(), "x-poll-interval"@),
    {
        self.headers.number("x-poll-interval")
    }

    /// The calls that are left until the limit is reached.
    pub fn rate_remaining(&self) -> (r: Option<i64>)
        ensures
            r == header_number(self.headers.deep_view(), "x-ratelimit-remaining"@),
    {
        self.headers.number("x-ratelimit-remaining")
    }

    /// When the limit starts anew, in seconds since 1970.
    pub fn rate_reset(&self) -> (r: Option<i64>)
        ensures
            r == header_number(self.headers.deep_view(), "x-ratelimit-reset"@),
    {
        self.headers.number("x-ratelimit-reset")
    }
}

// ---- bodies ------------------------------------------------------------------------
/// The elements that a page adds: those of an array, and none for any other value.
pub open spec fn page_items(page: JsonView) -> Seq<JsonView> {
    match page {
        JsonView::Array(a) => a,
        _ => Seq::empty(),
    }
}

/// The elements of all pages in a sequence of lines, in their order; none at all where a
/// line that is not blank is not JSON.
pub open spec fn pages_of(chunks: Seq<Seq<char>>) -> Option<Seq<JsonView>>
    decreases chunks.len(),
{
    if chunks.len() == 0 {
        Some(Seq::empty())
    } else {
        let chunk = text::trimmed(chunks.last());
        match pages_of(chunks.drop_last()) {
            None => None,
            Some(items) => if chunk.len() == 0 {
                Some(items)
            } else {
                match json::json_of_text(chunk) {
                    Some(page) => Some(items + page_items(page)),
                    None => None,
                }
            },
        }
    }
}

/// Adds the elements of a page to those of the pages before it.
pub fn add_page(items: &mut Vec<Json>, page: Json)
    ensures
        final(items).deep_view() == old(items).deep_view() + page_items(page.deep_view()),
{
    match page {
        Json::Array(mut more) => {
            assert(more.deep_view() =~= page.deep_view()->Array_0);
            let ghost added = more.deep_view();
            items.append(&mut more);
            assert(items.deep_view() =~= old(items).deep_view() + added);
        },
        _ => {
            assert(items.deep_view() =~= old(items).deep_view() + Seq::<JsonView>::empty());
        },
    }
}

proof fn lemma_no_pages(chunks: Seq<Seq<char>>, i: int)
    requires
        0 <= i <= chunks.len(),
        pages_of(chunks.take(i)) is None,
    ensures
        pages_of(chunks) is None,
    decreases chunks.len() - i,
{
    if i < chunks.len() {
        assert(chunks.take(i + 1).drop_last() =~= chunks.take(i));
        lemma_no_pages(chunks, i + 1);
    } else {
        assert(chunks.take(i) =~= chunks);
    }
}

/// Reads a body of several pages, one to a line, into one array of their elements.
pub fn parse_paginated_body(body: &str) -> (r: Result<Json, GhError>)
    ensures
        match r {
            Ok(v) => pages_of(text::pieces(body@, '\n')) matches Some(items) && v.deep_view()
                == JsonView::Array(items),
            Err(e) => pages_of(text::pieces(body@, '\n')) is None && e is Page,
        },
{
    let chunks: Vec<String> = split(body, '\n');
    let ghost all = chunks.deep_view();
    let mut items: Vec<Json> = Vec::new();
    let mut i: usize = 0;
    assert(all.take(0) =~= Seq::empty());
    assert(items.deep_view() =~= Seq::<JsonView>::empty());
    while i < chunks.len()
        invariant
            i <= chunks.len(),
            all == chunks.deep_view(),
            all == text::pieces(body@, '\n'),
            pages_of(all.take(i as int)) == Some(items.deep_view()),
        decreases chunks.len() - i,
    {
        let chunk: &str = trim(chunks[i].as_str());
        proof {
            assert(all.take(i + 1).drop_last() =~= all.take(i as int));
            assert(all.take(i + 1).last() == chunks@[i as int]@);
        }
        if !chunk.is_empty() {
            match parse(chunk) {
                Some(page) => {
                    add_page(&mut items, page);
                },
                None => {
                    proof {
                        lemma_no_pages(all, i + 1);
                    }
                    return Err(GhError::Page);
                },
            }
        }
        i += 1;
    }
    assert(all.take(i as int) =~= all);
    let r: Json = Json::Array(items);
    assert(r.deep_view()->Array_0 =~= items.deep_view());
    Ok(r)
}

/// What the body of an answer holds. A blank body, and that of an answer without news,
/// holds null.
pub open spec fn body_of(status: u16, body: Seq<char>, paginate: bool) -> Result<
    JsonView,
    GhErrorView,
> {
    if text::trimmed(body).len() == 0 || status == 304 {
        Ok(JsonView::Null)
    } else if paginate {
        match pages_of(text::pieces(body, '\n')) {
            Some(items) => Ok(JsonView::Array(items)),
            None => Err(GhErrorView::Page),
        }
    } else {
        match json::json_of_text(body) {
            Some(v) => Ok(v),
            None => Err(GhErrorView::Body),
        }
    }
}

/// Reads the body of an answer.
pub fn parse_body(status: u16, body: &str, paginate: bool) -> (r: Result<Json, GhError>)
    ensures
        outcome::seen(r) == body_of(status, body@, paginate),
{
    if trim(body).is_empty() || status == 304 {
        Ok(Json::Null)
    } else if paginate {
        parse_paginated_body(body)
    } else {
        match parse(body) {
            Some(v) => Ok(v),
            None => Err(GhError::Body),
        }
    }
}

// ---- calls -------------------------------------------------------------------------
/// The statements that record a call and its answer: the call in the log, and then the
/// state of the endpoint.
pub open spec fn call_records(
    req: GhRequestView,
    resp: GhResponseView,
    now: Seq<char>,
) -> Seq<StatementView> {
    let etag = header(resp.headers, "etag"@);
    let last_modified = header(resp.headers, "last-modified"@);
    seq![
        db::call_record(
            CallLogView {
                endpoint: req.endpoint,
                method: req.method,
                status_code: Some(resp.status),
                etag,
                last_modified,
                rate_remaining: header_number(resp.headers, "x-ratelimit-remaining"@),
                rate_reset: header_number(resp.headers, "x-ratelimit-reset"@),
                cache_hit: resp.status == 304,
                duration_ms: Some(resp.duration_ms as i64),
            },
        ),
        db::poll_record(
            req.endpoint,
            etag,
            last_modified,
            header_number(resp.headers, "x-poll-interval"@),
            resp.status != 304,
            now,
        ),
    ]
}

/// The statements that record a call and its answer at the time `now`.
pub fn record_call(req: &GhRequest, resp: &GhResponse, now: &str) -> (r: Vec<Statement>)
    ensures
        r.deep_view() == call_records(req.deep_view(), resp.deep_view(), now@),
{
    let call: Statement = log_call(
        &CallLogEntry {
            endpoint: req.endpoint,
            method: req.method,
            status_code: Some(resp.status),
            etag: resp.etag(),
            last_modified: resp.last_modified(),
            rate_remaining: resp.rate_remaining(),
            rate_reset: resp.rate_reset(),
            cache_hit: resp.is_not_modified(),
            duration_ms: Some(resp.duration_ms as i64),
        },
    );
    let poll: Statement = set_poll_state(
        req.endpoint,
        resp.etag(),
        resp.last_modified(),
        resp.poll_interval(),
        !resp.is_not_modified(),
        now,
    );
    let r: Vec<Statement> = vec![call, poll];
    assert(r.deep_view() =~= call_records(req.deep_view(), resp.deep_view(), now@));
    r
}

/// The answer in the text that `gh` wrote.
pub open spec fn answer_of(raw: Seq<char>, paginate: bool, duration_ms: u64) -> Result<
    GhResponseView,
    GhErrorView,
> {
    match response_of(raw) {
        Err(e) => Err(GhErrorView::Response(e)),
        Ok((status, headers, body)) => match body_of(status, body, paginate) {
            Err(e) => Err(e),
            Ok(body) => Ok(GhResponseView { status, headers, body, duration_ms }),
        },
    }
}

/// Reads the answer in the text that `gh` wrote.
pub fn read_answer(raw: &str, paginate: bool, duration_ms: u64) -> (r: Result<GhResponse, GhError>)
    ensures
        outcome::seen(r) == answer_of(raw@, paginate, duration_ms),
{
    match parse_response(raw) {
        Err(e) => Err(GhError::Response(e)),
        Ok((status, headers, body)) => match parse_body(status, body, paginate) {
            Err(e) => Err(e),
            Ok(body) => Ok(GhResponse { status, headers, body, duration_ms }),
        },
    }
}

/// An answer, with the statements that record the call.
pub struct Call {
    pub response: GhResponse,
    pub records: Vec<Statement>,
}

/// What a call comes to.
pub struct CallView {
    pub response: GhResponseView,
    pub records: Seq<StatementView>,
}

impl DeepView for Call {
    type V = CallView;

    open spec fn deep_view(&self) -> CallView {
        CallView { response: self.response.deep_view(), records: self.records.deep_view() }
    }
}

/// The answer to a request, with the statements that record the call.
pub open spec fn call_of(
    req: GhRequestView,
    stdout: Seq<u8>,
    duration_ms: u64,
    now: Seq<char>,
) -> Result<CallView, GhErrorView> {
    match answer_of(text::utf8_lossy(stdout), req.paginate, duration_ms) {
        Err(e) => Err(e),
        Ok(response) => Ok(CallView { response, records: call_records(req, response, now) }),
    }
}

/// Reads the answer to a request from what `gh` wrote to its standard output, and gives
/// the statements that record the call.
pub fn finish_call(req: &GhRequest, stdout: &Vec<u8>, duration_ms: u64, now: &str) -> (r: Result<
    Call,
    GhError,
>)
    ensures
        outcome::seen(r) == call_of(req.deep_view(), stdout@, duration_ms, now@),
{
    let raw: String = from_utf8_lossy(stdout.as_slice());
    match read_answer(raw.as_str(), req.paginate, duration_ms) {
        Err(e) => Err(e),
        Ok(response) => {
            let records: Vec<Statement> = record_call(req, &response, now);
            Ok(Call { response, records })
        },
    }
}

// ---- queries -----------------------------------------------------------------------
/// The answer to a query, with the statement that records the call.
pub struct Query {
    pub data: Json,
    pub record: Statement,
}

/// What a query comes to.
pub struct QueryView {
    pub data: JsonView,
    pub record: StatementView,
}

impl DeepView for Query {
    type V = QueryView;

    open spec fn deep_view(&self) -> QueryView {
        QueryView { data: self.data.deep_view(), record: self.record.deep_view() }
    }
}

/// The statement that records a query, with the points that GitHub says it cost.
pub open spec fn query_record(
    endpoint: Seq<char>,
    status: u16,
    headers: Map<Seq<char>, Seq<char>>,
    duration_ms: u64,
    data: JsonView,
) -> StatementView {
    db::costed_record(
        CallLogView {
            endpoint,
            method: "POST"@,
            status_code: Some(status),
            etag: header(headers, "etag"@),
            last_modified: None,
            rate_remaining: header_number(headers, "x-ratelimit-remaining"@),
            rate_reset: header_number(headers, "x-ratelimit-reset"@),
            cache_hit: false,
            duration_ms: Some(duration_ms as i64),
        },
        report::cost_in(data),
    )
}

/// What the body of the answer to a query gives: its data, unless it reports errors.
pub open spec fn data_of(body: JsonView) -> Result<JsonView, GhErrorView> {
    match body.get("errors"@) {
        Some(errors) => Err(GhErrorView::GraphQl(json::compact_text(errors))),
        None => Ok(body.at("data"@)),
    }
}

/// The data in the body of the answer to a query.
pub fn query_data(body: &Json) -> (r: Result<Json, GhError>)
    ensures
        outcome::seen(r) == data_of(body.deep_view()),
{
    match body.get("errors") {
        Some(errors) => Err(GhError::GraphQl(to_text(errors))),
        None => Ok(body.at("data").copy()),
    }
}

/// The answer to a query in the text that `gh` wrote.
pub open spec fn query_of(endpoint: Seq<char>, raw: Seq<char>, duration_ms: u64) -> Result<
    QueryView,
    GhErrorView,
> {
    match response_of(raw) {
        Err(e) => Err(GhErrorView::Response(e)),
        Ok((status, headers, body)) => if status != 200 {
            Err(GhErrorView::Status { status, body })
        } else {
            match json::json_of_text(body) {
                None => Err(GhErrorView::Body),
                Some(v) => match data_of(v) {
                    Err(e) => Err(e),
                    Ok(data) => Ok(
                        QueryView {
                            data,
                            record: query_record(endpoint, status, headers, duration_ms, data),
                        },
                    ),
                },
            }
        },
    }
}

/// Reads the answer to a query from what `gh` wrote to its standard output, and gives the
/// statement that records the call under the name `endpoint`.
pub fn finish_graphql(endpoint: &str, stdout: &Vec<u8>, duration_ms: u64) -> (r: Result<
    Query,
    GhError,
>)
    ensures
        outcome::seen(r) == query_of(endpoint@, text::utf8_lossy(stdout@), duration_ms),
{
    let raw: String = from_utf8_lossy(stdout.as_slice());
    let (status, headers, body): (u16, Headers, &str) = match parse_response(raw.as_str()) {
        Ok(parts) => parts,
        Err(e) => {
            return Err(GhError::Response(e));
        },
    };
    if status != 200 {
        return Err(GhError::Status { status, body: body.to_owned() });
    }
    let value: Json = match parse(body) {
        Some(v) => v,
        None => {
            return Err(GhError::Body);
        },
    };
    let data: Json = match query_data(&value) {
        Ok(d) => d,
        Err(e) => {
            return Err(e);
        },
    };
    let record: Statement = log_costed_call(
        &CallLogEntry {
            endpoint,
            method: "POST",
            status_code: Some(status),
            etag: headers.text("etag"),
            last_modified: None,
            rate_remaining: headers.number("x-ratelimit-remaining"),
            rate_reset: headers.number("x-ratelimit-reset"),
            cache_hit: false,
            duration_ms: Some(duration_ms as i64),
        },
        gql_cost(&data),
    );
    Ok(Query { data, record })
}

// ---- what holds of every call ------------------------------------------------------
/// An answer that says that nothing has changed has no body, counts as a hit of the cache,
/// and leaves the time of the last change as it was.
pub proof fn not_modified_is_a_cache_hit(
    req: GhRequestView,
    headers: Map<Seq<char>, Seq<char>>,
    text: Seq<char>,
    duration_ms: u64,
    now: Seq<char>,
)
    ensures
        body_of(304, text, req.paginate) == Ok::<JsonView, GhErrorView>(JsonView::Null),
        ({
            let resp = GhResponseView { status: 304, headers, body: JsonView::Null, duration_ms };
            let records = call_records(req, resp, now);
            &&& records.len() == 2
            &&& records[0].params[7] == sql::flag(true)
            &&& records[1].params[5] == SqlView::Null
        }),
{
}

/// A request for all pages of an endpoint whose tag is known is sent with that tag, and one
/// whose tag is not known is sent without.
pub proof fn known_tag_goes_with_the_request(endpoint: Seq<char>, tag: Seq<char>)
    ensures
        request_args(pages_request(endpoint, Some(tag))) == seq![
            "api"@,
            "--include"@,
            "--paginate"@,
            "-H"@,
            "If-None-Match"@ + ": "@ + tag,
            endpoint,
        ],
        request_args(pages_request(endpoint, None)) == seq![
            "api"@,
            "--include"@,
            "--paginate"@,
            endpoint,
        ],
{
    let one = pages_request(endpoint, Some(tag)).headers;
    assert(one.drop_last() =~= Seq::empty());
    assert(header_args(Seq::empty()) =~= Seq::empty());
    assert(request_args(pages_request(endpoint, Some(tag))) =~= seq![
        "api"@,
        "--include"@,
        "--paginate"@,
        "-H"@,
        "If-None-Match"@ + ": "@ + tag,
        endpoint,
    ]);
    assert(request_args(pages_request(endpoint, None)) =~= seq![
        "api"@,
        "--include"@,
        "--paginate"@,
        endpoint,
    ]);
}

/// The elements of pages come in the order of the pages.
pub proof fn pages_are_joined_in_order(first: Seq<Seq<char>>, second: Seq<Seq<char>>)
    ensures
        pages_of(first + second) == match (pages_of(first), pages_of(second)) {
            (Some(a), Some(b)) => Some(a + b),
            _ => None,
        },
    decreases second.len(),
{
    if second.len() == 0 {
        assert(first + second =~= first);
        if let Some(a) = pages_of(first) {
            assert(a + Seq::<JsonView>::empty() =~= a);
        }
    } else {
        assert((first + second).drop_last() =~= first + second.drop_last());
        assert((first + second).last() == second.last());
        pages_are_joined_in_order(first, second.drop_last());
        match (pages_of(first), pages_of(second.drop_last())) {
            (Some(a), Some(b)) => {
                if let Some(page) = json::json_of_text(text::trimmed(second.last())) {
                    assert(a + b + page_items(page) =~= a + (b + page_items(page)));
                }
            },
            _ => {},
        }
    }
}

proof fn lemma_rfound_at(s: Seq<char>, pat: Seq<char>, at: int, i: int)
    requires
        0 <= at <= i <= s.len(),
        at + pat.len() <= s.len(),
        s.subrange(at, at + pat.len()) == pat,
        forall|k: int|
            at < k && k + pat.len() <= s.len() ==> #[trigger] s.subrange(k, k + pat.len()) != pat,
    ensures
        text::rfound_from(s, pat, i) == Some(at),
    decreases i - at,
{
    if i > at {
        if i + pat.len() <= s.len() {
            assert(s.subrange(i, i + pat.len()) != pat);
        }
        lemma_rfound_at(s, pat, at, i - 1);
    }
}

/// Of several answers in one text only the last counts: whatever stands before it changes
/// nothing.
pub proof fn last_answer_counts(before: Seq<char>, rest: Seq<char>)
    requires
        forall|k: int|
            0 <= k && k + "\nHTTP/"@.len() <= ("HTTP/"@ + rest).len()
                ==> #[trigger] ("HTTP/"@ + rest).subrange(k, k + "\nHTTP/"@.len()) != "\nHTTP/"@,
    ensures
        response_of(before + "\nHTTP/"@ + rest) == response_of("HTTP/"@ + rest),
{
    reveal_strlit("\nHTTP/");
    reveal_strlit("HTTP/");
    let pat = "\nHTTP/"@;
    let raw = before + pat + rest;
    let last = "HTTP/"@ + rest;
    let at = before.len() as int;
    assert(raw.subrange(at, at + pat.len()) =~= pat);
    assert(raw.skip(at + 1) =~= last);
    assert forall|k: int| at < k && k + pat.len() <= raw.len() implies #[trigger] raw.subrange(
        k,
        k + pat.len(),
    ) != pat by {
        let j = k - at - 1;
        assert(raw.subrange(k, k + pat.len()) =~= last.subrange(j, j + pat.len()));
    }
    lemma_rfound_at(raw, pat, at, raw.len() as int);
    lemma_not_rfound(last, pat, last.len() as int);
}

proof fn lemma_not_rfound(s: Seq<char>, pat: Seq<char>, i: int)
    requires
        i <= s.len(),
        forall|k: int|
            0 <= k && k + pat.len() <= s.len() ==> #[trigger] s.subrange(k, k + pat.len()) != pat,
    ensures
        text::rfound_from(s, pat, i) is None,
    decreases i + 1,
{
    if i >= 0 {
        if i + pat.len() <= s.len() {
            assert(s.subrange(i, i + pat.len()) != pat);
        }
        lemma_not_rfound(s, pat, i - 1);
    }
}

} // verus!
