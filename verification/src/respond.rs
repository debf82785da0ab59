//! The responses that requests are answered with.
use crate::facts::Answer;
use crate::facts::Facts;
use crate::facts::FactsView;
use crate::facts::Question;
use crate::facts::QuestionView;
use crate::facts::Verdict;
use crate::mime;
use crate::place::Place;
use crate::place::PlaceView;
use crate::request;
use crate::serve;
use crate::serve::Served;
use crate::serve::ServedView;
use crate::text;
use vstd::prelude::*;

verus! {

/// A `tiny_http` response.
#[verifier::external_type_specification]
#[verifier::external_body]
#[verifier::reject_recursive_types(R)]
pub struct ExResponse<R>(tiny_http::Response<R>);

/// The reader behind a response with a body in memory.
#[verifier::external_type_specification]
#[verifier::external_body]
#[verifier::reject_recursive_types(T)]
pub struct ExCursor<T>(std::io::Cursor<T>);

/// The reader behind a response without a body.
#[verifier::external_type_specification]
#[verifier::external_body]
pub struct ExEmpty(std::io::Empty);

/// An `http` response, as `axum` serves it.
#[verifier::external_type_specification]
#[verifier::external_body]
#[verifier::reject_recursive_types(T)]
pub struct ExHttpResponse<T>(axum::http::Response<T>);

/// The body of an `axum` response.
#[verifier::external_type_specification]
#[verifier::external_body]
#[verifier::reject_recursive_types(D)]
#[verifier::reject_recursive_types(E)]
pub struct ExBoxBody<D, E>(http_body::combinators::UnsyncBoxBody<D, E>);

/// A piece of the body of an `axum` response.
#[verifier::external_type_specification]
#[verifier::external_body]
pub struct ExBytes(axum::body::Bytes);

/// An error of the body of an `axum` response.
#[verifier::external_type_specification]
#[verifier::external_body]
pub struct ExAxumError(axum::Error);

/// A `tiny_http` response with a body in memory.
pub type FileResponse = tiny_http::Response<std::io::Cursor<Vec<u8>>>;

/// A `tiny_http` response without a body.
pub type EmptyResponse = tiny_http::Response<std::io::Empty>;

/// The response that `tiny_http` makes of a status and a body.
pub uninterp spec fn plain_response(status: u16, body: Seq<u8>) -> FileResponse;

/// `tiny_http::Response::from_data` makes a response of a body, and `with_status_code` gives it
/// a status. The response depends on these two alone.
#[verifier::external_body]
fn make_plain_response(status: u16, body: Vec<u8>) -> (response: FileResponse)
    ensures
        response == plain_response(status, body@),
{
    tiny_http::Response::from_data(body).with_status_code(status)
}

/// The response that `tiny_http` makes of a status, one header and a body.
pub uninterp spec fn headed_response(
    status: u16,
    field: Seq<char>,
    value: Seq<char>,
    body: Seq<u8>,
) -> FileResponse;

/// `tiny_http::Response::from_data` makes a response of a body, `with_status_code` gives it a
/// status, and `with_header` gives it the header that `tiny_http::Header::from_bytes` makes of a
/// field and a value. That header is made whenever both are ASCII. The response depends on these
/// four alone.
#[verifier::external_body]
fn make_headed_response(status: u16, field: &str, value: &str, body: Vec<u8>) -> (response:
    FileResponse)
    requires
        vstd::utf8::is_ascii_chars(field@),
        vstd::utf8::is_ascii_chars(value@),
    ensures
        response == headed_response(status, field@, value@, body@),
{
    let header = tiny_http::Header::from_bytes(field.as_bytes(), value.as_bytes()).unwrap();
    tiny_http::Response::from_data(body).with_status_code(status).with_header(header)
}

/// What `tiny_http::Response::empty` makes of a status.
pub uninterp spec fn empty_response(status: u16) -> EmptyResponse;

/// `tiny_http::Response::empty` makes a response with the given status and without a body. It
/// depends on the status alone.
#[verifier::external_body]
pub(crate) fn response_empty(status: u16) -> (response: EmptyResponse)
    ensures
        response == empty_response(status),
{
    tiny_http::Response::empty(status)
}

/// What `axum` makes of a status and a text.
pub uninterp spec fn text_response(status: u16, text: Seq<char>) -> axum::response::Response;

/// `IntoResponse::into_response` of `axum` makes a response of a status and a text, with the
/// content type of plain text. It depends on the status and the text alone. A status has three
/// digits.
#[verifier::external_body]
fn text_into_response(status: u16, text: &'static str) -> (response: axum::response::Response)
    requires
        100 <= status <= 999,
    ensures
        response == text_response(status, text@),
{
    let code = axum::http::StatusCode::from_u16(status).unwrap();
    axum::response::IntoResponse::into_response((code, text))
}

/// A header name: small letters and hyphens, and not many of them.
pub open spec fn is_header_name(name: Seq<char>) -> bool {
    &&& 1 <= name.len() <= 64
    &&& forall|i: int|
        0 <= i < name.len() ==> ('a' <= #[trigger] name[i] <= 'z' || name[i] == '-')
}

/// What `axum` makes of a status, one header and a body.
pub uninterp spec fn built_response(
    status: u16,
    field: Seq<char>,
    value: Seq<char>,
    body: Seq<u8>,
) -> axum::response::Response;

/// The response builder of `http`, as `axum` gives it, makes a response with the given status,
/// header and body, and `IntoResponse::into_response` boxes the body. The response depends on
/// these four alone. A status of three digits, a header name of small letters and hyphens and a
/// value of visible ASCII are always accepted.
#[verifier::external_body]
fn build_response(status: u16, field: &str, value: &str, body: Vec<u8>) -> (response:
    axum::response::Response)
    requires
        100 <= status <= 999,
        is_header_name(field@),
        mime::visible_ascii(value@),
    ensures
        response == built_response(status, field@, value@, body@),
{
    let head = axum::http::Response::builder().status(status).header(field, value);
    let built = head.body(axum::body::Body::from(body));
    axum::response::IntoResponse::into_response(built.unwrap())
}

/// A reply to a request: a status, a content type if there is one, and a body.
#[derive(Debug)]
pub struct Reply {
    pub status: u16,
    pub content_type: Option<&'static str>,
    pub body: Vec<u8>,
}

/// A reply, over views.
#[verifier::ext_equal]
pub struct ReplyView {
    pub status: u16,
    pub content_type: Option<Seq<char>>,
    pub body: Seq<u8>,
}

impl View for Reply {
    type V = ReplyView;

    open spec fn view(&self) -> ReplyView {
        ReplyView {
            status: self.status,
            content_type: self.content_type.deep_view(),
            body: self.body@,
        }
    }
}

impl ReplyView {
    /// The content type may stand in a header.
    pub open spec fn is_valid(self) -> bool {
        self.content_type matches Some(content_type) ==> mime::visible_ascii(content_type)
    }
}

/// The reply that gives the contents of a file.
pub open spec fn file_reply(content_type: Seq<char>, contents: Seq<u8>) -> ReplyView {
    ReplyView { status: 200, content_type: Some(content_type), body: contents }
}

/// The reply to a request for what is not there.
pub open spec fn not_found_reply() -> ReplyView {
    ReplyView {
        status: 404,
        content_type: None,
        body: vstd::utf8::encode_utf8("Not Found"@),
    }
}

/// The response that a reply is sent as.
pub open spec fn response_for(reply: ReplyView) -> FileResponse {
    match reply.content_type {
        Some(content_type) => headed_response(
            reply.status,
            "Content-Type"@,
            content_type,
            reply.body,
        ),
        None => plain_response(reply.status, reply.body),
    }
}

/// The response that a reply is sent as.
pub(crate) fn make_response(reply: Reply) -> (response: FileResponse)
    requires
        reply@.is_valid(),
    ensures
        response == response_for(reply@),
{
    match reply.content_type {
        Some(content_type) => {
            proof {
                reveal_strlit("Content-Type");
                assert(vstd::utf8::is_ascii_chars("Content-Type"@));
                assert(mime::visible_ascii(content_type@));
                assert(vstd::utf8::is_ascii_chars(content_type@));
            }
            make_headed_response(reply.status, "Content-Type", content_type, reply.body)
        },
        None => make_plain_response(reply.status, reply.body),
    }
}

/// What is to be done next for a request.
#[derive(Debug)]
pub enum Step<R> {
    /// Find this out.
    Ask(Question),
    /// Read the file at this place.
    Read(Place),
    /// Send this.
    Reply(R),
}

/// What is to be done next, over views.
pub enum StepView<R> {
    Ask(QuestionView),
    Read(PlaceView),
    Reply(R),
}

/// A step towards a reply, over views.
pub open spec fn step_to_reply(step: Step<Reply>) -> StepView<ReplyView> {
    match step {
        Step::Ask(question) => StepView::Ask(question.deep_view()),
        Step::Read(place) => StepView::Read(place@),
        Step::Reply(reply) => StepView::Reply(reply@),
    }
}

/// A step towards a response, over views.
pub open spec fn step_to_response<R>(step: Step<R>) -> StepView<R> {
    match step {
        Step::Ask(question) => StepView::Ask(question.deep_view()),
        Step::Read(place) => StepView::Read(place@),
        Step::Reply(response) => StepView::Reply(response),
    }
}

/// What is to be done next once it is decided which file answers a request. Before the file
/// was read there are no contents; a file that could not be read has `None` for contents. The
/// content type is settled before the file is read.
pub open spec fn file_step(
    f: FactsView,
    resolved: Verdict<Option<PlaceView>>,
    contents: Option<Option<Seq<u8>>>,
) -> StepView<ReplyView> {
    match resolved {
        Verdict::Ask(question) => StepView::Ask(question),
        Verdict::Known(None) => StepView::Reply(not_found_reply()),
        Verdict::Known(Some(file)) => match request::mime_type_at(f, file) {
            Verdict::Ask(question) => StepView::Ask(question),
            Verdict::Known(content_type) => match contents {
                None => StepView::Read(file),
                Some(None) => StepView::Reply(not_found_reply()),
                Some(Some(contents)) => StepView::Reply(file_reply(content_type, contents)),
            },
        },
    }
}

/// The same step, with the response in place of the reply.
pub open spec fn file_step_sent(step: StepView<ReplyView>) -> StepView<FileResponse> {
    match step {
        StepView::Ask(question) => StepView::Ask(question),
        StepView::Read(file) => StepView::Read(file),
        StepView::Reply(reply) => StepView::Reply(response_for(reply)),
    }
}

/// The reply to a request for what is not there.
pub fn reply_not_found() -> (reply: Reply)
    ensures
        reply@ == not_found_reply(),
{
    Reply { status: 404, content_type: None, body: "Not Found".as_bytes_vec() }
}

/// The reply that gives the contents of a file.
pub fn reply_with_file(content_type: &'static str, contents: Vec<u8>) -> (reply: Reply)
    ensures
        reply@ == file_reply(content_type@, contents@),
{
    Reply { status: 200, content_type: Some(content_type), body: contents }
}

/// Goes on with a request once it is decided which file answers it.
pub fn reply_with_resolved(
    resolved: Answer<Option<Place>>,
    known: &Facts,
    contents: Option<Option<Vec<u8>>>,
) -> (step: Step<Reply>)
    ensures
        step_to_reply(step) == file_step(known@, resolved.deep_view(), contents.deep_view()),
{
    match resolved {
        Answer::Ask(question) => Step::Ask(question),
        Answer::Known(None) => Step::Reply(reply_not_found()),
        Answer::Known(Some(file)) => match request::mime_type_for(&file, known) {
            Answer::Ask(question) => Step::Ask(question),
            Answer::Known(content_type) => match contents {
                None => Step::Read(file),
                Some(None) => Step::Reply(reply_not_found()),
                Some(Some(contents)) => {
                    assert(contents.deep_view() =~= contents@);
                    Step::Reply(reply_with_file(content_type, contents))
                },
            },
        },
    }
}

/// Answers a request to a static file server.
pub fn build_file_response(
    root: &Place,
    url: &str,
    known: &Facts,
    contents: Option<Option<Vec<u8>>>,
) -> (step: Step<FileResponse>)
    ensures
        step_to_response(step) == file_step_sent(
            file_step(known@, request::resolved_url(known@, root@, url@), contents.deep_view()),
        ),
{
    let resolved = request::resolve_request_path(root, url, known);
    proof {
        law_file_replies_are_valid(known@, resolved.deep_view(), contents.deep_view());
    }
    match reply_with_resolved(resolved, known, contents) {
        Step::Ask(question) => Step::Ask(question),
        Step::Read(file) => Step::Read(file),
        Step::Reply(reply) => Step::Reply(make_response(reply)),
    }
}

/// A reply of the server of a tool.
#[derive(Debug)]
pub enum SiteReply {
    /// A text with a status other than success, sent as plain text.
    Text { status: u16, text: &'static str },
    /// A body with its content type, sent as a success.
    Content { content_type: &'static str, body: Vec<u8> },
}

/// A reply of the server of a tool, over views.
pub enum SiteReplyView {
    Text { status: u16, text: Seq<char> },
    Content { content_type: Seq<char>, body: Seq<u8> },
}

impl View for SiteReply {
    type V = SiteReplyView;

    open spec fn view(&self) -> SiteReplyView {
        match self {
            SiteReply::Text { status, text } => SiteReplyView::Text {
                status: *status,
                text: text@,
            },
            SiteReply::Content { content_type, body } => SiteReplyView::Content {
                content_type: content_type@,
                body: body@,
            },
        }
    }
}

impl SiteReplyView {
    /// The status is one, and the content type may stand in a header.
    pub open spec fn is_valid(self) -> bool {
        match self {
            SiteReplyView::Text { status, text } => 100 <= status <= 999,
            SiteReplyView::Content { content_type, body } => mime::visible_ascii(content_type),
        }
    }
}

/// The response that a reply of the server of a tool is sent as.
pub open spec fn site_response_for(reply: SiteReplyView) -> axum::response::Response {
    match reply {
        SiteReplyView::Text { status, text } => text_response(status, text),
        SiteReplyView::Content { content_type, body } => built_response(
            200,
            "content-type"@,
            content_type,
            body,
        ),
    }
}

/// The response that a reply of the server of a tool is sent as.
pub(crate) fn make_site_response(reply: SiteReply) -> (response: axum::response::Response)
    requires
        reply@.is_valid(),
    ensures
        response == site_response_for(reply@),
{
    match reply {
        SiteReply::Text { status, text } => text_into_response(status, text),
        SiteReply::Content { content_type, body } => {
            proof {
                reveal_strlit("content-type");
            }
            build_response(200, "content-type", content_type, body)
        },
    }
}

/// A step towards a reply of the server of a tool, over views.
pub open spec fn step_to_site_reply(step: Step<SiteReply>) -> StepView<SiteReplyView> {
    match step {
        Step::Ask(question) => StepView::Ask(question.deep_view()),
        Step::Read(place) => StepView::Read(place@),
        Step::Reply(reply) => StepView::Reply(reply@),
    }
}

/// The reply to a request that is refused.
pub open spec fn bad_request_reply() -> SiteReplyView {
    SiteReplyView::Text { status: 400, text: "Invalid path"@ }
}

/// The reply to a request for a file that cannot be read, or that no route takes.
pub open spec fn site_not_found_reply() -> SiteReplyView {
    SiteReplyView::Text { status: 404, text: "Not Found"@ }
}

/// What is to be done next once it is decided how a request is served.
pub open spec fn site_step(
    f: FactsView,
    served: Verdict<ServedView>,
    contents: Option<Option<Seq<u8>>>,
) -> StepView<SiteReplyView> {
    match served {
        Verdict::Ask(question) => StepView::Ask(question),
        Verdict::Known(ServedView::BadRequest) => StepView::Reply(bad_request_reply()),
        Verdict::Known(ServedView::Placeholder(page)) => StepView::Reply(
            SiteReplyView::Content {
                content_type: "text/html; charset=utf-8"@,
                body: vstd::utf8::encode_utf8(page),
            },
        ),
        Verdict::Known(ServedView::File(file)) => match request::mime_type_at(f, file) {
            Verdict::Ask(question) => StepView::Ask(question),
            Verdict::Known(content_type) => match contents {
                None => StepView::Read(file),
                Some(None) => StepView::Reply(site_not_found_reply()),
                Some(Some(contents)) => StepView::Reply(
                    SiteReplyView::Content { content_type, body: contents },
                ),
            },
        },
    }
}

/// The same step, with the response in place of the reply.
pub open spec fn site_step_sent(step: StepView<SiteReplyView>) -> StepView<
    axum::response::Response,
> {
    match step {
        StepView::Ask(question) => StepView::Ask(question),
        StepView::Read(file) => StepView::Read(file),
        StepView::Reply(reply) => StepView::Reply(site_response_for(reply)),
    }
}

/// The response to a request that no route of a tool's server takes.
pub fn respond_no_route() -> (response: axum::response::Response)
    ensures
        response == site_response_for(site_not_found_reply()),
{
    make_site_response(SiteReply::Text { status: 404, text: "Not Found" })
}

/// Goes on with a request once it is decided how it is served.
pub fn reply_with_served(
    served: Answer<Served>,
    known: &Facts,
    contents: Option<Option<Vec<u8>>>,
) -> (step: Step<SiteReply>)
    ensures
        step_to_site_reply(step) == site_step(known@, served.deep_view(), contents.deep_view()),
{
    match served {
        Answer::Ask(question) => Step::Ask(question),
        Answer::Known(Served::BadRequest) => Step::Reply(
            SiteReply::Text { status: 400, text: "Invalid path" },
        ),
        Answer::Known(Served::Placeholder(page)) => Step::Reply(
            SiteReply::Content {
                content_type: "text/html; charset=utf-8",
                body: page.as_str().as_bytes_vec(),
            },
        ),
        Answer::Known(Served::File(file)) => match request::mime_type_for(&file, known) {
            Answer::Ask(question) => Step::Ask(question),
            Answer::Known(content_type) => match contents {
                None => Step::Read(file),
                Some(None) => Step::Reply(SiteReply::Text { status: 404, text: "Not Found" }),
                Some(Some(contents)) => {
                    assert(contents.deep_view() =~= contents@);
                    Step::Reply(SiteReply::Content { content_type, body: contents })
                },
            },
        },
    }
}

/// Answers a request to the server of a tool.
pub fn build_site_response(
    root: &Place,
    tool: &str,
    req_path: &str,
    known: &Facts,
    contents: Option<Option<Vec<u8>>>,
) -> (step: Step<axum::response::Response>)
    ensures
        step_to_response(step) == site_step_sent(
            site_step(
                known@,
                serve::serving(known@, root@, tool@, req_path@),
                contents.deep_view(),
            ),
        ),
{
    let served = serve::serve_dx_file_direct(root, tool, req_path, known);
    proof {
        law_site_replies_are_valid(known@, served.deep_view(), contents.deep_view());
    }
    match reply_with_served(served, known, contents) {
        Step::Ask(question) => Step::Ask(question),
        Step::Read(file) => Step::Read(file),
        Step::Reply(reply) => Step::Reply(make_site_response(reply)),
    }
}

/// The content type of every file may stand in a header.
pub proof fn law_content_type_is_visible_ascii(f: FactsView, place: PlaceView)
    ensures
        request::mime_type_at(f, place) matches Verdict::Known(content_type)
            ==> mime::visible_ascii(content_type),
{
    if let Verdict::Known(ext) = request::extension_at(f, place) {
        let ext = match ext {
            Some(ext) => ext,
            None => Seq::empty(),
        };
        mime::law_mime_types_are_visible_ascii(seq!['.'] + text::ascii_lowercase(ext));
    }
}

/// The reply to a request for a file can always be sent: its header is a valid one.
pub proof fn law_file_replies_are_valid(
    f: FactsView,
    resolved: Verdict<Option<PlaceView>>,
    contents: Option<Option<Seq<u8>>>,
)
    ensures
        file_step(f, resolved, contents) matches StepView::Reply(reply) ==> reply.is_valid(),
{
    if let Verdict::Known(Some(file)) = resolved {
        law_content_type_is_visible_ascii(f, file);
    }
}

/// A reply of the server of a tool can always be sent: its status and its header are valid.
pub proof fn law_site_replies_are_valid(
    f: FactsView,
    served: Verdict<ServedView>,
    contents: Option<Option<Seq<u8>>>,
)
    ensures
        site_step(f, served, contents) matches StepView::Reply(reply) ==> reply.is_valid(),
{
    reveal_strlit("text/html; charset=utf-8");
    if let Verdict::Known(ServedView::File(file)) = served {
        law_content_type_is_visible_ascii(f, file);
    }
}

/// A request for a path that leads up is answered with "Not Found" at once, whatever is known
/// and whatever was read.
pub proof fn law_forbidden_path_is_not_found(
    f: FactsView,
    root: PlaceView,
    url: Seq<char>,
    contents: Option<Option<Seq<u8>>>,
)
    requires
        request::path_parts(request::path_in_url(url)) is None,
    ensures
        file_step(f, request::resolved_url(f, root, url), contents) == StepView::Reply(
            not_found_reply(),
        ),
{
}

/// A request for a path that may lead out of the site is answered with "Invalid path" at once,
/// whatever is known and whatever was read.
pub proof fn law_refused_path_is_a_bad_request(
    f: FactsView,
    root: PlaceView,
    tool: Seq<char>,
    req_path: Seq<char>,
    contents: Option<Option<Seq<u8>>>,
)
    requires
        serve::is_refused(serve::path_asked_for(req_path)),
    ensures
        site_step(f, serve::serving(f, root, tool, req_path), contents) == StepView::Reply(
            bad_request_reply(),
        ),
{
}

/// The page of a directory is served as HTML, whatever is known.
pub proof fn law_pages_are_html(f: FactsView, dir: PlaceView)
    ensures
        request::mime_type_at(f, dir.join("index.html"@)) == Verdict::Known(
            "text/html; charset=utf-8"@,
        ),
{
    reveal_strlit("index.html");
    reveal_strlit(".html");
    let page = "index.html"@;
    assert(page.len() != seq!['.', '.'].len() && page.len() != seq!['.'].len());
    request::law_plain_name_tells_content_type(f, dir, page);
    assert(mime::extension(page) == Some(page.skip(6))) by {
        reveal_with_fuel(mime::last_dot, 6);
        assert(page.drop_last().drop_last().drop_last().drop_last().last() == page[5]);
        assert(mime::last_dot(page) == 5);
    }
    assert(seq!['.'] + text::ascii_lowercase(page.skip(6)) =~= ".html"@);
    assert(".html"@.is_suffix_of(".html"@)) by {
        assert(".html"@.subrange(0, 5) =~= ".html"@);
    }
}

/// Views of replies hold all of them.
pub proof fn law_views_hold_whole_replies(reply: Reply, status: u16, text: &'static str, body: Vec<u8>)
    ensures
        reply@.status == reply.status,
        reply@.body == reply.body@,
        reply.content_type is None ==> reply@.content_type is None,
        reply.content_type matches Some(content_type) ==> reply@.content_type == Some(
            content_type@,
        ),
        (SiteReply::Text { status, text })@ == (SiteReplyView::Text { status, text: text@ }),
        (SiteReply::Content { content_type: text, body })@ == (SiteReplyView::Content {
            content_type: text@,
            body: body@,
        }),
{
}

/// Views of steps hold all of them.
pub proof fn law_views_hold_whole_steps<R>(
    question: Question,
    place: Place,
    reply: Reply,
    site_reply: SiteReply,
    response: R,
)
    ensures
        step_to_reply(Step::Ask(question)) == StepView::<ReplyView>::Ask(question.deep_view()),
        step_to_reply(Step::Read(place)) == StepView::<ReplyView>::Read(place@),
        step_to_reply(Step::Reply(reply)) == StepView::Reply(reply@),
        step_to_site_reply(Step::Ask(question)) == StepView::<SiteReplyView>::Ask(
            question.deep_view(),
        ),
        step_to_site_reply(Step::Read(place)) == StepView::<SiteReplyView>::Read(place@),
        step_to_site_reply(Step::Reply(site_reply)) == StepView::Reply(site_reply@),
        step_to_response(Step::<R>::Ask(question)) == StepView::<R>::Ask(question.deep_view()),
        step_to_response(Step::<R>::Read(place)) == StepView::<R>::Read(place@),
        step_to_response(Step::Reply(response)) == StepView::Reply(response),
{
}

/// What is sent to a client of the static file server: the status and the body of the reply, with
/// a content type if the reply has one, and every other step as it is.
pub proof fn law_replies_are_sent_as_they_are(
    status: u16,
    content_type: Seq<char>,
    body: Seq<u8>,
    question: QuestionView,
    place: PlaceView,
)
    ensures
        file_step_sent(
            StepView::Reply(ReplyView { status, content_type: Some(content_type), body }),
        ) == StepView::Reply(headed_response(status, "Content-Type"@, content_type, body)),
        file_step_sent(StepView::Reply(ReplyView { status, content_type: None, body }))
            == StepView::Reply(plain_response(status, body)),
        file_step_sent(StepView::Ask(question)) == StepView::<FileResponse>::Ask(question),
        file_step_sent(StepView::Read(place)) == StepView::<FileResponse>::Read(place),
{
}

/// What is sent to a client of the server of a tool: a text with its status, or a body with its
/// content type as a success, and every other step as it is.
pub proof fn law_site_replies_are_sent_as_they_are(
    status: u16,
    text: Seq<char>,
    body: Seq<u8>,
    question: QuestionView,
    place: PlaceView,
)
    ensures
        site_step_sent(StepView::Reply(SiteReplyView::Text { status, text })) == StepView::Reply(
            text_response(status, text),
        ),
        site_step_sent(StepView::Reply(SiteReplyView::Content { content_type: text, body }))
            == StepView::Reply(built_response(200, "content-type"@, text, body)),
        site_step_sent(StepView::Ask(question)) == StepView::<axum::response::Response>::Ask(
            question,
        ),
        site_step_sent(StepView::Read(place)) == StepView::<axum::response::Response>::Read(place),
{
}

/// How the static file server goes on. No file gives 404 with the text "Not Found", and so does a
/// file that cannot be read. A file is read first, and then sent with 200, its content type and
/// its contents, unchanged.
pub proof fn law_static_server_replies(
    f: FactsView,
    file: PlaceView,
    contents: Seq<u8>,
    read: Option<Option<Seq<u8>>>,
    question: QuestionView,
)
    ensures
        ({
            let not_found = StepView::Reply(
                ReplyView {
                    status: 404,
                    content_type: None,
                    body: vstd::utf8::encode_utf8("Not Found"@),
                },
            );
            &&& file_step(f, Verdict::Ask(question), read) == StepView::<ReplyView>::Ask(question)
            &&& file_step(f, Verdict::Known(None), read) == not_found
            &&& request::mime_type_at(f, file) matches Verdict::Ask(open) ==> file_step(
                f,
                Verdict::Known(Some(file)),
                read,
            ) == StepView::<ReplyView>::Ask(open)
            &&& request::mime_type_at(f, file) matches Verdict::Known(content_type) ==> {
                &&& file_step(f, Verdict::Known(Some(file)), None) == StepView::<ReplyView>::Read(
                    file,
                )
                &&& file_step(f, Verdict::Known(Some(file)), Some(None)) == not_found
                &&& file_step(f, Verdict::Known(Some(file)), Some(Some(contents)))
                    == StepView::Reply(
                    ReplyView { status: 200, content_type: Some(content_type), body: contents },
                )
            }
        }),
{
}

/// How the server of a tool goes on. A refused request gives 400 with the text "Invalid path", and
/// a file that cannot be read 404 with "Not Found". A placeholder is sent as HTML. A file is read
/// first, and then sent with its content type and its contents, unchanged.
pub proof fn law_tool_server_replies(
    f: FactsView,
    file: PlaceView,
    page: Seq<char>,
    contents: Seq<u8>,
    read: Option<Option<Seq<u8>>>,
    question: QuestionView,
)
    ensures
        ({
            let not_found = StepView::Reply(
                SiteReplyView::Text { status: 404, text: "Not Found"@ },
            );
            let served = Verdict::Known(ServedView::File(file));
            &&& site_step(f, Verdict::Ask(question), read) == StepView::<SiteReplyView>::Ask(
                question,
            )
            &&& site_step(f, Verdict::Known(ServedView::BadRequest), read) == StepView::Reply(
                SiteReplyView::Text { status: 400, text: "Invalid path"@ },
            )
            &&& site_step(f, Verdict::Known(ServedView::Placeholder(page)), read)
                == StepView::Reply(
                SiteReplyView::Content {
                    content_type: "text/html; charset=utf-8"@,
                    body: vstd::utf8::encode_utf8(page),
                },
            )
            &&& request::mime_type_at(f, file) matches Verdict::Ask(open) ==> site_step(
                f,
                served,
                read,
            ) == StepView::<SiteReplyView>::Ask(open)
            &&& request::mime_type_at(f, file) matches Verdict::Known(content_type) ==> {
                &&& site_step(f, served, None) == StepView::<SiteReplyView>::Read(file)
                &&& site_step(f, served, Some(None)) == not_found
                &&& site_step(f, served, Some(Some(contents))) == StepView::Reply(
                    SiteReplyView::Content { content_type, body: contents },
                )
            }
        }),
        site_response_for(site_not_found_reply()) == text_response(404, "Not Found"@),
{
}

/// The replies in full: a file with 200, its content type and its contents, and the texts of what
/// is refused or not there, with their statuses.
pub proof fn law_replies_in_full(content_type: Seq<char>, contents: Seq<u8>)
    ensures
        file_reply(content_type, contents).status == 200,
        file_reply(content_type, contents).content_type == Some(content_type),
        file_reply(content_type, contents).body == contents,
        not_found_reply().status == 404,
        not_found_reply().content_type is None,
        not_found_reply().body == vstd::utf8::encode_utf8("Not Found"@),
        bad_request_reply() == (SiteReplyView::Text { status: 400, text: "Invalid path"@ }),
        site_not_found_reply() == (SiteReplyView::Text { status: 404, text: "Not Found"@ }),
{
}

} // verus!
