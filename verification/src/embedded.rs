//! Answering requests from the assets bundled with the program.
use crate::mime;
use crate::respond;
use crate::respond::EmptyResponse;
use crate::respond::FileResponse;
use crate::respond::Reply;
use crate::respond::ReplyView;
use crate::text;
use vstd::prelude::*;

verus! {

/// The path of the asset that a URL names: its path below the directory of web assets, without
/// its query.
pub open spec fn asset_path(url: Seq<char>) -> Seq<char> {
    "web/"@ + text::without_leading_slashes(text::before_first(url, '?', '?'))
}

/// The path of the page of the directory that an asset path names.
pub open spec fn index_path(asset: Seq<char>) -> Seq<char> {
    text::without_trailing_slashes(asset) + "/index.html"@
}

/// What is to be done next for a request to the embedded server.
#[derive(Debug)]
pub enum EmbeddedStep<R, M> {
    /// Load the asset with this path.
    LoadAsset(String),
    /// There is no such asset: load this page of a directory.
    LoadIndex(String),
    /// Send this.
    Reply(R),
    /// Send this: there is no such page either.
    Missing(M),
}

/// What is to be done next, over views.
pub enum EmbeddedStepView<R, M> {
    LoadAsset(Seq<char>),
    LoadIndex(Seq<char>),
    Reply(R),
    Missing(M),
}

/// A step towards a reply, over views. What is missing has a status.
pub open spec fn step_to_reply(step: EmbeddedStep<Reply, u16>) -> EmbeddedStepView<
    ReplyView,
    u16,
> {
    match step {
        EmbeddedStep::LoadAsset(path) => EmbeddedStepView::LoadAsset(path@),
        EmbeddedStep::LoadIndex(path) => EmbeddedStepView::LoadIndex(path@),
        EmbeddedStep::Reply(reply) => EmbeddedStepView::Reply(reply@),
        EmbeddedStep::Missing(status) => EmbeddedStepView::Missing(status),
    }
}

/// A step towards a response, over views.
pub open spec fn step_to_response(
    step: EmbeddedStep<FileResponse, EmptyResponse>,
) -> EmbeddedStepView<FileResponse, EmptyResponse> {
    match step {
        EmbeddedStep::LoadAsset(path) => EmbeddedStepView::LoadAsset(path@),
        EmbeddedStep::LoadIndex(path) => EmbeddedStepView::LoadIndex(path@),
        EmbeddedStep::Reply(response) => EmbeddedStepView::Reply(response),
        EmbeddedStep::Missing(response) => EmbeddedStepView::Missing(response),
    }
}

/// What is to be done next for a request, after the asset and then the page of its directory
/// were loaded. What was not tried yet is `None`; what is not there is `Some(None)`.
pub open spec fn embedded_step(
    url: Seq<char>,
    asset: Option<Option<Seq<u8>>>,
    index: Option<Option<Seq<u8>>>,
) -> EmbeddedStepView<ReplyView, u16> {
    let path = asset_path(url);
    match asset {
        None => EmbeddedStepView::LoadAsset(path),
        Some(Some(contents)) => EmbeddedStepView::Reply(
            respond::file_reply(mime::mime_type(path), contents),
        ),
        Some(None) => match index {
            None => EmbeddedStepView::LoadIndex(index_path(path)),
            Some(Some(contents)) => EmbeddedStepView::Reply(
                respond::file_reply(mime::mime_type(index_path(path)), contents),
            ),
            Some(None) => EmbeddedStepView::Missing(404),
        },
    }
}

/// The same step, with the responses in place of the reply and the status.
pub open spec fn embedded_step_sent(
    step: EmbeddedStepView<ReplyView, u16>,
) -> EmbeddedStepView<FileResponse, EmptyResponse> {
    match step {
        EmbeddedStepView::LoadAsset(path) => EmbeddedStepView::LoadAsset(path),
        EmbeddedStepView::LoadIndex(path) => EmbeddedStepView::LoadIndex(path),
        EmbeddedStepView::Reply(reply) => EmbeddedStepView::Reply(respond::response_for(reply)),
        EmbeddedStepView::Missing(status) => EmbeddedStepView::Missing(
            respond::empty_response(status),
        ),
    }
}

/// The path of the asset that a URL names.
pub fn embedded_asset_path(url: &str) -> (path: String)
    ensures
        path@ == asset_path(url@),
{
    let named = text::cut_before(url, '?', '?');
    let trimmed = text::trim_leading_slashes(named.as_str());
    let mut path = "web/".to_owned();
    path.append(trimmed.as_str());
    path
}

/// The path of the page of the directory that an asset path names.
pub fn embedded_index_path(asset: &str) -> (path: String)
    ensures
        path@ == index_path(asset@),
{
    let mut path = text::trim_trailing_slashes(asset);
    path.append("/index.html");
    path
}

/// Decides what is to be done next for a request to the embedded server.
pub fn decide_embedded_request(
    url: &str,
    asset: Option<Option<Vec<u8>>>,
    index: Option<Option<Vec<u8>>>,
) -> (step: EmbeddedStep<Reply, u16>)
    ensures
        step_to_reply(step) == embedded_step(url@, asset.deep_view(), index.deep_view()),
{
    let path = embedded_asset_path(url);
    match asset {
        None => EmbeddedStep::LoadAsset(path),
        Some(Some(contents)) => {
            assert(contents.deep_view() =~= contents@);
            let content_type = mime::get_mime_type(path.as_str());
            EmbeddedStep::Reply(respond::reply_with_file(content_type, contents))
        },
        Some(None) => {
            let index_path = embedded_index_path(path.as_str());
            match index {
                None => EmbeddedStep::LoadIndex(index_path),
                Some(Some(contents)) => {
                    assert(contents.deep_view() =~= contents@);
                    let content_type = mime::get_mime_type(index_path.as_str());
                    EmbeddedStep::Reply(respond::reply_with_file(content_type, contents))
                },
                Some(None) => EmbeddedStep::Missing(404),
            }
        },
    }
}

/// Answers a request to the embedded server.
pub fn answer_embedded_request(
    url: &str,
    asset: Option<Option<Vec<u8>>>,
    index: Option<Option<Vec<u8>>>,
) -> (step: EmbeddedStep<FileResponse, EmptyResponse>)
    ensures
        step_to_response(step) == embedded_step_sent(
            embedded_step(url@, asset.deep_view(), index.deep_view()),
        ),
{
    proof {
        law_embedded_replies_are_valid(url@, asset.deep_view(), index.deep_view());
    }
    match decide_embedded_request(url, asset, index) {
        EmbeddedStep::LoadAsset(path) => EmbeddedStep::LoadAsset(path),
        EmbeddedStep::LoadIndex(path) => EmbeddedStep::LoadIndex(path),
        EmbeddedStep::Reply(reply) => EmbeddedStep::Reply(respond::make_response(reply)),
        EmbeddedStep::Missing(status) => EmbeddedStep::Missing(respond::response_empty(status)),
    }
}

/// The reply to a request for an asset can always be sent: its header is a valid one.
pub proof fn law_embedded_replies_are_valid(
    url: Seq<char>,
    asset: Option<Option<Seq<u8>>>,
    index: Option<Option<Seq<u8>>>,
)
    ensures
        embedded_step(url, asset, index) matches EmbeddedStepView::Reply(reply) ==> reply.is_valid(),
{
    mime::law_mime_types_are_visible_ascii(asset_path(url));
    mime::law_mime_types_are_visible_ascii(index_path(asset_path(url)));
}

/// The page of a directory is served as HTML.
pub proof fn law_embedded_pages_are_html(asset: Seq<char>)
    ensures
        mime::mime_type(index_path(asset)) == "text/html; charset=utf-8"@,
{
    reveal_strlit("/index.html");
    reveal_strlit(".html");
    let path = index_path(asset);
    assert(path.subrange(path.len() - 5, path.len() as int) =~= ".html"@);
}

/// A slash behind an asset path makes no difference to the page of its directory.
pub proof fn law_trailing_slash_is_ignored(asset: Seq<char>)
    ensures
        index_path(asset.push('/')) == index_path(asset),
{
    assert(asset.push('/').drop_last() =~= asset);
}

/// Every asset asked for lies in the directory of web assets.
pub proof fn law_assets_lie_in_web(url: Seq<char>)
    ensures
        "web/"@.is_prefix_of(asset_path(url)),
        "web"@.is_prefix_of(index_path(asset_path(url))),
{
    reveal_strlit("web/");
    reveal_strlit("web");
    let path = asset_path(url);
    assert("web/"@ =~= path.subrange(0, 4));
    lemma_trimming_keeps_front(path, 3);
    let kept = text::without_trailing_slashes(path);
    assert(index_path(path).subrange(0, 3) =~= kept.subrange(0, 3));
    assert("web"@ =~= kept.subrange(0, 3));
}

/// Taking slashes off the end keeps what stands before the last other character.
proof fn lemma_trimming_keeps_front(s: Seq<char>, n: int)
    requires
        0 < n <= s.len(),
        s[n - 1] != '/',
    ensures
        text::without_trailing_slashes(s).len() >= n,
        text::without_trailing_slashes(s).subrange(0, n) == s.subrange(0, n),
    decreases s.len(),
{
    if s.last() == '/' {
        lemma_trimming_keeps_front(s.drop_last(), n);
        assert(s.drop_last().subrange(0, n) =~= s.subrange(0, n));
    }
}

/// The path of an asset is `web/` and the path of the URL, without the slashes in front and
/// without the query.
pub proof fn law_asset_path_follows_the_url(n: nat, path: Seq<char>, query: Seq<char>)
    requires
        path.len() == 0 || path[0] != '/',
        !path.contains('?'),
    ensures
        asset_path(Seq::new(n, |i: int| '/') + path) == "web/"@ + path,
        asset_path(Seq::new(n, |i: int| '/') + path + seq!['?'] + query) == "web/"@ + path,
{
    let front = Seq::new(n, |i: int| '/') + path;
    let url = front + seq!['?'] + query;
    assert(!front.contains('?')) by {
        if front.contains('?') {
            let k = choose|k: int| 0 <= k < front.len() && front[k] == '?';
            assert(path[k - n] == '?');
        }
    }
    text::law_leading_slashes_are_taken_off(n, path);
    text::law_cut_ends_at_first_mark(front, '?', '?');
    text::law_cut_ends_at_first_mark(url, '?', '?');
    let whole = text::before_first(front, '?', '?');
    if whole.len() < front.len() {
        assert(front.contains(front[whole.len() as int]));
    }
    assert(whole =~= front);
    let cut = text::before_first(url, '?', '?');
    if cut.len() < front.len() {
        assert(front[cut.len() as int] == url[cut.len() as int]);
        assert(front.contains(front[cut.len() as int]));
    }
    if cut.len() > front.len() {
        assert(url[front.len() as int] == '?');
    }
    assert(cut =~= front);
}

/// The page of a directory is its path without the slashes behind, and `/index.html`.
pub proof fn law_index_path_follows_the_asset(asset: Seq<char>, n: nat)
    requires
        asset.len() == 0 || asset.last() != '/',
    ensures
        index_path(asset + Seq::new(n, |i: int| '/')) == asset + "/index.html"@,
{
    text::law_trailing_slashes_are_taken_off(asset, n);
}

/// How a request for an asset is answered. The asset is loaded first, and then, if it is not there,
/// the page of its directory. What was loaded is sent with 200, unchanged, with the content type
/// of the path that it was loaded from. If there is neither, the status is 404.
pub proof fn law_assets_and_then_pages_are_tried(
    url: Seq<char>,
    contents: Seq<u8>,
    index: Option<Option<Seq<u8>>>,
)
    ensures
        embedded_step(url, None, index) == EmbeddedStepView::<ReplyView, u16>::LoadAsset(
            asset_path(url),
        ),
        embedded_step(url, Some(Some(contents)), index) == EmbeddedStepView::<
            ReplyView,
            u16,
        >::Reply(
            ReplyView {
                status: 200,
                content_type: Some(mime::mime_type(asset_path(url))),
                body: contents,
            },
        ),
        embedded_step(url, Some(None), None) == EmbeddedStepView::<ReplyView, u16>::LoadIndex(
            index_path(asset_path(url)),
        ),
        embedded_step(url, Some(None), Some(Some(contents))) == EmbeddedStepView::<
            ReplyView,
            u16,
        >::Reply(
            ReplyView {
                status: 200,
                content_type: Some(mime::mime_type(index_path(asset_path(url)))),
                body: contents,
            },
        ),
        embedded_step(url, Some(None), Some(None)) == EmbeddedStepView::<ReplyView, u16>::Missing(
            404,
        ),
{
}

/// What is sent to a client of the embedded server is the reply, or nothing with the status of what
/// is missing. Every other step is as it is.
pub proof fn law_embedded_replies_are_sent_as_they_are(
    path: Seq<char>,
    content_type: Seq<char>,
    body: Seq<u8>,
    status: u16,
)
    ensures
        embedded_step_sent(EmbeddedStepView::LoadAsset(path)) == EmbeddedStepView::<
            FileResponse,
            EmptyResponse,
        >::LoadAsset(path),
        embedded_step_sent(EmbeddedStepView::LoadIndex(path)) == EmbeddedStepView::<
            FileResponse,
            EmptyResponse,
        >::LoadIndex(path),
        embedded_step_sent(
            EmbeddedStepView::Reply(
                ReplyView { status, content_type: Some(content_type), body },
            ),
        ) == EmbeddedStepView::<FileResponse, EmptyResponse>::Reply(
            respond::headed_response(status, "Content-Type"@, content_type, body),
        ),
        embedded_step_sent(EmbeddedStepView::Missing(status)) == EmbeddedStepView::<
            FileResponse,
            EmptyResponse,
        >::Missing(respond::empty_response(status)),
{
}

/// Views of steps hold all of them.
pub proof fn law_views_hold_whole_steps(
    path: String,
    reply: Reply,
    status: u16,
    response: FileResponse,
    empty: EmptyResponse,
)
    ensures
        step_to_reply(EmbeddedStep::LoadAsset(path)) == EmbeddedStepView::<
            ReplyView,
            u16,
        >::LoadAsset(path@),
        step_to_reply(EmbeddedStep::LoadIndex(path)) == EmbeddedStepView::<
            ReplyView,
            u16,
        >::LoadIndex(path@),
        step_to_reply(EmbeddedStep::Reply(reply)) == EmbeddedStepView::<ReplyView, u16>::Reply(
            reply@,
        ),
        step_to_reply(EmbeddedStep::Missing(status)) == EmbeddedStepView::<
            ReplyView,
            u16,
        >::Missing(status),
        step_to_response(EmbeddedStep::LoadAsset(path)) == EmbeddedStepView::<
            FileResponse,
            EmptyResponse,
        >::LoadAsset(path@),
        step_to_response(EmbeddedStep::LoadIndex(path)) == EmbeddedStepView::<
            FileResponse,
            EmptyResponse,
        >::LoadIndex(path@),
        step_to_response(EmbeddedStep::Reply(response)) == EmbeddedStepView::<
            FileResponse,
            EmptyResponse,
        >::Reply(response),
        step_to_response(EmbeddedStep::Missing(empty)) == EmbeddedStepView::<
            FileResponse,
            EmptyResponse,
        >::Missing(empty),
{
}

} // verus!
