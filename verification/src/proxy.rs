//! The per-request pipeline: path, authentication, link, outbound
//! request, response headers.
//!
//! The pipeline performs none of the outside work itself. Each function
//! here takes what the last piece of outside work gave and says what is
//! to be done next: a `Step`. The caller performs the step and comes back
//! with its outcome.

use crate::auth::{
    check, conclude, error_body, error_reply, error_status, passes, verdict, AuthDecision,
    ErrorReply, Reply, SessionReply, Verdict,
};
use crate::config::warp_config::WarpConfig;
use crate::foreign::{guess_media_type, guessed_media_type};
use crate::headers::{first_value, law_set_field, with_field, HeaderSeq, Headers};
use crate::minio::minio_parser::LinkError;
use crate::string_map::StringMap;
use crate::text::{
    chars_of, join, find_from, has_prefix, same_ignoring_ascii_case, skip_run, slice, split_once,
    str_eq, strip_leading,
};
use vstd::prelude::*;
use vstd::string::*;

verus! {

/// What a request asks for, as far as the later steps need it.
#[derive(Debug)]
pub struct Task {
    /// The tenant.
    pub config_key: String,
    /// The object within the tenant's bucket.
    pub object_key: String,
    /// The file name to offer the download under, if one was asked for.
    pub filename: Option<String>,
    /// The value of the request's `Range` header, if it has one.
    pub range: Option<String>,
}

/// What is to be done next for a request.
#[derive(Debug)]
pub enum Step {
    /// Answer with this status and body. The request is done.
    Reply(Reply),
    /// Ask the session store whether it holds `key`, for the tenant of
    /// the task.
    LookupSession { task: Task, key: String },
    /// Resolve the download link of the task.
    ResolveLink(Task),
    /// Get `url`, with the task's range if it has one.
    Fetch { task: Task, url: String },
    /// Answer with this status and these headers and stream the upstream
    /// body after them. The request is done.
    Stream { status: u16, headers: Headers },
}

/// The model of a `Task`.
pub struct TaskView {
    pub config_key: Seq<char>,
    pub object_key: Seq<char>,
    pub filename: Option<Seq<char>>,
    pub range: Option<Seq<char>>,
}

/// The model of a `Step`.
pub enum StepView {
    Reply { status: int, body: Seq<char> },
    LookupSession { task: TaskView, key: Seq<char> },
    ResolveLink { task: TaskView },
    Fetch { task: TaskView, url: Seq<char> },
    Stream { status: int, headers: HeaderSeq },
}

/// The text of an optional string.
pub open spec fn text_of(o: Option<String>) -> Option<Seq<char>> {
    match o {
        Some(s) => Some(s@),
        None => None,
    }
}

impl View for Task {
    type V = TaskView;

    open spec fn view(&self) -> TaskView {
        TaskView {
            config_key: self.config_key@,
            object_key: self.object_key@,
            filename: text_of(self.filename),
            range: text_of(self.range),
        }
    }
}

impl View for Step {
    type V = StepView;

    open spec fn view(&self) -> StepView {
        match self {
            Step::Reply(reply) => StepView::Reply { status: reply.status as int, body: reply.body@ },
            Step::LookupSession { task, key } => StepView::LookupSession { task: task@, key: key@ },
            Step::ResolveLink(task) => StepView::ResolveLink { task: task@ },
            Step::Fetch { task, url } => StepView::Fetch { task: task@, url: url@ },
            Step::Stream { status, headers } => StepView::Stream {
                status: *status as int,
                headers: headers@,
            },
        }
    }
}

/// The reply to a path outside the gateway's prefix.
pub open spec fn bad_prefix_reply() -> StepView {
    StepView::Reply { status: 400, body: "URI does not start with the expected prefix"@ }
}

/// The reply that turns a request away.
pub open spec fn error_step(error_type: ErrorReply) -> StepView {
    StepView::Reply { status: error_status(error_type) as int, body: error_body(error_type) }
}

/// The tenant and the object that a path names: what follows the prefix,
/// without leading slashes, cut at its first slash. `None` for a path
/// that does not begin with the prefix.
pub open spec fn target_of(path: Seq<char>, prefix: Seq<char>) -> Option<(Seq<char>, Seq<char>)> {
    if prefix.is_prefix_of(path) {
        Some(split_once(strip_leading(path.skip(prefix.len() as int), '/'), '/'))
    } else {
        None
    }
}

/// The first step for a request.
pub open spec fn first_step(
    config: WarpConfig,
    path: Seq<char>,
    filename: Option<Seq<char>>,
    headers: HeaderSeq,
) -> StepView {
    match target_of(path, config.spec_url_prefix()) {
        None => bad_prefix_reply(),
        Some(target) => {
            let task = TaskView {
                config_key: target.0,
                object_key: target.1,
                filename,
                range: first_value(headers, "Range"@),
            };
            match verdict(config.auth_type, headers) {
                Verdict::Authorized => StepView::ResolveLink { task },
                Verdict::Unauthorized => error_step(ErrorReply::Unauthorized),
                Verdict::Lookup(key) => StepView::LookupSession { task, key },
            }
        },
    }
}

/// The tenant and the object that a path names.
pub fn parse_path(path: &str, prefix: &str) -> (r: Option<(String, String)>)
    ensures
        match r {
            Some((config_key, object_key)) => target_of(path@, prefix@) == Some(
                (config_key@, object_key@),
            ),
            None => target_of(path@, prefix@) is None,
        },
{
    let chars = chars_of(path);
    let lead = chars_of(prefix);
    if !has_prefix(&chars, &lead) {
        return None;
    }
    let n = chars.len();
    let start = skip_run(&chars, lead.len(), '/');
    let ghost rest = path@.skip(start as int);
    match find_from(&chars, start, '/') {
        Some(slash) => {
            let config_key = slice(path, start, slash);
            let object_key = slice(path, slash + 1, n);
            proof {
                assert(rest.take(slash - start) =~= config_key@);
                assert(rest.skip(slash - start + 1) =~= object_key@);
            }
            Some((config_key, object_key))
        },
        None => {
            let config_key = slice(path, start, n);
            proof {
                assert(rest =~= config_key@);
            }
            Some((config_key, String::new()))
        },
    }
}

/// A copy of an optional string.
pub fn copy_of(o: Option<&String>) -> (r: Option<String>)
    ensures
        match o {
            Some(s) => r == Some(*s),
            None => r is None,
        },
{
    match o {
        Some(s) => Some(s.clone()),
        None => None,
    }
}

/// The reply to a path outside the gateway's prefix.
pub fn bad_request() -> (r: Reply)
    ensures
        Step::Reply(r)@ == bad_prefix_reply(),
{
    Reply { status: 400, body: "URI does not start with the expected prefix".to_owned() }
}

/// The first step for a request: a path outside the prefix is answered
/// with `400` and nothing else is done; else the policy decides whether the
/// request is turned away, goes on to the link, or waits for the session
/// store.
pub fn process(
    config: &WarpConfig,
    path: &str,
    params: &StringMap<String>,
    headers: &Headers,
) -> (r: Step)
    ensures
        r@ == first_step(*config, path@, text_of(params.lookup("filename"@)), headers@),
{
    let (config_key, object_key) = match parse_path(path, config.url_prefix()) {
        Some(target) => target,
        None => {
            return Step::Reply(bad_request());
        },
    };
    let task = Task {
        config_key,
        object_key,
        filename: copy_of(params.get("filename")),
        range: copy_of(headers.get("Range")),
    };
    match check(&config.auth_type, headers) {
        AuthDecision::Authorized => Step::ResolveLink(task),
        AuthDecision::Unauthorized => Step::Reply(error_reply(ErrorReply::Unauthorized)),
        AuthDecision::Lookup(key) => Step::LookupSession { task, key },
    }
}

/// The step after the session store has answered: on to the link if the
/// key is present, and else the request is turned away.
pub fn session_answered(task: Task, reply: SessionReply) -> (r: Step)
    ensures
        r@ == if reply == SessionReply::Present {
            StepView::ResolveLink { task: task@ }
        } else {
            error_step(ErrorReply::Unauthorized)
        },
{
    match reply {
        SessionReply::Present => Step::ResolveLink(task),
        SessionReply::Absent => Step::Reply(error_reply(ErrorReply::Unauthorized)),
        SessionReply::Failed => Step::Reply(error_reply(ErrorReply::Unauthorized)),
    }
}

/// The step after the link was resolved: get it, or answer that no link
/// could be had.
pub fn link_resolved(task: Task, link: Result<String, LinkError>) -> (r: Step)
    ensures
        r@ == match link {
            Ok(url) => StepView::Fetch { task: task@, url: url@ },
            Err(_) => error_step(ErrorReply::MinioInvalid),
        },
{
    match link {
        Ok(url) => Step::Fetch { task, url },
        Err(_) => Step::Reply(error_reply(ErrorReply::MinioInvalid)),
    }
}

/// Whether an upstream content type gives way to the one inferred from
/// the object key: it is missing, or it is the generic octet stream.
pub open spec fn gives_way(upstream: Option<Seq<char>>) -> bool {
    match upstream {
        Some(content_type) => content_type == "application/octet-stream"@,
        None => true,
    }
}

/// The content type to answer with, given the upstream one and the one
/// inferred from the object key.
pub open spec fn content_type_of(upstream: Option<Seq<char>>, inferred: Seq<char>) -> Seq<char> {
    if gives_way(upstream) {
        inferred
    } else {
        upstream.unwrap()
    }
}

/// The value of the `Content-Disposition` header that offers a download
/// under `filename`.
pub open spec fn disposition_of(filename: Seq<char>) -> Seq<char> {
    "attachment; filename=\""@ + filename + "\""@
}

/// The headers with the content type rewritten: where rewriting is on and
/// the upstream content type gives way, the inferred one stands in its
/// place; else the headers are as they came.
pub open spec fn with_content_type(
    headers: HeaderSeq,
    rewriting: bool,
    object_key: Seq<char>,
) -> HeaderSeq {
    if rewriting && gives_way(first_value(headers, "Content-Type"@)) {
        with_field(headers, "Content-Type"@, guessed_media_type(object_key))
    } else {
        headers
    }
}

/// The headers with the download's file name: where one was asked for,
/// the disposition that offers it stands in place of any upstream one.
pub open spec fn with_disposition(headers: HeaderSeq, filename: Option<Seq<char>>) -> HeaderSeq {
    match filename {
        Some(name) => with_field(headers, "Content-Disposition"@, disposition_of(name)),
        None => headers,
    }
}

/// The headers of the answer: those of the upstream response, with the
/// content type and the disposition rewritten.
pub open spec fn response_headers(
    upstream: HeaderSeq,
    rewriting: bool,
    object_key: Seq<char>,
    filename: Option<Seq<char>>,
) -> HeaderSeq {
    with_disposition(with_content_type(upstream, rewriting, object_key), filename)
}

/// Whether an upstream content type gives way to the inferred one.
pub fn content_type_gives_way(upstream: Option<&String>) -> (r: bool)
    ensures
        r == gives_way(
            match upstream {
                Some(s) => Some(s@),
                None => None,
            },
        ),
{
    match upstream {
        Some(content_type) => str_eq(content_type.as_str(), "application/octet-stream"),
        None => true,
    }
}

/// The content type to answer with, given the upstream one and the one
/// inferred from the object key.
pub fn content_type_from(upstream: Option<&String>, inferred: String) -> (r: String)
    ensures
        r@ == content_type_of(
            match upstream {
                Some(s) => Some(s@),
                None => None,
            },
            inferred@,
        ),
{
    match upstream {
        Some(content_type) => if content_type_gives_way(upstream) {
            inferred
        } else {
            content_type.clone()
        },
        None => inferred,
    }
}

/// The content type to answer with for the object `key`: the upstream
/// one, unless it is missing or the generic octet stream; then the one
/// inferred from the extension of `key`.
pub fn re_parse_content_type(headers: &Headers, key: &str) -> (r: String)
    ensures
        r@ == content_type_of(first_value(headers@, "Content-Type"@), guessed_media_type(key@)),
{
    content_type_from(headers.get("Content-Type"), guess_media_type(key))
}

/// The value of the `Content-Disposition` header that offers a download
/// under `filename`.
pub fn content_disposition(filename: &str) -> (r: String)
    ensures
        r@ == disposition_of(filename@),
{
    let mut r = join("attachment; filename=\"", filename);
    r.append("\"");
    r
}

/// Rewrites the headers of the upstream response into those of the
/// answer.
pub fn rewrite_headers(headers: &mut Headers, rewriting: bool, task: &Task)
    ensures
        final(headers)@ == response_headers(
            old(headers)@,
            rewriting,
            task.object_key@,
            text_of(task.filename),
        ),
{
    if rewriting && content_type_gives_way(headers.get("Content-Type")) {
        headers.set("Content-Type".to_owned(), guess_media_type(task.object_key.as_str()));
    }
    match &task.filename {
        Some(name) => {
            headers.set("Content-Disposition".to_owned(), content_disposition(name.as_str()));
        },
        None => {},
    }
}

/// The last step: with the upstream response at hand, its status and its
/// rewritten headers go out and its body is streamed after them; without
/// one, the request is answered with a gateway error.
pub fn upstream_answered(config: &WarpConfig, task: &Task, upstream: Option<(u16, Headers)>) -> (r:
    Step)
    ensures
        r@ == match upstream {
            Some((status, headers)) => StepView::Stream {
                status: status as int,
                headers: response_headers(
                    headers@,
                    config.parsing_content_type,
                    task.object_key@,
                    text_of(task.filename),
                ),
            },
            None => error_step(ErrorReply::BadGateway),
        },
{
    match upstream {
        Some((status, headers)) => {
            let mut headers = headers;
            rewrite_headers(&mut headers, config.parsing_content_type, task);
            Step::Stream { status, headers }
        },
        None => Step::Reply(error_reply(ErrorReply::BadGateway)),
    }
}

/// A path that does not begin with the prefix is answered with `400`
/// whatever else the request holds: no session lookup, no link, no
/// outbound request.
pub proof fn law_prefix(
    config: WarpConfig,
    path: Seq<char>,
    filename: Option<Seq<char>>,
    headers: HeaderSeq,
)
    requires
        !config.spec_url_prefix().is_prefix_of(path),
    ensures
        first_step(config, path, filename, headers) == bad_prefix_reply(),
{
}

/// A request within the prefix that carries a `Range` header goes on
/// with exactly that range, and without one goes on without.
pub proof fn law_range(
    config: WarpConfig,
    path: Seq<char>,
    filename: Option<Seq<char>>,
    headers: HeaderSeq,
)
    ensures
        match first_step(config, path, filename, headers) {
            StepView::ResolveLink { task } => task.range == first_value(headers, "Range"@)
                && task.filename == filename,
            StepView::LookupSession { task, key } => task.range == first_value(headers, "Range"@)
                && task.filename == filename,
            _ => true,
        },
{
}

/// With rewriting on, an upstream content type that is missing or the
/// generic octet stream is answered as the type inferred from the object
/// key; any other is answered as it came. With rewriting off the content
/// type is answered as it came.
pub proof fn law_content_type(
    upstream: HeaderSeq,
    rewriting: bool,
    object_key: Seq<char>,
    filename: Option<Seq<char>>,
)
    ensures
        first_value(
            response_headers(upstream, rewriting, object_key, filename),
            "Content-Type"@,
        ) == if rewriting && gives_way(first_value(upstream, "Content-Type"@)) {
            Some(guessed_media_type(object_key))
        } else {
            first_value(upstream, "Content-Type"@)
        },
        !rewriting && filename is None ==> response_headers(
            upstream,
            rewriting,
            object_key,
            filename,
        ) == upstream,
{
    let typed = with_content_type(upstream, rewriting, object_key);
    law_set_field(upstream, "Content-Type"@, guessed_media_type(object_key), "Content-Type"@);
    lemma_distinct_names();
    match filename {
        Some(name) => {
            law_set_field(typed, "Content-Disposition"@, disposition_of(name), "Content-Type"@);
        },
        None => {},
    }
}

/// With a file name asked for, the answer offers the download under it,
/// whatever disposition came from upstream; without one, the disposition
/// is answered as it came, and is absent if none came.
pub proof fn law_disposition(
    upstream: HeaderSeq,
    rewriting: bool,
    object_key: Seq<char>,
    filename: Option<Seq<char>>,
)
    ensures
        first_value(
            response_headers(upstream, rewriting, object_key, filename),
            "Content-Disposition"@,
        ) == match filename {
            Some(name) => Some(disposition_of(name)),
            None => first_value(upstream, "Content-Disposition"@),
        },
{
    let typed = with_content_type(upstream, rewriting, object_key);
    lemma_distinct_names();
    law_set_field(
        upstream,
        "Content-Type"@,
        guessed_media_type(object_key),
        "Content-Disposition"@,
    );
    match filename {
        Some(name) => {
            law_set_field(
                typed,
                "Content-Disposition"@,
                disposition_of(name),
                "Content-Disposition"@,
            );
        },
        None => {},
    }
}

/// `Content-Type` and `Content-Disposition` are different names.
proof fn lemma_distinct_names()
    ensures
        !same_ignoring_ascii_case("Content-Type"@, "Content-Disposition"@),
        !same_ignoring_ascii_case("Content-Disposition"@, "Content-Type"@),
{
    reveal_strlit("Content-Type");
    reveal_strlit("Content-Disposition");
}

} // verus!
