//! The navigation engine, as a state machine: one navigation starts with
//! [`begin_navigation`], and every network exchange the embedder performs
//! is fed back through [`continue_navigation`], which decides whether to
//! fetch again (a redirect), to finish with a tab, or to ask the user for
//! input. Redirect chains are bounded and loops are detected against the
//! set of URLs already visited.

use crate::gemtext::{parse_models, GemText, Line, SequenceGenerator};
use crate::response::{
    parse_response, parse_response_spec, decode_utf8, utf8_decoded, ContentModel, ProtocolError,
    Response, ResponseContent,
};
use crate::tab::{derive_title, error_page_spec, title_from_body, ActionRequired, Tab};
use crate::text::{str_eq, trim, trim_spec};
use crate::urls::{display_spec, join_url, url_is, url_joined, Url};
use vstd::prelude::*;

verus! {

/// Most fetches one navigation may make: a redirect chain stops here.
pub const MAX_FETCHES: u8 = 32;

/// The opaque page templates the engine substitutes into, supplied by the
/// embedder rather than compiled in.
#[derive(Debug)]
pub struct Templates {
    /// Markup shown on the built-in blank page.
    pub new_page: String,
    /// Markup of the error page, with `{{status}}` and `{{message}}`
    /// placeholders.
    pub error_page: String,
}

/// The state of one navigation between two fetches.
#[derive(Debug)]
pub struct NavState {
    /// The URL to fetch next.
    pub url: Url,
    /// Every URL of this redirect chain, the next one included.
    pub visited: Vec<Url>,
    /// Fetches still allowed, the next one included.
    pub remaining: u8,
    /// The tab to show when the chain ends without a terminal response.
    pub fallback: Tab,
}

/// What the embedder must do next.
#[derive(Debug)]
pub enum NavStep {
    /// Fetch `NavState::url` over the network and hand the outcome to
    /// [`continue_navigation`].
    Fetch(NavState),
    /// The navigation is over; show this tab.
    Done(Tab),
    /// The server wants input from the user before the request can
    /// complete; no tab is produced.
    Input(ActionRequired),
}

/// What one network exchange came to.
#[derive(Debug)]
pub enum FetchOutcome {
    /// Every byte the server sent before closing the connection.
    Response(Vec<u8>),
    /// The transport failed; its human-readable description.
    Failed(String),
}

/// The canonical serializations of a chain of URLs.
pub open spec fn visited_strs(v: Seq<Url>) -> Seq<Seq<char>> {
    v.map_values(|u: Url| u.serialized@)
}

/// The address text a finished tab shows: blank for an internal page,
/// otherwise the display form of its URL.
pub open spec fn normalized_display_of(u: Url) -> Seq<char> {
    if u.scheme@ == "about"@ {
        Seq::<char>::empty()
    } else {
        display_spec(u.serialized@)
    }
}

/// Is `t` the built-in error page for `u` with this status and message,
/// its line identifiers running up from `base`?
pub open spec fn error_tab_is(
    t: Tab,
    u: Url,
    status: int,
    message: Seq<char>,
    error_template: Seq<char>,
    base: u64,
) -> bool {
    &&& t.url == u
    &&& t.title@ == message
    &&& t.content.doc_lines() == parse_models(error_page_spec(error_template, status, message))
    &&& t.content.ids_from(base)
    &&& t.display_url@ == normalized_display_of(u)
}

/// Did the navigation finish with the error page for `u`?
pub open spec fn finished_error(
    r: NavStep,
    u: Url,
    status: int,
    message: Seq<char>,
    templates: Templates,
    base: u64,
) -> bool {
    r matches NavStep::Done(t) && error_tab_is(t, u, status, message, templates.error_page@, base)
}

/// Did the navigation finish with the fallback tab, its address text
/// normalized?
pub open spec fn finished_fallback(r: NavStep, fb: Tab) -> bool {
    r matches NavStep::Done(t) && t.url == fb.url && t.title == fb.title && t.content == fb.content
        && t.display_url@ == normalized_display_of(fb.url)
}

/// Message of the error page for a URL under the internal pseudo-scheme
/// whose host names no built-in page.
pub open spec fn unknown_page_message(host: Seq<char>) -> Seq<char> {
    "Unknown browser page '"@ + host + "'"@
}

/// Message of the error page for a URL of a scheme this client cannot fetch.
pub open spec fn unsupported_scheme_message() -> Seq<char> {
    "unsupported URL scheme"@
}

/// Message of the error page for a URL of the wire protocol's scheme that
/// names no host to connect to.
pub open spec fn no_host_message() -> Seq<char> {
    "URL has no host"@
}

/// Message of the error page for response bytes that are not UTF-8.
pub open spec fn invalid_encoding_message() -> Seq<char> {
    "invalid response encoding"@
}

/// Message of the error page for a redirect target that does not resolve.
pub open spec fn resolve_failed_message() -> Seq<char> {
    "could not resolve redirect target"@
}

/// Message of the error page for a successful response without a media type.
pub open spec fn empty_media_type_message() -> Seq<char> {
    "empty media type"@
}

/// Message of the error page for the client-certificate status class, which
/// is recognized but not implemented.
pub open spec fn cert_unimplemented_message() -> Seq<char> {
    "client certificates are not implemented"@
}

/// Message of the error page for each way a response fails to parse.
pub open spec fn protocol_error_message(e: ProtocolError) -> Seq<char> {
    match e {
        ProtocolError::InvalidEncoding => invalid_encoding_message(),
        ProtocolError::InvalidStatusLine => "invalid status line"@,
        ProtocolError::MalformedResponse => "malformed response"@,
        ProtocolError::InvalidStatusClass => "invalid status class"@,
    }
}

/// Builds the message for each way a response fails to parse.
fn protocol_error_text(e: ProtocolError) -> (r: String)
    ensures
        r@ == protocol_error_message(e),
{
    match e {
        ProtocolError::InvalidEncoding => String::from_str("invalid response encoding"),
        ProtocolError::InvalidStatusLine => String::from_str("invalid status line"),
        ProtocolError::MalformedResponse => String::from_str("malformed response"),
        ProtocolError::InvalidStatusClass => String::from_str("invalid status class"),
    }
}

/// Characters of `m` before its first semicolon.
pub open spec fn before_semi(m: Seq<char>) -> int
    decreases m.len(),
{
    if m.len() > 0 && m[0] != ';' {
        1 + before_semi(m.skip(1))
    } else {
        0
    }
}

pub proof fn lemma_before_semi_bounds(m: Seq<char>)
    ensures
        0 <= before_semi(m) <= m.len(),
        before_semi(m) < m.len() ==> m[before_semi(m)] == ';',
        forall|k: int| 0 <= k < before_semi(m) ==> m[k] != ';',
    decreases m.len(),
{
    if m.len() > 0 && m[0] != ';' {
        lemma_before_semi_bounds(m.skip(1));
        assert forall|k: int| 0 <= k < before_semi(m) implies m[k] != ';' by {
            if k > 0 {
                assert(m.skip(1)[k - 1] == m[k]);
            }
        }
        if before_semi(m) < m.len() {
            assert(m.skip(1)[before_semi(m.skip(1))] == m[before_semi(m)]);
        }
    }
}

/// The base media type of `m`: everything before the first semicolon,
/// surrounding whitespace trimmed.
pub open spec fn base_mime(m: Seq<char>) -> Seq<char> {
    trim_spec(m.take(before_semi(m)))
}

/// Does `m` name the markup media type this client parses structurally?
pub open spec fn is_markup(m: Seq<char>) -> bool {
    base_mime(m) == "text/gemini"@
}

/// Tests a media type for the markup type, parameters after `;` stripped.
fn mime_is_markup(m: &str) -> (r: bool)
    ensures
        r == is_markup(m@),
{
    let n = m.unicode_len();
    let mut i: usize = 0;
    while i < n
        invariant
            0 <= i <= n,
            n == m@.len(),
            forall|k: int| 0 <= k < i ==> m@[k] != ';',
        ensures
            0 <= i <= n,
            i < n ==> m@[i as int] == ';',
            forall|k: int| 0 <= k < i ==> m@[k] != ';',
        decreases n - i,
    {
        if m.get_char(i) == ';' {
            break ;
        }
        i += 1;
    }
    proof {
        lemma_before_semi_bounds(m@);
        let bs = before_semi(m@);
        if bs < i as int {
            assert(m@[bs] == ';');
        }
        if bs > i as int {
            assert(m@[i as int] != ';');
        }
        assert(m@.take(i as int) =~= m@.subrange(0, i as int));
    }
    let base = trim(m.substring_char(0, i));
    str_eq(base, "text/gemini")
}

/// Is `target` already in the chain, by canonical string form?
fn visited_contains(visited: &Vec<Url>, target: &Url) -> (r: bool)
    ensures
        r == visited_strs(visited@).contains(target.serialized@),
{
    let n = visited.len();
    let mut i: usize = 0;
    while i < n
        invariant
            0 <= i <= n,
            n == visited@.len(),
            forall|k: int| 0 <= k < i ==> visited_strs(visited@)[k] != target.serialized@,
        decreases n - i,
    {
        if visited[i].same_as(target) {
            proof {
                assert(visited_strs(visited@)[i as int] == target.serialized@);
            }
            return true;
        }
        i += 1;
    }
    proof {
        if visited_strs(visited@).contains(target.serialized@) {
            let k = choose|k: int|
                0 <= k < visited_strs(visited@).len() && visited_strs(visited@)[k]
                    == target.serialized@;
            assert(false);
        }
    }
    false
}

/// Builds the message naming an unknown built-in page.
fn unknown_page_text(host: &str) -> (r: String)
    ensures
        r@ == unknown_page_message(host@),
{
    let mut s = String::from_str("Unknown browser page '");
    s.append(host);
    s.append("'");
    s
}

/// What [`begin_navigation`] must produce for `url`: an internal page is
/// resolved synthetically with no network exchange, a URL of the wire
/// protocol's scheme starts a bounded fetch chain, and any other scheme
/// finishes at once with the unsupported-scheme error page.
pub open spec fn begin_spec(url: Url, templates: Templates, r: NavStep, base: u64) -> bool {
    if url.scheme@ == "about"@ {
        if url.host@ == "new"@ {
            r matches NavStep::Done(t) && t.url.serialized@ == "about://new"@ && t.title@
                == "New Tab"@ && t.content.doc_lines() == parse_models(templates.new_page@)
                && t.content.ids_from(base) && t.display_url@ == Seq::<char>::empty()
        } else {
            finished_error(r, url, 0, unknown_page_message(url.host@), templates, base)
        }
    } else if url.scheme@ == "gemini"@ {
        if url.host@.len() == 0 {
            finished_error(r, url, 0, no_host_message(), templates, base)
        } else {
            r matches NavStep::Fetch(st) && st.url == url && visited_strs(st.visited@) == seq![
                url.serialized@,
            ] && st.remaining == MAX_FETCHES && st.fallback.url == url && st.fallback.title@
                == display_spec(url.serialized@) && st.fallback.content.doc_lines() == Seq::<
                Line,
            >::empty()
        }
    } else {
        finished_error(r, url, 0, unsupported_scheme_message(), templates, base)
    }
}

/// Starts a navigation to `url`.
pub fn begin_navigation(url: Url, templates: &Templates, ids: &mut SequenceGenerator) -> (r:
    NavStep)
    ensures
        begin_spec(url, *templates, r, old(ids).next),
        final(ids).next >= old(ids).next,
{
    proof {
        reveal_strlit("about");
        reveal_strlit("new");
        reveal_strlit("gemini");
    }
    if str_eq(url.scheme.as_str(), "about") {
        if str_eq(url.host.as_str(), "new") {
            let t = Tab::new_default(templates.new_page.as_str(), ids);
            NavStep::Done(t)
        } else {
            let msg = unknown_page_text(url.host.as_str());
            let mut t = Tab::new_error(url, 0, msg, templates.error_page.as_str(), ids);
            t.normalize_display();
            NavStep::Done(t)
        }
    } else if str_eq(url.scheme.as_str(), "gemini") {
        if url.host.as_str().unicode_len() == 0 {
            let msg = String::from_str("URL has no host");
            let mut t = Tab::new_error(url, 0, msg, templates.error_page.as_str(), ids);
            t.normalize_display();
            return NavStep::Done(t);
        }
        let fallback = Tab {
            url: url.duplicate(),
            display_url: String::new(),
            title: crate::urls::display_url_of(&url),
            content: GemText::empty(),
        };
        let mut visited: Vec<Url> = Vec::new();
        visited.push(url.duplicate());
        proof {
            assert(visited_strs(visited@) =~= seq![url.serialized@]);
        }
        NavStep::Fetch(NavState { url, visited, remaining: MAX_FETCHES, fallback })
    } else {
        let msg = String::from_str("unsupported URL scheme");
        let mut t = Tab::new_error(url, 0, msg, templates.error_page.as_str(), ids);
        t.normalize_display();
        NavStep::Done(t)
    }
}

/// What [`continue_navigation`] must produce from `state` once the fetch of
/// `state.url` came to `outcome`. Transport and parse failures finish with
/// the error page; an input-expected response asks the user, masked exactly
/// for status 11; a redirect whose resolved target was already visited, or
/// arriving with no fetches left, finishes with the fallback tab, and
/// otherwise fetches the target with one fetch fewer allowed; a success
/// finishes with the body parsed as markup or wrapped verbatim; failure
/// statuses finish with the error page carrying the server's message.
pub open spec fn nav_step_spec(
    state: NavState,
    outcome: FetchOutcome,
    templates: Templates,
    r: NavStep,
    base: u64,
) -> bool {
    match outcome {
        FetchOutcome::Failed(msg) => finished_error(r, state.url, 0, msg@, templates, base),
        FetchOutcome::Response(bytes) => match utf8_decoded(bytes@) {
            None => finished_error(r, state.url, 0, invalid_encoding_message(), templates, base),
            Some(text) => match parse_response_spec(text) {
                Err(e) => finished_error(r, state.url, 0, protocol_error_message(e), templates, base),
                Ok(m) => match m.1 {
                    ContentModel::InputExpected { prompt } => r matches NavStep::Input(
                        ActionRequired::Input { prompt: p, sensitive: s },
                    ) && p@ == prompt && s == (m.0 == 11),
                    ContentModel::Redirection { uri } => match url_joined(
                        state.url.serialized@,
                        uri,
                    ) {
                        None => finished_error(r, state.url, 0, resolve_failed_message(), templates, base),
                        Some(parts) => {
                            if visited_strs(state.visited@).contains(parts.0) {
                                finished_fallback(r, state.fallback)
                            } else if state.remaining <= 1 {
                                finished_fallback(r, state.fallback)
                            } else {
                                r matches NavStep::Fetch(st) && url_is(st.url, parts)
                                    && visited_strs(st.visited@) == visited_strs(
                                    state.visited@,
                                ).push(parts.0) && st.remaining == state.remaining - 1
                                    && st.fallback == state.fallback
                            }
                        },
                    },
                    ContentModel::Success { mimetype, body } => {
                        if mimetype.len() == 0 {
                            finished_error(r, state.url, 0, empty_media_type_message(), templates, base)
                        } else if is_markup(mimetype) {
                            r matches NavStep::Done(t) && t.url == state.fallback.url
                                && t.content.doc_lines() == parse_models(body)
                                && t.content.ids_from(base) && t.title@ == (
                            match title_from_body(body) {
                                Some(h) => h,
                                None => state.fallback.title@,
                            }) && t.display_url@ == normalized_display_of(state.fallback.url)
                        } else {
                            r matches NavStep::Done(t) && t.url == state.fallback.url
                                && t.content.doc_lines() == seq![Line::Text(body)]
                                && t.content.ids_from(base) && t.title@
                                == state.fallback.title@ && t.display_url@ == normalized_display_of(
                                state.fallback.url,
                            )
                        }
                    },
                    ContentModel::TemporaryFailure { error } => finished_error(
                        r,
                        state.url,
                        m.0,
                        error,
                        templates,
                        base,
                    ),
                    ContentModel::PermanentFailure { error } => finished_error(
                        r,
                        state.url,
                        m.0,
                        error,
                        templates,
                        base,
                    ),
                    ContentModel::ClientCertificates { error } => finished_error(
                        r,
                        state.url,
                        0,
                        cert_unimplemented_message(),
                        templates,
                        base,
                    ),
                },
            },
        },
    }
}

/// Does `outcome` answer the fetch with a redirect whose resolved target
/// this chain has already visited?
pub open spec fn is_looping_redirect(state: NavState, outcome: FetchOutcome) -> bool {
    match outcome {
        FetchOutcome::Failed(_) => false,
        FetchOutcome::Response(bytes) => match utf8_decoded(bytes@) {
            None => false,
            Some(text) => match parse_response_spec(text) {
                Err(_) => false,
                Ok(m) => match m.1 {
                    ContentModel::Redirection { uri } => match url_joined(
                        state.url.serialized@,
                        uri,
                    ) {
                        None => false,
                        Some(parts) => visited_strs(state.visited@).contains(parts.0),
                    },
                    _ => false,
                },
            },
        },
    }
}

/// Law: redirect chains terminate and never hang. A step that asks for
/// another fetch strictly decreases the remaining-fetch budget and never
/// revisits a URL; a redirect whose resolved target was already in the
/// chain finishes at once with the fallback tab. So following steps from a
/// state whose budget is at most the fetch bound ends within that many
/// fetches, and a pair of servers that redirect to each other ends at the
/// second response.
pub proof fn lemma_navigation_terminates(
    state: NavState,
    outcome: FetchOutcome,
    templates: Templates,
    r: NavStep,
    base: u64,
)
    requires
        nav_step_spec(state, outcome, templates, r, base),
    ensures
        r matches NavStep::Fetch(st) ==> st.remaining < state.remaining,
        r matches NavStep::Fetch(st) ==> !visited_strs(state.visited@).contains(
            st.url.serialized@,
        ),
        state.remaining <= 1 ==> !(r is Fetch),
        is_looping_redirect(state, outcome) ==> finished_fallback(r, state.fallback),
{
    match outcome {
        FetchOutcome::Failed(msg) => {},
        FetchOutcome::Response(bytes) => {},
    }
}

/// Carries a navigation one step further once the fetch of `state.url`
/// has come back.
pub fn continue_navigation(
    state: NavState,
    outcome: FetchOutcome,
    templates: &Templates,
    ids: &mut SequenceGenerator,
) -> (r: NavStep)
    ensures
        nav_step_spec(state, outcome, *templates, r, old(ids).next),
        final(ids).next >= old(ids).next,
{
    let NavState { url, visited, remaining, fallback } = state;
    let mut visited = visited;
    match outcome {
        FetchOutcome::Failed(msg) => {
            let mut t = Tab::new_error(url, 0, msg, templates.error_page.as_str(), ids);
            t.normalize_display();
            NavStep::Done(t)
        },
        FetchOutcome::Response(bytes) => {
            let text = match decode_utf8(bytes) {
                Some(text) => text,
                None => {
                    let msg = String::from_str("invalid response encoding");
                    let mut t = Tab::new_error(url, 0, msg, templates.error_page.as_str(), ids);
                    t.normalize_display();
                    return NavStep::Done(t);
                },
            };
            let resp = match parse_response(text.as_str()) {
                Ok(resp) => resp,
                Err(e) => {
                    let msg = protocol_error_text(e);
                    let mut t = Tab::new_error(url, 0, msg, templates.error_page.as_str(), ids);
                    t.normalize_display();
                    return NavStep::Done(t);
                },
            };
            let Response { status, content } = resp;
            match content {
                ResponseContent::InputExpected { prompt } => NavStep::Input(
                    ActionRequired::Input { prompt, sensitive: status == 11 },
                ),
                ResponseContent::Redirection { uri } => {
                    match join_url(&url, uri.as_str()) {
                        None => {
                            let msg = String::from_str("could not resolve redirect target");
                            let mut t = Tab::new_error(
                                url,
                                0,
                                msg,
                                templates.error_page.as_str(),
                                ids,
                            );
                            t.normalize_display();
                            NavStep::Done(t)
                        },
                        Some(target) => {
                            if visited_contains(&visited, &target) {
                                let mut fb = fallback;
                                fb.normalize_display();
                                NavStep::Done(fb)
                            } else if remaining <= 1 {
                                let mut fb = fallback;
                                fb.normalize_display();
                                NavStep::Done(fb)
                            } else {
                                let ghost old_visited = visited@;
                                visited.push(target.duplicate());
                                proof {
                                    assert(visited_strs(visited@) =~= visited_strs(
                                        old_visited,
                                    ).push(target.serialized@));
                                }
                                NavStep::Fetch(
                                    NavState {
                                        url: target,
                                        visited,
                                        remaining: remaining - 1,
                                        fallback,
                                    },
                                )
                            }
                        },
                    }
                },
                ResponseContent::Success { mimetype, body } => {
                    if mimetype.as_str().unicode_len() == 0 {
                        let msg = String::from_str("empty media type");
                        let mut t = Tab::new_error(url, 0, msg, templates.error_page.as_str(), ids);
                        t.normalize_display();
                        NavStep::Done(t)
                    } else if mime_is_markup(mimetype.as_str()) {
                        let content = GemText::new(body.as_str(), ids);
                        let title_opt = derive_title(body.as_str());
                        let Tab { url: fb_url, title: fb_title, .. } = fallback;
                        let title = match title_opt {
                            Some(h) => h,
                            None => fb_title,
                        };
                        let mut t = Tab { url: fb_url, display_url: String::new(), title, content };
                        t.normalize_display();
                        NavStep::Done(t)
                    } else {
                        let content = GemText::raw(body, ids);
                        let Tab { url: fb_url, title: fb_title, .. } = fallback;
                        let mut t = Tab {
                            url: fb_url,
                            display_url: String::new(),
                            title: fb_title,
                            content,
                        };
                        t.normalize_display();
                        NavStep::Done(t)
                    }
                },
                ResponseContent::TemporaryFailure { error } => {
                    let mut t = Tab::new_error(url, status, error, templates.error_page.as_str(), ids);
                    t.normalize_display();
                    NavStep::Done(t)
                },
                ResponseContent::PermanentFailure { error } => {
                    let mut t = Tab::new_error(url, status, error, templates.error_page.as_str(), ids);
                    t.normalize_display();
                    NavStep::Done(t)
                },
                ResponseContent::ClientCertificates { error: _ } => {
                    let msg = String::from_str("client certificates are not implemented");
                    let mut t = Tab::new_error(url, 0, msg, templates.error_page.as_str(), ids);
                    t.normalize_display();
                    NavStep::Done(t)
                },
            }
        },
    }
}

} // verus!
