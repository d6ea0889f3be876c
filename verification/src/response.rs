//! Parsing and classification of one wire response.
//!
//! A response is UTF-8 text framed as `<2-digit status>[ <meta>]` CR LF
//! `<body>`, the body running to the end of the input. The status class
//! (its leading digit) picks the response's content variant.

use vstd::prelude::*;

verus! {

/// Ways a raw response can fail to parse or classify.
#[derive(Debug, Clone, Copy, PartialEq, Eq, Structural)]
pub enum ProtocolError {
    /// The bytes were not valid UTF-8.
    InvalidEncoding,
    /// The first two characters were not decimal digits.
    InvalidStatusLine,
    /// No CR LF separates the header from the body.
    MalformedResponse,
    /// The status code's leading digit names no known class.
    InvalidStatusClass,
}

/// Content of a response, by status class.
#[derive(Debug, PartialEq, Eq)]
pub enum ResponseContent {
    InputExpected { prompt: String },
    Success { mimetype: String, body: String },
    Redirection { uri: String },
    TemporaryFailure { error: String },
    PermanentFailure { error: String },
    ClientCertificates { error: String },
}

/// Mathematical model of [`ResponseContent`], over character sequences.
pub enum ContentModel {
    InputExpected { prompt: Seq<char> },
    Success { mimetype: Seq<char>, body: Seq<char> },
    Redirection { uri: Seq<char> },
    TemporaryFailure { error: Seq<char> },
    PermanentFailure { error: Seq<char> },
    ClientCertificates { error: Seq<char> },
}

impl View for ResponseContent {
    type V = ContentModel;

    open spec fn view(&self) -> ContentModel {
        match self {
            ResponseContent::InputExpected { prompt } => ContentModel::InputExpected {
                prompt: prompt@,
            },
            ResponseContent::Success { mimetype, body } => ContentModel::Success {
                mimetype: mimetype@,
                body: body@,
            },
            ResponseContent::Redirection { uri } => ContentModel::Redirection { uri: uri@ },
            ResponseContent::TemporaryFailure { error } => ContentModel::TemporaryFailure {
                error: error@,
            },
            ResponseContent::PermanentFailure { error } => ContentModel::PermanentFailure {
                error: error@,
            },
            ResponseContent::ClientCertificates { error } => ContentModel::ClientCertificates {
                error: error@,
            },
        }
    }
}

/// A classified response: the exact status code and its content.
#[derive(Debug)]
pub struct Response {
    pub status: u8,
    pub content: ResponseContent,
}

impl Response {
    /// The exact two-digit status code.
    pub fn status(&self) -> (r: u8)
        ensures
            r == self.status,
    {
        self.status
    }

    /// The content derived from the status class.
    pub fn content(&self) -> (r: &ResponseContent)
        ensures
            *r == self.content,
    {
        &self.content
    }
}

/// The content variant dictated by `status / 10`, or `None` when the leading
/// digit names no class.
pub open spec fn classified(status: int, meta: Seq<char>, body: Seq<char>) -> Option<ContentModel> {
    let class = status / 10;
    if class == 1 {
        Some(ContentModel::InputExpected { prompt: meta })
    } else if class == 2 {
        Some(ContentModel::Success { mimetype: meta, body: body })
    } else if class == 3 {
        Some(ContentModel::Redirection { uri: meta })
    } else if class == 4 {
        Some(ContentModel::TemporaryFailure { error: meta })
    } else if class == 5 {
        Some(ContentModel::PermanentFailure { error: meta })
    } else if class == 6 {
        Some(ContentModel::ClientCertificates { error: meta })
    } else {
        None
    }
}

/// Maps a status code to its content variant: for every status whose leading
/// digit is 1 through 6 the variant is the one dictated by `status / 10`, and
/// every other status fails with `InvalidStatusClass`.
pub fn classify(status: u8, meta: String, body: String) -> (r: Result<
    ResponseContent,
    ProtocolError,
>)
    ensures
        r is Ok <==> classified(status as int, meta@, body@) is Some,
        r is Ok ==> r->Ok_0@ == classified(status as int, meta@, body@)->0,
        r is Err ==> r->Err_0 == ProtocolError::InvalidStatusClass,
{
    match status / 10 {
        1 => Ok(ResponseContent::InputExpected { prompt: meta }),
        2 => Ok(ResponseContent::Success { mimetype: meta, body: body }),
        3 => Ok(ResponseContent::Redirection { uri: meta }),
        4 => Ok(ResponseContent::TemporaryFailure { error: meta }),
        5 => Ok(ResponseContent::PermanentFailure { error: meta }),
        6 => Ok(ResponseContent::ClientCertificates { error: meta }),
        _ => Err(ProtocolError::InvalidStatusClass),
    }
}

/// Is `c` a decimal digit?
pub open spec fn is_digit(c: char) -> bool {
    0x30 <= c as u32 && c as u32 <= 0x39
}

/// Value of the decimal digit `c`.
pub open spec fn digit_val(c: char) -> int {
    c as u32 - 0x30
}

/// Does the two-character CR LF pair stand at position `k` of `s`?
pub open spec fn crlf_at(s: Seq<char>, k: int) -> bool {
    0 <= k && k + 2 <= s.len() && s[k] == '\r' && s[k + 1] == '\n'
}

/// Position of the first CR LF pair in `s`, if any.
pub open spec fn crlf_pos(s: Seq<char>) -> Option<int>
    decreases s.len(),
{
    if s.len() < 2 {
        None
    } else if s[0] == '\r' && s[1] == '\n' {
        Some(0)
    } else {
        match crlf_pos(s.skip(1)) {
            None => None,
            Some(i) => Some(i + 1),
        }
    }
}

pub proof fn lemma_crlf_pos(s: Seq<char>)
    ensures
        match crlf_pos(s) {
            Some(i) => crlf_at(s, i) && forall|k: int| 0 <= k < i ==> !crlf_at(s, k),
            None => forall|k: int| !crlf_at(s, k),
        },
    decreases s.len(),
{
    if s.len() < 2 {
    } else if s[0] == '\r' && s[1] == '\n' {
    } else {
        lemma_crlf_pos(s.skip(1));
        let t = s.skip(1);
        assert forall|k: int| crlf_at(s, k) implies k >= 1 && crlf_at(t, k - 1) by {
            assert(t[k - 1] == s[k]);
            assert(t[k] == s[k + 1]);
        }
        match crlf_pos(t) {
            None => {
                assert forall|k: int| !crlf_at(s, k) by {
                    if crlf_at(s, k) {
                        assert(crlf_at(t, k - 1));
                    }
                }
            },
            Some(i) => {
                assert(t[i] == s[i + 1]);
                assert(t[i + 1] == s[i + 2]);
                assert(crlf_at(s, i + 1));
                assert forall|k: int| 0 <= k < i + 1 implies !crlf_at(s, k) by {
                    if k >= 1 && crlf_at(s, k) {
                        assert(crlf_at(t, k - 1));
                    }
                }
            },
        }
    }
}

/// Mathematical model of a parsed but not yet classified response.
pub struct RawModel {
    pub status: int,
    pub meta: Seq<char>,
    pub body: Seq<char>,
}

/// Outcome of parsing decoded response text into status, meta and body:
/// the first two characters must be decimal digits, an optional single
/// space follows, then meta up to the first CR LF, then the body.
pub open spec fn parse_raw_spec(s: Seq<char>) -> Result<RawModel, ProtocolError> {
    if s.len() < 2 || !is_digit(s[0]) || !is_digit(s[1]) {
        Err(ProtocolError::InvalidStatusLine)
    } else {
        let status = digit_val(s[0]) * 10 + digit_val(s[1]);
        let rest = if s.len() > 2 && s[2] == ' ' {
            s.skip(3)
        } else {
            s.skip(2)
        };
        match crlf_pos(rest) {
            None => Err(ProtocolError::MalformedResponse),
            Some(i) => Ok(
                RawModel { status: status, meta: rest.take(i), body: rest.skip(i + 2) },
            ),
        }
    }
}

/// Outcome of parsing and classifying decoded response text.
pub open spec fn parse_response_spec(s: Seq<char>) -> Result<(int, ContentModel), ProtocolError> {
    match parse_raw_spec(s) {
        Err(e) => Err(e),
        Ok(raw) => match classified(raw.status, raw.meta, raw.body) {
            None => Err(ProtocolError::InvalidStatusClass),
            Some(c) => Ok((raw.status, c)),
        },
    }
}

/// Parses decoded response text into a classified [`Response`], failing with
/// `InvalidStatusLine` when the first two characters are not digits, with
/// `MalformedResponse` when no CR LF separates header from body, and with
/// `InvalidStatusClass` when the status class is unknown, exactly as
/// [`parse_response_spec`] says.
pub fn parse_response(text: &str) -> (r: Result<Response, ProtocolError>)
    ensures
        match parse_response_spec(text@) {
            Err(e) => r is Err && r->Err_0 == e,
            Ok(m) => r is Ok && r->Ok_0.status as int == m.0 && r->Ok_0.content@ == m.1,
        },
{
    let n = text.unicode_len();
    if n < 2 {
        return Err(ProtocolError::InvalidStatusLine);
    }
    let c0 = text.get_char(0);
    let c1 = text.get_char(1);
    let d0 = c0 as u32;
    let d1 = c1 as u32;
    if !(0x30 <= d0 && d0 <= 0x39 && 0x30 <= d1 && d1 <= 0x39) {
        return Err(ProtocolError::InvalidStatusLine);
    }
    let status: u8 = ((d0 - 0x30) * 10 + (d1 - 0x30)) as u8;
    let rest: &str = if n > 2 && text.get_char(2) == ' ' {
        text.substring_char(3, n)
    } else {
        text.substring_char(2, n)
    };
    let ghost rest_seq = rest@;
    let rn = rest.unicode_len();
    let mut i: usize = 0;
    let mut found = false;
    while !found && rn >= 2 && i < rn - 1
        invariant
            0 <= i,
            !found ==> i <= rn,
            found ==> i + 2 <= rn,
            rn == rest_seq.len(),
            rest@ == rest_seq,
            forall|k: int| 0 <= k < i ==> !crlf_at(rest_seq, k),
            found ==> crlf_at(rest_seq, i as int),
        decreases rn - i, (if found { 0int } else { 1int }),
    {
        if rest.get_char(i) == '\r' && rest.get_char(i + 1) == '\n' {
            found = true;
        } else {
            i += 1;
        }
    }
    proof {
        lemma_crlf_pos(rest_seq);
    }
    if !found {
        proof {
            assert forall|k: int| !crlf_at(rest_seq, k) by {
                if crlf_at(rest_seq, k) {
                    assert(0 <= k < i as int);
                }
            }
        }
        return Err(ProtocolError::MalformedResponse);
    }
    let meta = String::from_str(rest.substring_char(0, i));
    let body = String::from_str(rest.substring_char(i + 2, rn));
    proof {
        assert(crlf_pos(rest_seq) == Some(i as int)) by {
            match crlf_pos(rest_seq) {
                Some(j) => {
                    if j < i as int {
                        assert(!crlf_at(rest_seq, j));
                    }
                    if j > i as int {
                        assert(!crlf_at(rest_seq, i as int));
                    }
                },
                None => {
                    assert(!crlf_at(rest_seq, i as int));
                },
            }
        }
        assert(rest_seq.take(i as int) =~= rest_seq.subrange(0, i as int));
        assert(rest_seq.skip(i + 2) =~= rest_seq.subrange(i + 2, rn as int));
    }
    match classify(status, meta, body) {
        Ok(content) => Ok(Response { status, content }),
        Err(e) => Err(e),
    }
}

/// Characters of the UTF-8 decoding of the bytes, when they are valid UTF-8.
pub uninterp spec fn utf8_decoded(bytes: Seq<u8>) -> Option<Seq<char>>;

/// Relies on std's `String::from_utf8`: decodes the bytes as UTF-8, failing
/// exactly when they are not valid UTF-8. The outcome depends on the bytes
/// alone.
#[verifier::external_body]
pub(crate) fn decode_utf8(bytes: Vec<u8>) -> (r: Option<String>)
    ensures
        r is Some <==> utf8_decoded(bytes@) is Some,
        r is Some ==> r->0@ == utf8_decoded(bytes@)->0,
{
    String::from_utf8(bytes).ok()
}

} // verus!
