//! The health checker: what one GET against a site says about it.
//!
//! The request itself is the caller's: it sends a GET bounded by
//! [`DEFAULT_TIMEOUT_SECS`], reads the body only where [`wants_body`] asks
//! for it, and hands what came back over as an [`HttpReply`]. Everything
//! after that is decided here, and no reply makes the classification fail.

use crate::website::{
    names_distinct, pairs_view, CheckStatus, CheckStatusView, ResponseDetails, ResponseDetailsView,
};
use vstd::prelude::*;

verus! {

/// The time that one probe may take, in seconds. A monitored site is a
/// stranger's server, so this is longer than a liveness probe of a local
/// service would wait.
pub const DEFAULT_TIMEOUT_SECS: u64 = 15;

/// What the transport handed back for one GET.
pub enum HttpReply {
    /// A response arrived.
    Answered {
        status_code: u16,
        /// The header fields in the order received; `None` for a value that
        /// is no text.
        headers: Vec<(String, Option<String>)>,
        content_length: Option<u64>,
        /// The body as text; `None` where it was not read or could not be
        /// read.
        body: Option<String>,
    },
    /// No response arrived: the request timed out, the name did not resolve,
    /// the connection or the TLS handshake failed, or the URL was no URL.
    Failed { message: String },
}

pub enum HttpReplyView {
    Answered {
        status_code: u16,
        headers: Seq<(Seq<char>, Option<Seq<char>>)>,
        content_length: Option<u64>,
        body: Option<Seq<char>>,
    },
    Failed { message: Seq<char> },
}

/// An optional string as its characters.
pub open spec fn text_view(text: Option<String>) -> Option<Seq<char>> {
    match text {
        Some(t) => Some(t@),
        None => None,
    }
}

/// Header fields as received, each string as its characters.
pub open spec fn fields_view(fields: Seq<(String, Option<String>)>) -> Seq<
    (Seq<char>, Option<Seq<char>>),
> {
    Seq::new(fields.len(), |i: int| (fields[i].0@, text_view(fields[i].1)))
}

impl View for HttpReply {
    type V = HttpReplyView;

    open spec fn view(&self) -> HttpReplyView {
        match self {
            HttpReply::Answered { status_code, headers, content_length, body } => {
                HttpReplyView::Answered {
                    status_code: *status_code,
                    headers: fields_view(headers@),
                    content_length: *content_length,
                    body: text_view(*body),
                }
            },
            HttpReply::Failed { message } => HttpReplyView::Failed { message: message@ },
        }
    }
}

/// The status codes that say a request succeeded: 200 to 299.
pub open spec fn success_status(status_code: u16) -> bool {
    200 <= status_code <= 299
}

/// The text that stands for a header value or a body that is no text: the
/// empty string.
pub open spec fn text_or_empty(text: Option<Seq<char>>) -> Seq<char> {
    match text {
        Some(t) => t,
        None => Seq::empty(),
    }
}

/// Whether a header list holds a field of this name.
pub open spec fn has_name(headers: Seq<(Seq<char>, Seq<char>)>, name: Seq<char>) -> bool {
    exists|i: int| 0 <= i < headers.len() && #[trigger] headers[i].0 == name
}

/// Where a header list holds a field of this name, if it holds one.
pub open spec fn name_index(headers: Seq<(Seq<char>, Seq<char>)>, name: Seq<char>) -> int {
    choose|i: int| 0 <= i < headers.len() && #[trigger] headers[i].0 == name
}

/// The value that a header list gives for a name.
pub open spec fn header_value(headers: Seq<(Seq<char>, Seq<char>)>, name: Seq<char>) -> Option<
    Seq<char>,
> {
    if has_name(headers, name) {
        Some(headers[name_index(headers, name)].1)
    } else {
        None
    }
}

/// A header list with `value` under `name`: in the place of the field of that
/// name if there is one, at the end otherwise.
pub open spec fn put_header(
    headers: Seq<(Seq<char>, Seq<char>)>,
    name: Seq<char>,
    value: Seq<char>,
) -> Seq<(Seq<char>, Seq<char>)> {
    if has_name(headers, name) {
        headers.update(name_index(headers, name), (name, value))
    } else {
        headers.push((name, value))
    }
}

/// The mapping that received header fields stand for. Each name is listed
/// once, in the order in which the names first came; where a name came more
/// than once the last value stands; a value that is no text is replaced by
/// the empty string.
pub open spec fn collected(fields: Seq<(Seq<char>, Option<Seq<char>>)>) -> Seq<
    (Seq<char>, Seq<char>),
>
    decreases fields.len(),
{
    if fields.len() == 0 {
        Seq::empty()
    } else {
        put_header(
            collected(fields.drop_last()),
            fields.last().0,
            text_or_empty(fields.last().1),
        )
    }
}

/// The value that came last under a name among received header fields.
pub open spec fn last_received(
    fields: Seq<(Seq<char>, Option<Seq<char>>)>,
    name: Seq<char>,
) -> Option<Seq<char>>
    decreases fields.len(),
{
    if fields.len() == 0 {
        None
    } else if fields.last().0 == name {
        Some(text_or_empty(fields.last().1))
    } else {
        last_received(fields.drop_last(), name)
    }
}

/// What a reply says about the site. A response with a success status means
/// the site is up. Any other response means it is down, with the body as the
/// message, or an empty message where there is no body text. No response
/// means it is down with the status code 0 and the transport's message.
pub open spec fn outcome(reply: HttpReplyView) -> CheckStatusView {
    match reply {
        HttpReplyView::Answered { status_code, headers, content_length, body } => {
            if success_status(status_code) {
                CheckStatusView::Up(
                    ResponseDetailsView {
                        status_code,
                        headers: collected(headers),
                        content_length,
                    },
                )
            } else {
                CheckStatusView::Down { status_code, error_message: text_or_empty(body) }
            }
        },
        HttpReplyView::Failed { message } => CheckStatusView::Down {
            status_code: 0,
            error_message: message,
        },
    }
}

/// In a list without repeated names, a field's place is the place that its
/// name is found at.
pub proof fn lemma_name_index(headers: Seq<(Seq<char>, Seq<char>)>, i: int)
    requires
        names_distinct(headers),
        0 <= i < headers.len(),
    ensures
        has_name(headers, headers[i].0),
        name_index(headers, headers[i].0) == i,
        header_value(headers, headers[i].0) == Some(headers[i].1),
{
    let name = headers[i].0;
    assert(headers[i].0 == name);
    let j = name_index(headers, name);
    assert(0 <= j < headers.len() && headers[j].0 == name);
    if j < i {
        assert(headers[j].0 != headers[i].0);
    } else if i < j {
        assert(headers[i].0 != headers[j].0);
    }
}

/// Putting a value under a name keeps a mapping a mapping, sets the value
/// of that name, and leaves the value of every other name as it was.
pub proof fn lemma_put_header(
    headers: Seq<(Seq<char>, Seq<char>)>,
    name: Seq<char>,
    value: Seq<char>,
    other: Seq<char>,
)
    requires
        names_distinct(headers),
    ensures
        names_distinct(put_header(headers, name, value)),
        header_value(put_header(headers, name, value), name) == Some(value),
        other != name ==> header_value(put_header(headers, name, value), other) == header_value(
            headers,
            other,
        ),
{
    let after = put_header(headers, name, value);
    let at: int = if has_name(headers, name) {
        name_index(headers, name)
    } else {
        headers.len() as int
    };
    assert(0 <= at < after.len() && after[at] == (name, value));
    assert forall|i: int| 0 <= i < after.len() && i != at implies after[i] == headers[i]
        && after[i].0 != name by {
        if has_name(headers, name) {
            lemma_name_index(headers, at);
            if i < at {
                assert(headers[i].0 != headers[at].0);
            } else {
                assert(headers[at].0 != headers[i].0);
            }
        } else {
            assert(headers[i].0 != name);
        }
    }
    assert forall|i: int, j: int| 0 <= i < j < after.len() implies after[i].0 != after[j].0 by {
        if i != at && j != at {
            assert(headers[i].0 != headers[j].0);
        }
    }
    lemma_name_index(after, at);
    if other != name {
        if has_name(headers, other) {
            let k = name_index(headers, other);
            assert(k != at);
            assert(after[k] == headers[k]);
            lemma_name_index(after, k);
        } else if has_name(after, other) {
            let k = name_index(after, other);
            assert(k != at);
            assert(headers[k].0 == other);
        }
    }
}

/// What is collected from received header fields is a mapping, and gives
/// each name the value that came last under it.
pub proof fn lemma_collected(fields: Seq<(Seq<char>, Option<Seq<char>>)>, name: Seq<char>)
    ensures
        names_distinct(collected(fields)),
        header_value(collected(fields), name) == last_received(fields, name),
    decreases fields.len(),
{
    if fields.len() == 0 {
        assert(!has_name(collected(fields), name));
    } else {
        lemma_collected(fields.drop_last(), name);
        lemma_put_header(
            collected(fields.drop_last()),
            fields.last().0,
            text_or_empty(fields.last().1),
            name,
        );
    }
}

/// Whether a status code says that the request succeeded.
pub fn is_success(status_code: u16) -> (success: bool)
    ensures
        success == success_status(status_code),
{
    200 <= status_code && status_code <= 299
}

/// Whether the body of a response with this status code is to be read: it is
/// the error message of a response that does not say success, and is left
/// unread otherwise.
pub fn wants_body(status_code: u16) -> (wanted: bool)
    ensures
        wanted == !success_status(status_code),
{
    !is_success(status_code)
}

/// The place of the field of this name in a header list.
fn find_name(headers: &Vec<(String, String)>, name: &String) -> (found: Option<usize>)
    ensures
        match found {
            Some(i) => i < headers.len() && headers[i as int].0@ == name@,
            None => !has_name(pairs_view(headers@), name@),
        },
{
    let mut i: usize = 0;
    while i < headers.len()
        invariant
            i <= headers.len(),
            forall|k: int| 0 <= k < i ==> headers[k].0@ != name@,
        decreases headers.len() - i,
    {
        if headers[i].0 == *name {
            return Some(i);
        }
        i += 1;
    }
    assert(!has_name(pairs_view(headers@), name@)) by {
        assert forall|k: int| 0 <= k < pairs_view(headers@).len() implies pairs_view(
            headers@,
        )[k].0 != name@ by {
            assert(headers[k].0@ != name@);
        }
    }
    None
}

/// The text of a header value or a body, or the empty string where it is
/// no text.
fn text_or_default(text: &Option<String>) -> (out: String)
    ensures
        out@ == text_or_empty(text_view(*text)),
{
    match text {
        Some(t) => t.clone(),
        None => String::new(),
    }
}

/// The mapping that received header fields stand for.
pub fn collect_headers(fields: &Vec<(String, Option<String>)>) -> (headers: Vec<(String, String)>)
    ensures
        pairs_view(headers@) == collected(fields_view(fields@)),
        names_distinct(pairs_view(headers@)),
{
    let mut headers: Vec<(String, String)> = Vec::new();
    let mut i: usize = 0;
    assert(fields_view(fields@).take(0) =~= Seq::empty());
    assert(pairs_view(headers@) =~= Seq::empty());
    while i < fields.len()
        invariant
            i <= fields.len(),
            pairs_view(headers@) == collected(fields_view(fields@).take(i as int)),
        decreases fields.len() - i,
    {
        let ghost received = fields_view(fields@);
        let ghost before = pairs_view(headers@);
        let name = fields[i].0.clone();
        let value = text_or_default(&fields[i].1);
        proof {
            assert(received.take(i + 1).drop_last() =~= received.take(i as int));
            assert(received.take(i + 1).last() == received[i as int]);
            lemma_collected(received.take(i as int), name@);
        }
        match find_name(&headers, &name) {
            Some(at) => {
                proof {
                    lemma_name_index(before, at as int);
                }
                headers.set(at, (name, value));
                assert(pairs_view(headers@) =~= put_header(before, name@, value@));
            },
            None => {
                headers.push((name, value));
                assert(pairs_view(headers@) =~= put_header(before, name@, value@));
            },
        }
        i += 1;
    }
    proof {
        assert(fields_view(fields@).take(i as int) =~= fields_view(fields@));
        lemma_collected(fields_view(fields@), Seq::empty());
    }
    headers
}

/// What a reply says about the site.
pub fn classify(reply: HttpReply) -> (status: CheckStatus)
    ensures
        status@ == outcome(reply@),
        status matches CheckStatus::Up(details) ==> details.wf(),
{
    match reply {
        HttpReply::Answered { status_code, headers, content_length, body } => {
            if is_success(status_code) {
                CheckStatus::Up(
                    ResponseDetails {
                        status_code,
                        headers: collect_headers(&headers),
                        content_length,
                    },
                )
            } else {
                CheckStatus::Down { status_code, error_message: text_or_default(&body) }
            }
        },
        HttpReply::Failed { message } => CheckStatus::Down { status_code: 0, error_message: message },
    }
}

} // verus!
