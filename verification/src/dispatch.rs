//! Validating and executing one parsed invocation against the state.
//!
//! Header actions run here; the HTTP request itself and task-supplied
//! actions are handed back to the embedding application as prepared,
//! validated requests, together with their declared timeout.

use vstd::prelude::*;
use vstd::string::*;

use crate::errors::AgentError;
use crate::history::Execution;
use crate::invocation::Invocation;
use crate::namespaces::Action;
use crate::state::{storage_first_at, storages_has_name, State};
use crate::storage::{kv_clone, kv_first_at, kv_has_key, Storage};

verus! {

#[verifier::external_type_specification]
#[verifier::external_body]
pub struct ExUrl(url::Url);

#[verifier::external_type_specification]
#[verifier::external_body]
pub struct ExMethod(reqwest::Method);

/// Whether the text `s` parses as an absolute URL under the WHATWG rules the
/// `url` crate implements; a pure function of the text.
pub uninterp spec fn url_parse_ok(s: Seq<char>) -> bool;

/// Whether the reference `rel` resolves against the URL parsed from `base`;
/// a pure function of the two texts.
pub uninterp spec fn url_join_ok(base: Seq<char>, rel: Seq<char>) -> bool;

/// The serialization of the URL that resolving `rel` against the URL parsed
/// from `base` yields; a pure function of the two texts.
pub uninterp spec fn url_join_text(base: Seq<char>, rel: Seq<char>) -> Seq<char>;

/// A character the HTTP method grammar allows: an RFC 7230 token character.
pub open spec fn is_method_char(c: char) -> bool {
    ||| c == '!' || c == '#' || c == '$' || c == '%' || c == '&' || c == '\'' || c == '*'
    ||| c == '+' || c == '-' || c == '.' || c == '^' || c == '_' || c == '`' || c == '|' || c == '~'
    ||| '0' <= c <= '9'
    ||| 'A' <= c <= 'Z'
    ||| 'a' <= c <= 'z'
}

/// A nonempty text of token characters: exactly the texts the HTTP method
/// parser accepts.
pub open spec fn valid_method_token(s: Seq<char>) -> bool {
    s.len() > 0 && forall|i: int| 0 <= i < s.len() ==> is_method_char(#[trigger] s[i])
}

/// Relies on reqwest's `Method::from_str` (http's `Method::from_bytes`): it
/// accepts a text exactly when it is a nonempty RFC 7230 token, and what it
/// returns depends on the text alone.
#[verifier::external_body]
fn parse_method(s: &str) -> (r: Result<reqwest::Method, String>)
    ensures
        r is Ok <==> valid_method_token(s@),
{
    match <reqwest::Method as core::str::FromStr>::from_str(s) {
        Ok(m) => Ok(m),
        Err(e) => Err(e.to_string()),
    }
}

/// A request URL together with its serialization, so that contracts can
/// speak of the text while the application sends the parsed value.
#[derive(Debug)]
pub struct JoinedUrl {
    /// The parsed, resolved URL.
    pub url: url::Url,
    /// Its serialization.
    pub text: String,
}

/// A failed URL construction: whether the failure came at the join (the base
/// itself parsed), and the parser's message.
struct UrlFailure {
    at_join: bool,
    message: String,
}

/// Relies on url's `Url::parse`, `Url::join` and `Url::as_str`: parsing the
/// base text, resolving the reference against it as a browser would, and the
/// resolved URL's serialization. Every outcome depends on the two texts
/// alone. On failure, the flag says whether the base itself parsed.
#[verifier::external_body]
fn parse_and_join(base: &str, rel: &str) -> (r: Result<JoinedUrl, UrlFailure>)
    ensures
        r is Ok <==> (url_parse_ok(base@) && url_join_ok(base@, rel@)),
        r matches Ok(p) ==> p.text@ == url_join_text(base@, rel@),
        r matches Err(f) ==> (f.at_join <==> url_parse_ok(base@)),
{
    match url::Url::parse(base) {
        Ok(u) => match u.join(rel) {
            Ok(joined) => {
                let text = joined.as_str().to_owned();
                Ok(JoinedUrl { url: joined, text })
            },
            Err(e) => Err(UrlFailure { at_join: true, message: e.to_string() }),
        },
        Err(e) => Err(UrlFailure { at_join: false, message: e.to_string() }),
    }
}

/// The text `s` contains a scheme separator.
pub open spec fn has_scheme_sep(s: Seq<char>) -> bool {
    exists|i: int|
        0 <= i && i + 3 <= s.len() && (#[trigger] s[i]) == ':' && s[i + 1] == '/' && s[i + 2] == '/'
}

/// The target text with a scheme: untouched when it has one, prefixed with
/// `http://` otherwise.
pub open spec fn with_scheme(s: Seq<char>) -> Seq<char> {
    if has_scheme_sep(s) {
        s
    } else {
        "http://"@ + s
    }
}

/// Whether the text contains `://`.
fn contains_scheme_sep(s: &str) -> (r: bool)
    ensures
        r == has_scheme_sep(s@),
{
    let len = s.unicode_len();
    if len < 3 {
        proof {
            if has_scheme_sep(s@) {
                let i = choose|i: int|
                    0 <= i && i + 3 <= s@.len() && (#[trigger] s@[i]) == ':' && s@[i + 1] == '/'
                        && s@[i + 2] == '/';
            }
        }
        return false;
    }
    let mut i: usize = 0;
    while i <= len - 3
        invariant
            len == s@.len(),
            len >= 3,
            i <= len - 2,
            forall|j: int| 0 <= j < i ==> !((#[trigger] s@[j]) == ':' && s@[j + 1] == '/' && s@[j + 2] == '/'),
        decreases len - i,
    {
        if s.get_char(i) == ':' && s.get_char(i + 1) == '/' && s.get_char(i + 2) == '/' {
            return true;
        }
        i = i + 1;
    }
    proof {
        if has_scheme_sep(s@) {
            let j = choose|j: int|
                0 <= j && j + 3 <= s@.len() && (#[trigger] s@[j]) == ':' && s@[j + 1] == '/'
                    && s@[j + 2] == '/';
            assert(j < i);
        }
    }
    false
}

/// The target named by the first `HTTP_TARGET` entry, given a scheme,
/// parses, and the page resolves against it.
pub open spec fn target_join_ok(vars: Seq<(String, String)>, page: Seq<char>) -> bool {
    exists|i: int|
        #[trigger] kv_first_at(vars, "HTTP_TARGET"@, i) && url_parse_ok(with_scheme(vars[i].1@))
            && url_join_ok(with_scheme(vars[i].1@), page)
}

/// What `create_url_from` returns on failure: the missing-variable error
/// exactly when `HTTP_TARGET` is undefined; otherwise a `can't parse` or
/// `can't join` message naming the texts, exactly when the target does not
/// parse or the page does not resolve.
pub open spec fn create_url_err_spec(
    vars: Seq<(String, String)>,
    page: Seq<char>,
    e: AgentError,
) -> bool {
    if !kv_has_key(vars, "HTTP_TARGET"@) {
        e matches AgentError::MissingRequiredVariable(m) && m@ == "HTTP_TARGET"@
    } else {
        exists|i: int|
            #[trigger] kv_first_at(vars, "HTTP_TARGET"@, i) && ({
                let ws = with_scheme(vars[i].1@);
                if !url_parse_ok(ws) {
                    e matches AgentError::ActionExecutionError(m) && (exists|rest: Seq<char>|
                        m@ == "can't parse "@ + ws + ": "@ + rest)
                } else {
                    !url_join_ok(ws, page) && (e matches AgentError::ActionExecutionError(m) && (
                    exists|rest: Seq<char>| m@ == "can't join "@ + page + " to "@ + ws + ": "@ + rest))
                }
            })
    }
}

/// Builds the request URL: the `HTTP_TARGET` variable (given an `http`
/// scheme when it names none) joined with the requested page. Succeeds if
/// and only if the variable is defined, the target parses as a URL, and the
/// page resolves against it; each failure carries its own message.
pub fn create_url_from(state: &State, payload: Option<String>) -> (r: Result<JoinedUrl, AgentError>)
    requires
        payload is Some,
    ensures
        ({
            let vars = state.spec_task().variables@;
            let page = payload->0@;
            match r {
                Ok(u) => kv_has_key(vars, "HTTP_TARGET"@) && target_join_ok(vars, page) && exists|i: int|
                    #[trigger] kv_first_at(vars, "HTTP_TARGET"@, i) && u.text@ == url_join_text(
                        with_scheme(vars[i].1@),
                        page,
                    ),
                Err(e) => create_url_err_spec(vars, page, e),
            }
        }),
{
    let target_key = String::from_str("HTTP_TARGET");
    let http_target = match state.get_variable(&target_key) {
        Some(v) => v,
        None => {
            return Err(AgentError::MissingRequiredVariable(target_key));
        },
    };
    let with_schema: String = if contains_scheme_sep(http_target.as_str()) {
        http_target
    } else {
        String::from_str("http://").concat(http_target.as_str())
    };
    let page = match payload {
        Some(p) => p,
        None => String::new(),
    };
    match parse_and_join(with_schema.as_str(), page.as_str()) {
        Ok(joined) => Ok(joined),
        Err(failure) => {
            let e = failure.message;
            if failure.at_join {
                Err(
                    AgentError::ActionExecutionError(
                        String::from_str("can't join ").concat(page.as_str()).concat(
                            " to ",
                        ).concat(with_schema.as_str()).concat(": ").concat(e.as_str()),
                    ),
                )
            } else {
                Err(
                    AgentError::ActionExecutionError(
                        String::from_str("can't parse ").concat(with_schema.as_str()).concat(
                            ": ",
                        ).concat(e.as_str()),
                    ),
                )
            }
        },
    }
}

/// One fully prepared HTTP request: the parsed method together with its
/// text, the resolved URL together with its text, and the headers to send,
/// taken from the `http-headers` storage.
#[derive(Debug)]
pub struct HttpRequest {
    /// The parsed request method.
    pub method: reqwest::Method,
    /// The method attribute the request was made from.
    pub method_text: String,
    /// The parsed, resolved request URL.
    pub url: url::Url,
    /// Its serialization.
    pub url_text: String,
    /// The headers of the `http-headers` storage, in order.
    pub headers: Vec<(String, String)>,
}

/// The invocation carries a `method` attribute.
pub open spec fn method_attr_present(inv: Invocation) -> bool {
    inv.spec_attrs() is Some && kv_has_key(inv.spec_attrs()->0, "method"@)
}

/// The invocation's first `method` attribute is a valid method token.
pub open spec fn method_attr_valid(inv: Invocation) -> bool {
    exists|i: int|
        #[trigger] kv_first_at(inv.spec_attrs()->0, "method"@, i) && valid_method_token(
            inv.spec_attrs()->0[i].1@,
        )
}

/// Everything an HTTP request needs is in place: a valid method attribute, a
/// defined target that parses and joins with the page, and the headers
/// storage.
pub open spec fn http_request_ready(pre: State, inv: Invocation, page: Seq<char>) -> bool {
    &&& method_attr_present(inv)
    &&& method_attr_valid(inv)
    &&& kv_has_key(pre.spec_task().variables@, "HTTP_TARGET"@)
    &&& target_join_ok(pre.spec_task().variables@, page)
    &&& storages_has_name(pre.spec_storages(), "http-headers"@)
}

/// The prepared request `req` is the one the state and invocation call for:
/// method text from the first `method` attribute, URL text from the target
/// and page, headers from the `http-headers` storage.
pub open spec fn http_request_matches(
    pre: State,
    inv: Invocation,
    page: Seq<char>,
    req: HttpRequest,
) -> bool {
    &&& exists|i: int|
        #[trigger] kv_first_at(inv.spec_attrs()->0, "method"@, i) && req.method_text
            == inv.spec_attrs()->0[i].1
    &&& exists|i: int|
        #[trigger] kv_first_at(pre.spec_task().variables@, "HTTP_TARGET"@, i) && req.url_text@
            == url_join_text(with_scheme(pre.spec_task().variables@[i].1@), page)
    &&& exists|i: int|
        #[trigger] crate::state::storage_first_at(pre.spec_storages(), "http-headers"@, i)
            && req.headers@ == pre.spec_storages()[i].spec_entries()
}

/// What `prepare_http_request` returns on failure, checked in order: a
/// missing or invalid method attribute, then the URL failures of
/// `create_url_from`, then the missing headers storage.
pub open spec fn prepare_err_spec(
    pre: State,
    inv: Invocation,
    page: Seq<char>,
    e: AgentError,
) -> bool {
    if !method_attr_present(inv) {
        e matches AgentError::ActionExecutionError(m) && m@ == "missing attribute 'method'"@
    } else if !method_attr_valid(inv) {
        e is ActionExecutionError
    } else if !kv_has_key(pre.spec_task().variables@, "HTTP_TARGET"@) || !target_join_ok(
        pre.spec_task().variables@,
        page,
    ) {
        create_url_err_spec(pre.spec_task().variables@, page, e)
    } else {
        !storages_has_name(pre.spec_storages(), "http-headers"@) && (
        e matches AgentError::StorageNotFound(m) && m@ == "http-headers"@)
    }
}

/// Validates and assembles everything an HTTP request action needs before
/// any side effect. Succeeds if and only if the method attribute is a valid
/// method token, the target and page form a URL, and the `http-headers`
/// storage exists; the prepared request carries exactly those pieces.
pub fn prepare_http_request(
    state: &State,
    attrs: &Invocation,
    payload: Option<String>,
) -> (r: Result<HttpRequest, AgentError>)
    requires
        payload is Some,
    ensures
        match r {
            Ok(req) => http_request_ready(*state, *attrs, payload->0@) && http_request_matches(
                *state,
                *attrs,
                payload->0@,
                req,
            ),
            Err(e) => !http_request_ready(*state, *attrs, payload->0@) && prepare_err_spec(
                *state,
                *attrs,
                payload->0@,
                e,
            ),
        },
{
    let ghost page = payload->0@;
    let method_key = String::from_str("method");
    let method_text = match attrs.get_attr(&method_key) {
        Some(m) => m,
        None => {
            proof {
                assert(!method_attr_present(*attrs));
            }
            return Err(
                AgentError::ActionExecutionError(String::from_str("missing attribute 'method'")),
            );
        },
    };
    let ghost mi = choose|i: int|
        kv_first_at(attrs.spec_attrs()->0, "method"@, i) && method_text == attrs.spec_attrs()->0[i].1;
    let method = match parse_method(method_text.as_str()) {
        Ok(m) => m,
        Err(e) => {
            proof {
                assert(!method_attr_valid(*attrs)) by {
                    if method_attr_valid(*attrs) {
                        let j = choose|j: int|
                            #[trigger] kv_first_at(attrs.spec_attrs()->0, "method"@, j)
                                && valid_method_token(attrs.spec_attrs()->0[j].1@);
                        crate::storage::lemma_kv_first_unique(
                            attrs.spec_attrs()->0,
                            "method"@,
                            mi,
                            j,
                        );
                    }
                }
            }
            return Err(AgentError::ActionExecutionError(e));
        },
    };
    proof {
        assert(method_attr_valid(*attrs));
    }
    let joined = match create_url_from(state, payload) {
        Ok(u) => u,
        Err(e) => {
            proof {
                assert(!(kv_has_key(state.spec_task().variables@, "HTTP_TARGET"@)
                    && target_join_ok(state.spec_task().variables@, page))) by {
                    if kv_has_key(state.spec_task().variables@, "HTTP_TARGET"@) && target_join_ok(
                        state.spec_task().variables@,
                        page,
                    ) {
                        let v = state.spec_task().variables@;
                        let i = choose|i: int|
                            #[trigger] kv_first_at(v, "HTTP_TARGET"@, i) && url_parse_ok(
                                with_scheme(v[i].1@),
                            ) && url_join_ok(with_scheme(v[i].1@), page);
                        let j = choose|j: int| #[trigger] kv_first_at(v, "HTTP_TARGET"@, j) && ({
                            let ws = with_scheme(v[j].1@);
                            if !url_parse_ok(ws) {
                                e matches AgentError::ActionExecutionError(m) && (exists|
                                    rest: Seq<char>,
                                |
                                    m@ == "can't parse "@ + ws + ": "@ + rest)
                            } else {
                                !url_join_ok(ws, page) && (e matches AgentError::ActionExecutionError(m)
                                    && (exists|rest: Seq<char>|
                                    m@ == "can't join "@ + page + " to "@ + ws + ": "@ + rest))
                            }
                        });
                        crate::storage::lemma_kv_first_unique(v, "HTTP_TARGET"@, i, j);
                    }
                }
            }
            return Err(e);
        },
    };
    let st = match state.get_storage("http-headers") {
        Ok(st) => st,
        Err(e) => {
            return Err(e);
        },
    };
    let headers = kv_clone(st.entries());
    proof {
        let i = choose|i: int|
            #[trigger] crate::state::storage_first_at(state.spec_storages(), "http-headers"@, i)
                && *st == state.spec_storages()[i];
        assert(crate::state::storage_first_at(state.spec_storages(), "http-headers"@, i)
            && headers@ == state.spec_storages()[i].spec_entries());
        assert(storages_has_name(state.spec_storages(), "http-headers"@));
        assert(kv_first_at(attrs.spec_attrs()->0, "method"@, mi) && method_text
            == attrs.spec_attrs()->0[mi].1);
    }
    Ok(
        HttpRequest {
            method,
            method_text,
            url: joined.url,
            url_text: joined.text,
            headers,
        },
    )
}

/// The response body text of a successful HTTP exchange, as it is recorded:
/// status line, then each header, a blank line, and the body.
pub open spec fn spec_render_response(
    status: u16,
    reason: Seq<char>,
    headers: Seq<(String, String)>,
    body: Seq<char>,
) -> Seq<char> {
    spec_status_line(status, reason) + "\n"@ + spec_render_headers(headers) + "\n\n"@ + body
}

/// The status code and its reason, separated by one space.
pub open spec fn spec_status_line(status: u16, reason: Seq<char>) -> Seq<char> {
    spec_u16_decimal(status as int) + " "@ + reason
}

/// The decimal rendering of a number.
pub open spec fn spec_u16_decimal(n: int) -> Seq<char>
    decreases n,
{
    if n <= 0 {
        Seq::<char>::empty()
    } else {
        spec_u16_decimal(n / 10) + spec_digit(n % 10)
    }
}

/// One decimal digit.
pub open spec fn spec_digit(d: int) -> Seq<char> {
    if d == 0 {
        "0"@
    } else if d == 1 {
        "1"@
    } else if d == 2 {
        "2"@
    } else if d == 3 {
        "3"@
    } else if d == 4 {
        "4"@
    } else if d == 5 {
        "5"@
    } else if d == 6 {
        "6"@
    } else if d == 7 {
        "7"@
    } else if d == 8 {
        "8"@
    } else {
        "9"@
    }
}

/// Each response header as `name: value` on its own line.
pub open spec fn spec_render_headers(headers: Seq<(String, String)>) -> Seq<char>
    decreases headers.len(),
{
    if headers.len() == 0 {
        Seq::<char>::empty()
    } else {
        spec_render_headers(headers.drop_last()) + headers.last().0@ + ": "@ + headers.last().1@
            + "\n"@
    }
}

/// Whether a status code counts as success: the 2xx class.
pub open spec fn spec_is_success(status: u16) -> bool {
    200 <= status < 300
}

/// Renders a positive number in decimal.
fn u16_decimal(n: u16) -> (r: String)
    requires
        n > 0,
    ensures
        r@ == spec_u16_decimal(n as int),
    decreases n,
{
    let d: u16 = n % 10;
    let ds: &str = if d == 0 {
        "0"
    } else if d == 1 {
        "1"
    } else if d == 2 {
        "2"
    } else if d == 3 {
        "3"
    } else if d == 4 {
        "4"
    } else if d == 5 {
        "5"
    } else if d == 6 {
        "6"
    } else if d == 7 {
        "7"
    } else if d == 8 {
        "8"
    } else {
        "9"
    };
    proof {
        assert(ds@ == spec_digit(n as int % 10));
    }
    let mut s: String = if n / 10 > 0 {
        u16_decimal(n / 10)
    } else {
        String::new()
    };
    s.append(ds);
    proof {
        assert(spec_u16_decimal(n as int / 10) == (if n as int / 10 > 0 {
            spec_u16_decimal(n as int / 10)
        } else {
            Seq::<char>::empty()
        }));
        assert(s@ =~= spec_u16_decimal(n as int));
    }
    s
}

/// The outcome of one HTTP exchange, as plain values: the status code, its
/// reason text, the response headers, and the body.
pub struct HttpResponse {
    pub status: u16,
    pub reason: String,
    pub headers: Vec<(String, String)>,
    pub body: String,
}

/// Turns an HTTP exchange's outcome into the step's result: a 2xx response
/// is a success carrying the full rendered response, anything else is the
/// error `status reason`. A pure function of the response.
pub fn render_response(res: &HttpResponse) -> (r: Result<String, AgentError>)
    requires
        res.status > 0,
    ensures
        match r {
            Ok(text) => spec_is_success(res.status) && text@ == spec_render_response(
                res.status,
                res.reason@,
                res.headers@,
                res.body@,
            ),
            Err(e) => !spec_is_success(res.status) && (e matches AgentError::ActionExecutionError(m)
                && m@ == spec_status_line(res.status, res.reason@)),
        },
{
    let mut line = u16_decimal(res.status);
    line.append(" ");
    line.append(res.reason.as_str());
    if res.status >= 200 && res.status < 300 {
        let mut text = line;
        text.append("\n");
        let mut i: usize = 0;
        while i < res.headers.len()
            invariant
                i <= res.headers@.len(),
                text@ == spec_status_line(res.status, res.reason@) + "\n"@ + spec_render_headers(
                    res.headers@.take(i as int),
                ),
            decreases res.headers@.len() - i,
        {
            text.append(res.headers[i].0.as_str());
            text.append(": ");
            text.append(res.headers[i].1.as_str());
            text.append("\n");
            proof {
                assert(res.headers@.take(i + 1).drop_last() =~= res.headers@.take(i as int));
                assert(res.headers@.take(i + 1).last() == res.headers@[i as int]);
                assert(text@ =~= spec_status_line(res.status, res.reason@) + "\n"@
                    + spec_render_headers(res.headers@.take(i + 1)));
            }
            i = i + 1;
        }
        proof {
            assert(res.headers@.take(res.headers@.len() as int) =~= res.headers@);
        }
        text.append("\n\n");
        text.append(res.body.as_str());
        proof {
            assert(text@ =~= spec_render_response(
                res.status,
                res.reason@,
                res.headers@,
                res.body@,
            ));
        }
        Ok(text)
    } else {
        Err(AgentError::ActionExecutionError(line))
    }
}

/// The `http-headers` storage was emptied: its first occurrence keeps its
/// name and shape with no entries and no current value; everything else is
/// untouched.
pub open spec fn headers_cleared(pre: Seq<Storage>, post: Seq<Storage>) -> bool {
    &&& post.len() == pre.len()
    &&& forall|j: int|
        0 <= j < pre.len() ==> (if #[trigger] storage_first_at(pre, "http-headers"@, j) {
            post[j].spec_name() == pre[j].spec_name() && post[j].spec_type() == pre[j].spec_type()
                && post[j].spec_entries().len() == 0 && post[j].spec_current() is None
        } else {
            post[j] == pre[j]
        })
}

/// One header was set in the `http-headers` storage: at its first
/// occurrence, `key` now maps to `value` — overwritten in place or appended —
/// and everything else is untouched.
pub open spec fn header_set(
    pre: Seq<Storage>,
    post: Seq<Storage>,
    key: String,
    value: String,
) -> bool {
    &&& post.len() == pre.len()
    &&& forall|j: int|
        0 <= j < pre.len() ==> (if #[trigger] storage_first_at(pre, "http-headers"@, j) {
            let st_old = pre[j];
            let st = post[j];
            &&& st.spec_name() == st_old.spec_name()
            &&& st.spec_type() == st_old.spec_type()
            &&& st.spec_current() == st_old.spec_current()
            &&& (kv_has_key(st_old.spec_entries(), key@) ==> exists|n: int|
                #[trigger] kv_first_at(st_old.spec_entries(), key@, n) && st.spec_entries()
                    == st_old.spec_entries().update(n, (key, value)))
            &&& (!kv_has_key(st_old.spec_entries(), key@) ==> st.spec_entries()
                == st_old.spec_entries().push((key, value)))
        } else {
            post[j] == pre[j]
        })
}

/// Empties the `http-headers` storage; fails with the storage error when no
/// active namespace declared it, leaving everything unchanged.
pub fn run_clear_headers(state: &mut State) -> (r: Result<Option<String>, AgentError>)
    ensures
        final(state).spec_task() == old(state).spec_task(),
        final(state).spec_namespaces() == old(state).spec_namespaces(),
        final(state).spec_rag() == old(state).spec_rag(),
        final(state).spec_history() == old(state).spec_history(),
        final(state).spec_complete() == old(state).spec_complete(),
        final(state).spec_metrics() == old(state).spec_metrics(),
        match r {
            Ok(msg) => storages_has_name(old(state).spec_storages(), "http-headers"@) && (
            msg matches Some(m) && m@ == "http headers cleared"@) && headers_cleared(
                old(state).spec_storages(),
                final(state).spec_storages(),
            ),
            Err(e) => !storages_has_name(old(state).spec_storages(), "http-headers"@) && (
            e matches AgentError::StorageNotFound(m) && m@ == "http-headers"@) && *final(state)
                == *old(state),
        },
{
    let idx = match state.get_storage_mut("http-headers") {
        Ok(i) => i,
        Err(e) => {
            return Err(e);
        },
    };
    state.storage_clear(idx);
    proof {
        assert forall|j: int|
            0 <= j < old(state).spec_storages().len() && j != idx as int implies !storage_first_at(
            old(state).spec_storages(),
            "http-headers"@,
            j,
        ) by {
            if storage_first_at(old(state).spec_storages(), "http-headers"@, j) {
                if j >= idx as int {
                    assert(old(state).spec_storages()[idx as int].spec_name() == "http-headers"@);
                }
            }
        }
    }
    Ok(Some(String::from_str("http headers cleared")))
}

/// Sets one header in the `http-headers` storage; fails with the storage
/// error when no active namespace declared it, leaving everything unchanged.
pub fn run_set_header(state: &mut State, key: &String, value: &String) -> (r: Result<
    Option<String>,
    AgentError,
>)
    ensures
        final(state).spec_task() == old(state).spec_task(),
        final(state).spec_namespaces() == old(state).spec_namespaces(),
        final(state).spec_rag() == old(state).spec_rag(),
        final(state).spec_history() == old(state).spec_history(),
        final(state).spec_complete() == old(state).spec_complete(),
        final(state).spec_metrics() == old(state).spec_metrics(),
        match r {
            Ok(msg) => storages_has_name(old(state).spec_storages(), "http-headers"@) && (
            msg matches Some(m) && m@ == "header set"@) && header_set(
                old(state).spec_storages(),
                final(state).spec_storages(),
                *key,
                *value,
            ),
            Err(e) => !storages_has_name(old(state).spec_storages(), "http-headers"@) && (
            e matches AgentError::StorageNotFound(m) && m@ == "http-headers"@) && *final(state)
                == *old(state),
        },
{
    let idx = match state.get_storage_mut("http-headers") {
        Ok(i) => i,
        Err(e) => {
            return Err(e);
        },
    };
    state.storage_add_tagged(idx, key, value);
    proof {
        assert forall|j: int|
            0 <= j < old(state).spec_storages().len() && j != idx as int implies !storage_first_at(
            old(state).spec_storages(),
            "http-headers"@,
            j,
        ) by {
            if storage_first_at(old(state).spec_storages(), "http-headers"@, j) {
                if j >= idx as int {
                    assert(old(state).spec_storages()[idx as int].spec_name() == "http-headers"@);
                }
            }
        }
    }
    Ok(Some(String::from_str("header set")))
}

/// Checks that every variable an action requires is defined, before any side
/// effect: the first undefined one is the error.
pub fn validate_required_variables(state: &State, action: &Action) -> (r: Result<(), AgentError>)
    ensures
        match r {
            Ok(_) => forall|i: int|
                0 <= i < action.spec_required_variables().len() ==> kv_has_key(
                    state.spec_task().variables@,
                    #[trigger] action.spec_required_variables()[i],
                ),
            Err(e) => (e matches AgentError::MissingRequiredVariable(m) && exists|k: int|
                #[trigger] first_missing_at(
                    state.spec_task().variables@,
                    action.spec_required_variables(),
                    k,
                ) && action.spec_required_variables()[k] == m@),
        },
{
    match action.required_variables() {
        Some(vars) => {
            let mut i: usize = 0;
            while i < vars.len()
                invariant
                    i <= vars@.len(),
                    vars@.map_values(|s: String| s@) == action.spec_required_variables(),
                    forall|j: int|
                        0 <= j < i ==> kv_has_key(
                            state.spec_task().variables@,
                            #[trigger] action.spec_required_variables()[j],
                        ),
                decreases vars@.len() - i,
            {
                if state.get_variable(&vars[i]).is_none() {
                    proof {
                        assert(action.spec_required_variables()[i as int] == vars@[i as int]@);
                        assert(first_missing_at(
                            state.spec_task().variables@,
                            action.spec_required_variables(),
                            i as int,
                        ));
                    }
                    return Err(AgentError::MissingRequiredVariable(vars[i].clone()));
                }
                i = i + 1;
            }
            Ok(())
        },
        None => Ok(()),
    }
}

/// Position `k` holds the first required variable that the task leaves
/// undefined.
pub open spec fn first_missing_at(
    vars: Seq<(String, String)>,
    required: Seq<Seq<char>>,
    k: int,
) -> bool {
    &&& 0 <= k < required.len()
    &&& !kv_has_key(vars, required[k])
    &&& forall|j: int| 0 <= j < k ==> kv_has_key(vars, #[trigger] required[j])
}

/// The record at the end of `post` is the one new entry: a failure of `inv`
/// with the message `error`, appended to the unchanged `pre` history.
pub open spec fn history_failed(pre: State, post: State, inv: Invocation, error: Seq<char>) -> bool {
    &&& post.spec_history().len() == pre.spec_history().len() + 1
    &&& post.spec_history().take(pre.spec_history().len() as int) == pre.spec_history()
    &&& post.spec_history().last() matches Execution::Failure { invocation: i2, error: er } && i2
        == inv && er@ == error
}

/// The record at the end of `post` is the one new entry: a success of `inv`
/// with the result text `result`, appended to the unchanged `pre` history.
pub open spec fn history_succeeded(
    pre: State,
    post: State,
    inv: Invocation,
    result: Seq<char>,
) -> bool {
    &&& post.spec_history().len() == pre.spec_history().len() + 1
    &&& post.spec_history().take(pre.spec_history().len() as int) == pre.spec_history()
    &&& post.spec_history().last() matches Execution::Success { invocation: i2, result: res } && i2
        == inv && (res matches Some(m) && m@ == result)
}

/// What one dispatched invocation comes to: either the step was fully
/// handled and recorded here, or a validated piece of outside work remains
/// for the embedding application, which performs it and records the outcome.
pub enum DispatchOutcome {
    /// The step was executed (or refused) and recorded into the history.
    Recorded,
    /// A prepared HTTP request remains to be sent, within the action's
    /// declared timeout; the application records the rendered outcome.
    HttpPending { request: HttpRequest, invocation: Invocation, timeout_secs: Option<u64> },
    /// A task-supplied action remains to be run by the application, within
    /// its declared timeout.
    CustomPending { invocation: Invocation, timeout_secs: Option<u64> },
}

/// What dispatching `inv` against the matched action `act` does to the
/// state: a refusal before any side effect when a required variable is
/// undefined (naming the first such variable), the exact header-storage
/// effect and record for the header actions, a fully prepared pending
/// request for the HTTP action, and a pending hand-off for a task-supplied
/// action.
pub open spec fn dispatched_as(
    pre: State,
    post: State,
    inv: Invocation,
    act: Action,
    r: DispatchOutcome,
) -> bool {
    let vars = pre.spec_task().variables@;
    if exists|k: int|
        0 <= k < act.spec_required_variables().len() && !kv_has_key(
            vars,
            #[trigger] act.spec_required_variables()[k],
        ) {
        &&& r is Recorded
        &&& post.spec_storages() == pre.spec_storages()
        &&& exists|k: int|
            #[trigger] first_missing_at(vars, act.spec_required_variables(), k) && history_failed(
                pre,
                post,
                inv,
                "required variable '"@ + act.spec_required_variables()[k] + "' not defined"@,
            )
    } else {
        match act {
            Action::ClearHeaders => r is Recorded && (if storages_has_name(
                pre.spec_storages(),
                "http-headers"@,
            ) {
                headers_cleared(pre.spec_storages(), post.spec_storages()) && history_succeeded(
                    pre,
                    post,
                    inv,
                    "http headers cleared"@,
                )
            } else {
                post.spec_storages() == pre.spec_storages() && history_failed(
                    pre,
                    post,
                    inv,
                    "storage "@ + "http-headers"@ + " not found"@,
                )
            }),
            Action::SetHeader => r is Recorded && (if inv.spec_attrs() is Some && kv_has_key(
                inv.spec_attrs()->0,
                "name"@,
            ) && inv.payload is Some {
                if storages_has_name(pre.spec_storages(), "http-headers"@) {
                    (exists|i: int|
                        #[trigger] kv_first_at(inv.spec_attrs()->0, "name"@, i) && header_set(
                            pre.spec_storages(),
                            post.spec_storages(),
                            inv.spec_attrs()->0[i].1,
                            inv.payload->0,
                        )) && history_succeeded(pre, post, inv, "header set"@)
                } else {
                    post.spec_storages() == pre.spec_storages() && history_failed(
                        pre,
                        post,
                        inv,
                        "storage "@ + "http-headers"@ + " not found"@,
                    )
                }
            } else {
                post.spec_storages() == pre.spec_storages() && history_failed(
                    pre,
                    post,
                    inv,
                    "http-set-header needs a 'name' attribute and a payload"@,
                )
            }),
            Action::HttpRequest => (if inv.payload is None {
                r is Recorded && post.spec_storages() == pre.spec_storages() && history_failed(
                    pre,
                    post,
                    inv,
                    "http-request needs a payload"@,
                )
            } else if http_request_ready(pre, inv, inv.payload->0@) {
                &&& post == pre
                &&& r matches DispatchOutcome::HttpPending { request, invocation: i2, timeout_secs }
                    && i2 == inv && timeout_secs == Some(30u64) && http_request_matches(
                    pre,
                    inv,
                    inv.payload->0@,
                    request,
                )
            } else {
                &&& r is Recorded
                &&& post.spec_storages() == pre.spec_storages()
                &&& post.spec_history().len() == pre.spec_history().len() + 1
                &&& post.spec_history().take(pre.spec_history().len() as int) == pre.spec_history()
                &&& post.spec_history().last() matches Execution::Failure { invocation: i2, .. }
                    && i2 == inv
            }),
            Action::Custom { .. } => post == pre && (
            r matches DispatchOutcome::CustomPending { invocation: i2, timeout_secs: t } && i2
                == inv && t == act.spec_timeout()),
            _ => true,
        }
    }
}

/// Runs one parsed invocation against the state: the named action is looked
/// up (first match wins), its required variables are checked before any side
/// effect, and the outcome — result, refusal, or pending outside work — is
/// recorded or handed back. A failure never aborts the run: it becomes a
/// failure record.
pub fn dispatch_invocation(state: &mut State, invocation: Invocation) -> (r: DispatchOutcome)
    ensures
        final(state).spec_task() == old(state).spec_task(),
        final(state).spec_namespaces() == old(state).spec_namespaces(),
        final(state).spec_rag() == old(state).spec_rag(),
        final(state).spec_complete() == old(state).spec_complete(),
        final(state).spec_metrics() == old(state).spec_metrics(),
        !crate::state::has_action(old(state).spec_namespaces(), invocation.action@) ==> (r
            is Recorded && history_failed(
            *old(state),
            *final(state),
            invocation,
            "unknown action '"@ + invocation.action@ + "'"@,
        ) && final(state).spec_storages() == old(state).spec_storages()),
        forall|ni: int, ai: int|
            #[trigger] crate::state::action_first_at(
                old(state).spec_namespaces(),
                invocation.action@,
                ni,
                ai,
            ) ==> dispatched_as(
                *old(state),
                *final(state),
                invocation,
                old(state).spec_namespaces()[ni].actions@[ai],
                r,
            ),
        (r is HttpPending || r is CustomPending) ==> *final(state) == *old(state),
        r is Recorded ==> final(state).spec_history().len() == old(state).spec_history().len() + 1
            && final(state).spec_history().take(old(state).spec_history().len() as int) == old(state).spec_history(),
        r is Recorded && final(state).spec_history().last() is Failure ==> final(state).spec_storages() == old(state).spec_storages(),
{
    let ghost pre = *state;
    let action: Action = match state.get_action(invocation.action.as_str()) {
        Some(a) => {
            let act = a.duplicate();
            proof {
                let (n1, a1): (int, int) = choose|ni: int, ai: int|
                    #[trigger] crate::state::action_first_at(
                        pre.spec_namespaces(),
                        invocation.action@,
                        ni,
                        ai,
                    ) && *a == pre.spec_namespaces()[ni].actions@[ai];
                assert(crate::state::action_first_at(
                    pre.spec_namespaces(),
                    invocation.action@,
                    n1,
                    a1,
                ) && pre.spec_namespaces()[n1].actions@[a1].model() == act.model());
            }
            act
        },
        None => {
            proof {
                assert forall|ni: int, ai: int|
                    crate::state::action_first_at(
                        pre.spec_namespaces(),
                        invocation.action@,
                        ni,
                        ai,
                    ) implies false by {
                    assert(crate::state::has_action(pre.spec_namespaces(), invocation.action@));
                }
            }
            let error = String::from_str("unknown action '").concat(
                invocation.action.as_str(),
            ).concat("'");
            state.add_error_to_history(invocation, error);
            proof {
                assert(final(state).spec_history().take(pre.spec_history().len() as int)
                    =~= pre.spec_history());
            }
            return DispatchOutcome::Recorded;
        },
    };
    let ghost (ni0, ai0): (int, int) = choose|ni: int, ai: int|
        #[trigger] crate::state::action_first_at(pre.spec_namespaces(), invocation.action@, ni, ai)
            && pre.spec_namespaces()[ni].actions@[ai].model() == action.model();
    proof {
        assert forall|ni: int, ai: int|
            #[trigger] crate::state::action_first_at(
                pre.spec_namespaces(),
                invocation.action@,
                ni,
                ai,
            ) implies ni == ni0 && ai == ai0 by {
            crate::state::lemma_action_first_unique(
                pre.spec_namespaces(),
                invocation.action@,
                ni,
                ai,
                ni0,
                ai0,
            );
        }
        crate::namespaces::lemma_model_determines(
            pre.spec_namespaces()[ni0].actions@[ai0],
            action,
        );
    }
    // every required variable must be defined before any side effect
    match validate_required_variables(state, &action) {
        Ok(()) => {},
        Err(e) => {
            let error = e.message();
            state.add_error_to_history(invocation, error);
            proof {
                assert(final(state).spec_history().take(pre.spec_history().len() as int)
                    =~= pre.spec_history());
            }
            return DispatchOutcome::Recorded;
        },
    }
    match action {
        Action::ClearHeaders => {
            match run_clear_headers(state) {
                Ok(msg) => state.add_success_to_history(invocation, msg),
                Err(e) => {
                    let error = e.message();
                    state.add_error_to_history(invocation, error);
                },
            }
            proof {
                assert(final(state).spec_history().take(pre.spec_history().len() as int)
                    =~= pre.spec_history());
            }
            DispatchOutcome::Recorded
        },
        Action::SetHeader => {
            let key = invocation.get_attr(&String::from_str("name"));
            match (key, &invocation.payload) {
                (Some(k), Some(_)) => {
                    let data = match &invocation.payload {
                        Some(p) => p.clone(),
                        None => String::new(),
                    };
                    match run_set_header(state, &k, &data) {
                        Ok(msg) => state.add_success_to_history(invocation, msg),
                        Err(e) => {
                            let error = e.message();
                            state.add_error_to_history(invocation, error);
                        },
                    }
                },
                _ => {
                    let error = String::from_str(
                        "http-set-header needs a 'name' attribute and a payload",
                    );
                    state.add_error_to_history(invocation, error);
                },
            }
            proof {
                assert(final(state).spec_history().take(pre.spec_history().len() as int)
                    =~= pre.spec_history());
            }
            DispatchOutcome::Recorded
        },
        Action::HttpRequest => {
            let payload: Option<String> = match &invocation.payload {
                Some(p) => Some(p.clone()),
                None => {
                    let error = String::from_str("http-request needs a payload");
                    state.add_error_to_history(invocation, error);
                    proof {
                        assert(final(state).spec_history().take(pre.spec_history().len() as int)
                            =~= pre.spec_history());
                    }
                    return DispatchOutcome::Recorded;
                },
            };
            match prepare_http_request(state, &invocation, payload) {
                Ok(request) => DispatchOutcome::HttpPending {
                    request,
                    invocation,
                    timeout_secs: Some(30),
                },
                Err(e) => {
                    let error = e.message();
                    state.add_error_to_history(invocation, error);
                    proof {
                        assert(final(state).spec_history().take(pre.spec_history().len() as int)
                            =~= pre.spec_history());
                    }
                    DispatchOutcome::Recorded
                },
            }
        },
        Action::Custom { timeout_secs, .. } => DispatchOutcome::CustomPending {
            invocation,
            timeout_secs,
        },
    }
}

} // verus!
