//! The redirect listener's decision core: parsing of the redirect request
//! line, extraction of the authorization code and CSRF state, and the
//! one-shot wait state machine around it.
//!
//! The listener accepts connections sequentially; the embedding program
//! reads each connection's bytes and hands the request text to the decision
//! functions here. Only the first line of the request is parsed. A request
//! whose path does not match the redirect path gets no response and the
//! wait goes on; a redirect-path request line without a trailing word after
//! the query is malformed; success is declared only once a non-empty `code`
//! has been collected and a `state` value parses as an unsigned 32-bit
//! integer equal to the expected nonce.

use vstd::prelude::*;

use crate::errors::FlowError;
use crate::strutil::{
    find_char, find_from, parse_u32, parse_u32_exec, rfind_char, rfind_in, str_eq,
    str_has_prefix,
};

verus! {

/// The request-line prefix of a redirect to the capture endpoint.
pub open spec fn redirect_prefix() -> Seq<char> {
    "GET /oauth2/redirect?"@
}

/// End of the first line: the index of the first newline, or the whole text.
pub open spec fn line_end(req: Seq<char>) -> int {
    match find_from(req, '\n', 0) {
        Some(i) => i,
        None => req.len() as int,
    }
}

/// The first line of the request, without a trailing carriage return.
pub open spec fn first_line(req: Seq<char>) -> Seq<char> {
    let l = req.subrange(0, line_end(req));
    if l.len() > 0 && l[l.len() - 1] == '\r' {
        l.subrange(0, l.len() - 1)
    } else {
        l
    }
}

/// Whether the request line begins with the redirect-path prefix.
pub open spec fn is_redirect_line(line: Seq<char>) -> bool {
    line.len() >= redirect_prefix().len()
        && line.subrange(0, redirect_prefix().len() as int) == redirect_prefix()
}

/// A redirect-path request line with no space after the query is malformed:
/// the query string cannot be delimited.
pub open spec fn line_malformed(line: Seq<char>) -> bool {
    is_redirect_line(line) && match rfind_in(line, ' ', line.len() as int) {
        Some(sp) => sp < redirect_prefix().len(),
        None => true,
    }
}

/// The query string of a well-formed redirect request line: between the
/// prefix and the last space. Empty for any other line.
pub open spec fn spec_query(line: Seq<char>) -> Seq<char> {
    if is_redirect_line(line) && !line_malformed(line) {
        line.subrange(
            redirect_prefix().len() as int,
            rfind_in(line, ' ', line.len() as int)->Some_0,
        )
    } else {
        Seq::<char>::empty()
    }
}

/// End of the first `&`-separated segment of a query.
pub open spec fn seg_end(q: Seq<char>) -> int {
    match find_from(q, '&', 0) {
        Some(i) => i,
        None => q.len() as int,
    }
}

/// The end of the first segment lies within the query.
pub proof fn lemma_seg_end_bounds(q: Seq<char>)
    ensures
        0 <= seg_end(q) <= q.len(),
{
    crate::strutil::lemma_find_from_bounds(q, '&', 0);
}

/// The first `&`-separated segment of a query.
pub open spec fn head_seg(q: Seq<char>) -> Seq<char> {
    q.subrange(0, seg_end(q))
}

/// Whether a `key=value` segment carries an `=` at all.
pub open spec fn pair_has_eq(p: Seq<char>) -> bool {
    find_from(p, '=', 0) is Some
}

/// The key of a segment: everything before the first `=`.
pub open spec fn pair_key(p: Seq<char>) -> Seq<char> {
    p.subrange(0, find_from(p, '=', 0)->Some_0)
}

/// The value of a segment: between the first `=` and the second, or the end.
pub open spec fn pair_value(p: Seq<char>) -> Seq<char> {
    let i = find_from(p, '=', 0)->Some_0;
    let j = match find_from(p, '=', i + 1) {
        Some(j) => j,
        None => p.len() as int,
    };
    p.subrange(i + 1, j)
}

/// How one segment updates the collected code and the state check.
pub open spec fn pair_update(p: Seq<char>, nonce: u32, code: Seq<char>, secure: bool) -> (
    Seq<char>,
    bool,
) {
    if !pair_has_eq(p) {
        (code, secure)
    } else if pair_key(p) == "code"@ {
        (pair_value(p), secure)
    } else if pair_key(p) == "state"@ {
        (code, parse_u32(pair_value(p)) == Some(nonce))
    } else {
        (code, secure)
    }
}

/// Scan the query left to right, accumulating `code` and the state check;
/// success is declared at the first segment with an `=` after which the
/// collected code is non-empty and the last seen state matched the nonce.
pub open spec fn scan_query(q: Seq<char>, nonce: u32, code: Seq<char>, secure: bool) -> Option<
    Seq<char>,
>
    decreases q.len(),
    via scan_query_decreases
{
    let p = head_seg(q);
    let st = pair_update(p, nonce, code, secure);
    if pair_has_eq(p) && st.0.len() > 0 && st.1 {
        Some(st.0)
    } else if seg_end(q) >= q.len() {
        None::<Seq<char>>
    } else {
        scan_query(q.subrange(seg_end(q) + 1, q.len() as int), nonce, st.0, st.1)
    }
}

#[via_fn]
proof fn scan_query_decreases(q: Seq<char>, nonce: u32, code: Seq<char>, secure: bool) {
    lemma_seg_end_bounds(q);
}

/// Whether some segment of the query is a `state` pair whose value does not
/// parse to the expected nonce.
pub open spec fn query_has_mismatched_state(q: Seq<char>, nonce: u32) -> bool
    decreases q.len(),
    via query_has_mismatched_state_decreases
{
    let p = head_seg(q);
    let here = pair_has_eq(p) && pair_key(p) == "state"@ && parse_u32(pair_value(p)) != Some(
        nonce,
    );
    if here {
        true
    } else if seg_end(q) >= q.len() {
        false
    } else {
        query_has_mismatched_state(q.subrange(seg_end(q) + 1, q.len() as int), nonce)
    }
}

#[via_fn]
proof fn query_has_mismatched_state_decreases(q: Seq<char>, nonce: u32) {
    lemma_seg_end_bounds(q);
}

/// Whether some segment of the query is a `code` pair.
pub open spec fn query_has_code_pair(q: Seq<char>) -> bool
    decreases q.len(),
    via query_has_code_pair_decreases
{
    let p = head_seg(q);
    if pair_has_eq(p) && pair_key(p) == "code"@ {
        true
    } else if seg_end(q) >= q.len() {
        false
    } else {
        query_has_code_pair(q.subrange(seg_end(q) + 1, q.len() as int))
    }
}

#[via_fn]
proof fn query_has_code_pair_decreases(q: Seq<char>) {
    lemma_seg_end_bounds(q);
}

/// Whether every `state` pair of the query carries a value that parses to
/// `n`.
pub open spec fn query_states_all(q: Seq<char>, n: u32) -> bool
    decreases q.len(),
    via query_states_all_decreases
{
    let p = head_seg(q);
    let ok = !(pair_has_eq(p) && pair_key(p) == "state"@) || parse_u32(pair_value(p)) == Some(n);
    if !ok {
        false
    } else if seg_end(q) >= q.len() {
        true
    } else {
        query_states_all(q.subrange(seg_end(q) + 1, q.len() as int), n)
    }
}

#[via_fn]
proof fn query_states_all_decreases(q: Seq<char>, n: u32) {
    lemma_seg_end_bounds(q);
}

/// Whether some segment of the query is a `state` pair whose value parses
/// to the expected nonce.
pub open spec fn query_has_matching_state(q: Seq<char>, nonce: u32) -> bool
    decreases q.len(),
    via query_has_matching_state_decreases
{
    let p = head_seg(q);
    if pair_has_eq(p) && pair_key(p) == "state"@ && parse_u32(pair_value(p)) == Some(nonce) {
        true
    } else if seg_end(q) >= q.len() {
        false
    } else {
        query_has_matching_state(q.subrange(seg_end(q) + 1, q.len() as int), nonce)
    }
}

#[via_fn]
proof fn query_has_matching_state_decreases(q: Seq<char>, nonce: u32) {
    lemma_seg_end_bounds(q);
}

/// The authorization code that the request yields, if any.
pub open spec fn spec_granted(req: Seq<char>, nonce: u32) -> Option<Seq<char>> {
    let line = first_line(req);
    if is_redirect_line(line) && !line_malformed(line) {
        scan_query(spec_query(line), nonce, Seq::<char>::empty(), false)
    } else {
        None::<Seq<char>>
    }
}

/// Whether the request is a redirect-path request with a malformed line.
pub open spec fn spec_malformed(req: Seq<char>) -> bool {
    line_malformed(first_line(req))
}

/// Whether the request presents some `state` that does not match `nonce`.
pub open spec fn spec_state_mismatch(req: Seq<char>, nonce: u32) -> bool {
    query_has_mismatched_state(spec_query(first_line(req)), nonce)
}

/// The decision taken on one incoming request.
#[derive(Debug)]
pub enum RedirectDecision {
    /// A valid redirect: the code is returned and the success response sent.
    Granted { code: String },
    /// Not a valid redirect: no response is sent, the listener keeps waiting.
    Ignored { state_mismatch: bool },
    /// A redirect-path request whose request line is malformed.
    Malformed,
}

/// Handle one HTTP request by parsing its request line and extracting the
/// authorization code guarded by the CSRF state.
pub fn handle_request(request: &str, security_state: u32) -> (r: RedirectDecision)
    ensures
        r is Granted <==> spec_granted(request@, security_state) is Some,
        r is Granted ==> r->code@ == spec_granted(request@, security_state)->Some_0,
        r is Malformed <==> (spec_granted(request@, security_state) is None && spec_malformed(
            request@,
        )),
        r is Ignored ==> r->state_mismatch == spec_state_mismatch(request@, security_state),
{
    let n = request.unicode_len();
    let line_to = match find_char(request, '\n', 0) {
        Some(i) => i,
        None => n,
    };
    let mut line = request.substring_char(0, line_to);
    let ln = line.unicode_len();
    if ln > 0 && line.get_char(ln - 1) == '\r' {
        line = line.substring_char(0, ln - 1);
    }
    assert(line@ == first_line(request@));

    let prefix = "GET /oauth2/redirect?";
    let plen = prefix.unicode_len();
    if !str_has_prefix(line, prefix) {
        assert(!is_redirect_line(first_line(request@)));
        return RedirectDecision::Ignored { state_mismatch: false };
    }
    assert(is_redirect_line(line@));

    let sp = match rfind_char(line, ' ') {
        Some(sp) => sp,
        None => {
            assert(line_malformed(line@));
            return RedirectDecision::Malformed;
        },
    };
    if sp < plen {
        assert(line_malformed(line@));
        return RedirectDecision::Malformed;
    }
    assert(!line_malformed(line@));

    let query = line.substring_char(plen, sp);
    assert(query@ == spec_query(line@));
    let qn = query.unicode_len();

    let mut pos: usize = 0;
    let mut code = String::new();
    let mut secure = false;
    let mut mismatch = false;
    let ghost full = query@;
    let ghost nonce = security_state;
    assert(full.subrange(0, qn as int) =~= full);
    while pos <= qn
        invariant
            qn == full.len(),
            qn <= usize::MAX - 1,
            pos <= qn + 1,
            query@ == full,
            scan_query(full, nonce, Seq::<char>::empty(), false) == (if pos <= qn {
                scan_query(full.subrange(pos as int, qn as int), nonce, code@, secure)
            } else {
                None::<Seq<char>>
            }),
            query_has_mismatched_state(full, nonce) == (mismatch || (pos <= qn
                && query_has_mismatched_state(full.subrange(pos as int, qn as int), nonce))),
            nonce == security_state,
            full == spec_query(first_line(request@)),
            is_redirect_line(first_line(request@)),
            !line_malformed(first_line(request@)),
        decreases qn + 1 - pos,
    {
        let ghost suffix = full.subrange(pos as int, qn as int);
        let ghost code0 = code@;
        let ghost secure0 = secure;
        let ghost mismatch0 = mismatch;
        let seg_to = match find_char(query, '&', pos) {
            Some(i) => i,
            None => qn,
        };
        proof {
            crate::strutil::lemma_find_from_shift(full, '&', pos as int, pos as int);
            assert(seg_end(suffix) == seg_to - pos);
        }
        let seg = query.substring_char(pos, seg_to);
        assert(seg@ =~= head_seg(suffix));
        let sn = seg.unicode_len();

        let mut had_eq = false;
        match find_char(seg, '=', 0) {
            None => {
                assert(!pair_has_eq(seg@));
            },
            Some(e) => {
                had_eq = true;
                let key = seg.substring_char(0, e);
                assert(key@ == pair_key(seg@));
                let vend = match find_char(seg, '=', e + 1) {
                    Some(j) => j,
                    None => sn,
                };
                let value = seg.substring_char(e + 1, vend);
                assert(value@ == pair_value(seg@));
                if str_eq(key, "code") {
                    code = value.to_owned();
                } else if str_eq(key, "state") {
                    match parse_u32_exec(value) {
                        Some(v) => {
                            if v == security_state {
                                secure = true;
                            } else {
                                secure = false;
                                mismatch = true;
                            }
                        },
                        None => {
                            secure = false;
                            mismatch = true;
                        },
                    }
                }
                assert((code@, secure) == pair_update(seg@, nonce, code0, secure0));
            },
        }
        let code_nonempty = code.as_str().unicode_len() > 0;
        if had_eq && code_nonempty && secure {
            proof {
                assert(scan_query(suffix, nonce, code0, secure0) == Some(code@));
                assert(scan_query(full, nonce, Seq::<char>::empty(), false) == Some(code@));
                assert(spec_granted(request@, security_state) == Some(code@));
            }
            return RedirectDecision::Granted { code };
        }
        proof {
            reveal_strlit("code");
            reveal_strlit("state");
            assert((code@, secure) == pair_update(head_seg(suffix), nonce, code0, secure0));
            assert(!(pair_has_eq(head_seg(suffix)) && code@.len() > 0 && secure));
            let here = pair_has_eq(head_seg(suffix)) && pair_key(head_seg(suffix)) == "state"@
                && parse_u32(pair_value(head_seg(suffix))) != Some(nonce);
            assert(mismatch == (mismatch0 || here));
            if seg_end(suffix) >= suffix.len() {
                assert(query_has_mismatched_state(suffix, nonce) == here);
            } else {
                assert(query_has_mismatched_state(suffix, nonce) == (here
                    || query_has_mismatched_state(
                    suffix.subrange(seg_end(suffix) + 1, suffix.len() as int),
                    nonce,
                )));
            }
        }
        if seg_to >= qn {
            pos = qn + 1;
            assert(seg_end(suffix) >= suffix.len());
            assert(scan_query(suffix, nonce, code0, secure0) is None);
        } else {
            pos = seg_to + 1;
            assert(suffix.subrange(seg_end(suffix) + 1, suffix.len() as int) =~= full.subrange(
                pos as int,
                qn as int,
            ));
        }
    }
    RedirectDecision::Ignored { state_mismatch: mismatch }
}

/// The fixed response sent on the one successful redirect.
pub open spec fn spec_success_response() -> Seq<char> {
    "HTTP/1.1 200 OK\r\nContent-Length: 53\r\n\r\nAuthorization Granted! You may now close this window."@
}

/// The body portion of the success response.
pub open spec fn spec_success_body() -> Seq<char> {
    "Authorization Granted! You may now close this window."@
}

/// The success response carries the announced body length: the body after
/// the blank line is exactly the 53 characters that `Content-Length` names.
pub proof fn lemma_success_response_shape()
    ensures
        spec_success_body().len() == 53,
        spec_success_response().len() == 92,
        spec_success_response().subrange(39, 92) == spec_success_body(),
{
    reveal_strlit(
        "HTTP/1.1 200 OK\r\nContent-Length: 53\r\n\r\nAuthorization Granted! You may now close this window.",
    );
    reveal_strlit("Authorization Granted! You may now close this window.");
    assert(spec_success_response().subrange(39, 92) =~= spec_success_body());
}

/// The fixed minimal response written back on the one successful redirect.
pub fn success_response() -> (r: String)
    ensures
        r@ == spec_success_response(),
{
    "HTTP/1.1 200 OK\r\nContent-Length: 53\r\n\r\nAuthorization Granted! You may now close this window.".to_owned()
}

/// What a listener does about a mismatched CSRF state: tolerate stray or
/// malicious probes and keep waiting, or surface the mismatch as a security
/// failure.
#[derive(Clone, Copy, Debug, PartialEq, Eq, Structural)]
pub enum MismatchPolicy {
    /// Keep waiting for further connections.
    Tolerate,
    /// Abort the wait with a state-mismatch failure.
    Reject,
}

/// The phase of one redirect wait.
#[derive(Clone, Copy, Debug, PartialEq, Eq, Structural)]
pub enum WaitPhase {
    /// Still accepting connections.
    Waiting,
    /// A code was captured; the listener accepts nothing further.
    Done,
    /// The wait was aborted.
    Failed,
}

/// What the embedding accept loop must do after one connection was handled.
#[derive(Debug)]
pub enum WaitAction {
    /// Write the response, close, stop accepting, and hand the code on.
    Respond { response: String, code: String },
    /// Send nothing, close, and accept the next connection.
    NoResponse,
    /// Stop accepting and surface the error.
    Fail { error: FlowError },
}

/// Server used to receive OAuth2 authorization redirect requests: the
/// one-shot decision core that the accept loop drives. The embedding
/// program owns the socket, reads each connection's request text, and hands
/// it to `on_request`; a configurable deadline is signalled via
/// `on_timeout`.
pub struct OAuth2AuthorizationServer {
    /// The nonce that a redirect's `state` must present.
    pub security_state: u32,
    /// What to do about a redirect with a mismatched `state`.
    pub policy: MismatchPolicy,
    /// Where the wait stands.
    pub phase: WaitPhase,
}

impl OAuth2AuthorizationServer {
    /// Start a wait for one redirect carrying the given nonce.
    pub fn start(security_state: u32, policy: MismatchPolicy) -> (s: Self)
        ensures
            s.security_state == security_state,
            s.policy == policy,
            s.phase is Waiting,
    {
        OAuth2AuthorizationServer { security_state, policy, phase: WaitPhase::Waiting }
    }

    /// Handle one connection's request text. On the one valid redirect the
    /// success response is returned for writing and the wait ends; on a
    /// malformed redirect request line the wait fails; otherwise no response
    /// is sent and, unless a mismatched state must be rejected, the wait
    /// goes on.
    pub fn on_request(&mut self, request: &str) -> (r: WaitAction)
        requires
            old(self).phase is Waiting,
        ensures
            final(self).security_state == old(self).security_state,
            final(self).policy == old(self).policy,
            ({
                let granted = spec_granted(request@, old(self).security_state);
                let mismatch = spec_state_mismatch(request@, old(self).security_state);
                if granted is Some {
                    &&& r is Respond
                    &&& r->code@ == granted->Some_0
                    &&& r->response@ == spec_success_response()
                    &&& final(self).phase is Done
                } else if spec_malformed(request@) {
                    &&& r is Fail
                    &&& r->error is Protocol
                    &&& final(self).phase is Failed
                } else if mismatch && old(self).policy is Reject {
                    &&& r is Fail
                    &&& r->error is StateMismatch
                    &&& final(self).phase is Failed
                } else {
                    &&& r is NoResponse
                    &&& final(self).phase is Waiting
                }
            }),
    {
        match handle_request(request, self.security_state) {
            RedirectDecision::Granted { code } => {
                self.phase = WaitPhase::Done;
                WaitAction::Respond { response: success_response(), code }
            },
            RedirectDecision::Malformed => {
                self.phase = WaitPhase::Failed;
                WaitAction::Fail { error: FlowError::Protocol }
            },
            RedirectDecision::Ignored { state_mismatch } => {
                if state_mismatch && matches!(self.policy, MismatchPolicy::Reject) {
                    self.phase = WaitPhase::Failed;
                    WaitAction::Fail { error: FlowError::StateMismatch }
                } else {
                    WaitAction::NoResponse
                }
            },
        }
    }

    /// The configured deadline elapsed with no valid redirect: the wait
    /// fails with a timeout.
    pub fn on_timeout(&mut self) -> (r: FlowError)
        requires
            old(self).phase is Waiting,
        ensures
            r is Timeout,
            final(self).phase is Failed,
            final(self).security_state == old(self).security_state,
            final(self).policy == old(self).policy,
    {
        self.phase = WaitPhase::Failed;
        FlowError::Timeout
    }
}

/// A redirect presenting only mismatched `state` values never yields a
/// returned authorization code: if every `state` pair of the request's
/// query parses to `presented` and the listener expects a different
/// `expected`, no code is granted.
pub proof fn lemma_mismatched_state_never_grants(req: Seq<char>, expected: u32, presented: u32)
    requires
        expected != presented,
        query_states_all(spec_query(first_line(req)), presented),
    ensures
        spec_granted(req, expected) is None,
{
    lemma_scan_states_all(spec_query(first_line(req)), expected, presented, Seq::<char>::empty());
}

/// Scanning a query whose every `state` value parses to a different nonce,
/// starting from an unmatched state, never succeeds.
proof fn lemma_scan_states_all(q: Seq<char>, expected: u32, presented: u32, code: Seq<char>)
    requires
        expected != presented,
        query_states_all(q, presented),
    ensures
        scan_query(q, expected, code, false) is None,
    decreases q.len(),
{
    lemma_seg_end_bounds(q);
    let p = head_seg(q);
    let st = pair_update(p, expected, code, false);
    assert(!st.1);
    if seg_end(q) >= q.len() {
    } else {
        lemma_scan_states_all(q.subrange(seg_end(q) + 1, q.len() as int), expected, presented, st.0);
    }
}

/// A code is granted only where some `state` pair of the request's query
/// parses to exactly the nonce the listener expects: no redirect without a
/// matching state ever yields a code.
pub proof fn lemma_grant_needs_matching_state(req: Seq<char>, nonce: u32)
    requires
        spec_granted(req, nonce) is Some,
    ensures
        query_has_matching_state(spec_query(first_line(req)), nonce),
{
    lemma_scan_needs_matching_state(
        spec_query(first_line(req)),
        nonce,
        Seq::<char>::empty(),
        false,
    );
}

/// A successful scan that did not start in a matched state passes a `state`
/// pair whose value parses to the nonce.
proof fn lemma_scan_needs_matching_state(q: Seq<char>, nonce: u32, code: Seq<char>, secure: bool)
    requires
        scan_query(q, nonce, code, secure) is Some,
    ensures
        secure || query_has_matching_state(q, nonce),
    decreases q.len(),
{
    lemma_seg_end_bounds(q);
    let p = head_seg(q);
    let st = pair_update(p, nonce, code, secure);
    if pair_has_eq(p) && st.0.len() > 0 && st.1 {
    } else if seg_end(q) >= q.len() {
    } else {
        lemma_scan_needs_matching_state(
            q.subrange(seg_end(q) + 1, q.len() as int),
            nonce,
            st.0,
            st.1,
        );
    }
}

/// A redirect request whose query has no `code` pair never yields a
/// returned authorization code, whatever nonce it presents.
pub proof fn lemma_missing_code_never_grants(req: Seq<char>, nonce: u32)
    requires
        !query_has_code_pair(spec_query(first_line(req))),
    ensures
        spec_granted(req, nonce) is None,
{
    lemma_scan_no_code(spec_query(first_line(req)), nonce, Seq::<char>::empty(), false);
}

/// Scanning a query without a `code` pair, starting from an empty code,
/// never succeeds.
proof fn lemma_scan_no_code(q: Seq<char>, nonce: u32, code: Seq<char>, secure: bool)
    requires
        !query_has_code_pair(q),
        code.len() == 0,
    ensures
        scan_query(q, nonce, code, secure) is None,
    decreases q.len(),
{
    lemma_seg_end_bounds(q);
    let p = head_seg(q);
    let st = pair_update(p, nonce, code, secure);
    assert(st.0 == code);
    if seg_end(q) >= q.len() {
    } else {
        lemma_scan_no_code(q.subrange(seg_end(q) + 1, q.len() as int), nonce, st.0, st.1);
    }
}

} // verus!
