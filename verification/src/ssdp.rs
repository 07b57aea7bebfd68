//! Classification of inbound discovery datagrams.
//!
//! A discovery datagram is an HTTP-styled text packet: a start line, then
//! header lines, each pair separated by `\r\n`, ending with a blank line.
//! [`SsdpRequest::new`] turns an arbitrary payload — the input is
//! attacker-controlled and may be malformed in any way — into a structured
//! audit record, never failing: whatever cannot be parsed leaves a field
//! absent or a flag false, and the raw payload is always retained verbatim.
//! The record produced is exactly [`classify_spec`] of the payload.

use vstd::prelude::*;

use crate::scan::{bytes_eq, find1, find1_from, find2, find2_from, lemma_find1, lemma_find2,
    split2, split2_exec, subvec, views_of};

verus! {

/// The bytes of `HOST`.
pub open spec fn name_host() -> Seq<u8> {
    seq![72u8, 79u8, 83u8, 84u8]
}

fn host_vec() -> (v: Vec<u8>)
    ensures
        v@ == name_host(),
{
    let v: Vec<u8> = vec![72u8, 79u8, 83u8, 84u8];
    proof {
        assert(v@ =~= name_host());
    }
    v
}

/// The bytes of `MAN`.
pub open spec fn name_man() -> Seq<u8> {
    seq![77u8, 65u8, 78u8]
}

fn man_vec() -> (v: Vec<u8>)
    ensures
        v@ == name_man(),
{
    let v: Vec<u8> = vec![77u8, 65u8, 78u8];
    proof {
        assert(v@ =~= name_man());
    }
    v
}

/// The bytes of `MX`.
pub open spec fn name_mx() -> Seq<u8> {
    seq![77u8, 88u8]
}

fn mx_vec() -> (v: Vec<u8>)
    ensures
        v@ == name_mx(),
{
    let v: Vec<u8> = vec![77u8, 88u8];
    proof {
        assert(v@ =~= name_mx());
    }
    v
}

/// The bytes of `ST`.
pub open spec fn name_st() -> Seq<u8> {
    seq![83u8, 84u8]
}

fn st_vec() -> (v: Vec<u8>)
    ensures
        v@ == name_st(),
{
    let v: Vec<u8> = vec![83u8, 84u8];
    proof {
        assert(v@ =~= name_st());
    }
    v
}

/// The bytes of `USER-AGENT`.
pub open spec fn name_user_agent() -> Seq<u8> {
    seq![85u8, 83u8, 69u8, 82u8, 45u8, 65u8, 71u8, 69u8, 78u8, 84u8]
}

fn user_agent_vec() -> (v: Vec<u8>)
    ensures
        v@ == name_user_agent(),
{
    let v: Vec<u8> = vec![85u8, 83u8, 69u8, 82u8, 45u8, 65u8, 71u8, 69u8, 78u8, 84u8];
    proof {
        assert(v@ =~= name_user_agent());
    }
    v
}

/// The bytes of `CACHE-CONTROL`.
pub open spec fn name_cache_control() -> Seq<u8> {
    seq![67u8, 65u8, 67u8, 72u8, 69u8, 45u8, 67u8, 79u8, 78u8, 84u8, 82u8, 79u8, 76u8]
}

fn cache_control_vec() -> (v: Vec<u8>)
    ensures
        v@ == name_cache_control(),
{
    let v: Vec<u8> = vec![67u8, 65u8, 67u8, 72u8, 69u8, 45u8, 67u8, 79u8, 78u8, 84u8, 82u8, 79u8, 76u8];
    proof {
        assert(v@ =~= name_cache_control());
    }
    v
}

/// The bytes of `LOCATION`.
pub open spec fn name_location() -> Seq<u8> {
    seq![76u8, 79u8, 67u8, 65u8, 84u8, 73u8, 79u8, 78u8]
}

fn location_vec() -> (v: Vec<u8>)
    ensures
        v@ == name_location(),
{
    let v: Vec<u8> = vec![76u8, 79u8, 67u8, 65u8, 84u8, 73u8, 79u8, 78u8];
    proof {
        assert(v@ =~= name_location());
    }
    v
}

/// The bytes of `NT`.
pub open spec fn name_nt() -> Seq<u8> {
    seq![78u8, 84u8]
}

fn nt_vec() -> (v: Vec<u8>)
    ensures
        v@ == name_nt(),
{
    let v: Vec<u8> = vec![78u8, 84u8];
    proof {
        assert(v@ =~= name_nt());
    }
    v
}

/// The bytes of `NTS`.
pub open spec fn name_nts() -> Seq<u8> {
    seq![78u8, 84u8, 83u8]
}

fn nts_vec() -> (v: Vec<u8>)
    ensures
        v@ == name_nts(),
{
    let v: Vec<u8> = vec![78u8, 84u8, 83u8];
    proof {
        assert(v@ =~= name_nts());
    }
    v
}

/// The bytes of `SERVER`.
pub open spec fn name_server() -> Seq<u8> {
    seq![83u8, 69u8, 82u8, 86u8, 69u8, 82u8]
}

fn server_vec() -> (v: Vec<u8>)
    ensures
        v@ == name_server(),
{
    let v: Vec<u8> = vec![83u8, 69u8, 82u8, 86u8, 69u8, 82u8];
    proof {
        assert(v@ =~= name_server());
    }
    v
}

/// The bytes of `USN`.
pub open spec fn name_usn() -> Seq<u8> {
    seq![85u8, 83u8, 78u8]
}

fn usn_vec() -> (v: Vec<u8>)
    ensures
        v@ == name_usn(),
{
    let v: Vec<u8> = vec![85u8, 83u8, 78u8];
    proof {
        assert(v@ =~= name_usn());
    }
    v
}

/// The bytes of `BOOTID.UPNP.ORG`.
pub open spec fn name_bootid() -> Seq<u8> {
    seq![66u8, 79u8, 79u8, 84u8, 73u8, 68u8, 46u8, 85u8, 80u8, 78u8, 80u8, 46u8, 79u8, 82u8, 71u8]
}

fn bootid_vec() -> (v: Vec<u8>)
    ensures
        v@ == name_bootid(),
{
    let v: Vec<u8> = vec![66u8, 79u8, 79u8, 84u8, 73u8, 68u8, 46u8, 85u8, 80u8, 78u8, 80u8, 46u8, 79u8, 82u8, 71u8];
    proof {
        assert(v@ =~= name_bootid());
    }
    v
}

/// The bytes of `NEXTBOOTID.UPNP.ORG`.
pub open spec fn name_nextbootid() -> Seq<u8> {
    seq![78u8, 69u8, 88u8, 84u8, 66u8, 79u8, 79u8, 84u8, 73u8, 68u8, 46u8, 85u8, 80u8, 78u8, 80u8, 46u8, 79u8, 82u8, 71u8]
}

fn nextbootid_vec() -> (v: Vec<u8>)
    ensures
        v@ == name_nextbootid(),
{
    let v: Vec<u8> = vec![78u8, 69u8, 88u8, 84u8, 66u8, 79u8, 79u8, 84u8, 73u8, 68u8, 46u8, 85u8, 80u8, 78u8, 80u8, 46u8, 79u8, 82u8, 71u8];
    proof {
        assert(v@ =~= name_nextbootid());
    }
    v
}

/// The bytes of `CONFIGID.UPNP.ORG`.
pub open spec fn name_configid() -> Seq<u8> {
    seq![67u8, 79u8, 78u8, 70u8, 73u8, 71u8, 73u8, 68u8, 46u8, 85u8, 80u8, 78u8, 80u8, 46u8, 79u8, 82u8, 71u8]
}

fn configid_vec() -> (v: Vec<u8>)
    ensures
        v@ == name_configid(),
{
    let v: Vec<u8> = vec![67u8, 79u8, 78u8, 70u8, 73u8, 71u8, 73u8, 68u8, 46u8, 85u8, 80u8, 78u8, 80u8, 46u8, 79u8, 82u8, 71u8];
    proof {
        assert(v@ =~= name_configid());
    }
    v
}

/// The bytes of `SEARCHPORT.UPNP.ORG`.
pub open spec fn name_searchport() -> Seq<u8> {
    seq![83u8, 69u8, 65u8, 82u8, 67u8, 72u8, 80u8, 79u8, 82u8, 84u8, 46u8, 85u8, 80u8, 78u8, 80u8, 46u8, 79u8, 82u8, 71u8]
}

fn searchport_vec() -> (v: Vec<u8>)
    ensures
        v@ == name_searchport(),
{
    let v: Vec<u8> = vec![83u8, 69u8, 65u8, 82u8, 67u8, 72u8, 80u8, 79u8, 82u8, 84u8, 46u8, 85u8, 80u8, 78u8, 80u8, 46u8, 79u8, 82u8, 71u8];
    proof {
        assert(v@ =~= name_searchport());
    }
    v
}

/// The bytes of `DATE`.
pub open spec fn name_date() -> Seq<u8> {
    seq![68u8, 65u8, 84u8, 69u8]
}

fn date_vec() -> (v: Vec<u8>)
    ensures
        v@ == name_date(),
{
    let v: Vec<u8> = vec![68u8, 65u8, 84u8, 69u8];
    proof {
        assert(v@ =~= name_date());
    }
    v
}

/// The bytes of `EXT`.
pub open spec fn name_ext() -> Seq<u8> {
    seq![69u8, 88u8, 84u8]
}

fn ext_vec() -> (v: Vec<u8>)
    ensures
        v@ == name_ext(),
{
    let v: Vec<u8> = vec![69u8, 88u8, 84u8];
    proof {
        assert(v@ =~= name_ext());
    }
    v
}

/// The bytes of `HTTP/1.1`.
pub open spec fn name_http11() -> Seq<u8> {
    seq![72u8, 84u8, 84u8, 80u8, 47u8, 49u8, 46u8, 49u8]
}

fn http11_vec() -> (v: Vec<u8>)
    ensures
        v@ == name_http11(),
{
    let v: Vec<u8> = vec![72u8, 84u8, 84u8, 80u8, 47u8, 49u8, 46u8, 49u8];
    proof {
        assert(v@ =~= name_http11());
    }
    v
}

/// The bytes of `M-SEARCH`.
pub open spec fn name_msearch() -> Seq<u8> {
    seq![77u8, 45u8, 83u8, 69u8, 65u8, 82u8, 67u8, 72u8]
}

fn msearch_vec() -> (v: Vec<u8>)
    ensures
        v@ == name_msearch(),
{
    let v: Vec<u8> = vec![77u8, 45u8, 83u8, 69u8, 65u8, 82u8, 67u8, 72u8];
    proof {
        assert(v@ =~= name_msearch());
    }
    v
}

/// The bytes of `NOTIFY`.
pub open spec fn name_notify() -> Seq<u8> {
    seq![78u8, 79u8, 84u8, 73u8, 70u8, 89u8]
}

fn notify_vec() -> (v: Vec<u8>)
    ensures
        v@ == name_notify(),
{
    let v: Vec<u8> = vec![78u8, 79u8, 84u8, 73u8, 70u8, 89u8];
    proof {
        assert(v@ =~= name_notify());
    }
    v
}


/// Start-line fields of a datagram: either a request line (method,
/// resource, protocol) or a status line (protocol, status code, reason
/// phrase). A field whose token is missing is absent.
#[verifier::ext_equal]
pub struct StartLine {
    pub method: Option<Seq<u8>>,
    pub uri: Option<Seq<u8>>,
    pub protocol: Option<Seq<u8>>,
    pub status: Option<Seq<u8>>,
    pub reason: Option<Seq<u8>>,
}

/// Whether the first space-separated token of a line is the response
/// protocol literal, which makes the line a status line.
pub open spec fn is_status_line(line: Seq<u8>) -> bool {
    line.len() > 0 && line.take(find1(line, 32)) == name_http11()
}

/// Parses the first line of a datagram. Tokens are separated by single
/// spaces. A line opening with the response protocol literal is a status
/// line: protocol, then status code, then the rest of the line as the
/// reason phrase. Any other non-empty line is a request line: method,
/// resource, protocol. Missing tokens leave fields absent; an empty line
/// leaves every field absent.
pub open spec fn start_line_spec(line: Seq<u8>) -> StartLine {
    if line.len() == 0 {
        StartLine { method: None, uri: None, protocol: None, status: None, reason: None }
    } else {
        let i = find1(line, 32);
        let t0 = line.take(i);
        if t0 == name_http11() {
            if i >= line.len() {
                StartLine { method: None, uri: None, protocol: Some(t0), status: None, reason: None }
            } else {
                let rest = line.skip(i + 1);
                let j = find1(rest, 32);
                if j >= rest.len() {
                    StartLine {
                        method: None,
                        uri: None,
                        protocol: Some(t0),
                        status: Some(rest),
                        reason: None,
                    }
                } else {
                    StartLine {
                        method: None,
                        uri: None,
                        protocol: Some(t0),
                        status: Some(rest.take(j)),
                        reason: Some(rest.skip(j + 1)),
                    }
                }
            }
        } else {
            if i >= line.len() {
                StartLine { method: Some(t0), uri: None, protocol: None, status: None, reason: None }
            } else {
                let rest = line.skip(i + 1);
                let j = find1(rest, 32);
                if j >= rest.len() {
                    StartLine {
                        method: Some(t0),
                        uri: Some(rest),
                        protocol: None,
                        status: None,
                        reason: None,
                    }
                } else {
                    let rest2 = rest.skip(j + 1);
                    let k = find1(rest2, 32);
                    StartLine {
                        method: Some(t0),
                        uri: Some(rest.take(j)),
                        protocol: Some(rest2.take(k)),
                        status: None,
                        reason: None,
                    }
                }
            }
        }
    }
}

/// The repeated header fields of a datagram, each an ordered sequence of
/// the values seen — duplicate headers are a signal, not an error — and
/// the flag recording that some header name fell outside the recognized
/// table.
#[verifier::ext_equal]
pub struct HeaderFields {
    pub host: Seq<Seq<u8>>,
    pub man: Seq<Seq<u8>>,
    pub delay: Seq<Seq<u8>>,
    pub target: Seq<Seq<u8>>,
    pub user_agent: Seq<Seq<u8>>,
    pub cache_control: Seq<Seq<u8>>,
    pub location: Seq<Seq<u8>>,
    pub notification: Seq<Seq<u8>>,
    pub sub_notification: Seq<Seq<u8>>,
    pub server: Seq<Seq<u8>>,
    pub service: Seq<Seq<u8>>,
    pub boot: Seq<Seq<u8>>,
    pub next_boot: Seq<Seq<u8>>,
    pub config: Seq<Seq<u8>>,
    pub port: Seq<Seq<u8>>,
    pub date: Seq<Seq<u8>>,
    pub extension: Seq<Seq<u8>>,
    pub unknown: bool,
}

/// No header seen yet.
pub open spec fn empty_headers() -> HeaderFields {
    HeaderFields {
        host: Seq::empty(),
        man: Seq::empty(),
        delay: Seq::empty(),
        target: Seq::empty(),
        user_agent: Seq::empty(),
        cache_control: Seq::empty(),
        location: Seq::empty(),
        notification: Seq::empty(),
        sub_notification: Seq::empty(),
        server: Seq::empty(),
        service: Seq::empty(),
        boot: Seq::empty(),
        next_boot: Seq::empty(),
        config: Seq::empty(),
        port: Seq::empty(),
        date: Seq::empty(),
        extension: Seq::empty(),
        unknown: false,
    }
}

/// Appends a header value when the line carried one.
pub open spec fn push_opt(s: Seq<Seq<u8>>, v: Option<Seq<u8>>) -> Seq<Seq<u8>> {
    match v {
        None => s,
        Some(x) => s.push(x),
    }
}

/// Routes one header to its field by name. A name outside the table sets
/// the unknown flag; a recognized name appends its value, when the line
/// carried one, to the field's sequence.
pub open spec fn dispatch(h: HeaderFields, name: Seq<u8>, value: Option<Seq<u8>>) -> HeaderFields {
    if name == name_host() {
        HeaderFields { host: push_opt(h.host, value), ..h }
    } else if name == name_man() {
        HeaderFields { man: push_opt(h.man, value), ..h }
    } else if name == name_mx() {
        HeaderFields { delay: push_opt(h.delay, value), ..h }
    } else if name == name_st() {
        HeaderFields { target: push_opt(h.target, value), ..h }
    } else if name == name_user_agent() {
        HeaderFields { user_agent: push_opt(h.user_agent, value), ..h }
    } else if name == name_cache_control() {
        HeaderFields { cache_control: push_opt(h.cache_control, value), ..h }
    } else if name == name_location() {
        HeaderFields { location: push_opt(h.location, value), ..h }
    } else if name == name_nt() {
        HeaderFields { notification: push_opt(h.notification, value), ..h }
    } else if name == name_nts() {
        HeaderFields { sub_notification: push_opt(h.sub_notification, value), ..h }
    } else if name == name_server() {
        HeaderFields { server: push_opt(h.server, value), ..h }
    } else if name == name_usn() {
        HeaderFields { service: push_opt(h.service, value), ..h }
    } else if name == name_bootid() {
        HeaderFields { boot: push_opt(h.boot, value), ..h }
    } else if name == name_nextbootid() {
        HeaderFields { next_boot: push_opt(h.next_boot, value), ..h }
    } else if name == name_configid() {
        HeaderFields { config: push_opt(h.config, value), ..h }
    } else if name == name_searchport() {
        HeaderFields { port: push_opt(h.port, value), ..h }
    } else if name == name_date() {
        HeaderFields { date: push_opt(h.date, value), ..h }
    } else if name == name_ext() {
        HeaderFields { extension: push_opt(h.extension, value), ..h }
    } else {
        HeaderFields { unknown: true, ..h }
    }
}

/// Folds one line into the header fields. A blank line changes nothing.
/// Any other line splits at the first `": "` into a name and a value; a
/// line without that separator is all name and carries no value.
pub open spec fn header_step(h: HeaderFields, line: Seq<u8>) -> HeaderFields {
    if line.len() == 0 {
        h
    } else {
        let i = find2(line, 58, 32);
        if i + 2 <= line.len() {
            dispatch(h, line.take(i), Some(line.skip(i + 2)))
        } else {
            dispatch(h, line, None)
        }
    }
}

/// The header fields after folding the lines before index `n`, the start
/// line excluded.
pub open spec fn headers_prefix(lines: Seq<Seq<u8>>, n: int) -> HeaderFields
    decreases n,
{
    if n <= 1 {
        empty_headers()
    } else {
        header_step(headers_prefix(lines, n - 1), lines[n - 1])
    }
}

/// The header fields of a whole datagram: every line after the start
/// line, folded in order.
pub open spec fn headers_of(lines: Seq<Seq<u8>>) -> HeaderFields {
    headers_prefix(lines, lines.len() as int)
}

/// Some recognized header was seen more than once.
pub open spec fn overwrite_spec(h: HeaderFields) -> bool {
    ||| h.host.len() >= 2
    ||| h.man.len() >= 2
    ||| h.delay.len() >= 2
    ||| h.target.len() >= 2
    ||| h.user_agent.len() >= 2
    ||| h.cache_control.len() >= 2
    ||| h.location.len() >= 2
    ||| h.notification.len() >= 2
    ||| h.sub_notification.len() >= 2
    ||| h.server.len() >= 2
    ||| h.service.len() >= 2
    ||| h.boot.len() >= 2
    ||| h.next_boot.len() >= 2
    ||| h.config.len() >= 2
    ||| h.port.len() >= 2
    ||| h.date.len() >= 2
    ||| h.extension.len() >= 2
}

/// The method-specific required-header check. A search request must
/// carry exactly one each of host, man, delay and target; an
/// announcement exactly one each of notification type and sub type; a
/// response exactly one each of location, server and service name. A
/// datagram of any other shape has no valid combination.
pub open spec fn combination_spec(line0: Seq<u8>, h: HeaderFields) -> bool {
    if is_status_line(line0) {
        h.location.len() == 1 && h.server.len() == 1 && h.service.len() == 1
    } else if start_line_spec(line0).method == Some(name_msearch()) {
        h.host.len() == 1 && h.man.len() == 1 && h.delay.len() == 1 && h.target.len() == 1
    } else if start_line_spec(line0).method == Some(name_notify()) {
        h.notification.len() == 1 && h.sub_notification.len() == 1
    } else {
        false
    }
}

/// Everything the classifier derives from one datagram.
#[verifier::ext_equal]
pub struct DatagramModel {
    pub timestamp: Option<int>,
    pub method: Option<Seq<u8>>,
    pub uri: Option<Seq<u8>>,
    pub protocol: Option<Seq<u8>>,
    pub status: Option<Seq<u8>>,
    pub reason: Option<Seq<u8>>,
    pub host: Seq<Seq<u8>>,
    pub man: Seq<Seq<u8>>,
    pub delay: Seq<Seq<u8>>,
    pub target: Seq<Seq<u8>>,
    pub user_agent: Seq<Seq<u8>>,
    pub cache_control: Seq<Seq<u8>>,
    pub location: Seq<Seq<u8>>,
    pub notification: Seq<Seq<u8>>,
    pub sub_notification: Seq<Seq<u8>>,
    pub server: Seq<Seq<u8>>,
    pub service: Seq<Seq<u8>>,
    pub boot: Seq<Seq<u8>>,
    pub next_boot: Seq<Seq<u8>>,
    pub config: Seq<Seq<u8>>,
    pub port: Seq<Seq<u8>>,
    pub date: Seq<Seq<u8>>,
    pub extension: Seq<Seq<u8>>,
    pub responded: bool,
    pub valid_httpu: bool,
    pub unknown: bool,
    pub overwrite: bool,
    pub terminated: bool,
    pub combination: bool,
    pub length: nat,
    pub raw: Seq<u8>,
}

/// The classification of one payload received at time `received`, with
/// `blocked` telling whether the sender was refused a reply. The payload
/// is split on `\r\n` into lines; the first is the start line, the rest
/// are headers; the derived flags follow. A pure function: the record is
/// determined by the three arguments alone.
pub open spec fn classify_spec(payload: Seq<u8>, blocked: bool, received: int) -> DatagramModel {
    let lines = split2(payload, 13, 10);
    let sl = start_line_spec(lines[0]);
    let h = headers_of(lines);
    DatagramModel {
        timestamp: Some(received),
        method: sl.method,
        uri: sl.uri,
        protocol: sl.protocol,
        status: sl.status,
        reason: sl.reason,
        host: h.host,
        man: h.man,
        delay: h.delay,
        target: h.target,
        user_agent: h.user_agent,
        cache_control: h.cache_control,
        location: h.location,
        notification: h.notification,
        sub_notification: h.sub_notification,
        server: h.server,
        service: h.service,
        boot: h.boot,
        next_boot: h.next_boot,
        config: h.config,
        port: h.port,
        date: h.date,
        extension: h.extension,
        responded: !blocked,
        valid_httpu: (sl.method is Some && sl.uri is Some && sl.protocol is Some) || (
        sl.protocol is Some && sl.status is Some && sl.reason is Some),
        unknown: h.unknown,
        overwrite: overwrite_spec(h),
        terminated: payload.len() > 0 && lines.last().len() == 0,
        combination: combination_spec(lines[0], h),
        length: payload.len(),
        raw: payload,
    }
}

/// The view of an optional byte vector.
pub open spec fn opt_view(o: Option<Vec<u8>>) -> Option<Seq<u8>> {
    match o {
        None => None,
        Some(v) => Some(v@),
    }
}

/// Parses the start line into (method, uri, protocol, status, reason),
/// exactly as [`start_line_spec`] states.
fn parse_start_line(line: &Vec<u8>) -> (r: (
    Option<Vec<u8>>,
    Option<Vec<u8>>,
    Option<Vec<u8>>,
    Option<Vec<u8>>,
    Option<Vec<u8>>,
))
    ensures
        ({
            let sl = start_line_spec(line@);
            opt_view(r.0) == sl.method && opt_view(r.1) == sl.uri && opt_view(r.2) == sl.protocol
                && opt_view(r.3) == sl.status && opt_view(r.4) == sl.reason
        }),
{
    let n = line.len();
    if n == 0 {
        return (None, None, None, None, None);
    }
    let i = find1_from(line, 0, 32);
    proof {
        assert(line@.skip(0) =~= line@);
        lemma_find1(line@, 32);
    }
    let t0 = subvec(line, 0, i);
    proof {
        assert(t0@ =~= line@.take(i as int));
    }
    let is_status = bytes_eq(&t0, &http11_vec());
    if i >= n {
        if is_status {
            (None, None, Some(t0), None, None)
        } else {
            (Some(t0), None, None, None, None)
        }
    } else {
        let ghost rest = line@.skip(i + 1);
        let j = find1_from(line, i + 1, 32);
        proof {
            lemma_find1(rest, 32);
            assert(rest.len() == n - (i + 1));
        }
        if is_status {
            if j >= n {
                let status = subvec(line, i + 1, n);
                proof {
                    assert(status@ =~= rest);
                }
                (None, None, Some(t0), Some(status), None)
            } else {
                let status = subvec(line, i + 1, j);
                let reason = subvec(line, j + 1, n);
                proof {
                    assert(status@ =~= rest.take(j - (i + 1)));
                    assert(reason@ =~= rest.skip(j - (i + 1) + 1));
                }
                (None, None, Some(t0), Some(status), Some(reason))
            }
        } else {
            if j >= n {
                let uri = subvec(line, i + 1, n);
                proof {
                    assert(uri@ =~= rest);
                }
                (Some(t0), Some(uri), None, None, None)
            } else {
                let uri = subvec(line, i + 1, j);
                let ghost rest2 = rest.skip(j - (i + 1) + 1);
                let k = find1_from(line, j + 1, 32);
                proof {
                    assert(rest2 =~= line@.skip(j + 1));
                    lemma_find1(rest2, 32);
                    assert(rest2.len() == n - (j + 1));
                }
                let proto = subvec(line, j + 1, k);
                proof {
                    assert(uri@ =~= rest.take(j - (i + 1)));
                    assert(proto@ =~= rest2.take(k - (j + 1)));
                }
                (Some(t0), Some(uri), Some(proto), None, None)
            }
        }
    }
}

/// The header fields of a datagram while they are being collected.
struct HeaderState {
    host: Vec<Vec<u8>>,
    man: Vec<Vec<u8>>,
    delay: Vec<Vec<u8>>,
    target: Vec<Vec<u8>>,
    user_agent: Vec<Vec<u8>>,
    cache_control: Vec<Vec<u8>>,
    location: Vec<Vec<u8>>,
    notification: Vec<Vec<u8>>,
    sub_notification: Vec<Vec<u8>>,
    server: Vec<Vec<u8>>,
    service: Vec<Vec<u8>>,
    boot: Vec<Vec<u8>>,
    next_boot: Vec<Vec<u8>>,
    config: Vec<Vec<u8>>,
    port: Vec<Vec<u8>>,
    date: Vec<Vec<u8>>,
    extension: Vec<Vec<u8>>,
    unknown: bool,
}

impl HeaderState {
    spec fn view(&self) -> HeaderFields {
        HeaderFields {
            host: views_of(self.host@),
            man: views_of(self.man@),
            delay: views_of(self.delay@),
            target: views_of(self.target@),
            user_agent: views_of(self.user_agent@),
            cache_control: views_of(self.cache_control@),
            location: views_of(self.location@),
            notification: views_of(self.notification@),
            sub_notification: views_of(self.sub_notification@),
            server: views_of(self.server@),
            service: views_of(self.service@),
            boot: views_of(self.boot@),
            next_boot: views_of(self.next_boot@),
            config: views_of(self.config@),
            port: views_of(self.port@),
            date: views_of(self.date@),
            extension: views_of(self.extension@),
            unknown: self.unknown,
        }
    }
}

/// Folds one header line into the state, exactly as [`header_step`]
/// states.
fn header_apply(h: &mut HeaderState, line: &Vec<u8>)
    ensures
        final(h).view() == header_step(old(h).view(), line@),
{
    let n = line.len();
    if n == 0 {
        return ;
    }
    let i = find2_from(line, 0, 58, 32);
    proof {
        assert(line@.skip(0) =~= line@);
        lemma_find2(line@, 58, 32);
    }
    let has_value = n >= 2 && i <= n - 2;
    let name = if has_value {
        subvec(line, 0, i)
    } else {
        subvec(line, 0, n)
    };
    let value: Option<Vec<u8>> = if has_value {
        Some(subvec(line, i + 2, n))
    } else {
        None
    };
    proof {
        if has_value {
            assert(name@ =~= line@.take(i as int));
        } else {
            assert(name@ =~= line@);
        }
    }
    if bytes_eq(&name, &host_vec()) {
        if let Some(v) = value {
            h.host.push(v);
        }
    } else if bytes_eq(&name, &man_vec()) {
        if let Some(v) = value {
            h.man.push(v);
        }
    } else if bytes_eq(&name, &mx_vec()) {
        if let Some(v) = value {
            h.delay.push(v);
        }
    } else if bytes_eq(&name, &st_vec()) {
        if let Some(v) = value {
            h.target.push(v);
        }
    } else if bytes_eq(&name, &user_agent_vec()) {
        if let Some(v) = value {
            h.user_agent.push(v);
        }
    } else if bytes_eq(&name, &cache_control_vec()) {
        if let Some(v) = value {
            h.cache_control.push(v);
        }
    } else if bytes_eq(&name, &location_vec()) {
        if let Some(v) = value {
            h.location.push(v);
        }
    } else if bytes_eq(&name, &nt_vec()) {
        if let Some(v) = value {
            h.notification.push(v);
        }
    } else if bytes_eq(&name, &nts_vec()) {
        if let Some(v) = value {
            h.sub_notification.push(v);
        }
    } else if bytes_eq(&name, &server_vec()) {
        if let Some(v) = value {
            h.server.push(v);
        }
    } else if bytes_eq(&name, &usn_vec()) {
        if let Some(v) = value {
            h.service.push(v);
        }
    } else if bytes_eq(&name, &bootid_vec()) {
        if let Some(v) = value {
            h.boot.push(v);
        }
    } else if bytes_eq(&name, &nextbootid_vec()) {
        if let Some(v) = value {
            h.next_boot.push(v);
        }
    } else if bytes_eq(&name, &configid_vec()) {
        if let Some(v) = value {
            h.config.push(v);
        }
    } else if bytes_eq(&name, &searchport_vec()) {
        if let Some(v) = value {
            h.port.push(v);
        }
    } else if bytes_eq(&name, &date_vec()) {
        if let Some(v) = value {
            h.date.push(v);
        }
    } else if bytes_eq(&name, &ext_vec()) {
        if let Some(v) = value {
            h.extension.push(v);
        }
    } else {
        h.unknown = true;
    }
    proof {
        assert(h.view() =~~= header_step(old(h).view(), line@));
    }
}

/// Collects the header fields of every line after the start line,
/// exactly as [`headers_of`] states.
fn parse_headers(lines: &Vec<Vec<u8>>) -> (h: HeaderState)
    requires
        lines@.len() >= 1,
    ensures
        h.view() == headers_of(views_of(lines@)),
{
    let mut h = HeaderState {
        host: Vec::new(),
        man: Vec::new(),
        delay: Vec::new(),
        target: Vec::new(),
        user_agent: Vec::new(),
        cache_control: Vec::new(),
        location: Vec::new(),
        notification: Vec::new(),
        sub_notification: Vec::new(),
        server: Vec::new(),
        service: Vec::new(),
        boot: Vec::new(),
        next_boot: Vec::new(),
        config: Vec::new(),
        port: Vec::new(),
        date: Vec::new(),
        extension: Vec::new(),
        unknown: false,
    };
    let ghost lv = views_of(lines@);
    proof {
        assert(h.view() =~~= empty_headers());
    }
    let mut k: usize = 1;
    while k < lines.len()
        invariant
            1 <= k,
            k <= lines@.len(),
            lv == views_of(lines@),
            h.view() == headers_prefix(lv, k as int),
        decreases lines@.len() - k,
    {
        header_apply(&mut h, &lines[k]);
        proof {
            assert(lv[k as int] == lines@[k as int]@);
        }
        k = k + 1;
    }
    h
}

/// The structured audit record of one inbound discovery datagram. It
/// stores malformed and potentially malicious packets: repeated headers,
/// non-numeric values in numeric fields, and headers mixed across
/// methods are all retained. The raw payload is kept verbatim, since
/// unrecognized lines are dropped from the typed fields.
pub struct SsdpRequest {
    /// Time the datagram was received, whole seconds of Unix time.
    pub timestamp: Option<i64>,
    /// Request method of the start line, such as `M-SEARCH` or `NOTIFY`.
    pub method: Option<Vec<u8>>,
    /// Resource of the start line; the discovery protocol expects `*`.
    pub uri: Option<Vec<u8>>,
    /// Protocol token of the start line.
    pub protocol: Option<Vec<u8>>,
    /// Status code of a status line.
    pub status: Option<Vec<u8>>,
    /// Reason phrase of a status line.
    pub reason: Option<Vec<u8>>,
    /// `HOST` values: target device address or the discovery multicast address.
    pub host: Vec<Vec<u8>>,
    /// `MAN` values.
    pub man: Vec<Vec<u8>>,
    /// `MX` values: greatest number of seconds of random response delay.
    pub delay: Vec<Vec<u8>>,
    /// `ST` values: search target selector.
    pub target: Vec<Vec<u8>>,
    /// `USER-AGENT` values.
    pub user_agent: Vec<Vec<u8>>,
    /// `CACHE-CONTROL` values.
    pub cache_control: Vec<Vec<u8>>,
    /// `LOCATION` values: the root device description address.
    pub location: Vec<Vec<u8>>,
    /// `NT` values: notification type.
    pub notification: Vec<Vec<u8>>,
    /// `NTS` values: notification sub type.
    pub sub_notification: Vec<Vec<u8>>,
    /// `SERVER` values: software and version information.
    pub server: Vec<Vec<u8>>,
    /// `USN` values: unique service name.
    pub service: Vec<Vec<u8>>,
    /// `BOOTID.UPNP.ORG` values.
    pub boot: Vec<Vec<u8>>,
    /// `NEXTBOOTID.UPNP.ORG` values.
    pub next_boot: Vec<Vec<u8>>,
    /// `CONFIGID.UPNP.ORG` values.
    pub config: Vec<Vec<u8>>,
    /// `SEARCHPORT.UPNP.ORG` values.
    pub port: Vec<Vec<u8>>,
    /// `DATE` values of a response.
    pub date: Vec<Vec<u8>>,
    /// `EXT` values of a response.
    pub extension: Vec<Vec<u8>>,
    /// Whether the sender was given a reply.
    pub responded: bool,
    /// Whether the start line is complete: a full request line or a full
    /// status line.
    pub valid_httpu: bool,
    /// Whether some header line carried a name outside the recognized
    /// table.
    pub unknown: bool,
    /// Whether some recognized header was seen more than once.
    pub overwrite: bool,
    /// Whether the payload ended with a blank line.
    pub terminated: bool,
    /// Whether the method-specific required headers were present, each
    /// exactly once.
    pub combination: bool,
    /// Byte length of the raw payload.
    pub length: usize,
    /// The raw payload, verbatim.
    pub raw: Vec<u8>,
}

impl SsdpRequest {
    /// Mathematical value of the record.
    pub open spec fn model(&self) -> DatagramModel {
        DatagramModel {
            timestamp: match self.timestamp {
                Some(t) => Some(t as int),
                None => None,
            },
            method: opt_view(self.method),
            uri: opt_view(self.uri),
            protocol: opt_view(self.protocol),
            status: opt_view(self.status),
            reason: opt_view(self.reason),
            host: views_of(self.host@),
            man: views_of(self.man@),
            delay: views_of(self.delay@),
            target: views_of(self.target@),
            user_agent: views_of(self.user_agent@),
            cache_control: views_of(self.cache_control@),
            location: views_of(self.location@),
            notification: views_of(self.notification@),
            sub_notification: views_of(self.sub_notification@),
            server: views_of(self.server@),
            service: views_of(self.service@),
            boot: views_of(self.boot@),
            next_boot: views_of(self.next_boot@),
            config: views_of(self.config@),
            port: views_of(self.port@),
            date: views_of(self.date@),
            extension: views_of(self.extension@),
            responded: self.responded,
            valid_httpu: self.valid_httpu,
            unknown: self.unknown,
            overwrite: self.overwrite,
            terminated: self.terminated,
            combination: self.combination,
            length: self.length as nat,
            raw: self.raw@,
        }
    }

    /// Classifies one payload received at `received` seconds of Unix
    /// time, with `blocked` telling whether the sender was refused a
    /// reply. Never fails, however malformed the payload: the record is
    /// exactly [`classify_spec`] of the inputs.
    pub fn new(payload: Vec<u8>, blocked: bool, received: i64) -> (r: SsdpRequest)
        ensures
            r.model() == classify_spec(payload@, blocked, received as int),
    {
        let length = payload.len();
        let lines = split2_exec(&payload, 13, 10);
        let ghost lv = views_of(lines@);
        let (method, uri, protocol, status, reason) = parse_start_line(&lines[0]);
        proof {
            assert(lv[0] == lines@[0]@);
        }
        let h = parse_headers(&lines);
        let valid_httpu = (method.is_some() && uri.is_some() && protocol.is_some()) || (
        protocol.is_some() && status.is_some() && reason.is_some());
        let last = lines.len() - 1;
        let terminated = length > 0 && lines[last].len() == 0;
        proof {
            assert(lv[last as int] == lines@[last as int]@);
            assert(lv.last() == lv[last as int]);
        }
        let overwrite = h.host.len() >= 2 || h.man.len() >= 2 || h.delay.len() >= 2
            || h.target.len() >= 2 || h.user_agent.len() >= 2 || h.cache_control.len() >= 2
            || h.location.len() >= 2 || h.notification.len() >= 2 || h.sub_notification.len() >= 2
            || h.server.len() >= 2 || h.service.len() >= 2 || h.boot.len() >= 2
            || h.next_boot.len() >= 2 || h.config.len() >= 2 || h.port.len() >= 2 || h.date.len()
            >= 2 || h.extension.len() >= 2;
        let line0 = &lines[0];
        let i0 = find1_from(line0, 0, 32);
        let tok0 = subvec(line0, 0, i0);
        proof {
            assert(line0@.skip(0) =~= line0@);
            assert(tok0@ =~= line0@.take(i0 as int));
        }
        let is_status = line0.len() > 0 && bytes_eq(&tok0, &http11_vec());
        let is_msearch = match &method {
            Some(m) => bytes_eq(m, &msearch_vec()),
            None => false,
        };
        let is_notify = match &method {
            Some(m) => bytes_eq(m, &notify_vec()),
            None => false,
        };
        let combination = if is_status {
            h.location.len() == 1 && h.server.len() == 1 && h.service.len() == 1
        } else if is_msearch {
            h.host.len() == 1 && h.man.len() == 1 && h.delay.len() == 1 && h.target.len() == 1
        } else if is_notify {
            h.notification.len() == 1 && h.sub_notification.len() == 1
        } else {
            false
        };
        let ghost hv = h.view();
        let HeaderState {
            host,
            man,
            delay,
            target,
            user_agent,
            cache_control,
            location,
            notification,
            sub_notification,
            server,
            service,
            boot,
            next_boot,
            config,
            port,
            date,
            extension,
            unknown,
        } = h;
        let r = SsdpRequest {
            timestamp: Some(received),
            method,
            uri,
            protocol,
            status,
            reason,
            host,
            man,
            delay,
            target,
            user_agent,
            cache_control,
            location,
            notification,
            sub_notification,
            server,
            service,
            boot,
            next_boot,
            config,
            port,
            date,
            extension,
            responded: !blocked,
            valid_httpu,
            unknown,
            overwrite,
            terminated,
            combination,
            length,
            raw: payload,
        };
        proof {
            assert(r.model() =~~= classify_spec(r.raw@, blocked, received as int));
        }
        r
    }
}

/// Classification is pure: any two records classified from the same
/// payload, the same block flag and the same time — as [`SsdpRequest::new`]
/// promises of its result — are field-for-field identical.
pub proof fn lemma_classify_deterministic(
    r1: DatagramModel,
    r2: DatagramModel,
    p: Seq<u8>,
    blocked: bool,
    received: int,
)
    requires
        r1 == classify_spec(p, blocked, received),
        r2 == classify_spec(p, blocked, received),
    ensures
        r1 == r2,
{
}

} // verus!
