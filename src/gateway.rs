//! The gateway's decisions: bearer authentication, what a telemetry push does to
//! the heartrate gauge, the upstream request for train data, and the reply that
//! a selection outcome becomes.
use vstd::prelude::*;
use vstd::string::StrSliceExecFns;
use vstd::string::StringExecFns;
use crate::timestamp::{PointInTime, now};
use crate::trips::{LegStation, SelectError, SelectionStrategy, Trip, select, selection};

verus! {

/// Name of the request header that carries the upstream subscription key.
pub const SUBSCRIPTION_HEADER: &'static str = "Ocp-Apim-Subscription-Key";

/// A header value accepted for `token`: `Bearer ` followed by exactly the token.
pub open spec fn bearer_accepts(header: Seq<char>, token: Seq<char>) -> bool {
    header == "Bearer "@ + token
}

/// The request is authorized: an `Authorization` header is present and accepted.
pub open spec fn authorized(header: Option<&str>, token: &str) -> bool {
    match header {
        Some(h) => bearer_accepts(h@, token@),
        None => false,
    }
}

/// The credential after a literal `Bearer ` prefix; `None` where the header
/// does not start with it.
pub fn bearer_credential(header: &str) -> (r: Option<&str>)
    ensures
        r is Some <==> (header@.len() >= 7 && header@.subrange(0, 7) == "Bearer "@),
        r matches Some(c) ==> c@ == header@.subrange(7, header@.len() as int),
{
    let prefix = "Bearer ";
    proof {
        reveal_strlit("Bearer ");
    }
    let n = header.unicode_len();
    if n < 7 {
        return None;
    }
    let head = String::from_str(header.substring_char(0, 7));
    if head == String::from_str(prefix) {
        Some(header.substring_char(7, n))
    } else {
        None
    }
}

/// Compares two secrets, looking at every character of equal-length inputs
/// whatever it finds.
pub fn secrets_equal(a: &str, b: &str) -> (r: bool)
    ensures
        r == (a@ == b@),
{
    let n = a.unicode_len();
    let m = b.unicode_len();
    if n != m {
        return false;
    }
    let mut same = true;
    let mut i: usize = 0;
    while i < n
        invariant
            n == a@.len(),
            m == b@.len(),
            n == m,
            0 <= i <= n,
            same <==> (forall|k: int| 0 <= k < i ==> a@[k] == b@[k]),
        decreases n - i,
    {
        if a.get_char(i) != b.get_char(i) {
            same = false;
        }
        i = i + 1;
    }
    if same {
        assert(a@ =~= b@);
    }
    same
}

/// Whether the `Authorization` header value, if any, is `Bearer ` followed by
/// the configured token. An absent or malformed header is no credential.
pub fn is_authorized(header: Option<&str>, token: &str) -> (r: bool)
    ensures
        r == authorized(header, token),
{
    proof {
        reveal_strlit("Bearer ");
    }
    match header {
        None => false,
        Some(h) => match bearer_credential(h) {
            None => {
                assert(!bearer_accepts(h@, token@)) by {
                    if h@ == "Bearer "@ + token@ {
                        assert(h@.subrange(0, 7) =~= "Bearer "@);
                    }
                }
                false
            },
            Some(c) => {
                let ok = secrets_equal(c, token);
                if ok {
                    assert(h@ =~= "Bearer "@ + token@);
                } else {
                    assert(!bearer_accepts(h@, token@)) by {
                        if h@ == "Bearer "@ + token@ {
                            assert(h@.subrange(7, h@.len() as int) =~= token@);
                        }
                    }
                }
                ok
            },
        },
    }
}

/// What a telemetry push does.
#[derive(Clone, Copy, Debug, PartialEq, Eq, Structural)]
pub enum StatsReply {
    /// Authorized: the gauge is overwritten with this value; status 200.
    SetGauge(i64),
    /// Not authorized: the gauge stays as it is; status 404.
    NotFound,
}

impl StatsReply {
    /// The HTTP status of the reply.
    pub fn status(&self) -> (r: u16)
        ensures
            r == (if *self is SetGauge {
                200u16
            } else {
                404u16
            }),
    {
        match self {
            StatsReply::SetGauge(_) => 200,
            StatsReply::NotFound => 404,
        }
    }
}

/// Decides a push of `heartrate`: the gauge is set to it exactly when the
/// request is authorized.
pub fn stats_reply(header: Option<&str>, token: &str, heartrate: i64) -> (r: StatsReply)
    ensures
        r == (if authorized(header, token) {
            StatsReply::SetGauge(heartrate)
        } else {
            StatsReply::NotFound
        }),
{
    if is_authorized(header, token) {
        StatsReply::SetGauge(heartrate)
    } else {
        StatsReply::NotFound
    }
}

/// A caller's request for train data.
#[derive(Clone, Debug, PartialEq, Eq)]
pub struct TrainQuery {
    pub current_time_string: String,
    pub from: String,
    pub to: String,
}

/// The outbound request to the travel API: its URL, and the subscription key to
/// send under `SUBSCRIPTION_HEADER`.
#[derive(Clone, Debug, PartialEq, Eq)]
pub struct UpstreamRequest {
    pub url: String,
    pub subscription_key: String,
}

/// The trips URL of the travel API for a departure time and two station codes.
pub open spec fn trips_url(time: Seq<char>, from: Seq<char>, to: Seq<char>) -> Seq<char> {
    "https://gateway.apiportal.ns.nl/reisinformatie-api/api/v3/trips?dateTime="@ + time
        + "&fromStation="@ + from + "&toStation="@ + to
}

/// Builds the trips URL; the values are put in as they are.
pub fn build_trips_url(time: &str, from: &str, to: &str) -> (r: String)
    ensures
        r@ == trips_url(time@, from@, to@),
{
    let mut url = String::from_str(
        "https://gateway.apiportal.ns.nl/reisinformatie-api/api/v3/trips?dateTime=",
    );
    url.append(time);
    url.append("&fromStation=");
    url.append(from);
    url.append("&toStation=");
    url.append(to);
    url
}

/// The upstream request for `query`, where the caller is authorized and an
/// upstream subscription key is configured; `None` (not found) otherwise.
pub fn trains_request(
    header: Option<&str>,
    token: &str,
    train_token: Option<&str>,
    query: &TrainQuery,
) -> (r: Option<UpstreamRequest>)
    ensures
        r is Some <==> (authorized(header, token) && train_token is Some),
        r matches Some(req) ==> req.url@ == trips_url(
            query.current_time_string@,
            query.from@,
            query.to@,
        ) && req.subscription_key@ == train_token->0@,
{
    if !is_authorized(header, token) {
        return None;
    }
    match train_token {
        None => None,
        Some(key) => Some(
            UpstreamRequest {
                url: build_trips_url(
                    query.current_time_string.as_str(),
                    query.from.as_str(),
                    query.to.as_str(),
                ),
                subscription_key: String::from_str(key),
            },
        ),
    }
}

/// The reply to a request for train data.
#[derive(Clone, Debug, PartialEq, Eq)]
pub enum TrainsReply {
    /// The selected leg's origin record; status 200.
    Found(LegStation),
    /// Nothing selected; status 404.
    NotFound,
    /// The upstream failed or sent data that cannot be used; status 500 with
    /// this text as body.
    ServerError(String),
}

impl TrainsReply {
    /// The HTTP status of the reply.
    pub fn status(&self) -> (r: u16)
        ensures
            r == match *self {
                TrainsReply::Found(_) => 200u16,
                TrainsReply::NotFound => 404u16,
                TrainsReply::ServerError(_) => 500u16,
            },
    {
        match self {
            TrainsReply::Found(_) => 200,
            TrainsReply::NotFound => 404,
            TrainsReply::ServerError(_) => 500,
        }
    }
}

/// The text of a server error for unusable upstream data.
pub open spec fn select_error_text(e: SelectError) -> Seq<char> {
    match e {
        SelectError::MalformedTimestamp(raw) => "upstream data malformed: unreadable timestamp "@
            + raw@,
        SelectError::MissingLeg => "upstream data malformed: trip without legs"@,
    }
}

/// The text of a server error for a failed upstream request.
pub open spec fn transport_error_text(description: Seq<char>) -> Seq<char> {
    "upstream request failed: "@ + description
}

/// `r` is the reply owed for what the upstream returned (`fetched`: the trips,
/// or a description of the failure) under `strategy` and `reference`.
pub open spec fn reply_fits(
    r: TrainsReply,
    fetched: Result<Vec<Trip>, String>,
    strategy: SelectionStrategy,
    reference: PointInTime,
) -> bool {
    match fetched {
        Err(d) => r matches TrainsReply::ServerError(m) && m@ == transport_error_text(d@),
        Ok(trips) => match selection(strategy, trips@, reference) {
            Ok(Some(o)) => r == TrainsReply::Found(o),
            Ok(None) => r == TrainsReply::NotFound,
            Err(e) => r matches TrainsReply::ServerError(m) && m@ == select_error_text(e),
        },
    }
}

/// The text of a server error for unusable upstream data.
pub fn describe_select_error(e: &SelectError) -> (r: String)
    ensures
        r@ == select_error_text(*e),
{
    match e {
        SelectError::MalformedTimestamp(raw) => {
            let mut text = String::from_str("upstream data malformed: unreadable timestamp ");
            text.append(raw.as_str());
            text
        },
        SelectError::MissingLeg => String::from_str("upstream data malformed: trip without legs"),
    }
}

/// The reply for what the upstream returned, with `reference` as the time that
/// next-upcoming selection judges by.
pub fn trains_reply(
    strategy: SelectionStrategy,
    fetched: Result<Vec<Trip>, String>,
    reference: PointInTime,
) -> (r: TrainsReply)
    ensures
        reply_fits(r, fetched, strategy, reference),
{
    match fetched {
        Err(d) => {
            let mut text = String::from_str("upstream request failed: ");
            text.append(d.as_str());
            TrainsReply::ServerError(text)
        },
        Ok(trips) => match select(strategy, &trips, reference) {
            Ok(Some(o)) => TrainsReply::Found(o),
            Ok(None) => TrainsReply::NotFound,
            Err(e) => TrainsReply::ServerError(describe_select_error(&e)),
        },
    }
}

/// The reply for what the upstream returned, judged against the system clock at
/// the moment of the call.
pub fn trains_reply_now(strategy: SelectionStrategy, fetched: Result<Vec<Trip>, String>) -> (r:
    TrainsReply)
    ensures
        exists|t: PointInTime| reply_fits(r, fetched, strategy, t),
{
    let reference = now();
    trains_reply(strategy, fetched, reference)
}

} // verus!
