//! Routes of the sentry and the answers to requests that fail.

use crate::primitives::text::{begins_with, starts_with, str_same};
use vstd::prelude::*;
use vstd::string::*;

verus! {

/// The parameters that a route took out of the path, in order.
#[derive(Debug)]
pub struct RouteParams(pub Vec<String>);

impl View for RouteParams {
    type V = Seq<Seq<char>>;

    open spec fn view(&self) -> Seq<Seq<char>> {
        self.0@.map_values(|s: String| s@)
    }
}

impl RouteParams {
    /// The parameter at `index`, where there is one.
    pub fn get(&self, index: usize) -> (r: Option<String>)
        ensures
            r.is_some() <==> index < self@.len(),
            r.is_some() ==> r.unwrap()@ == self@[index as int],
    {
        if index < self.0.len() {
            Some(self.0[index].clone())
        } else {
            None
        }
    }

    /// The parameter at `i`.
    pub fn index(&self, i: usize) -> (r: String)
        requires
            i < self@.len(),
        ensures
            r@ == self@[i as int],
    {
        self.0[i].clone()
    }
}

/// Why a request is turned down.
#[derive(Debug)]
pub enum ResponseError {
    NotFound,
    BadRequest(String),
    FailedValidation(String),
    Unauthorized,
    Forbidden(String),
    Conflict(String),
    TooManyRequests(String),
}


/// The method of a request, as far as routes tell methods apart.
#[derive(Clone, Copy, Debug, PartialEq, Eq, Structural)]
pub enum Method {
    Get,
    Post,
    Other,
}

/// The routes of the sentry.
#[derive(Clone, Copy, Debug, PartialEq, Eq, Structural)]
pub enum RouteKind {
    Cfg,
    CreateChannel,
    ChannelList,
    ChannelValidate,
    Analytics,
    AdvancedAnalytics,
    AdvertiserAnalytics,
    PublisherAnalytics,
    ChannelAnalytics,
    ChannelAdvertiserAnalytics,
    ChannelPublisherAnalytics,
    LastApproved,
    ChannelStatus,
    ListValidatorMessages,
    CreateValidatorMessages,
    EventAggregates,
    CreateEvents,
    NotFound,
}

/// What a request has to pass before its route is served.
#[derive(Clone, Copy, Debug, PartialEq, Eq, Structural)]
pub enum Middleware {
    AuthRequired,
    ChannelLoad,
    GetChannelId,
}

/// A request as routed: the route, the parameters taken out of the path,
/// and what followed the route's own part of the path.
#[derive(Debug)]
pub struct Routed {
    pub kind: RouteKind,
    pub params: RouteParams,
    pub rest: String,
}

/// A letter or digit of ASCII.
pub open spec fn is_alnum(c: char) -> bool {
    let n = c as int;
    (48 <= n <= 57) || (65 <= n <= 90) || (97 <= n <= 122)
}

/// The 64 letters and digits that name a channel in a path.
pub open spec fn is_id(s: Seq<char>) -> bool {
    s.len() == 64 && forall|i: int| 0 <= i < 64 ==> is_alnum(#[trigger] s[i])
}

/// What may follow a route that is open at its end: nothing, or a slash and
/// anything up to the end of the line.
pub open spec fn is_open_rest(s: Seq<char>) -> bool {
    s.len() == 0 || (s[0] == '/' && forall|i: int| 0 <= i < s.len() ==> #[trigger] s[i] != '\n')
}

/// The id in a path made of `prefix`, an id, `suffix` and what `open` lets
/// follow: a path open at its end goes on as it likes, a closed one may end
/// in one slash.
pub open spec fn id_path(path: Seq<char>, prefix: Seq<char>, suffix: Seq<char>, open: bool) -> Option<
    (Seq<char>, Seq<char>),
> {
    let start = prefix.len() as int;
    let end = start + 64 + suffix.len();
    if path.len() >= end && path.subrange(0, start) == prefix && is_id(
        path.subrange(start, start + 64),
    ) && path.subrange(start + 64, end) == suffix {
        let rest = path.subrange(end, path.len() as int);
        if open {
            if is_open_rest(rest) {
                Some((path.subrange(start, start + 64), rest))
            } else {
                None
            }
        } else if rest.len() == 0 || rest == seq!['/'] {
            Some((path.subrange(start, start + 64), Seq::empty()))
        } else {
            None
        }
    } else {
        None
    }
}

/// Whether `c` is a letter or digit of ASCII.
pub fn char_is_alnum(c: char) -> (r: bool)
    ensures
        r == is_alnum(c),
{
    let n: u32 = c as u32;
    (48 <= n && n <= 57) || (65 <= n && n <= 90) || (97 <= n && n <= 122)
}

/// Takes the id out of a path made of `prefix`, an id and `suffix`.
pub fn match_id_path(path: &str, prefix: &str, suffix: &str, open: bool) -> (r: Option<
    (String, String),
>)
    ensures
        r.is_some() <==> id_path(path@, prefix@, suffix@, open).is_some(),
        r.is_some() ==> r.unwrap().0@ == id_path(path@, prefix@, suffix@, open).unwrap().0
            && r.unwrap().1@ == id_path(path@, prefix@, suffix@, open).unwrap().1,
{
    let n: usize = path.unicode_len();
    let p: usize = prefix.unicode_len();
    let q: usize = suffix.unicode_len();
    if p > n || n - p < 64 || n - p - 64 < q {
        return None;
    }
    let end: usize = p + 64 + q;
    if !str_same(path.substring_char(0, p), prefix) {
        return None;
    }
    let id = path.substring_char(p, p + 64);
    let mut i: usize = 0;
    while i < 64
        invariant
            i <= 64,
            id@.len() == 64,
            p == prefix@.len(),
            id@ == path@.subrange(p as int, p + 64),
            forall|j: int| 0 <= j < i ==> is_alnum(#[trigger] id@[j]),
        decreases 64 - i,
    {
        if !char_is_alnum(id.get_char(i)) {
            assert(!is_alnum(id@[i as int]));
            assert(!is_id(id@));
            return None;
        }
        i = i + 1;
    }
    if !str_same(path.substring_char(p + 64, end), suffix) {
        return None;
    }
    let rest = path.substring_char(end, n);
    let m: usize = n - end;
    if open {
        if m > 0 {
            if rest.get_char(0) != '/' {
                return None;
            }
            let mut k: usize = 0;
            while k < m
                invariant
                    k <= m,
                    m == rest@.len(),
                    open,
                    n == path@.len(),
                    p == prefix@.len(),
                    q == suffix@.len(),
                    end == p + 64 + q,
                    rest@ == path@.subrange(end as int, n as int),
                    forall|j: int| 0 <= j < k ==> #[trigger] rest@[j] != '\n',
                decreases m - k,
            {
                if rest.get_char(k) == '\n' {
                    assert(rest@[k as int] == '\n');
                    assert(!is_open_rest(rest@));
                    return None;
                }
                k = k + 1;
            }
        }
        Some((String::from_str(id), String::from_str(rest)))
    } else if m == 0 {
        Some((String::from_str(id), String::new()))
    } else if m == 1 && rest.get_char(0) == '/' {
        assert(rest@ =~= seq!['/']);
        Some((String::from_str(id), String::new()))
    } else {
        proof {
            if rest@ == seq!['/'] {
                assert(rest@.len() == 1);
            }
        }
        None
    }
}

/// The route among those that carry a channel id under `/analytics`.
pub open spec fn analytics_kind(path: Seq<char>, method: Method) -> RouteKind {
    if method != Method::Get {
        RouteKind::NotFound
    } else if id_path(path, "/analytics/0x"@, Seq::empty(), false).is_some() {
        RouteKind::ChannelAnalytics
    } else if id_path(path, "/analytics/for-advertiser/0x"@, Seq::empty(), false).is_some() {
        RouteKind::ChannelAdvertiserAnalytics
    } else if id_path(path, "/analytics/for-publisher/0x"@, Seq::empty(), false).is_some() {
        RouteKind::ChannelPublisherAnalytics
    } else {
        RouteKind::NotFound
    }
}

/// The route among those that carry a channel id under `/channel`.
pub open spec fn channel_kind(path: Seq<char>, method: Method) -> RouteKind {
    if method == Method::Get && id_path(path, "/channel/0x"@, "/last-approved"@, false).is_some() {
        RouteKind::LastApproved
    } else if method == Method::Get && id_path(path, "/channel/0x"@, "/status"@, false).is_some() {
        RouteKind::ChannelStatus
    } else if method == Method::Get && id_path(
        path,
        "/channel/0x"@,
        "/validator-messages"@,
        true,
    ).is_some() {
        RouteKind::ListValidatorMessages
    } else if method == Method::Post && id_path(
        path,
        "/channel/0x"@,
        "/validator-messages"@,
        true,
    ).is_some() {
        RouteKind::CreateValidatorMessages
    } else if method == Method::Get && id_path(
        path,
        "/channel/0x"@,
        "/events-aggregates"@,
        false,
    ).is_some() {
        RouteKind::EventAggregates
    } else if method == Method::Post && id_path(path, "/channel/0x"@, "/events"@, true).is_some() {
        RouteKind::CreateEvents
    } else {
        RouteKind::NotFound
    }
}

/// The route of a request: the fixed paths first, then what begins with
/// `/analytics`, then what begins with `/channel`.
pub open spec fn route_kind(path: Seq<char>, method: Method) -> RouteKind {
    if path == "/cfg"@ && method == Method::Get {
        RouteKind::Cfg
    } else if path == "/channel"@ && method == Method::Post {
        RouteKind::CreateChannel
    } else if path == "/channel/list"@ && method == Method::Get {
        RouteKind::ChannelList
    } else if path == "/channel/validate"@ && method == Method::Post {
        RouteKind::ChannelValidate
    } else if path == "/analytics"@ && method == Method::Get {
        RouteKind::Analytics
    } else if path == "/analytics/advanced"@ && method == Method::Get {
        RouteKind::AdvancedAnalytics
    } else if path == "/analytics/for-advertiser"@ && method == Method::Get {
        RouteKind::AdvertiserAnalytics
    } else if path == "/analytics/for-publisher"@ && method == Method::Get {
        RouteKind::PublisherAnalytics
    } else if begins_with(path, "/analytics"@) {
        analytics_kind(path, method)
    } else if begins_with(path, "/channel"@) {
        channel_kind(path, method)
    } else {
        RouteKind::NotFound
    }
}

/// The prefix and suffix around the id in the path of a route that carries
/// one, and whether the route is open at its end.
pub open spec fn route_shape(kind: RouteKind) -> Option<(Seq<char>, Seq<char>, bool)> {
    match kind {
        RouteKind::ChannelAnalytics => Some(("/analytics/0x"@, Seq::empty(), false)),
        RouteKind::ChannelAdvertiserAnalytics => Some(
            ("/analytics/for-advertiser/0x"@, Seq::empty(), false),
        ),
        RouteKind::ChannelPublisherAnalytics => Some(
            ("/analytics/for-publisher/0x"@, Seq::empty(), false),
        ),
        RouteKind::LastApproved => Some(("/channel/0x"@, "/last-approved"@, false)),
        RouteKind::ChannelStatus => Some(("/channel/0x"@, "/status"@, false)),
        RouteKind::ListValidatorMessages => Some(("/channel/0x"@, "/validator-messages"@, true)),
        RouteKind::CreateValidatorMessages => Some(
            ("/channel/0x"@, "/validator-messages"@, true),
        ),
        RouteKind::EventAggregates => Some(("/channel/0x"@, "/events-aggregates"@, false)),
        RouteKind::CreateEvents => Some(("/channel/0x"@, "/events"@, true)),
        _ => None,
    }
}

/// The parameters of a routed request: the channel id where the route
/// carries one, followed by an empty one on the route of event aggregates.
pub open spec fn route_params(path: Seq<char>, kind: RouteKind) -> Seq<Seq<char>> {
    match route_shape(kind) {
        Some((prefix, suffix, open)) => {
            let id = id_path(path, prefix, suffix, open).unwrap().0;
            if kind == RouteKind::EventAggregates {
                seq![id, Seq::empty()]
            } else {
                seq![id]
            }
        },
        None => Seq::empty(),
    }
}

/// What followed the route's own part of the path, on routes that are open
/// at their end.
pub open spec fn route_rest(path: Seq<char>, kind: RouteKind) -> Seq<char> {
    match route_shape(kind) {
        Some((prefix, suffix, open)) => id_path(path, prefix, suffix, open).unwrap().1,
        None => Seq::empty(),
    }
}

fn plain(kind: RouteKind) -> (r: Routed)
    ensures
        r.kind == kind,
        r.params@ == Seq::<Seq<char>>::empty(),
        r.rest@ == Seq::<char>::empty(),
{
    let r = Routed { kind, params: RouteParams(Vec::new()), rest: String::new() };
    assert(r.params@ =~= Seq::<Seq<char>>::empty());
    r
}

fn with_id(kind: RouteKind, id: String, rest: String) -> (r: Routed)
    ensures
        r.kind == kind,
        r.params@ == (if kind == RouteKind::EventAggregates {
            seq![id@, Seq::empty()]
        } else {
            seq![id@]
        }),
        r.rest@ == rest@,
{
    let mut params: Vec<String> = Vec::new();
    params.push(id);
    if kind == RouteKind::EventAggregates {
        params.push(String::new());
    }
    let r = Routed { kind, params: RouteParams(params), rest };
    assert(r.params@ =~= (if kind == RouteKind::EventAggregates {
        seq![id@, Seq::empty()]
    } else {
        seq![id@]
    }));
    r
}

/// Routes a request under `/analytics` that is none of the fixed paths.
pub fn analytics_router(path: &str, method: Method) -> (r: Routed)
    ensures
        r.kind == analytics_kind(path@, method),
        r.params@ == route_params(path@, r.kind),
        r.rest@ == route_rest(path@, r.kind),
{
    proof {
        reveal_strlit("");
        assert(""@ =~= Seq::<char>::empty());
    }
    if method != Method::Get {
        return plain(RouteKind::NotFound);
    }
    if let Some((id, rest)) = match_id_path(path, "/analytics/0x", "", false) {
        return with_id(RouteKind::ChannelAnalytics, id, rest);
    }
    if let Some((id, rest)) = match_id_path(path, "/analytics/for-advertiser/0x", "", false) {
        return with_id(RouteKind::ChannelAdvertiserAnalytics, id, rest);
    }
    if let Some((id, rest)) = match_id_path(path, "/analytics/for-publisher/0x", "", false) {
        return with_id(RouteKind::ChannelPublisherAnalytics, id, rest);
    }
    plain(RouteKind::NotFound)
}

/// Routes a request under `/channel` that is none of the fixed paths.
pub fn channels_router(path: &str, method: Method) -> (r: Routed)
    ensures
        r.kind == channel_kind(path@, method),
        r.params@ == route_params(path@, r.kind),
        r.rest@ == route_rest(path@, r.kind),
{
    if method == Method::Get {
        if let Some((id, rest)) = match_id_path(path, "/channel/0x", "/last-approved", false) {
            return with_id(RouteKind::LastApproved, id, rest);
        }
        if let Some((id, rest)) = match_id_path(path, "/channel/0x", "/status", false) {
            return with_id(RouteKind::ChannelStatus, id, rest);
        }
        if let Some((id, rest)) = match_id_path(path, "/channel/0x", "/validator-messages", true) {
            return with_id(RouteKind::ListValidatorMessages, id, rest);
        }
        if let Some((id, rest)) = match_id_path(path, "/channel/0x", "/events-aggregates", false) {
            return with_id(RouteKind::EventAggregates, id, rest);
        }
        plain(RouteKind::NotFound)
    } else if method == Method::Post {
        if let Some((id, rest)) = match_id_path(path, "/channel/0x", "/validator-messages", true) {
            return with_id(RouteKind::CreateValidatorMessages, id, rest);
        }
        if let Some((id, rest)) = match_id_path(path, "/channel/0x", "/events", true) {
            return with_id(RouteKind::CreateEvents, id, rest);
        }
        plain(RouteKind::NotFound)
    } else {
        plain(RouteKind::NotFound)
    }
}

/// Routes a request by its path and method.
pub fn handle_routing(path: &str, method: Method) -> (r: Routed)
    ensures
        r.kind == route_kind(path@, method),
        r.params@ == route_params(path@, r.kind),
        r.rest@ == route_rest(path@, r.kind),
{
    if str_same(path, "/cfg") && method == Method::Get {
        plain(RouteKind::Cfg)
    } else if str_same(path, "/channel") && method == Method::Post {
        plain(RouteKind::CreateChannel)
    } else if str_same(path, "/channel/list") && method == Method::Get {
        plain(RouteKind::ChannelList)
    } else if str_same(path, "/channel/validate") && method == Method::Post {
        plain(RouteKind::ChannelValidate)
    } else if str_same(path, "/analytics") && method == Method::Get {
        plain(RouteKind::Analytics)
    } else if str_same(path, "/analytics/advanced") && method == Method::Get {
        plain(RouteKind::AdvancedAnalytics)
    } else if str_same(path, "/analytics/for-advertiser") && method == Method::Get {
        plain(RouteKind::AdvertiserAnalytics)
    } else if str_same(path, "/analytics/for-publisher") && method == Method::Get {
        plain(RouteKind::PublisherAnalytics)
    } else if starts_with(path, "/analytics") {
        analytics_router(path, method)
    } else if starts_with(path, "/channel") {
        channels_router(path, method)
    } else {
        plain(RouteKind::NotFound)
    }
}

/// What a request has to pass on each route, in order.
pub open spec fn route_middlewares(kind: RouteKind) -> Seq<Middleware> {
    match kind {
        RouteKind::AdvancedAnalytics => seq![Middleware::AuthRequired],
        RouteKind::AdvertiserAnalytics => seq![Middleware::AuthRequired],
        RouteKind::PublisherAnalytics => seq![Middleware::AuthRequired],
        RouteKind::ChannelAnalytics => seq![Middleware::ChannelLoad, Middleware::GetChannelId],
        RouteKind::ChannelAdvertiserAnalytics => seq![
            Middleware::AuthRequired,
            Middleware::GetChannelId,
        ],
        RouteKind::ChannelPublisherAnalytics => seq![
            Middleware::AuthRequired,
            Middleware::GetChannelId,
        ],
        RouteKind::ChannelStatus => seq![Middleware::ChannelLoad],
        RouteKind::ListValidatorMessages => seq![Middleware::ChannelLoad],
        RouteKind::CreateValidatorMessages => seq![
            Middleware::AuthRequired,
            Middleware::ChannelLoad,
        ],
        RouteKind::EventAggregates => seq![Middleware::AuthRequired, Middleware::ChannelLoad],
        RouteKind::CreateEvents => seq![Middleware::ChannelLoad],
        _ => Seq::empty(),
    }
}

/// What a request has to pass on the route `kind`, in order.
pub fn middlewares(kind: RouteKind) -> (r: Vec<Middleware>)
    ensures
        r@ == route_middlewares(kind),
{
    let mut out: Vec<Middleware> = Vec::new();
    match kind {
        RouteKind::AdvancedAnalytics | RouteKind::AdvertiserAnalytics | RouteKind::PublisherAnalytics => {
            out.push(Middleware::AuthRequired);
        },
        RouteKind::ChannelAnalytics => {
            out.push(Middleware::ChannelLoad);
            out.push(Middleware::GetChannelId);
        },
        RouteKind::ChannelAdvertiserAnalytics | RouteKind::ChannelPublisherAnalytics => {
            out.push(Middleware::AuthRequired);
            out.push(Middleware::GetChannelId);
        },
        RouteKind::ChannelStatus | RouteKind::ListValidatorMessages | RouteKind::CreateEvents => {
            out.push(Middleware::ChannelLoad);
        },
        RouteKind::CreateValidatorMessages | RouteKind::EventAggregates => {
            out.push(Middleware::AuthRequired);
            out.push(Middleware::ChannelLoad);
        },
        _ => {},
    }
    assert(out@ =~= route_middlewares(kind));
    out
}

/// Lets a request pass that comes with a session, and turns down one that
/// does not.
pub fn auth_required_middleware(has_session: bool) -> (r: Result<(), ResponseError>)
    ensures
        has_session ==> r.is_ok(),
        !has_session ==> r.is_err() && r.unwrap_err() is Unauthorized,
{
    if has_session {
        Ok(())
    } else {
        Err(ResponseError::Unauthorized)
    }
}

} // verus!
