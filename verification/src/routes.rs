use vstd::prelude::*;
use crate::auth::{auth, key_view, spec_authorized};
use crate::models::{CountedLinkStatistics, Link, LinkTarget, StatisticEvent, opt_view};
use crate::store::{LinkStore, counts_correct, spec_lookup, store_error_response};
use crate::utils::generate_id;

verus! {

/// What url's parser makes of a string: the parsed URL's normalized
/// serialization, if the string is a well-formed absolute URL.
pub uninterp spec fn parsed_url(s: Seq<char>) -> Option<Seq<char>>;

/// Relies on url's `Url::parse` and `Url::to_string`: parsing succeeds on
/// exactly the well-formed absolute URLs, and the serialization is a
/// function of the input alone.
#[verifier::external_body]
fn parse_and_normalize(s: &str) -> (r: Option<String>)
    ensures
        match r {
            Some(u) => parsed_url(s@) == Some(u@),
            None => parsed_url(s@) is None,
        },
{
    match url::Url::parse(s) {
        Ok(u) => Some(u.to_string()),
        Err(_) => None,
    }
}

/// Validates a destination: the normalized URL for a well-formed absolute
/// URL, and nothing for a malformed one.
pub fn validate_target(s: &str) -> (r: Option<String>)
    ensures
        match r {
            Some(u) => parsed_url(s@) == Some(u@),
            None => parsed_url(s@) is None,
        },
{
    parse_and_normalize(s)
}

/// The fixed caching policy sent with every redirect.
pub open spec fn spec_cache_control() -> Seq<char> {
    "public, max-age=300, s-maxage=300, stale-while-revalidate=300, stale-if-error=300"@
}

/// The HTTP-level shape of a response on the redirect path: a status, the
/// optional Location and Cache-Control headers, and a body.
#[derive(Debug)]
pub struct HttpReply {
    pub status: u16,
    pub location: Option<String>,
    pub cache_control: Option<String>,
    pub body: String,
}

/// The reply for a resolvable identifier: a temporary redirect at the stored
/// target, cached under the fixed policy, with an empty body.
pub open spec fn redirect_found_reply(r: HttpReply, target: Seq<char>) -> bool {
    &&& r.status == 307
    &&& opt_view(r.location) == Some(target)
    &&& opt_view(r.cache_control) == Some(spec_cache_control())
    &&& r.body@ == Seq::<char>::empty()
}

/// The reply for an unknown identifier: deliberately a 200 carrying an error
/// text, not a 404 and not a redirect.
pub open spec fn redirect_missing_reply(r: HttpReply) -> bool {
    &&& r.status == 200
    &&& r.location is None
    &&& r.cache_control is None
    &&& r.body@ == "Not found"@
}

/// The health check: a fixed healthy answer, with no dependencies and no
/// failure modes.
pub fn health_check() -> (r: (u16, &'static str))
    ensures
        r.0 == 200,
        r.1@ == "Service healthy"@,
{
    (200, "Service healthy")
}

/// Creates a link under a caller-supplied identifier: validates the URL,
/// then inserts. A malformed URL is the client's fault (409) and writes
/// nothing; an identifier already taken surfaces as an internal error, as
/// does any other store failure. On success the stored row is returned.
pub fn create_link(store: &mut LinkStore, new_link: &LinkTarget, new_id: String) -> (r: Result<
    Link,
    (u16, String),
>)
    requires
        old(store).wf(),
    ensures
        final(store).wf(),
        final(store).events@ == old(store).events@,
        final(store).hashed_api_key@ == old(store).hashed_api_key@,
        match r {
            Ok(link) => {
                &&& parsed_url(new_link.target_url@) == Some(link.target_url@)
                &&& link.id@ == new_id@
                &&& spec_lookup(old(store).links@, new_id@) is None
                &&& final(store).links@ == old(store).links@.push(link)
                &&& spec_lookup(final(store).links@, new_id@) == Some(link)
            },
            Err(e) => {
                &&& *final(store) == *old(store)
                &&& if parsed_url(new_link.target_url@) is None {
                    e.0 == 409 && e.1@ == "Url malformed"@
                } else {
                    e.0 == 500 && spec_lookup(old(store).links@, new_id@) is Some
                }
            },
        },
{
    let url = match parse_and_normalize(new_link.target_url.as_str()) {
        Some(u) => u,
        None => {
            return Err((409, "Url malformed".to_owned()));
        },
    };
    match store.create(new_id, url) {
        Ok(link) => Ok(link),
        Err(e) => Err(store_error_response(&e)),
    }
}

/// Rewrites the destination of an existing link: validates the URL, then
/// updates. A malformed URL is the client's fault (409) and writes nothing;
/// an unknown identifier surfaces as an internal error. On success the
/// updated row is returned, every other link keeps its value, and later
/// lookups of this identifier see only the new target.
pub fn update_link(store: &mut LinkStore, link_id: &String, new_link: &LinkTarget) -> (r: Result<
    Link,
    (u16, String),
>)
    requires
        old(store).wf(),
    ensures
        final(store).wf(),
        final(store).events@ == old(store).events@,
        final(store).hashed_api_key@ == old(store).hashed_api_key@,
        final(store).links@.len() == old(store).links@.len(),
        match r {
            Ok(link) => {
                &&& parsed_url(new_link.target_url@) == Some(link.target_url@)
                &&& link.id@ == link_id@
                &&& spec_lookup(old(store).links@, link_id@) is Some
                &&& spec_lookup(final(store).links@, link_id@) == Some(link)
                &&& forall|other: Seq<char>|
                    other != link_id@ ==> #[trigger] spec_lookup(final(store).links@, other)
                        == spec_lookup(old(store).links@, other)
            },
            Err(e) => {
                &&& *final(store) == *old(store)
                &&& if parsed_url(new_link.target_url@) is None {
                    e.0 == 409 && e.1@ == "Malformed url"@
                } else {
                    e.0 == 500 && spec_lookup(old(store).links@, link_id@) is None
                }
            },
        },
{
    let url = match parse_and_normalize(new_link.target_url.as_str()) {
        Some(u) => u,
        None => {
            return Err((409, "Malformed url".to_owned()));
        },
    };
    match store.update(link_id, url) {
        Ok(link) => Ok(link),
        Err(e) => Err(store_error_response(&e)),
    }
}

/// The redirect path. A resolvable identifier yields the 307 reply at the
/// stored target and appends exactly one statistics event carrying the
/// request's optional referer and user agent; an unknown one yields the
/// deliberate 200 "Not found" reply and records nothing. The stored links
/// are never changed, so the reply cannot race its own bookkeeping.
pub fn redirect(
    store: &mut LinkStore,
    link_id: &String,
    referer: Option<String>,
    user_agent: Option<String>,
) -> (r: HttpReply)
    requires
        old(store).wf(),
    ensures
        final(store).wf(),
        final(store).links@ == old(store).links@,
        final(store).hashed_api_key@ == old(store).hashed_api_key@,
        match spec_lookup(old(store).links@, link_id@) {
            Some(link) => {
                &&& redirect_found_reply(r, link.target_url@)
                &&& final(store).events@ == old(store).events@.push(
                    StatisticEvent { link_id: *link_id, referer, user_agent },
                )
            },
            None => {
                &&& redirect_missing_reply(r)
                &&& final(store).events@ == old(store).events@
            },
        },
{
    match store.get(link_id) {
        None => HttpReply {
            status: 200,
            location: None,
            cache_control: None,
            body: "Not found".to_owned(),
        },
        Some(link) => {
            store.record(link_id.clone(), referer, user_agent);
            HttpReply {
                status: 307,
                location: Some(link.target_url),
                cache_control: Some(
                    "public, max-age=300, s-maxage=300, stale-while-revalidate=300, stale-if-error=300".to_owned(),
                ),
                body: String::new(),
            }
        },
    }
}

/// The statistics read: the aggregated groups for one link, possibly empty.
pub fn get_link_statistics(store: &LinkStore, link_id: &String) -> (r: Vec<CountedLinkStatistics>)
    requires
        store.events@.len() <= 0x7fff_ffff_ffff_ffff,
    ensures
        counts_correct(store.events@, link_id@, r@),
{
    store.query_counts(link_id)
}

/// The protected create route: authentication runs first, and a denied request
/// leaves the store exactly as it was — no write precedes authentication.
/// An admitted request draws a fresh identifier and creates the link. A
/// collision on the drawn identifier is surfaced as an internal error, not
/// retried with a new draw: the failure is left to the client.
pub fn handle_create(store: &mut LinkStore, api_key: Option<&String>, new_link: &LinkTarget) -> (r:
    Result<Link, (u16, String)>)
    requires
        old(store).wf(),
    ensures
        final(store).wf(),
        final(store).events@ == old(store).events@,
        final(store).hashed_api_key@ == old(store).hashed_api_key@,
        !spec_authorized(old(store).hashed_api_key@, key_view(api_key)) ==> *final(store) == *old(
            store,
        ) && (r matches Err(e) && e.0 == 401 && e.1@ == "Unauthorized"@),
        spec_authorized(old(store).hashed_api_key@, key_view(api_key)) ==> match r {
            Ok(link) => {
                &&& parsed_url(new_link.target_url@) == Some(link.target_url@)
                &&& spec_lookup(old(store).links@, link.id@) is None
                &&& final(store).links@ == old(store).links@.push(link)
                &&& spec_lookup(final(store).links@, link.id@) == Some(link)
            },
            Err(e) => {
                &&& *final(store) == *old(store)
                &&& (parsed_url(new_link.target_url@) is None ==> e.0 == 409 && e.1@
                    == "Url malformed"@)
                &&& (parsed_url(new_link.target_url@) is Some ==> e.0 == 500)
            },
        },
{
    match auth(store, api_key) {
        Err(e) => Err(e),
        Ok(()) => {
            let new_id = generate_id();
            create_link(store, new_link, new_id)
        },
    }
}

/// The protected update route: authentication runs first, and a denied request
/// leaves the store exactly as it was — no write precedes authentication.
pub fn handle_update(
    store: &mut LinkStore,
    api_key: Option<&String>,
    link_id: &String,
    new_link: &LinkTarget,
) -> (r: Result<Link, (u16, String)>)
    requires
        old(store).wf(),
    ensures
        final(store).wf(),
        final(store).events@ == old(store).events@,
        final(store).hashed_api_key@ == old(store).hashed_api_key@,
        !spec_authorized(old(store).hashed_api_key@, key_view(api_key)) ==> *final(store) == *old(
            store,
        ) && (r matches Err(e) && e.0 == 401 && e.1@ == "Unauthorized"@),
        spec_authorized(old(store).hashed_api_key@, key_view(api_key)) ==> match r {
            Ok(link) => {
                &&& parsed_url(new_link.target_url@) == Some(link.target_url@)
                &&& link.id@ == link_id@
                &&& spec_lookup(final(store).links@, link_id@) == Some(link)
                &&& forall|other: Seq<char>|
                    other != link_id@ ==> #[trigger] spec_lookup(final(store).links@, other)
                        == spec_lookup(old(store).links@, other)
            },
            Err(e) => {
                &&& *final(store) == *old(store)
                &&& (parsed_url(new_link.target_url@) is None ==> e.0 == 409 && e.1@
                    == "Malformed url"@)
                &&& (parsed_url(new_link.target_url@) is Some ==> e.0 == 500 && spec_lookup(
                    old(store).links@,
                    link_id@,
                ) is None)
            },
        },
{
    match auth(store, api_key) {
        Err(e) => Err(e),
        Ok(()) => update_link(store, link_id, new_link),
    }
}

/// The protected statistics route: authentication runs first; the store is only
/// read, so a denied request can have touched nothing.
pub fn handle_statistics(store: &LinkStore, api_key: Option<&String>, link_id: &String) -> (r:
    Result<Vec<CountedLinkStatistics>, (u16, String)>)
    requires
        store.events@.len() <= 0x7fff_ffff_ffff_ffff,
    ensures
        !spec_authorized(store.hashed_api_key@, key_view(api_key)) ==> (r matches Err(e) && e.0
            == 401 && e.1@ == "Unauthorized"@),
        spec_authorized(store.hashed_api_key@, key_view(api_key)) ==> (r matches Ok(groups)
            && counts_correct(store.events@, link_id@, groups@)),
{
    match auth(store, api_key) {
        Err(e) => Err(e),
        Ok(()) => Ok(store.query_counts(link_id)),
    }
}

} // verus!
