use vstd::prelude::*;
use crate::models::{CountedLinkStatistics, Link, StatisticEvent, opt_view};

verus! {

/// The failure taxonomy of the link store: the budget expired, the id was
/// already taken, no row matched, or the backend itself failed.
#[derive(Debug)]
pub enum StoreError {
    Timeout,
    Conflict,
    NotFound,
    Backend,
}

/// Every store failure surfaces to the client as a generic internal-error
/// response: status 500 with a message naming the failure.
pub fn store_error_response(e: &StoreError) -> (r: (u16, String))
    ensures
        r.0 == 500,
        match e {
            StoreError::Timeout => r.1@ == "operation timed out"@,
            StoreError::Conflict => r.1@ == "identifier already taken"@,
            StoreError::NotFound => r.1@ == "no such link"@,
            StoreError::Backend => r.1@ == "database error"@,
        },
{
    match e {
        StoreError::Timeout => (500, "operation timed out".to_owned()),
        StoreError::Conflict => (500, "identifier already taken".to_owned()),
        StoreError::NotFound => (500, "no such link".to_owned()),
        StoreError::Backend => (500, "database error".to_owned()),
    }
}

/// No two links share an identifier.
pub open spec fn unique_ids(links: Seq<Link>) -> bool {
    forall|i: int, j: int|
        #![trigger links[i], links[j]]
        0 <= i < j < links.len() ==> links[i].id@ != links[j].id@
}

/// The first link whose identifier is `id`, if any.
pub open spec fn spec_lookup(links: Seq<Link>, id: Seq<char>) -> Option<Link>
    decreases links.len(),
{
    if links.len() == 0 {
        None
    } else if links[0].id@ == id {
        Some(links[0])
    } else {
        spec_lookup(links.drop_first(), id)
    }
}

/// Dropping the first link keeps the identifiers unique.
proof fn lemma_unique_drop_first(links: Seq<Link>)
    requires
        links.len() > 0,
        unique_ids(links),
    ensures
        unique_ids(links.drop_first()),
{
    assert forall|i: int, j: int|
        #![trigger links.drop_first()[i], links.drop_first()[j]]
        0 <= i < j < links.drop_first().len() implies links.drop_first()[i].id@
        != links.drop_first()[j].id@ by {
        assert(links.drop_first()[i] == links[i + 1]);
        assert(links.drop_first()[j] == links[j + 1]);
    }
}

/// If some link carries `id` and identifiers are unique, the lookup finds it.
proof fn lemma_lookup_present(links: Seq<Link>, id: Seq<char>, i: int)
    requires
        0 <= i < links.len(),
        links[i].id@ == id,
        unique_ids(links),
    ensures
        spec_lookup(links, id) == Some(links[i]),
    decreases links.len(),
{
    if i == 0 {
    } else {
        assert(links[0].id@ != links[i].id@);
        lemma_unique_drop_first(links);
        assert(links.drop_first()[i - 1] == links[i]);
        lemma_lookup_present(links.drop_first(), id, i - 1);
    }
}

/// If no link carries `id`, the lookup finds nothing.
proof fn lemma_lookup_absent(links: Seq<Link>, id: Seq<char>)
    requires
        forall|i: int| 0 <= i < links.len() ==> (#[trigger] links[i]).id@ != id,
    ensures
        spec_lookup(links, id) is None,
    decreases links.len(),
{
    if links.len() == 0 {
    } else {
        assert(forall|i: int|
            0 <= i < links.drop_first().len() ==> (#[trigger] links.drop_first()[i]) == links[i
                + 1]);
        lemma_lookup_absent(links.drop_first(), id);
    }
}

/// Appending a link leaves every resolvable lookup unchanged and makes the
/// new identifier resolvable where it was not before.
proof fn lemma_lookup_push(links: Seq<Link>, l: Link, id: Seq<char>)
    ensures
        spec_lookup(links.push(l), id) == if spec_lookup(links, id) is Some {
            spec_lookup(links, id)
        } else if l.id@ == id {
            Some(l)
        } else {
            None
        },
    decreases links.len(),
{
    if links.len() == 0 {
        assert(links.push(l)[0] == l);
        assert(links.push(l).drop_first() =~= Seq::<Link>::empty());
    } else {
        assert(links.push(l)[0] == links[0]);
        assert(links.push(l).drop_first() =~= links.drop_first().push(l));
        lemma_lookup_push(links.drop_first(), l, id);
    }
}

/// Appending a link with a fresh identifier preserves uniqueness.
proof fn lemma_unique_push(links: Seq<Link>, l: Link)
    requires
        unique_ids(links),
        spec_lookup(links, l.id@) is None,
    ensures
        unique_ids(links.push(l)),
{
    assert forall|i: int| 0 <= i < links.len() implies (#[trigger] links[i]).id@ != l.id@ by {
        if links[i].id@ == l.id@ {
            lemma_lookup_present(links, l.id@, i);
        }
    }
    assert forall|i: int, j: int|
        #![trigger links.push(l)[i], links.push(l)[j]]
        0 <= i < j < links.push(l).len() implies links.push(l)[i].id@ != links.push(l)[j].id@ by {
        assert(links.push(l)[i] == links[i]);
        if j < links.len() {
            assert(links.push(l)[j] == links[j]);
        } else {
            assert(links.push(l)[j] == l);
        }
    }
}

/// Replacing a link with one that keeps its identifier preserves uniqueness.
proof fn lemma_unique_update(links: Seq<Link>, i: int, l: Link)
    requires
        unique_ids(links),
        0 <= i < links.len(),
        l.id@ == links[i].id@,
    ensures
        unique_ids(links.update(i, l)),
{
    assert forall|m: int, n: int|
        #![trigger links.update(i, l)[m], links.update(i, l)[n]]
        0 <= m < n < links.update(i, l).len() implies links.update(i, l)[m].id@ != links.update(
        i,
        l,
    )[n].id@ by {
        assert(links.update(i, l)[m].id@ == links[m].id@);
        assert(links.update(i, l)[n].id@ == links[n].id@);
    }
}

/// Replacing the link at `i` with one that keeps its identifier redirects
/// that identifier's lookup to the replacement and leaves every other lookup
/// unchanged.
proof fn lemma_lookup_update(links: Seq<Link>, i: int, l: Link, id: Seq<char>)
    requires
        0 <= i < links.len(),
        l.id@ == links[i].id@,
        unique_ids(links),
    ensures
        spec_lookup(links.update(i, l), id) == if id == l.id@ {
            Some(l)
        } else {
            spec_lookup(links, id)
        },
    decreases links.len(),
{
    let updated = links.update(i, l);
    lemma_unique_update(links, i, l);
    if id == l.id@ {
        assert(updated[i] == l);
        lemma_lookup_present(updated, id, i);
    } else if i == 0 {
        assert(updated[0] == l);
        assert(updated.drop_first() =~= links.drop_first());
    } else {
        assert(updated[0] == links[0]);
        assert(updated.drop_first() =~= links.drop_first().update(i - 1, l));
        lemma_unique_drop_first(links);
        assert(links.drop_first()[i - 1] == links[i]);
        lemma_lookup_update(links.drop_first(), i - 1, l, id);
    }
}

/// The in-memory model of the service's persistent state: the stored links,
/// the append-only statistics events, and the singleton hashed credential.
pub struct LinkStore {
    pub links: Vec<Link>,
    pub events: Vec<StatisticEvent>,
    pub hashed_api_key: String,
}

impl LinkStore {
    /// Well-formedness: no two stored links share an identifier.
    pub open spec fn wf(self) -> bool {
        unique_ids(self.links@)
    }

    /// An empty store guarding its routes with the given hashed key.
    pub fn new(hashed_api_key: String) -> (r: LinkStore)
        ensures
            r.wf(),
            r.links@ == Seq::<Link>::empty(),
            r.events@ == Seq::<StatisticEvent>::empty(),
            r.hashed_api_key@ == hashed_api_key@,
    {
        LinkStore { links: Vec::new(), events: Vec::new(), hashed_api_key }
    }

    /// The position of the link with identifier `id`, if any.
    fn find_index(&self, id: &String) -> (r: Option<usize>)
        requires
            self.wf(),
        ensures
            match r {
                Some(i) => i < self.links@.len() && self.links@[i as int].id@ == id@
                    && spec_lookup(self.links@, id@) == Some(self.links@[i as int]),
                None => spec_lookup(self.links@, id@) is None,
            },
    {
        let mut i: usize = 0;
        while i < self.links.len()
            invariant
                i <= self.links@.len(),
                self.wf(),
                forall|k: int| 0 <= k < i ==> (#[trigger] self.links@[k]).id@ != id@,
            decreases self.links@.len() - i,
        {
            if self.links[i].id == *id {
                proof {
                    lemma_lookup_present(self.links@, id@, i as int);
                }
                return Some(i);
            }
            i += 1;
        }
        proof {
            lemma_lookup_absent(self.links@, id@);
        }
        None
    }

    /// Inserts a new link. Succeeds exactly when `id` is still free, and then
    /// appends the new row; an occupied `id` is a conflict and changes
    /// nothing. Events and the credential are never touched.
    pub fn create(&mut self, id: String, target_url: String) -> (r: Result<Link, StoreError>)
        requires
            old(self).wf(),
        ensures
            final(self).wf(),
            final(self).events@ == old(self).events@,
            final(self).hashed_api_key@ == old(self).hashed_api_key@,
            match r {
                Ok(link) => spec_lookup(old(self).links@, id@) is None && link.id@ == id@
                    && link.target_url@ == target_url@
                    && final(self).links@ == old(self).links@.push(link)
                    && spec_lookup(final(self).links@, id@) == Some(link),
                Err(e) => e is Conflict && spec_lookup(old(self).links@, id@) is Some
                    && *final(self) == *old(self),
            },
    {
        if self.find_index(&id).is_some() {
            return Err(StoreError::Conflict);
        }
        let link = Link { id: id.clone(), target_url: target_url.clone() };
        let stored = Link { id, target_url };
        let ghost stored_spec = stored;
        proof {
            assert(stored_spec == link);
            lemma_lookup_push(self.links@, stored_spec, stored_spec.id@);
            lemma_unique_push(self.links@, stored_spec);
        }
        self.links.push(stored);
        Ok(link)
    }

    /// Looks a link up by identifier; absence is a normal outcome, not an
    /// error.
    pub fn get(&self, id: &String) -> (r: Option<Link>)
        requires
            self.wf(),
        ensures
            match r {
                Some(link) => spec_lookup(self.links@, id@) == Some(link),
                None => spec_lookup(self.links@, id@) is None,
            },
    {
        match self.find_index(id) {
            Some(i) => {
                let link = &self.links[i];
                Some(Link { id: link.id.clone(), target_url: link.target_url.clone() })
            },
            None => None,
        }
    }

    /// Rewrites the destination of an existing link and returns the updated
    /// row; an unknown identifier is reported and changes nothing. Every
    /// other link, the events and the credential keep their values.
    pub fn update(&mut self, id: &String, target_url: String) -> (r: Result<Link, StoreError>)
        requires
            old(self).wf(),
        ensures
            final(self).wf(),
            final(self).events@ == old(self).events@,
            final(self).hashed_api_key@ == old(self).hashed_api_key@,
            final(self).links@.len() == old(self).links@.len(),
            match r {
                Ok(link) => spec_lookup(old(self).links@, id@) is Some && link.id@ == id@
                    && link.target_url@ == target_url@ && spec_lookup(final(self).links@, id@)
                    == Some(link) && forall|other: Seq<char>|
                    other != id@ ==> #[trigger] spec_lookup(final(self).links@, other)
                        == spec_lookup(old(self).links@, other),
                Err(e) => e is NotFound && spec_lookup(old(self).links@, id@) is None && *final(self) == *old(self),
            },
    {
        match self.find_index(id) {
            Some(i) => {
                let updated = Link { id: id.clone(), target_url: target_url.clone() };
                let returned = Link { id: id.clone(), target_url };
                let ghost updated_spec = updated;
                proof {
                    assert(updated_spec == returned);
                    lemma_unique_update(self.links@, i as int, updated_spec);
                    assert forall|other: Seq<char>|
                        #[trigger] spec_lookup(self.links@.update(i as int, updated_spec), other)
                            == if other == updated_spec.id@ {
                            Some(updated_spec)
                        } else {
                            spec_lookup(self.links@, other)
                        } by {
                        lemma_lookup_update(self.links@, i as int, updated_spec, other);
                    }
                }
                self.links[i] = updated;
                Ok(returned)
            },
            None => Err(StoreError::NotFound),
        }
    }

    /// Appends one statistics event; links and the credential are never
    /// touched.
    pub fn record(&mut self, link_id: String, referer: Option<String>, user_agent: Option<String>)
        requires
            old(self).wf(),
        ensures
            final(self).wf(),
            final(self).links@ == old(self).links@,
            final(self).hashed_api_key@ == old(self).hashed_api_key@,
            final(self).events@ == old(self).events@.push(
                StatisticEvent { link_id, referer, user_agent },
            ),
    {
        self.events.push(StatisticEvent { link_id, referer, user_agent });
    }

    /// Aggregates the raw events of one link into distinct
    /// (referer, user agent) groups, each with the count of matching events.
    /// Group order is unspecified; consumers must not rely on it.
    pub fn query_counts(&self, link_id: &String) -> (r: Vec<CountedLinkStatistics>)
        requires
            self.events@.len() <= 0x7fff_ffff_ffff_ffff,
        ensures
            counts_correct(self.events@, link_id@, r@),
    {
        let mut groups: Vec<CountedLinkStatistics> = Vec::new();
        let mut k: usize = 0;
        while k < self.events.len()
            invariant
                k <= self.events@.len(),
                self.events@.len() <= 0x7fff_ffff_ffff_ffff,
                forall|g: int|
                    0 <= g < groups@.len() ==> {
                        &&& (#[trigger] groups@[g]).amount == Some(
                            spec_event_count(
                                self.events@.take(k as int),
                                link_id@,
                                opt_view(groups@[g].referer),
                                opt_view(groups@[g].user_agent),
                            ) as i64,
                        )
                        &&& spec_event_count(
                            self.events@.take(k as int),
                            link_id@,
                            opt_view(groups@[g].referer),
                            opt_view(groups@[g].user_agent),
                        ) > 0
                    },
                forall|g1: int, g2: int|
                    #![trigger groups@[g1], groups@[g2]]
                    0 <= g1 < g2 < groups@.len() ==> !(opt_view(groups@[g1].referer) == opt_view(
                        groups@[g2].referer,
                    ) && opt_view(groups@[g1].user_agent) == opt_view(groups@[g2].user_agent)),
                forall|i: int|
                    0 <= i < k && (#[trigger] self.events@[i]).link_id@ == link_id@
                        ==> exists|g: int|
                        0 <= g < groups@.len() && opt_view((#[trigger] groups@[g]).referer)
                            == opt_view(self.events@[i].referer) && opt_view(
                            groups@[g].user_agent,
                        ) == opt_view(self.events@[i].user_agent),
            decreases self.events@.len() - k,
        {
            let ghost prefix = self.events@.take(k as int);
            let ghost event = self.events@[k as int];
            let ghost groups0 = groups@;
            if self.events[k].link_id == *link_id {
                match find_group(&groups, &self.events[k].referer, &self.events[k].user_agent) {
                    Some(gi) => {
                        let current: i64 = match groups[gi].amount {
                            Some(v) => v,
                            None => 0,
                        };
                        proof {
                            lemma_count_bounds(
                                prefix,
                                link_id@,
                                opt_view(groups0[gi as int].referer),
                                opt_view(groups0[gi as int].user_agent),
                            );
                        }
                        let refreshed = CountedLinkStatistics {
                            amount: Some(current + 1),
                            user_agent: opt_clone(&groups[gi].user_agent),
                            referer: opt_clone(&groups[gi].referer),
                        };
                        groups[gi] = refreshed;
                        proof {
                            assert forall|g: int| 0 <= g < groups@.len() implies {
                                &&& (#[trigger] groups@[g]).amount == Some(
                                    spec_event_count(
                                        self.events@.take(k as int + 1),
                                        link_id@,
                                        opt_view(groups@[g].referer),
                                        opt_view(groups@[g].user_agent),
                                    ) as i64,
                                )
                                &&& spec_event_count(
                                    self.events@.take(k as int + 1),
                                    link_id@,
                                    opt_view(groups@[g].referer),
                                    opt_view(groups@[g].user_agent),
                                ) > 0
                            } by {
                                lemma_count_extend(
                                    self.events@,
                                    k as int,
                                    link_id@,
                                    opt_view(groups@[g].referer),
                                    opt_view(groups@[g].user_agent),
                                );
                                if g == gi as int {
                                    assert(groups@[g] == refreshed);
                                    assert(event_matches(
                                        event,
                                        link_id@,
                                        opt_view(refreshed.referer),
                                        opt_view(refreshed.user_agent),
                                    ));
                                } else {
                                    assert(groups@[g] == groups0[g]);
                                    assert(!(opt_view(groups0[g].referer) == opt_view(
                                        groups0[gi as int].referer,
                                    ) && opt_view(groups0[g].user_agent) == opt_view(
                                        groups0[gi as int].user_agent,
                                    )));
                                    assert(!event_matches(
                                        event,
                                        link_id@,
                                        opt_view(groups@[g].referer),
                                        opt_view(groups@[g].user_agent),
                                    ));
                                }
                            }
                            assert forall|i: int|
                                0 <= i < k as int + 1 && (#[trigger] self.events@[i]).link_id@
                                    == link_id@ implies exists|g: int|
                                0 <= g < groups@.len() && opt_view((#[trigger] groups@[g]).referer)
                                    == opt_view(self.events@[i].referer) && opt_view(
                                    groups@[g].user_agent,
                                ) == opt_view(self.events@[i].user_agent) by {
                                if i < k as int {
                                    let g0 = choose|g: int|
                                        0 <= g < groups0.len() && opt_view(
                                            (#[trigger] groups0[g]).referer,
                                        ) == opt_view(self.events@[i].referer) && opt_view(
                                            groups0[g].user_agent,
                                        ) == opt_view(self.events@[i].user_agent);
                                    assert(opt_view(groups@[g0].referer) == opt_view(
                                        self.events@[i].referer,
                                    ) && opt_view(groups@[g0].user_agent) == opt_view(
                                        self.events@[i].user_agent,
                                    ));
                                } else {
                                    assert(opt_view(groups@[gi as int].referer) == opt_view(
                                        self.events@[i].referer,
                                    ) && opt_view(groups@[gi as int].user_agent) == opt_view(
                                        self.events@[i].user_agent,
                                    ));
                                }
                            }
                        }
                    },
                    None => {
                        proof {
                            let refr = opt_view(event.referer);
                            let ua = opt_view(event.user_agent);
                            lemma_count_bounds(prefix, link_id@, refr, ua);
                            if spec_event_count(prefix, link_id@, refr, ua) > 0 {
                                lemma_count_positive(prefix, link_id@, refr, ua);
                                let i = choose|i: int|
                                    0 <= i < prefix.len() && event_matches(
                                        #[trigger] prefix[i],
                                        link_id@,
                                        refr,
                                        ua,
                                    );
                                assert(self.events@[i] == prefix[i]);
                                assert(self.events@[i].link_id@ == link_id@);
                                assert(false);
                            }
                            assert(spec_event_count(prefix, link_id@, refr, ua) == 0);
                        }
                        groups.push(
                            CountedLinkStatistics {
                                amount: Some(1),
                                user_agent: opt_clone(&self.events[k].user_agent),
                                referer: opt_clone(&self.events[k].referer),
                            },
                        );
                        proof {
                            assert forall|g: int| 0 <= g < groups@.len() implies {
                                &&& (#[trigger] groups@[g]).amount == Some(
                                    spec_event_count(
                                        self.events@.take(k as int + 1),
                                        link_id@,
                                        opt_view(groups@[g].referer),
                                        opt_view(groups@[g].user_agent),
                                    ) as i64,
                                )
                                &&& spec_event_count(
                                    self.events@.take(k as int + 1),
                                    link_id@,
                                    opt_view(groups@[g].referer),
                                    opt_view(groups@[g].user_agent),
                                ) > 0
                            } by {
                                lemma_count_extend(
                                    self.events@,
                                    k as int,
                                    link_id@,
                                    opt_view(groups@[g].referer),
                                    opt_view(groups@[g].user_agent),
                                );
                                if g < groups0.len() {
                                    assert(groups@[g] == groups0[g]);
                                    assert(!event_matches(
                                        event,
                                        link_id@,
                                        opt_view(groups@[g].referer),
                                        opt_view(groups@[g].user_agent),
                                    ));
                                } else {
                                    assert(event_matches(
                                        event,
                                        link_id@,
                                        opt_view(groups@[g].referer),
                                        opt_view(groups@[g].user_agent),
                                    ));
                                }
                            }
                            assert forall|i: int|
                                0 <= i < k as int + 1 && (#[trigger] self.events@[i]).link_id@
                                    == link_id@ implies exists|g: int|
                                0 <= g < groups@.len() && opt_view((#[trigger] groups@[g]).referer)
                                    == opt_view(self.events@[i].referer) && opt_view(
                                    groups@[g].user_agent,
                                ) == opt_view(self.events@[i].user_agent) by {
                                if i < k as int {
                                    let g0 = choose|g: int|
                                        0 <= g < groups0.len() && opt_view(
                                            (#[trigger] groups0[g]).referer,
                                        ) == opt_view(self.events@[i].referer) && opt_view(
                                            groups0[g].user_agent,
                                        ) == opt_view(self.events@[i].user_agent);
                                    assert(opt_view(groups@[g0].referer) == opt_view(
                                        self.events@[i].referer,
                                    ) && opt_view(groups@[g0].user_agent) == opt_view(
                                        self.events@[i].user_agent,
                                    ));
                                } else {
                                    let gn = groups@.len() - 1;
                                    assert(opt_view(groups@[gn].referer) == opt_view(
                                        self.events@[i].referer,
                                    ) && opt_view(groups@[gn].user_agent) == opt_view(
                                        self.events@[i].user_agent,
                                    ));
                                }
                            }
                        }
                    },
                }
            } else {
                proof {
                    assert forall|g: int| 0 <= g < groups@.len() implies {
                        &&& (#[trigger] groups@[g]).amount == Some(
                            spec_event_count(
                                self.events@.take(k as int + 1),
                                link_id@,
                                opt_view(groups@[g].referer),
                                opt_view(groups@[g].user_agent),
                            ) as i64,
                        )
                        &&& spec_event_count(
                            self.events@.take(k as int + 1),
                            link_id@,
                            opt_view(groups@[g].referer),
                            opt_view(groups@[g].user_agent),
                        ) > 0
                    } by {
                        lemma_count_extend(
                            self.events@,
                            k as int,
                            link_id@,
                            opt_view(groups@[g].referer),
                            opt_view(groups@[g].user_agent),
                        );
                        assert(!event_matches(
                            event,
                            link_id@,
                            opt_view(groups@[g].referer),
                            opt_view(groups@[g].user_agent),
                        ));
                    }
                }
            }
            k += 1;
        }
        proof {
            assert(self.events@.take(k as int) =~= self.events@);
        }
        groups
    }
}

/// Idempotent read: a redirect records an event but never changes the
/// stored links (see `redirect`'s contract), so two lookups of the same
/// identifier with no intervening update return the same link, and with it
/// the same target, both times.
pub proof fn lemma_redirect_read_idempotent(before: LinkStore, after: LinkStore, id: Seq<char>)
    requires
        after.links@ == before.links@,
    ensures
        spec_lookup(after.links@, id) == spec_lookup(before.links@, id),
{
}

/// Round trip: a successful create appends a link whose identifier did not
/// resolve before, and afterwards that identifier resolves to exactly the
/// created link — so a redirect that follows replies with the temporary
/// redirect at the created target (see `redirect`'s contract on a
/// resolvable identifier).
pub proof fn lemma_create_then_redirect(before: Seq<Link>, link: Link)
    requires
        spec_lookup(before, link.id@) is None,
    ensures
        spec_lookup(before.push(link), link.id@) == Some(link),
{
    lemma_lookup_push(before, link, link.id@);
}

/// Update visibility: after a successful update the identifier resolves to
/// the updated row alone, so whatever a later redirect sees for it is the
/// new target and never the previous value.
pub proof fn lemma_update_visibility(after: LinkStore, id: Seq<char>, updated: Link, seen: Link)
    requires
        spec_lookup(after.links@, id) == Some(updated),
        spec_lookup(after.links@, id) == Some(seen),
    ensures
        seen == updated,
        seen.target_url@ == updated.target_url@,
{
}

/// The aggregation contract over a link's events. Every reported group
/// carries exactly the count of its matching events and counts at least one;
/// no two groups repeat a (referer, user agent) pair; and every event of the
/// link has a group for its pair. Group order is left open.
pub open spec fn counts_correct(
    events: Seq<StatisticEvent>,
    link_id: Seq<char>,
    groups: Seq<CountedLinkStatistics>,
) -> bool {
    &&& forall|g: int|
        0 <= g < groups.len() ==> {
            &&& (#[trigger] groups[g]).amount == Some(
                spec_event_count(
                    events,
                    link_id,
                    opt_view(groups[g].referer),
                    opt_view(groups[g].user_agent),
                ) as i64,
            )
            &&& spec_event_count(
                events,
                link_id,
                opt_view(groups[g].referer),
                opt_view(groups[g].user_agent),
            ) > 0
        }
    &&& forall|g1: int, g2: int|
        #![trigger groups[g1], groups[g2]]
        0 <= g1 < g2 < groups.len() ==> !(opt_view(groups[g1].referer) == opt_view(
            groups[g2].referer,
        ) && opt_view(groups[g1].user_agent) == opt_view(groups[g2].user_agent))
    &&& forall|i: int|
        0 <= i < events.len() && (#[trigger] events[i]).link_id@ == link_id ==> exists|g: int|
            0 <= g < groups.len() && opt_view((#[trigger] groups[g]).referer) == opt_view(
                events[i].referer,
            ) && opt_view(groups[g].user_agent) == opt_view(events[i].user_agent)
}

/// Whether an event belongs to the given link and carries exactly the given
/// optional referer and user agent.
pub open spec fn event_matches(
    e: StatisticEvent,
    link_id: Seq<char>,
    referer: Option<Seq<char>>,
    user_agent: Option<Seq<char>>,
) -> bool {
    e.link_id@ == link_id && opt_view(e.referer) == referer && opt_view(e.user_agent) == user_agent
}

/// How many events belong to the given link with exactly the given optional
/// referer and user agent.
pub open spec fn spec_event_count(
    events: Seq<StatisticEvent>,
    link_id: Seq<char>,
    referer: Option<Seq<char>>,
    user_agent: Option<Seq<char>>,
) -> int
    decreases events.len(),
{
    if events.len() == 0 {
        0
    } else {
        spec_event_count(events.drop_last(), link_id, referer, user_agent) + if event_matches(
            events.last(),
            link_id,
            referer,
            user_agent,
        ) {
            1int
        } else {
            0int
        }
    }
}

/// Taking one more event extends the count by one exactly when that event
/// matches.
proof fn lemma_count_extend(
    events: Seq<StatisticEvent>,
    k: int,
    link_id: Seq<char>,
    referer: Option<Seq<char>>,
    user_agent: Option<Seq<char>>,
)
    requires
        0 <= k < events.len(),
    ensures
        spec_event_count(events.take(k + 1), link_id, referer, user_agent) == spec_event_count(
            events.take(k),
            link_id,
            referer,
            user_agent,
        ) + if event_matches(events[k], link_id, referer, user_agent) {
            1int
        } else {
            0int
        },
{
    assert(events.take(k + 1).drop_last() =~= events.take(k));
    assert(events.take(k + 1).last() == events[k]);
}

/// The count of a group never exceeds the number of events.
proof fn lemma_count_bounds(
    events: Seq<StatisticEvent>,
    link_id: Seq<char>,
    referer: Option<Seq<char>>,
    user_agent: Option<Seq<char>>,
)
    ensures
        0 <= spec_event_count(events, link_id, referer, user_agent) <= events.len(),
    decreases events.len(),
{
    if events.len() == 0 {
    } else {
        lemma_count_bounds(events.drop_last(), link_id, referer, user_agent);
    }
}

/// A positive count names at least one matching event.
proof fn lemma_count_positive(
    events: Seq<StatisticEvent>,
    link_id: Seq<char>,
    referer: Option<Seq<char>>,
    user_agent: Option<Seq<char>>,
)
    requires
        spec_event_count(events, link_id, referer, user_agent) > 0,
    ensures
        exists|i: int|
            0 <= i < events.len() && event_matches(
                #[trigger] events[i],
                link_id,
                referer,
                user_agent,
            ),
    decreases events.len(),
{
    if event_matches(events.last(), link_id, referer, user_agent) {
        assert(events[events.len() - 1] == events.last());
    } else {
        lemma_count_positive(events.drop_last(), link_id, referer, user_agent);
        let i = choose|i: int|
            0 <= i < events.drop_last().len() && event_matches(
                #[trigger] events.drop_last()[i],
                link_id,
                referer,
                user_agent,
            );
        assert(events[i] == events.drop_last()[i]);
    }
}

/// Copies an optional string.
fn opt_clone(o: &Option<String>) -> (r: Option<String>)
    ensures
        r == *o,
{
    match o {
        Some(s) => Some(s.clone()),
        None => None,
    }
}

/// The position of the group carrying exactly this (referer, user agent)
/// pair, if any.
fn find_group(
    groups: &Vec<CountedLinkStatistics>,
    referer: &Option<String>,
    user_agent: &Option<String>,
) -> (r: Option<usize>)
    ensures
        match r {
            Some(i) => i < groups@.len() && opt_view(groups@[i as int].referer) == opt_view(
                *referer,
            ) && opt_view(groups@[i as int].user_agent) == opt_view(*user_agent),
            None => forall|g: int|
                0 <= g < groups@.len() ==> !(opt_view((#[trigger] groups@[g]).referer) == opt_view(
                    *referer,
                ) && opt_view(groups@[g].user_agent) == opt_view(*user_agent)),
        },
{
    let mut g: usize = 0;
    while g < groups.len()
        invariant
            g <= groups@.len(),
            forall|m: int|
                0 <= m < g ==> !(opt_view((#[trigger] groups@[m]).referer) == opt_view(*referer)
                    && opt_view(groups@[m].user_agent) == opt_view(*user_agent)),
        decreases groups@.len() - g,
    {
        if opt_str_eq(&groups[g].referer, referer) && opt_str_eq(&groups[g].user_agent, user_agent) {
            return Some(g);
        }
        g += 1;
    }
    None
}

/// Whether two optional strings hold the same characters.
fn opt_str_eq(a: &Option<String>, b: &Option<String>) -> (r: bool)
    ensures
        r == (opt_view(*a) == opt_view(*b)),
{
    match a {
        Some(x) => match b {
            Some(y) => *x == *y,
            None => false,
        },
        None => b.is_none(),
    }
}

} // verus!
