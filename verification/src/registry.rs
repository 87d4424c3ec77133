//! The registry: which nodes are alive and where to reach them.
//!
//! A record enters on registration, stays fresh through heartbeats, and
//! is removed by the expiry sweep once its liveness signal has gone
//! stale for more than [`T_EXPIRE_MILLIS`].

use vstd::prelude::*;

use crate::clock;
use crate::errors::ServiceError;
use crate::models::ServiceInfo;
use crate::models::ServiceInfoLookup;
use crate::models::ServiceInfoLookupView;
use crate::models::ServiceInfoView;

verus! {

/// A record expires when more than this many milliseconds have passed
/// since its last liveness signal.
pub const T_EXPIRE_MILLIS: u64 = 30000;

/// How often the expiry sweep runs, in milliseconds.
pub const T_SWEEP_MILLIS: u64 = 10000;

/// How often a node signals liveness, in milliseconds.
pub const T_HEARTBEAT_MILLIS: u64 = 10000;

/// Ids are pairwise distinct.
pub open spec fn ids_distinct(s: Seq<ServiceInfoView>) -> bool {
    forall|i: int, j: int| 0 <= i < j < s.len() ==> s[i].id != s[j].id
}

/// Some record carries this id.
pub open spec fn has_service(s: Seq<ServiceInfoView>, id: Seq<char>) -> bool {
    exists|i: int| 0 <= i < s.len() && (#[trigger] s[i].id) == id
}

/// The index of the record carrying this id.
pub open spec fn service_index(s: Seq<ServiceInfoView>, id: Seq<char>) -> int {
    choose|i: int| 0 <= i < s.len() && (#[trigger] s[i].id) == id
}

/// The record carrying this id.
pub open spec fn service_of(s: Seq<ServiceInfoView>, id: Seq<char>) -> ServiceInfoView {
    s[service_index(s, id)]
}

/// The later of two instants: a liveness refresh stores this, so a
/// record's timestamp never moves backwards even when the clock does.
pub open spec fn later_of(previous: u64, now: u64) -> u64 {
    if now >= previous {
        now
    } else {
        previous
    }
}

/// The record set after an upsert of `(id, ip, port)` at time `now`: an
/// existing record is replaced in place, its liveness timestamp moving
/// to `now` unless that would turn it backwards; a new record is
/// appended stamped `now`.
pub open spec fn spec_register(
    s: Seq<ServiceInfoView>,
    id: Seq<char>,
    ip: Seq<char>,
    port: u16,
    now: u64,
) -> Seq<ServiceInfoView> {
    if has_service(s, id) {
        let t = later_of(service_of(s, id).last_heartbeat, now);
        s.update(
            service_index(s, id),
            ServiceInfoView { id: id, ip: ip, port: port, last_heartbeat: t },
        )
    } else {
        s.push(ServiceInfoView { id: id, ip: ip, port: port, last_heartbeat: now })
    }
}

/// Whether a record survives a sweep at time `now`: it does until more
/// than `T_EXPIRE_MILLIS` have elapsed since its last liveness signal.
pub open spec fn still_live(v: ServiceInfoView, now: u64) -> bool {
    now <= v.last_heartbeat + T_EXPIRE_MILLIS
}

/// The record set after a sweep at time `now`: the still-live records,
/// keeping their order.
pub open spec fn swept(s: Seq<ServiceInfoView>, now: u64) -> Seq<ServiceInfoView>
    decreases s.len(),
{
    if s.len() == 0 {
        Seq::empty()
    } else if still_live(s.last(), now) {
        swept(s.drop_last(), now).push(s.last())
    } else {
        swept(s.drop_last(), now)
    }
}

/// A record with its liveness timestamp refreshed to `t`.
pub open spec fn refreshed(v: ServiceInfoView, t: u64) -> ServiceInfoView {
    ServiceInfoView { last_heartbeat: t, ..v }
}

/// What a lookup reveals of a record.
pub open spec fn lookup_view(v: ServiceInfoView) -> ServiceInfoLookupView {
    ServiceInfoLookupView { id: v.id, ip: v.ip, port: v.port }
}

/// In a record set with distinct ids, a record found at some index is
/// the record that `service_index` and `service_of` name.
pub proof fn lemma_found_service(s: Seq<ServiceInfoView>, id: Seq<char>, i: int)
    requires
        ids_distinct(s),
        0 <= i < s.len(),
        s[i].id == id,
    ensures
        has_service(s, id),
        service_index(s, id) == i,
        service_of(s, id) == s[i],
{
    assert(has_service(s, id));
    let j = service_index(s, id);
    assert(0 <= j < s.len() && s[j].id == id);
    if i < j {
        assert(s[i].id != s[j].id);
    }
    if j < i {
        assert(s[j].id != s[i].id);
    }
}

/// Appending a record with a fresh id disturbs no other id: any other
/// id is present before the append exactly as after it, naming the same
/// record.
proof fn lemma_push_service(t: Seq<ServiceInfoView>, v: ServiceInfoView, id: Seq<char>)
    requires
        ids_distinct(t.push(v)),
        id != v.id,
    ensures
        ids_distinct(t),
        has_service(t.push(v), id) == has_service(t, id),
        has_service(t, id) ==> service_of(t.push(v), id) == service_of(t, id),
{
    let s = t.push(v);
    assert(ids_distinct(t)) by {
        assert forall|i: int, j: int| 0 <= i < j < t.len() implies t[i].id != t[j].id by {
            assert(s[i].id != s[j].id);
        }
    }
    if has_service(s, id) {
        let i = service_index(s, id);
        assert(0 <= i < s.len() && s[i].id == id);
        assert(i != s.len() - 1);
        assert(t[i] == s[i]);
        assert(has_service(t, id));
    }
    if has_service(t, id) {
        let i = service_index(t, id);
        assert(0 <= i < t.len() && t[i].id == id);
        assert(s[i] == t[i]);
        lemma_found_service(s, id, i);
        lemma_found_service(t, id, i);
    }
}

/// What a sweep at time `now` does to the record of one id: the record
/// survives, unchanged, exactly when it is still live — and the swept
/// set keeps its ids distinct.
#[verifier::rlimit(100)]
pub proof fn lemma_swept_services(s: Seq<ServiceInfoView>, now: u64, id: Seq<char>)
    requires
        ids_distinct(s),
    ensures
        ids_distinct(swept(s, now)),
        has_service(swept(s, now), id) <==> has_service(s, id) && still_live(
            service_of(s, id),
            now,
        ),
        has_service(swept(s, now), id) ==> service_of(swept(s, now), id) == service_of(s, id),
    decreases s.len(),
{
    if s.len() == 0 {
        assert(!has_service(swept(s, now), id));
        assert(!has_service(s, id));
    } else {
        let t = s.drop_last();
        let v = s.last();
        let w = swept(t, now);
        assert(s =~= t.push(v));
        // the last record's id appears nowhere earlier
        assert forall|i: int| 0 <= i < t.len() implies (#[trigger] t[i].id) != v.id by {
            assert(s[i].id != s[s.len() - 1].id);
        }
        assert(!has_service(t, v.id));
        lemma_swept_services(t, now, id);
        lemma_swept_services(t, now, v.id);
        assert(!has_service(w, v.id));
        assert forall|k: int| 0 <= k < w.len() implies (#[trigger] w[k].id) != v.id by {
            if w[k].id == v.id {
                assert(has_service(w, v.id));
            }
        }
        if still_live(v, now) {
            assert(swept(s, now) == w.push(v));
            let sw = swept(s, now);
            assert forall|a: int, b: int| 0 <= a < b < sw.len() implies sw[a].id != sw[b].id by {
                if b < w.len() {
                    assert(w[a].id != w[b].id);
                } else {
                    assert(sw[b] == v);
                    assert(sw[a] == w[a]);
                    assert(w[a].id != v.id);
                }
            }
            if id == v.id {
                lemma_found_service(s, id, s.len() - 1);
                lemma_found_service(sw, id, sw.len() - 1);
                assert(service_of(s, id) == v);
                assert(service_of(sw, id) == v);
            } else {
                lemma_push_service(t, v, id);
                lemma_push_service(w, v, id);
                if has_service(t, id) {
                    assert(service_of(s, id) == service_of(t, id));
                }
                if has_service(w, id) {
                    assert(service_of(sw, id) == service_of(w, id));
                }
            }
        } else {
            assert(swept(s, now) == w);
            if id == v.id {
                lemma_found_service(s, id, s.len() - 1);
                assert(service_of(s, id) == v);
                assert(!has_service(w, id));
            } else {
                lemma_push_service(t, v, id);
                if has_service(t, id) {
                    assert(service_of(s, id) == service_of(t, id));
                }
            }
        }
    }
}

/// For a registered id, a sweep at time `now` keeps the record — and
/// with it every lookup of the id — while `now` is within
/// `T_EXPIRE_MILLIS` of the record's last liveness signal, and removes
/// it — so lookups fail with `NotFound` — strictly after.
pub proof fn lemma_liveness_window(s: Seq<ServiceInfoView>, id: Seq<char>, now: u64)
    requires
        ids_distinct(s),
        has_service(s, id),
    ensures
        now <= service_of(s, id).last_heartbeat + T_EXPIRE_MILLIS ==> has_service(swept(s, now), id)
            && service_of(swept(s, now), id) == service_of(s, id),
        now > service_of(s, id).last_heartbeat + T_EXPIRE_MILLIS ==> !has_service(swept(s, now), id),
{
    lemma_swept_services(s, now, id);
}

/// The registry's record set.
pub struct AppState {
    registered_services: Vec<ServiceInfo>,
}

impl View for AppState {
    type V = Seq<ServiceInfoView>;

    closed spec fn view(&self) -> Seq<ServiceInfoView> {
        self.registered_services@.map_values(|v: ServiceInfo| v@)
    }
}

impl AppState {
    /// The registry's invariant: no two records share an id.
    pub open spec fn wf(self) -> bool {
        ids_distinct(self@)
    }

    /// A registry with no records.
    pub fn new() -> (r: AppState)
        ensures
            r@ =~= Seq::<ServiceInfoView>::empty(),
            r.wf(),
    {
        AppState { registered_services: Vec::new() }
    }

    /// The position of the record carrying this id, if any.
    fn find_index(&self, id: &String) -> (r: Option<usize>)
        ensures
            match r {
                Some(i) => i < self@.len() && self@[i as int].id == id@,
                None => !has_service(self@, id@),
            },
    {
        let n = self.registered_services.len();
        let mut i: usize = 0;
        while i < n
            invariant
                n == self@.len(),
                i <= n,
                forall|k: int| 0 <= k < i ==> (#[trigger] self@[k].id) != id@,
            decreases n - i,
        {
            if self.registered_services[i].id == *id {
                return Some(i);
            }
            i = i + 1;
        }
        None
    }

    /// Upserts a record at the given time: the stored liveness timestamp
    /// becomes `now`, whatever the caller's record carried — unless the
    /// record already holds a later one, for the timestamp never moves
    /// backwards while the record exists.
    pub fn register_service_at(&mut self, info: ServiceInfo, now: u64)
        requires
            old(self).wf(),
        ensures
            final(self).wf(),
            final(self)@ =~= spec_register(old(self)@, info@.id, info@.ip, info@.port, now),
            has_service(old(self)@, info@.id) ==> has_service(final(self)@, info@.id)
                && service_of(final(self)@, info@.id).last_heartbeat >= service_of(
                old(self)@,
                info@.id,
            ).last_heartbeat,
    {
        match self.find_index(&info.id) {
            Some(i) => {
                proof {
                    lemma_found_service(self@, info@.id, i as int);
                }
                let previous = self.registered_services[i].last_heartbeat;
                let stored: u64 = if now >= previous {
                    now
                } else {
                    previous
                };
                let record = ServiceInfo {
                    id: info.id,
                    ip: info.ip,
                    port: info.port,
                    last_heartbeat: stored,
                };
                self.registered_services.set(i, record);
                proof {
                    assert forall|a: int, b: int| 0 <= a < b < self@.len() implies self@[a].id
                        != self@[b].id by {
                        if a != i as int && b != i as int {
                            assert(old(self)@[a].id != old(self)@[b].id);
                        } else if a == i as int {
                            assert(old(self)@[b].id != old(self)@[i as int].id);
                        } else {
                            assert(old(self)@[a].id != old(self)@[i as int].id);
                        }
                    }
                    lemma_found_service(self@, info@.id, i as int);
                }
            },
            None => {
                let record = ServiceInfo {
                    id: info.id,
                    ip: info.ip,
                    port: info.port,
                    last_heartbeat: now,
                };
                self.registered_services.push(record);
                proof {
                    assert forall|a: int, b: int| 0 <= a < b < self@.len() implies self@[a].id
                        != self@[b].id by {
                        if b == self@.len() - 1 {
                            assert(old(self)@[a].id != info@.id);
                        } else {
                            assert(old(self)@[a].id != old(self)@[b].id);
                        }
                    }
                }
            },
        }
    }

    /// Upserts a record, reading the clock for the liveness timestamp.
    /// Idempotent but for that timestamp: whatever moment the clock
    /// yields, the outcome is the upsert at that moment, and an existing
    /// record's timestamp never moves backwards.
    pub fn register_service(&mut self, info: ServiceInfo)
        requires
            old(self).wf(),
        ensures
            final(self).wf(),
            exists|t: u64|
                final(self)@ == spec_register(old(self)@, info@.id, info@.ip, info@.port, t),
            has_service(old(self)@, info@.id) ==> has_service(final(self)@, info@.id)
                && service_of(final(self)@, info@.id).last_heartbeat >= service_of(
                old(self)@,
                info@.id,
            ).last_heartbeat,
    {
        let raw = clock::utc_now_millis();
        let now: u64 = if raw < 0 {
            0
        } else {
            raw as u64
        };
        let ghost id: Seq<char> = info@.id;
        let ghost ip: Seq<char> = info@.ip;
        let ghost port: u16 = info@.port;
        self.register_service_at(info, now);
        proof {
            assert(self@ == spec_register(old(self)@, id, ip, port, now));
        }
    }

    /// Resolves an id to the address of its record; `NotFound` covers
    /// the never-registered and the already-expired alike.
    pub fn lookup_service(&self, id: &String) -> (r: Result<ServiceInfoLookup, ServiceError>)
        requires
            self.wf(),
        ensures
            match r {
                Ok(l) => has_service(self@, id@) && l@ == lookup_view(service_of(self@, id@)),
                Err(e) => e == ServiceError::NotFound && !has_service(self@, id@),
            },
    {
        match self.find_index(id) {
            Some(i) => {
                proof {
                    lemma_found_service(self@, id@, i as int);
                }
                let record = &self.registered_services[i];
                Ok(
                    ServiceInfoLookup {
                        id: record.id.clone(),
                        ip: record.ip.clone(),
                        port: record.port,
                    },
                )
            },
            None => Err(ServiceError::NotFound),
        }
    }

    /// Every currently live id, in record order; an empty answer is not
    /// an error.
    pub fn lookup_all_services(&self) -> (r: Vec<String>)
        ensures
            r@.len() == self@.len(),
            forall|k: int| 0 <= k < r@.len() ==> (#[trigger] r@[k])@ == self@[k].id,
    {
        let n = self.registered_services.len();
        let mut ids: Vec<String> = Vec::new();
        let mut i: usize = 0;
        while i < n
            invariant
                n == self@.len(),
                i <= n,
                ids@.len() == i,
                forall|k: int| 0 <= k < i ==> (#[trigger] ids@[k])@ == self@[k].id,
            decreases n - i,
        {
            ids.push(self.registered_services[i].id.clone());
            i = i + 1;
        }
        ids
    }

    /// Refreshes the liveness timestamp of an existing record to `now` —
    /// never backwards: a reading earlier than the stored timestamp
    /// leaves it where it was. An unknown id is not re-registered but
    /// answered `NotFound`.
    pub fn heartbeat_at(&mut self, id: &String, now: u64) -> (r: Result<(), ServiceError>)
        requires
            old(self).wf(),
        ensures
            final(self).wf(),
            match r {
                Ok(()) => has_service(old(self)@, id@) && final(self)@ =~= old(self)@.update(
                    service_index(old(self)@, id@),
                    refreshed(
                        service_of(old(self)@, id@),
                        later_of(service_of(old(self)@, id@).last_heartbeat, now),
                    ),
                ) && has_service(final(self)@, id@) && service_of(final(self)@, id@).last_heartbeat
                    >= service_of(old(self)@, id@).last_heartbeat,
                Err(e) => e == ServiceError::NotFound && !has_service(old(self)@, id@)
                    && final(self)@ =~= old(self)@,
            },
    {
        match self.find_index(id) {
            Some(i) => {
                proof {
                    lemma_found_service(self@, id@, i as int);
                }
                let record = &self.registered_services[i];
                let previous = record.last_heartbeat;
                let stored: u64 = if now >= previous {
                    now
                } else {
                    previous
                };
                let refreshed_record = ServiceInfo {
                    id: record.id.clone(),
                    ip: record.ip.clone(),
                    port: record.port,
                    last_heartbeat: stored,
                };
                self.registered_services.set(i, refreshed_record);
                proof {
                    assert forall|a: int, b: int| 0 <= a < b < self@.len() implies self@[a].id
                        != self@[b].id by {
                        assert(old(self)@[a].id != old(self)@[b].id);
                    }
                    lemma_found_service(self@, id@, i as int);
                }
                Ok(())
            },
            None => Err(ServiceError::NotFound),
        }
    }

    /// Refreshes the liveness timestamp of an existing record, reading
    /// the clock; whatever moment it yields, the timestamp never moves
    /// backwards. An unknown id is answered `NotFound`.
    pub fn heartbeat(&mut self, id: &String) -> (r: Result<(), ServiceError>)
        requires
            old(self).wf(),
        ensures
            final(self).wf(),
            match r {
                Ok(()) => has_service(old(self)@, id@) && service_of(
                    final(self)@,
                    id@,
                ).last_heartbeat >= service_of(old(self)@, id@).last_heartbeat && exists|t: u64|
                    t >= service_of(old(self)@, id@).last_heartbeat && final(self)@ == old(
                        self,
                    )@.update(
                        service_index(old(self)@, id@),
                        #[trigger] refreshed(service_of(old(self)@, id@), t),
                    ),
                Err(e) => e == ServiceError::NotFound && !has_service(old(self)@, id@)
                    && final(self)@ =~= old(self)@,
            },
    {
        let raw = clock::utc_now_millis();
        let now: u64 = if raw < 0 {
            0
        } else {
            raw as u64
        };
        let r = self.heartbeat_at(id, now);
        proof {
            if r is Ok {
                let t0 = later_of(service_of(old(self)@, id@).last_heartbeat, now);
                assert(t0 >= service_of(old(self)@, id@).last_heartbeat);
                assert(self@ == old(self)@.update(
                    service_index(old(self)@, id@),
                    refreshed(service_of(old(self)@, id@), t0),
                ));
            }
        }
        r
    }

    /// One expiry sweep at time `now`: removes every record whose last
    /// liveness signal lies more than `T_EXPIRE_MILLIS` in the past, and
    /// keeps the rest in order.
    pub fn cleanup_inactive_services_at(&mut self, now: u64)
        requires
            old(self).wf(),
        ensures
            final(self).wf(),
            final(self)@ =~= swept(old(self)@, now),
    {
        let n = self.registered_services.len();
        let mut kept: Vec<ServiceInfo> = Vec::new();
        let mut i: usize = 0;
        while i < n
            invariant
                n == self@.len(),
                i <= n,
                self.wf(),
                kept@.map_values(|v: ServiceInfo| v@) =~= swept(
                    self@.subrange(0, i as int),
                    now,
                ),
            decreases n - i,
        {
            let record = &self.registered_services[i];
            let stale = now > record.last_heartbeat && now - record.last_heartbeat
                > T_EXPIRE_MILLIS;
            proof {
                assert(self@.subrange(0, i as int + 1).drop_last() =~= self@.subrange(
                    0,
                    i as int,
                ));
                assert(self@.subrange(0, i as int + 1).last() == self@[i as int]);
            }
            if !stale {
                kept.push(
                    ServiceInfo {
                        id: record.id.clone(),
                        ip: record.ip.clone(),
                        port: record.port,
                        last_heartbeat: record.last_heartbeat,
                    },
                );
            }
            i = i + 1;
        }
        proof {
            assert(self@.subrange(0, n as int) =~= self@);
            lemma_swept_services(self@, now, Seq::empty());
        }
        self.registered_services = kept;
    }

    /// One expiry sweep, reading the clock: whatever moment the clock
    /// yields, exactly the records still live at that moment survive.
    pub fn cleanup_inactive_services(&mut self)
        requires
            old(self).wf(),
        ensures
            final(self).wf(),
            exists|t: u64| final(self)@ == swept(old(self)@, t),
    {
        let raw = clock::utc_now_millis();
        let now: u64 = if raw < 0 {
            0
        } else {
            raw as u64
        };
        self.cleanup_inactive_services_at(now);
        proof {
            assert(self@ == swept(old(self)@, now));
        }
    }
}

} // verus!
