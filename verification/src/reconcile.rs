//! The reconciliation engine: the authoritative map of known active services,
//! and the state machine that decides every resolver-configuration mutation.
//!
//! The engine never performs the mutations itself: each operation returns the
//! `WriterAction`s the configuration writer must carry out, so that decisions
//! stay verified while the slow side effect runs outside.

use vstd::prelude::*;

use crate::service::Service;
use crate::service::ServiceUpdate;
use crate::service::ServiceView;
use crate::service::UpdateView;
use crate::service::merge;
use crate::service::resolvconf_content;
use crate::service::spec_interface_or_id;
use crate::strings::str_eq;

verus! {

/// One mutation the configuration writer must perform.
pub enum WriterAction {
    /// Install `content` as the resolver data recorded under `interface`.
    Apply { interface: String, content: String },
    /// Drop the resolver data recorded under `interface`.
    Remove { interface: String },
}

/// The mathematical value of a `WriterAction`.
pub enum WriterActionView {
    Apply { interface: Seq<char>, content: Seq<char> },
    Remove { interface: Seq<char> },
}

impl View for WriterAction {
    type V = WriterActionView;

    open spec fn view(&self) -> WriterActionView {
        match self {
            WriterAction::Apply { interface, content } => WriterActionView::Apply {
                interface: interface@,
                content: content@,
            },
            WriterAction::Remove { interface } => WriterActionView::Remove {
                interface: interface@,
            },
        }
    }
}

/// The view of an optional action.
pub open spec fn action_view(a: Option<WriterAction>) -> Option<WriterActionView> {
    match a {
        Some(x) => Some(x@),
        None => None,
    }
}

/// Error: a tracked service moved to a state the directory contract does not
/// allow, so the update was surfaced to the caller instead of acted on.
#[derive(Debug)]
pub struct UnexpectedState {
    /// The state the tracked service would have after the update.
    pub state: String,
}

/// True of the states in which a service contributes resolver data.
pub open spec fn is_active_state(state: Seq<char>) -> bool {
    state == "ready"@ || state == "online"@
}

/// True iff no two entries share an id.
pub open spec fn unique_ids(s: Seq<ServiceView>) -> bool {
    forall|i: int, j: int| 0 <= i < j < s.len() ==> s[i].id != s[j].id
}

/// True iff some entry has the given id.
pub open spec fn has_id(s: Seq<ServiceView>, id: Seq<char>) -> bool {
    exists|i: int| 0 <= i < s.len() && s[i].id == id
}

/// The index of the entry with the given id; meaningful when ids are unique.
pub open spec fn idx_of(s: Seq<ServiceView>, id: Seq<char>) -> int {
    choose|i: int| 0 <= i < s.len() && s[i].id == id
}

/// The entries read as a map from service id to service.
pub open spec fn map_of(s: Seq<ServiceView>) -> Map<Seq<char>, ServiceView> {
    Map::new(|id: Seq<char>| has_id(s, id), |id: Seq<char>| s[idx_of(s, id)])
}

/// With unique ids, each entry is the map's value at its own id.
pub proof fn lemma_map_of_entry(s: Seq<ServiceView>, i: int)
    requires
        unique_ids(s),
        0 <= i < s.len(),
    ensures
        map_of(s).dom().contains(s[i].id),
        map_of(s)[s[i].id] == s[i],
{
    assert(has_id(s, s[i].id));
    let j = idx_of(s, s[i].id);
    assert(0 <= j < s.len() && s[j].id == s[i].id);
    if j < i {
        assert(s[j].id != s[i].id);
    }
    if i < j {
        assert(s[i].id != s[j].id);
    }
}

/// An id carried by no entry is not in the map.
pub proof fn lemma_map_of_absent(s: Seq<ServiceView>, id: Seq<char>)
    requires
        !has_id(s, id),
    ensures
        !map_of(s).dom().contains(id),
{
}

/// Appending an entry with a fresh id inserts it into the map.
pub proof fn lemma_map_of_push(s: Seq<ServiceView>, v: ServiceView)
    requires
        unique_ids(s),
        !has_id(s, v.id),
    ensures
        unique_ids(s.push(v)),
        map_of(s.push(v)) == map_of(s).insert(v.id, v),
{
    let s2 = s.push(v);
    assert forall|i: int, j: int| 0 <= i < j < s2.len() implies s2[i].id != s2[j].id by {
        if j < s.len() {
            assert(s2[i] == s[i] && s2[j] == s[j]);
        } else {
            assert(s2[j] == v && s2[i] == s[i]);
        }
    }
    let m1 = map_of(s2);
    let m2 = map_of(s).insert(v.id, v);
    assert forall|id2: Seq<char>| m1.dom().contains(id2) implies m2.dom().contains(id2) && m1[id2]
        == m2[id2] by {
        let j2 = idx_of(s2, id2);
        assert(0 <= j2 < s2.len() && s2[j2].id == id2);
        if id2 == v.id {
            if j2 < s.len() {
                assert(s2[j2] == s[j2]);
                assert(has_id(s, v.id));
            }
            assert(s2[j2] == v);
        } else {
            assert(j2 < s.len());
            assert(s2[j2] == s[j2]);
            assert(has_id(s, id2));
            let j1 = idx_of(s, id2);
            assert(0 <= j1 < s.len() && s[j1].id == id2);
            if j1 < j2 {
                assert(s[j1].id != s[j2].id);
            }
            if j2 < j1 {
                assert(s[j2].id != s[j1].id);
            }
            assert(m1[id2] == s[j1]);
        }
    }
    assert forall|id2: Seq<char>| m2.dom().contains(id2) implies m1.dom().contains(id2) by {
        if id2 == v.id {
            assert(s2[s.len() as int] == v);
            assert(has_id(s2, id2));
        } else {
            assert(has_id(s, id2));
            let j1 = idx_of(s, id2);
            assert(s2[j1] == s[j1]);
            assert(has_id(s2, id2));
        }
    }
    assert(m1 =~= m2);
}

/// Removing the entry at an index removes its id from the map.
pub proof fn lemma_map_of_remove(s: Seq<ServiceView>, i: int)
    requires
        unique_ids(s),
        0 <= i < s.len(),
    ensures
        unique_ids(s.remove(i)),
        !has_id(s.remove(i), s[i].id),
        map_of(s.remove(i)) == map_of(s).remove(s[i].id),
{
    let sr = s.remove(i);
    s.remove_ensures(i);
    assert forall|a: int, b: int| 0 <= a < b < sr.len() implies sr[a].id != sr[b].id by {
        let a0: int = if a < i {
            a
        } else {
            a + 1
        };
        let b0: int = if b < i {
            b
        } else {
            b + 1
        };
        assert(sr[a] == s[a0] && sr[b] == s[b0]);
        assert(s[a0].id != s[b0].id);
    }
    assert forall|k: int| 0 <= k < sr.len() implies sr[k].id != s[i].id by {
        let k0: int = if k < i {
            k
        } else {
            k + 1
        };
        assert(sr[k] == s[k0]);
        if k0 < i {
            assert(s[k0].id != s[i].id);
        } else {
            assert(s[i].id != s[k0].id);
        }
    }
    let m1 = map_of(sr);
    let m2 = map_of(s).remove(s[i].id);
    assert forall|id2: Seq<char>| m1.dom().contains(id2) implies m2.dom().contains(id2) && m1[id2]
        == m2[id2] by {
        let jr = idx_of(sr, id2);
        assert(0 <= jr < sr.len() && sr[jr].id == id2);
        let j0: int = if jr < i {
            jr
        } else {
            jr + 1
        };
        assert(sr[jr] == s[j0]);
        assert(id2 != s[i].id);
        assert(has_id(s, id2));
        let j1 = idx_of(s, id2);
        assert(0 <= j1 < s.len() && s[j1].id == id2);
        if j1 < j0 {
            assert(s[j1].id != s[j0].id);
        }
        if j0 < j1 {
            assert(s[j0].id != s[j1].id);
        }
        assert(m1[id2] == s[j1]);
    }
    assert forall|id2: Seq<char>| m2.dom().contains(id2) implies m1.dom().contains(id2) by {
        assert(has_id(s, id2) && id2 != s[i].id);
        let j1 = idx_of(s, id2);
        assert(0 <= j1 < s.len() && s[j1].id == id2);
        assert(j1 != i);
        let jr: int = if j1 < i {
            j1
        } else {
            j1 - 1
        };
        assert(sr[jr] == s[j1]);
        assert(has_id(sr, id2));
    }
    assert(m1 =~= m2);
}

/// Replacing the entry at an index by one with the same id updates the map
/// at that id.
proof fn lemma_map_of_replace(s: Seq<ServiceView>, i: int, v: ServiceView)
    requires
        unique_ids(s),
        0 <= i < s.len(),
        v.id == s[i].id,
    ensures
        unique_ids(s.remove(i).push(v)),
        map_of(s.remove(i).push(v)) == map_of(s).insert(v.id, v),
{
    lemma_map_of_remove(s, i);
    lemma_map_of_push(s.remove(i), v);
    lemma_map_of_entry(s, i);
    assert(map_of(s).remove(s[i].id).insert(v.id, v) =~= map_of(s).insert(v.id, v));
}

/// What observing a full snapshot of one service does to the known map, and
/// which write it requires: nothing when the same data is already recorded;
/// otherwise the entry is upserted, and its content is published iff the
/// service names at least one nameserver.
pub open spec fn spec_observe(m: Map<Seq<char>, ServiceView>, s: ServiceView) -> (
    Map<Seq<char>, ServiceView>,
    Option<WriterActionView>,
) {
    if m.dom().contains(s.id) && m[s.id] == s {
        (m, None)
    } else {
        (
            m.insert(s.id, s),
            if s.nameservers.len() > 0 {
                Some(
                    WriterActionView::Apply {
                        interface: spec_interface_or_id(s),
                        content: resolvconf_content(s),
                    },
                )
            } else {
                None
            },
        )
    }
}

/// The full outcome of applying one update: the new known map, the required
/// write, and the state that made the update unexpected, if any.
#[verifier::ext_equal]
pub struct UpdateOutcome {
    pub known: Map<Seq<char>, ServiceView>,
    pub action: Option<WriterActionView>,
    pub unexpected: Option<Seq<char>>,
}

/// What applying one decoded update to the known map does.
///
/// An update for an untracked id is ignored. A re-announcement of a value the
/// entry already holds is a no-op. Otherwise the changed field is merged and
/// the entry's new state decides: active states re-publish the entry's
/// content (when it has nameservers), `disconnect` removes the entry and its
/// configuration, `configuration` is transient, and any other state is
/// unexpected (the merged entry stays recorded).
pub open spec fn spec_apply(m: Map<Seq<char>, ServiceView>, id: Seq<char>, u: UpdateView) -> UpdateOutcome {
    if !m.dom().contains(id) {
        UpdateOutcome { known: m, action: None, unexpected: None }
    } else {
        let merged = merge(m[id], u);
        if merged == m[id] {
            UpdateOutcome { known: m, action: None, unexpected: None }
        } else if is_active_state(merged.state) {
            UpdateOutcome {
                known: m.insert(id, merged),
                action: if merged.nameservers.len() > 0 {
                    Some(
                        WriterActionView::Apply {
                            interface: spec_interface_or_id(merged),
                            content: resolvconf_content(merged),
                        },
                    )
                } else {
                    None
                },
                unexpected: None,
            }
        } else if merged.state == "disconnect"@ {
            UpdateOutcome {
                known: m.remove(id),
                action: Some(WriterActionView::Remove { interface: spec_interface_or_id(merged) }),
                unexpected: None,
            }
        } else if merged.state == "configuration"@ {
            UpdateOutcome { known: m.insert(id, merged), action: None, unexpected: None }
        } else {
            UpdateOutcome { known: m.insert(id, merged), action: None, unexpected: Some(merged.state) }
        }
    }
}

/// True iff an update must be answered by re-fetching the full service from
/// the directory: it announces an active state for an id not yet tracked, so
/// the notification alone cannot supply the service's other fields.
pub open spec fn spec_needs_refetch(m: Map<Seq<char>, ServiceView>, id: Seq<char>, u: UpdateView) -> bool {
    match u {
        UpdateView::State(s) => is_active_state(s) && !m.dom().contains(id),
        _ => false,
    }
}

/// The `Apply` action that publishes a service's current content under its
/// own interface.
fn apply_action_for(service: &Service) -> (r: WriterAction)
    ensures
        r@ == (WriterActionView::Apply {
            interface: spec_interface_or_id(service@),
            content: resolvconf_content(service@),
        }),
{
    WriterAction::Apply {
        interface: service.interface_or_id().to_owned(),
        content: service.resolvconf(),
    }
}

/// The authoritative record of which services currently contribute resolver
/// data, keyed by service id.
pub struct ResolvconfState {
    services: Vec<Service>,
}

impl ResolvconfState {
    /// The tracked entries, in their recorded order.
    pub closed spec fn entries(&self) -> Seq<ServiceView> {
        self.services.deep_view()
    }

    /// Well-formed: no two entries share an id.
    pub open spec fn wf(&self) -> bool {
        unique_ids(self.entries())
    }

    /// The tracked entries as a map from id to service.
    pub open spec fn known(&self) -> Map<Seq<char>, ServiceView> {
        map_of(self.entries())
    }

    /// An empty record: nothing is tracked.
    pub fn new() -> (r: ResolvconfState)
        ensures
            r.wf(),
            r.known() == Map::<Seq<char>, ServiceView>::empty(),
            r.entries().len() == 0,
    {
        let r = ResolvconfState { services: Vec::new() };
        proof {
            assert(r.entries().len() == 0);
            assert(r.known() =~= Map::<Seq<char>, ServiceView>::empty());
        }
        r
    }

    /// The index of the tracked entry with the given id, if any.
    fn find_index(&self, id: &str) -> (r: Option<usize>)
        requires
            self.wf(),
        ensures
            match r {
                Some(i) => i < self.entries().len() && self.entries()[i as int].id == id@
                    && self.known().dom().contains(id@) && self.known()[id@]
                    == self.entries()[i as int],
                None => !self.known().dom().contains(id@),
            },
    {
        let mut k: usize = 0;
        while k < self.services.len()
            invariant
                self.wf(),
                k <= self.services.len(),
                self.entries().len() == self.services.len(),
                forall|j: int| 0 <= j < k ==> self.entries()[j].id != id@,
            decreases self.services.len() - k,
        {
            if str_eq(self.services[k].id.as_str(), id) {
                proof {
                    assert(self.entries()[k as int] == self.services@[k as int]@);
                    lemma_map_of_entry(self.entries(), k as int);
                }
                return Some(k);
            }
            proof {
                assert(self.entries()[k as int] == self.services@[k as int]@);
            }
            k += 1;
        }
        proof {
            assert(!has_id(self.entries(), id@));
            lemma_map_of_absent(self.entries(), id@);
        }
        None
    }

    /// Records a full snapshot of one service.
    ///
    /// Re-observing data already recorded for the id is a no-op. Otherwise
    /// the entry is upserted and, iff the service names at least one
    /// nameserver, the returned action publishes its content under its own
    /// interface.
    pub fn insert(&mut self, service: Service) -> (r: Option<WriterAction>)
        requires
            old(self).wf(),
        ensures
            final(self).wf(),
            final(self).known() == spec_observe(old(self).known(), service@).0,
            action_view(r) == spec_observe(old(self).known(), service@).1,
    {
        let ghost e0 = self.entries();
        let ghost sv = service@;
        let found = self.find_index(service.id.as_str());
        match found {
            Some(i) => {
                if self.services[i].same_data(&service) {
                    proof {
                        assert(self.entries()[i as int] == self.services@[i as int]@);
                        assert(self.known()[sv.id] =~= sv);
                    }
                    return None;
                }
                let act = if service.nameservers.len() > 0 {
                    Some(apply_action_for(&service))
                } else {
                    None
                };
                proof {
                    assert(self.entries()[i as int] == self.services@[i as int]@);
                    lemma_map_of_replace(e0, i as int, sv);
                }
                let _removed = self.services.remove(i);
                self.services.push(service);
                proof {
                    assert(self.entries() =~= e0.remove(i as int).push(sv));
                }
                act
            },
            None => {
                let act = if service.nameservers.len() > 0 {
                    Some(apply_action_for(&service))
                } else {
                    None
                };
                proof {
                    lemma_map_of_push(e0, sv);
                }
                self.services.push(service);
                proof {
                    assert(self.entries() =~= e0.push(sv));
                }
                act
            },
        }
    }

    /// Applies one decoded update to the tracked entry with the given id.
    ///
    /// Returns the write the configuration writer must perform, if any, or
    /// the error when a tracked service moved to an unexpected state.
    pub fn update(&mut self, id: &str, change: ServiceUpdate) -> (r: Result<
        Option<WriterAction>,
        UnexpectedState,
    >)
        requires
            old(self).wf(),
        ensures
            final(self).wf(),
            final(self).known() == spec_apply(old(self).known(), id@, change@).known,
            match r {
                Ok(a) => spec_apply(old(self).known(), id@, change@).unexpected is None
                    && action_view(a) == spec_apply(old(self).known(), id@, change@).action,
                Err(e) => spec_apply(old(self).known(), id@, change@).unexpected == Some(e.state@)
                    && spec_apply(old(self).known(), id@, change@).action is None,
            },
    {
        let ghost e0 = self.entries();
        let ghost m0 = old(self).known();
        let ghost u = change@;
        let found = self.find_index(id);
        let i = match found {
            None => {
                return Ok(None);
            },
            Some(i) => i,
        };
        proof {
            assert(self.entries()[i as int] == self.services@[i as int]@);
        }
        let ghost cur = e0[i as int];
        let mut svc = self.services.remove(i);
        proof {
            assert(svc@ == cur);
            assert(self.entries() =~= e0.remove(i as int));
        }
        let changed = svc.update(change);
        proof {
            assert(svc@ == merge(cur, u));
            assert(m0[id@] == cur);
        }
        if !changed {
            proof {
                lemma_map_of_replace(e0, i as int, cur);
                assert(m0.insert(cur.id, cur) =~= m0);
            }
            self.services.push(svc);
            proof {
                assert(self.entries() =~= e0.remove(i as int).push(cur));
            }
            return Ok(None);
        }
        let ghost merged = merge(cur, u);
        proof {
            assert(merged.id == cur.id && cur.id == id@);
        }
        if str_eq(svc.state.as_str(), "ready") || str_eq(svc.state.as_str(), "online") {
            let act = if svc.nameservers.len() > 0 {
                Some(apply_action_for(&svc))
            } else {
                None
            };
            proof {
                lemma_map_of_replace(e0, i as int, merged);
            }
            self.services.push(svc);
            proof {
                assert(self.entries() =~= e0.remove(i as int).push(merged));
            }
            Ok(act)
        } else if str_eq(svc.state.as_str(), "disconnect") {
            let act = WriterAction::Remove { interface: svc.interface_or_id().to_owned() };
            proof {
                lemma_map_of_remove(e0, i as int);
            }
            Ok(Some(act))
        } else if str_eq(svc.state.as_str(), "configuration") {
            proof {
                lemma_map_of_replace(e0, i as int, merged);
            }
            self.services.push(svc);
            proof {
                assert(self.entries() =~= e0.remove(i as int).push(merged));
            }
            Ok(None)
        } else {
            let state = svc.state.clone();
            proof {
                lemma_map_of_replace(e0, i as int, merged);
            }
            self.services.push(svc);
            proof {
                assert(self.entries() =~= e0.remove(i as int).push(merged));
            }
            Err(UnexpectedState { state })
        }
    }

    /// Forgets every tracked entry and returns one `Remove` action per
    /// entry, so that shutdown can tear down all contributed configuration.
    /// The state is cleared whatever becomes of the individual removals.
    pub fn remove_all(&mut self) -> (r: Vec<WriterAction>)
        requires
            old(self).wf(),
        ensures
            final(self).wf(),
            final(self).known() == Map::<Seq<char>, ServiceView>::empty(),
            r@.len() == old(self).entries().len(),
            forall|k: int| 0 <= k < r@.len() ==> r@[k]@ == (WriterActionView::Remove {
                interface: spec_interface_or_id(old(self).entries()[k]),
            }),
    {
        let mut acts: Vec<WriterAction> = Vec::new();
        let mut i: usize = 0;
        while i < self.services.len()
            invariant
                i <= self.services.len(),
                self.entries().len() == self.services.len(),
                self == old(self),
                acts@.len() == i,
                forall|k: int| 0 <= k < i ==> acts@[k]@ == (WriterActionView::Remove {
                    interface: spec_interface_or_id(old(self).entries()[k]),
                }),
            decreases self.services.len() - i,
        {
            proof {
                assert(self.entries()[i as int] == self.services@[i as int]@);
            }
            acts.push(WriterAction::Remove {
                interface: self.services[i].interface_or_id().to_owned(),
            });
            i += 1;
        }
        self.services.clear();
        proof {
            assert(self.entries() =~= Seq::<ServiceView>::empty());
            assert(self.known() =~= Map::<Seq<char>, ServiceView>::empty());
        }
        acts
    }

    /// True iff this update must be answered by a full re-fetch of the
    /// service instead of an in-place merge.
    pub fn needs_refetch(&self, id: &str, change: &ServiceUpdate) -> (r: bool)
        requires
            self.wf(),
        ensures
            r == spec_needs_refetch(self.known(), id@, change@),
    {
        match change {
            ServiceUpdate::State(s) => {
                if str_eq(s.as_str(), "ready") || str_eq(s.as_str(), "online") {
                    self.find_index(id).is_none()
                } else {
                    false
                }
            },
            _ => false,
        }
    }
}

} // verus!
