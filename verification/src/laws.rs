//! Laws of the reconciliation engine, each proved over the spec-level
//! transitions that the engine's operations are verified against.

use vstd::prelude::*;

use crate::reconcile::UpdateOutcome;
use crate::reconcile::WriterActionView;
use crate::reconcile::is_active_state;
use crate::reconcile::spec_apply;
use crate::reconcile::spec_observe;
use crate::service::ServiceView;
use crate::service::UpdateView;
use crate::service::merge;
use crate::service::spec_interface_or_id;

verus! {

/// Observing the same snapshot twice in a row issues at most one write: the
/// first observation writes iff the data is new and the service names at
/// least one nameserver, and the second observation is always a no-op.
pub proof fn lemma_observe_idempotent(m: Map<Seq<char>, ServiceView>, s: ServiceView)
    ensures
        ({
            let first = spec_observe(m, s);
            let second = spec_observe(first.0, s);
            &&& second.0 == first.0
            &&& second.1 is None
            &&& (first.1 is Some <==> !(m.dom().contains(s.id) && m[s.id] == s)
                && s.nameservers.len() > 0)
        }),
{
}

/// True iff the field the update targets already holds the update's value.
pub open spec fn targets_same(s: ServiceView, u: UpdateView) -> bool {
    match u {
        UpdateView::Domains(d) => s.domains == d,
        UpdateView::Nameservers(n) => s.nameservers == n,
        UpdateView::State(st) => s.state == st,
        UpdateView::Other => true,
    }
}

/// An update whose targeted field already holds the announced value issues
/// no write and leaves the known map unchanged.
pub proof fn lemma_same_value_update_is_noop(
    m: Map<Seq<char>, ServiceView>,
    id: Seq<char>,
    u: UpdateView,
)
    requires
        m.dom().contains(id) ==> targets_same(m[id], u),
    ensures
        spec_apply(m, id, u) == (UpdateOutcome {
            known: m,
            action: None::<WriterActionView>,
            unexpected: None::<Seq<char>>,
        }),
{
    if m.dom().contains(id) {
        assert(merge(m[id], u) =~= m[id]);
    }
}

/// A snapshot of a service with no nameservers is tracked but triggers no
/// write.
pub proof fn lemma_empty_nameservers_tracked_without_write(
    m: Map<Seq<char>, ServiceView>,
    s: ServiceView,
)
    requires
        s.nameservers.len() == 0,
    ensures
        spec_observe(m, s).0.dom().contains(s.id),
        spec_observe(m, s).1 is None,
{
}

/// An update that leaves a tracked service without nameservers never
/// triggers a content write: the only write it can require is the removal
/// on a disconnect.
pub proof fn lemma_empty_nameservers_update_never_applies(
    m: Map<Seq<char>, ServiceView>,
    id: Seq<char>,
    u: UpdateView,
)
    requires
        m.dom().contains(id) ==> merge(m[id], u).nameservers.len() == 0,
    ensures
        !(spec_apply(m, id, u).action matches Some(WriterActionView::Apply { .. })),
{
}

/// A transition to `disconnect` removes the entry and requires exactly one
/// removal; a duplicate `disconnect` for the now-untracked id is a no-op,
/// not an error.
pub proof fn lemma_disconnect_removes_exactly_once(m: Map<Seq<char>, ServiceView>, id: Seq<char>)
    requires
        m.dom().contains(id),
        m[id].state != "disconnect"@,
    ensures
        ({
            let u = UpdateView::State("disconnect"@);
            let first = spec_apply(m, id, u);
            let second = spec_apply(first.known, id, u);
            &&& !first.known.dom().contains(id)
            &&& first.known == m.remove(id)
            &&& first.action == Some(WriterActionView::Remove {
                interface: spec_interface_or_id(merge(m[id], u)),
            })
            &&& first.unexpected is None
            &&& second.known == first.known
            &&& second.action is None
            &&& second.unexpected is None
        }),
{
    reveal_strlit("disconnect");
    reveal_strlit("ready");
    reveal_strlit("online");
    let u = UpdateView::State("disconnect"@);
    let merged = merge(m[id], u);
    assert(merged.state == "disconnect"@);
    assert(merged != m[id]);
    assert(!is_active_state(merged.state));
}

} // verus!
