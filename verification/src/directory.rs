//! The service directory's entries as plain values, and the logic that turns
//! them into `Service`s: conversion of one raw entry, best-effort filtering
//! of the active ones, lookup of a single service by id, and decoding of a
//! property-change notification into a `ServiceUpdate`.

use vstd::prelude::*;
use vstd::string::StrSliceExecFns;
use vstd::string::StringExecFns;

use crate::reconcile::is_active_state;
use crate::service::RawService;
use crate::service::RawServiceView;
use crate::service::Service;
use crate::service::ServiceUpdate;
use crate::service::ServiceView;
use crate::service::UpdateView;
use crate::strings::str_eq;

verus! {

/// The namespace every service path must carry; the id is what follows it.
pub open spec fn service_path_prefix() -> Seq<char> {
    "/net/connman/service/"@
}

/// True iff `s` starts with `prefix`.
pub open spec fn starts_with(s: Seq<char>, prefix: Seq<char>) -> bool {
    s.len() >= prefix.len() && s.subrange(0, prefix.len() as int) == prefix
}

/// Error: a raw directory entry that cannot be converted into a `Service`.
#[derive(Debug)]
pub enum MalformedEntry {
    /// The entry's path does not lie under the expected namespace.
    UnexpectedPath { path: String },
    /// The entry lacks the mandatory state property.
    MissingState { path: String },
}

/// The mathematical value of a `MalformedEntry`.
pub enum MalformedEntryView {
    UnexpectedPath { path: Seq<char> },
    MissingState { path: Seq<char> },
}

impl View for MalformedEntry {
    type V = MalformedEntryView;

    open spec fn view(&self) -> MalformedEntryView {
        match self {
            MalformedEntry::UnexpectedPath { path } => MalformedEntryView::UnexpectedPath {
                path: path@,
            },
            MalformedEntry::MissingState { path } => MalformedEntryView::MissingState {
                path: path@,
            },
        }
    }
}

/// What converting one raw entry yields: the path must lie under the service
/// namespace (the id is the rest of it) and the state must be present;
/// absent nameserver or domain lists default to empty.
pub open spec fn spec_from_raw(raw: RawServiceView) -> Result<ServiceView, MalformedEntryView> {
    if !starts_with(raw.path, service_path_prefix()) {
        Err(MalformedEntryView::UnexpectedPath { path: raw.path })
    } else if raw.state is None {
        Err(MalformedEntryView::MissingState { path: raw.path })
    } else {
        Ok(
            ServiceView {
                id: raw.path.skip(service_path_prefix().len() as int),
                state: raw.state.unwrap(),
                interface: raw.interface,
                nameservers: match raw.nameservers {
                    Some(n) => n,
                    None => Seq::empty(),
                },
                domains: match raw.domains {
                    Some(d) => d,
                    None => Seq::empty(),
                },
            },
        )
    }
}

impl Service {
    /// Converts one raw directory entry into a `Service`.
    pub fn from_raw(raw: RawService) -> (r: Result<Service, MalformedEntry>)
        ensures
            match r {
                Ok(s) => spec_from_raw(raw@) == Ok::<ServiceView, MalformedEntryView>(s@),
                Err(e) => spec_from_raw(raw@) == Err::<ServiceView, MalformedEntryView>(e@),
            },
    {
        let ghost rawv = raw@;
        let prefix = "/net/connman/service/";
        let plen = prefix.unicode_len();
        let path_len = raw.path.as_str().unicode_len();
        if path_len < plen || !str_eq(raw.path.as_str().substring_char(0, plen), prefix) {
            return Err(MalformedEntry::UnexpectedPath { path: raw.path });
        }
        let id = raw.path.as_str().substring_char(plen, path_len).to_owned();
        proof {
            assert(id@ =~= rawv.path.skip(service_path_prefix().len() as int));
        }
        match raw.state {
            None => Err(MalformedEntry::MissingState { path: raw.path }),
            Some(state) => {
                let nameservers = match raw.nameservers {
                    Some(n) => n,
                    None => Vec::new(),
                };
                let domains = match raw.domains {
                    Some(d) => d,
                    None => Vec::new(),
                };
                proof {
                    assert(nameservers.deep_view() =~= (match rawv.nameservers {
                        Some(n) => n,
                        None => Seq::<Seq<char>>::empty(),
                    }));
                    assert(domains.deep_view() =~= (match rawv.domains {
                        Some(d) => d,
                        None => Seq::<Seq<char>>::empty(),
                    }));
                }
                let s = Service { id, state, interface: raw.interface, nameservers, domains };
                proof {
                    assert(s@ =~= spec_from_raw(rawv)->Ok_0);
                }
                Ok(s)
            },
        }
    }
}

/// The active services among the raw entries, in order: each entry that
/// converts and whose state is `ready` or `online`; malformed entries are
/// dropped.
pub open spec fn active_from_raw(raws: Seq<RawServiceView>) -> Seq<ServiceView>
    decreases raws.len(),
{
    if raws.len() == 0 {
        Seq::empty()
    } else {
        let rest = active_from_raw(raws.drop_first());
        match spec_from_raw(raws[0]) {
            Ok(s) => if is_active_state(s.state) {
                seq![s] + rest
            } else {
                rest
            },
            Err(_) => rest,
        }
    }
}

/// Converts a full directory listing, keeping only the services whose state
/// is active; entries that cannot be converted are dropped, best-effort.
pub fn active_services(raws: Vec<RawService>) -> (r: Vec<Service>)
    ensures
        r.deep_view() == active_from_raw(raws.deep_view()),
{
    let ghost orig = raws.deep_view();
    let mut rest = raws;
    let mut out: Vec<Service> = Vec::new();
    proof {
        assert(out.deep_view() =~= Seq::<ServiceView>::empty());
    }
    while rest.len() > 0
        invariant
            out.deep_view() + active_from_raw(rest.deep_view()) == active_from_raw(orig),
        decreases rest.len(),
    {
        let ghost pre = rest.deep_view();
        let head = rest.remove(0);
        proof {
            assert(head@ == pre[0]);
            assert(rest.deep_view() =~= pre.drop_first());
        }
        match Service::from_raw(head) {
            Ok(s) => {
                let active = str_eq(s.state.as_str(), "ready") || str_eq(
                    s.state.as_str(),
                    "online",
                );
                if active {
                    out.push(s);
                    proof {
                        assert(out.deep_view() + active_from_raw(rest.deep_view())
                            =~= active_from_raw(orig));
                    }
                }
            },
            Err(_) => {},
        }
    }
    proof {
        assert(rest.deep_view() =~= Seq::<RawServiceView>::empty());
        assert(out.deep_view() =~= active_from_raw(orig));
    }
    out
}

/// The full bus path of the service with the given id.
pub open spec fn full_path_of(id: Seq<char>) -> Seq<char> {
    service_path_prefix() + id
}

/// True iff `i` is the first index whose entry's path is the full path of
/// the given id.
pub open spec fn first_match_at(raws: Seq<RawServiceView>, id: Seq<char>, i: int) -> bool {
    0 <= i < raws.len() && raws[i].path == full_path_of(id) && (forall|j: int|
        0 <= j < i ==> raws[j].path != full_path_of(id))
}

/// Error: looking one service up in a directory listing failed.
#[derive(Debug)]
pub enum DirectoryError {
    /// No entry's path matches the requested id.
    NotFound { id: String },
    /// The matching entry could not be converted.
    Malformed { fault: MalformedEntry },
}

/// Finds the one service with the given id in a full directory listing and
/// converts it: the first entry whose path is the id's full path decides the
/// result.
pub fn find_service(raws: Vec<RawService>, id: &str) -> (r: Result<Service, DirectoryError>)
    ensures
        ({
            let rs = raws.deep_view();
            match r {
                Ok(s) => exists|i: int|
                    #[trigger] first_match_at(rs, id@, i) && spec_from_raw(rs[i]) == Ok::<
                        ServiceView,
                        MalformedEntryView,
                    >(s@),
                Err(DirectoryError::NotFound { id: missing }) => missing@ == id@ && (forall|i: int|
                    0 <= i < rs.len() ==> rs[i].path != full_path_of(id@)),
                Err(DirectoryError::Malformed { fault }) => exists|i: int|
                    #[trigger] first_match_at(rs, id@, i) && spec_from_raw(rs[i]) == Err::<
                        ServiceView,
                        MalformedEntryView,
                    >(fault@),
            }
        }),
{
    let ghost rs = raws.deep_view();
    let mut target = "/net/connman/service/".to_owned();
    target.append(id);
    proof {
        assert(target@ =~= full_path_of(id@));
    }
    let mut k: usize = 0;
    let mut rest = raws;
    while k < rest.len()
        invariant
            rs == raws.deep_view(),
            rs == rest.deep_view(),
            k <= rs.len(),
            target@ == full_path_of(id@),
            forall|j: int| 0 <= j < k ==> rs[j].path != full_path_of(id@),
        decreases rest.len() - k,
    {
        if str_eq(rest[k].path.as_str(), target.as_str()) {
            proof {
                assert(rs[k as int] == rest@[k as int]@);
                assert(first_match_at(rs, id@, k as int));
            }
            let ghost kk = k as int;
            let entry = rest.remove(k);
            proof {
                assert(entry@ == rs[kk]);
            }
            match Service::from_raw(entry) {
                Ok(s) => {
                    proof {
                        assert(first_match_at(rs, id@, kk) && spec_from_raw(rs[kk]) == Ok::<
                            ServiceView,
                            MalformedEntryView,
                        >(s@));
                    }
                    return Ok(s);
                },
                Err(fault) => {
                    proof {
                        assert(first_match_at(rs, id@, kk) && spec_from_raw(rs[kk]) == Err::<
                            ServiceView,
                            MalformedEntryView,
                        >(fault@));
                    }
                    return Err(DirectoryError::Malformed { fault });
                },
            }
        }
        proof {
            assert(rs[k as int] == rest@[k as int]@);
        }
        k += 1;
    }
    Err(DirectoryError::NotFound { id: id.to_owned() })
}

/// The shape of one notification's value, reduced to plain values: the
/// shapes the known properties use, and anything else.
pub enum PropertyValue {
    /// A single string value.
    Text(String),
    /// A list of strings.
    TextList(Vec<String>),
    /// Any other shape.
    OtherShape,
}

/// The mathematical value of a `PropertyValue`.
pub enum PropertyValueView {
    Text(Seq<char>),
    TextList(Seq<Seq<char>>),
    OtherShape,
}

impl View for PropertyValue {
    type V = PropertyValueView;

    open spec fn view(&self) -> PropertyValueView {
        match self {
            PropertyValue::Text(s) => PropertyValueView::Text(s@),
            PropertyValue::TextList(l) => PropertyValueView::TextList(l.deep_view()),
            PropertyValue::OtherShape => PropertyValueView::OtherShape,
        }
    }
}

/// Error: a known property arrived with a value of the wrong shape, so the
/// one notification is dropped.
pub struct DecodeError {
    /// The property name whose value had the wrong shape.
    pub name: String,
}

/// What decoding a property-change notification yields. Only the three known
/// property names are interpreted, each demanding its one value shape; every
/// other name decodes to `Other`, never to an error.
pub open spec fn spec_decode(name: Seq<char>, value: PropertyValueView) -> Result<UpdateView, ()> {
    if name == "Domains"@ {
        match value {
            PropertyValueView::TextList(l) => Ok(UpdateView::Domains(l)),
            _ => Err(()),
        }
    } else if name == "Nameservers"@ {
        match value {
            PropertyValueView::TextList(l) => Ok(UpdateView::Nameservers(l)),
            _ => Err(()),
        }
    } else if name == "State"@ {
        match value {
            PropertyValueView::Text(s) => Ok(UpdateView::State(s)),
            _ => Err(()),
        }
    } else {
        Ok(UpdateView::Other)
    }
}

/// Decodes one property-change notification into a `ServiceUpdate`.
pub fn decode_update(name: &str, value: PropertyValue) -> (r: Result<ServiceUpdate, DecodeError>)
    ensures
        match r {
            Ok(u) => spec_decode(name@, value@) == Ok::<UpdateView, ()>(u@),
            Err(e) => spec_decode(name@, value@) is Err && e.name@ == name@,
        },
{
    if str_eq(name, "Domains") {
        match value {
            PropertyValue::TextList(l) => Ok(ServiceUpdate::Domains(l)),
            _ => Err(DecodeError { name: name.to_owned() }),
        }
    } else if str_eq(name, "Nameservers") {
        match value {
            PropertyValue::TextList(l) => Ok(ServiceUpdate::Nameservers(l)),
            _ => Err(DecodeError { name: name.to_owned() }),
        }
    } else if str_eq(name, "State") {
        match value {
            PropertyValue::Text(s) => Ok(ServiceUpdate::State(s)),
            _ => Err(DecodeError { name: name.to_owned() }),
        }
    } else {
        Ok(ServiceUpdate::Other)
    }
}

} // verus!
