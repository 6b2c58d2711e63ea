//! The `Service` entity, single-property updates to it, and the conversion
//! from a raw directory entry into a `Service`.

use vstd::prelude::*;
use vstd::string::StringExecFns;

use crate::strings::str_eq;
use crate::strings::string_list_eq;

verus! {

/// One managed network connection, as reported by the service directory.
pub struct Service {
    /// Service id: the trailing segment of the service's bus path.
    pub id: String,
    /// Connection state, e.g. `"ready"`, `"online"`, `"disconnect"`.
    pub state: String,
    /// Network interface name; absent for services without interface metadata.
    pub interface: Option<String>,
    /// Resolver addresses the service currently advertises, in order.
    pub nameservers: Vec<String>,
    /// Search domains the service currently advertises, in order.
    pub domains: Vec<String>,
}

/// The mathematical value of a `Service`.
#[verifier::ext_equal]
pub struct ServiceView {
    pub id: Seq<char>,
    pub state: Seq<char>,
    pub interface: Option<Seq<char>>,
    pub nameservers: Seq<Seq<char>>,
    pub domains: Seq<Seq<char>>,
}

impl View for Service {
    type V = ServiceView;

    open spec fn view(&self) -> ServiceView {
        ServiceView {
            id: self.id@,
            state: self.state@,
            interface: match self.interface {
                Some(ref s) => Some(s@),
                None => None,
            },
            nameservers: self.nameservers.deep_view(),
            domains: self.domains.deep_view(),
        }
    }
}

impl DeepView for Service {
    type V = ServiceView;

    open spec fn deep_view(&self) -> ServiceView {
        self@
    }
}

/// One directory entry as the bus reports it, reduced to plain values: the
/// full service path and the properties the reconciliation cares about,
/// each absent when the entry did not carry it.
pub struct RawService {
    /// The service's full bus path.
    pub path: String,
    /// The mandatory connection-state property, if present.
    pub state: Option<String>,
    /// The interface name, if the entry carried interface metadata.
    pub interface: Option<String>,
    /// The advertised nameservers, if the property was present.
    pub nameservers: Option<Vec<String>>,
    /// The advertised search domains, if the property was present.
    pub domains: Option<Vec<String>>,
}

/// The mathematical value of a `RawService`.
#[verifier::ext_equal]
pub struct RawServiceView {
    pub path: Seq<char>,
    pub state: Option<Seq<char>>,
    pub interface: Option<Seq<char>>,
    pub nameservers: Option<Seq<Seq<char>>>,
    pub domains: Option<Seq<Seq<char>>>,
}

impl View for RawService {
    type V = RawServiceView;

    open spec fn view(&self) -> RawServiceView {
        RawServiceView {
            path: self.path@,
            state: match self.state {
                Some(ref s) => Some(s@),
                None => None,
            },
            interface: match self.interface {
                Some(ref s) => Some(s@),
                None => None,
            },
            nameservers: match self.nameservers {
                Some(ref n) => Some(n.deep_view()),
                None => None,
            },
            domains: match self.domains {
                Some(ref d) => Some(d.deep_view()),
                None => None,
            },
        }
    }
}

impl DeepView for RawService {
    type V = RawServiceView;

    open spec fn deep_view(&self) -> RawServiceView {
        self@
    }
}

/// A decoded single-property change notification for one service.
pub enum ServiceUpdate {
    /// The list of search domains changed.
    Domains(Vec<String>),
    /// The list of nameservers changed.
    Nameservers(Vec<String>),
    /// The connection state changed.
    State(String),
    /// Any other property: a silently-ignored no-op.
    Other,
}

/// The mathematical value of a `ServiceUpdate`.
pub enum UpdateView {
    Domains(Seq<Seq<char>>),
    Nameservers(Seq<Seq<char>>),
    State(Seq<char>),
    Other,
}

impl View for ServiceUpdate {
    type V = UpdateView;

    open spec fn view(&self) -> UpdateView {
        match self {
            ServiceUpdate::Domains(v) => UpdateView::Domains(v.deep_view()),
            ServiceUpdate::Nameservers(v) => UpdateView::Nameservers(v.deep_view()),
            ServiceUpdate::State(s) => UpdateView::State(s@),
            ServiceUpdate::Other => UpdateView::Other,
        }
    }
}

/// The interface a service's resolver data is filed under: the reported
/// interface name, or the service id when none was reported.
pub open spec fn spec_interface_or_id(s: ServiceView) -> Seq<char> {
    match s.interface {
        Some(i) => i,
        None => s.id,
    }
}

/// The single changed field of `u` merged into `s`; the other fields keep
/// their values. An `Other` update changes nothing.
pub open spec fn merge(s: ServiceView, u: UpdateView) -> ServiceView {
    match u {
        UpdateView::Domains(v) => ServiceView { domains: v, ..s },
        UpdateView::Nameservers(v) => ServiceView { nameservers: v, ..s },
        UpdateView::State(v) => ServiceView { state: v, ..s },
        UpdateView::Other => s,
    }
}

/// True iff the four mutable fields (state, interface, nameservers, domains)
/// of the two services are equal; ids are not compared.
pub open spec fn spec_same_data(a: ServiceView, b: ServiceView) -> bool {
    a.state == b.state && a.interface == b.interface && a.nameservers == b.nameservers
        && a.domains == b.domains
}

/// The header line of generated content: `# Generated for <id>\n`.
pub open spec fn header_line(id: Seq<char>) -> Seq<char> {
    "# Generated for "@ + id + "\n"@
}

/// The first `n` items joined with single spaces.
pub open spec fn joined_upto(items: Seq<Seq<char>>, n: int) -> Seq<char>
    decreases n,
{
    if n <= 0 {
        Seq::empty()
    } else if n == 1 {
        items[0]
    } else {
        joined_upto(items, n - 1) + " "@ + items[n - 1]
    }
}

/// All items joined with single spaces.
pub open spec fn space_joined(items: Seq<Seq<char>>) -> Seq<char> {
    joined_upto(items, items.len() as int)
}

/// The `search` line: empty when there are no domains, else
/// `search <domains space-joined>\n`.
pub open spec fn search_line(domains: Seq<Seq<char>>) -> Seq<char> {
    if domains.len() == 0 {
        Seq::empty()
    } else {
        "search "@ + space_joined(domains) + "\n"@
    }
}

/// One `nameserver <address>\n` line for each of the first `n` addresses.
pub open spec fn nameserver_lines_upto(ns: Seq<Seq<char>>, n: int) -> Seq<char>
    decreases n,
{
    if n <= 0 {
        Seq::empty()
    } else {
        nameserver_lines_upto(ns, n - 1) + "nameserver "@ + ns[n - 1] + "\n"@
    }
}

/// One `nameserver` line per address, in the given order.
pub open spec fn nameserver_lines(ns: Seq<Seq<char>>) -> Seq<char> {
    nameserver_lines_upto(ns, ns.len() as int)
}

/// The full generated configuration block for one service: a header comment
/// naming the service id, an optional `search` line, then the `nameserver`
/// lines.
pub open spec fn resolvconf_content(s: ServiceView) -> Seq<char> {
    header_line(s.id) + search_line(s.domains) + nameserver_lines(s.nameservers)
}

impl Service {
    /// The interface name to hand to the configuration writer.
    pub fn interface_or_id(&self) -> (r: &str)
        ensures
            r@ == spec_interface_or_id(self@),
    {
        match &self.interface {
            Some(i) => i.as_str(),
            None => self.id.as_str(),
        }
    }

    /// Merges a single-property change into this service.
    ///
    /// Returns true iff the targeted field actually differed, so that
    /// re-announcing the same value is recognizable as a no-op.
    pub fn update(&mut self, change: ServiceUpdate) -> (r: bool)
        ensures
            final(self)@ == merge(old(self)@, change@),
            r == (merge(old(self)@, change@) != old(self)@),
    {
        let ghost pre = self@;
        let ghost u = change@;
        match change {
            ServiceUpdate::State(value) => {
                if !str_eq(self.state.as_str(), value.as_str()) {
                    self.state = value;
                    proof {
                        assert(self@ =~= merge(pre, u));
                    }
                    true
                } else {
                    proof {
                        assert(merge(pre, u) =~= pre);
                    }
                    false
                }
            },
            ServiceUpdate::Domains(value) => {
                if !string_list_eq(&self.domains, &value) {
                    self.domains = value;
                    proof {
                        assert(self@ =~= merge(pre, u));
                    }
                    true
                } else {
                    proof {
                        assert(merge(pre, u) =~= pre);
                    }
                    false
                }
            },
            ServiceUpdate::Nameservers(value) => {
                if !string_list_eq(&self.nameservers, &value) {
                    self.nameservers = value;
                    proof {
                        assert(self@ =~= merge(pre, u));
                    }
                    true
                } else {
                    proof {
                        assert(merge(pre, u) =~= pre);
                    }
                    false
                }
            },
            ServiceUpdate::Other => {
                proof {
                    assert(merge(pre, u) =~= pre);
                }
                false
            },
        }
    }

    /// Renders the configuration text block this service contributes.
    pub fn resolvconf(&self) -> (r: String)
        ensures
            r@ == resolvconf_content(self@),
    {
        let mut buf = "# Generated for ".to_owned();
        buf.append(self.id.as_str());
        buf.append("\n");
        proof {
            assert(buf@ =~= header_line(self@.id));
        }
        let ghost with_header = buf@;
        if self.domains.len() > 0 {
            buf.append("search ");
            let mut i: usize = 0;
            while i < self.domains.len()
                invariant
                    0 < self.domains.len(),
                    i <= self.domains.len(),
                    self@.domains.len() == self.domains.len(),
                    buf@ == with_header + "search "@ + joined_upto(self@.domains, i as int),
                decreases self.domains.len() - i,
            {
                if i > 0 {
                    buf.append(" ");
                }
                buf.append(self.domains[i].as_str());
                proof {
                    assert(self@.domains[i as int] == self.domains@[i as int]@);
                    assert(buf@ =~= with_header + "search "@ + joined_upto(
                        self@.domains,
                        i + 1 as int,
                    ));
                }
                i += 1;
            }
            buf.append("\n");
            proof {
                assert(buf@ =~= with_header + search_line(self@.domains));
            }
        } else {
            proof {
                assert(buf@ =~= with_header + search_line(self@.domains));
            }
        }
        let ghost with_search = buf@;
        let mut k: usize = 0;
        while k < self.nameservers.len()
            invariant
                k <= self.nameservers.len(),
                self@.nameservers.len() == self.nameservers.len(),
                buf@ == with_search + nameserver_lines_upto(self@.nameservers, k as int),
            decreases self.nameservers.len() - k,
        {
            buf.append("nameserver ");
            buf.append(self.nameservers[k].as_str());
            buf.append("\n");
            proof {
                assert(self@.nameservers[k as int] == self.nameservers@[k as int]@);
                assert(buf@ =~= with_search + nameserver_lines_upto(
                    self@.nameservers,
                    k + 1 as int,
                ));
            }
            k += 1;
        }
        proof {
            assert(buf@ =~= resolvconf_content(self@));
        }
        buf
    }

    /// True iff the four mutable fields of the two services are equal.
    pub fn same_data(&self, other: &Service) -> (r: bool)
        ensures
            r == spec_same_data(self@, other@),
    {
        let state_eq = str_eq(self.state.as_str(), other.state.as_str());
        let iface_eq = match (&self.interface, &other.interface) {
            (Some(a), Some(b)) => str_eq(a.as_str(), b.as_str()),
            (None, None) => true,
            _ => false,
        };
        state_eq && iface_eq && string_list_eq(&self.nameservers, &other.nameservers)
            && string_list_eq(&self.domains, &other.domains)
    }
}

} // verus!
