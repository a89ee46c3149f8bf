//! Finding the IP address of a libvirt guest. The search asks `virsh domifaddr` first; when
//! that fails or finds nothing, it reads the guest's interfaces with `virsh domiflist` and
//! looks for an IPv4 lease of each interface's MAC address in the DHCP leases of its network.
//!
//! The search runs commands and parses addresses, which the caller does: `IpDiscovery` says
//! what to do next (`DiscoveryAction`) and takes the outcome back (`on_output`, `on_parsed`).
use vstd::prelude::*;

use crate::adapter::IpAddr;
use crate::error::{DiscoveryError, Error};
use crate::net::{
    domiflist_interfaces, interface_addresses, lease_addresses, parse_dhcp_leases,
    parse_domiflist_interfaces, parse_interface_addresses, Interface, InterfaceView,
};
use crate::virsh::{virsh_with, Invocation, InvocationView, Virsh};

verus! {

/// Where a search stands.
#[derive(Debug, Clone, Copy, PartialEq, Eq, Structural)]
pub enum Phase {
    /// `virsh domifaddr` runs.
    Domifaddr,
    /// The addresses that `virsh domifaddr` printed are parsed.
    DomifaddrParse,
    /// `virsh domiflist` runs.
    Domiflist,
    /// `virsh net-dhcp-leases` runs for the current interface.
    Lease,
    /// The addresses leased to the current interface are parsed.
    LeaseParse,
    /// The search has ended.
    Done,
}

/// What the caller does next.
#[derive(Debug)]
pub enum DiscoveryAction {
    /// Run the command and hand its outcome to `on_output`.
    Run(Invocation),
    /// Parse each text as an IP address and hand the results, in order, to `on_parsed`.
    Parse(Vec<String>),
    /// The search has ended with this result.
    Finish(Result<IpAddr, DiscoveryError>),
}

/// A `DiscoveryAction`, with its texts as character sequences.
#[verifier::ext_equal]
pub enum ActionView {
    Run(InvocationView),
    Parse(Seq<Seq<char>>),
    Finish(Result<IpAddr, DiscoveryError>),
}

impl View for DiscoveryAction {
    type V = ActionView;

    open spec fn view(&self) -> ActionView {
        match self {
            DiscoveryAction::Run(i) => ActionView::Run(i@),
            DiscoveryAction::Parse(c) => ActionView::Parse(c.deep_view()),
            DiscoveryAction::Finish(r) => ActionView::Finish(*r),
        }
    }
}

/// The state of a search.
#[verifier::ext_equal]
pub struct DiscoveryView {
    /// The guest domain.
    pub domain: Seq<char>,
    pub phase: Phase,
    /// A query has failed to run (`virsh domifaddr`, or the DHCP strategy as a whole).
    pub strategy_failed: bool,
    /// `virsh net-dhcp-leases` has failed to run for an interface.
    pub lease_error: bool,
    /// The interfaces that `virsh domiflist` listed.
    pub interfaces: Seq<InterfaceView>,
    /// The interface whose leases are looked at.
    pub index: int,
}

/// `virsh <subcommand> <domain>`.
pub open spec fn domain_query(subcommand: Seq<char>, domain: Seq<char>) -> InvocationView {
    virsh_with(seq![subcommand, domain])
}

/// `virsh net-dhcp-leases` for the network of `iface`.
pub open spec fn lease_query(iface: InterfaceView) -> InvocationView {
    virsh_with(seq!["net-dhcp-leases"@, iface.network])
}

/// The error of a search that found nothing.
pub open spec fn give_up(failed: bool) -> DiscoveryError {
    if failed {
        DiscoveryError::ExecutionFailures
    } else {
        DiscoveryError::NoAddress
    }
}

/// The first address in `p`, if there is one.
pub open spec fn first_present(p: Seq<Option<IpAddr>>) -> Option<IpAddr>
    decreases p.len(),
{
    if p.len() == 0 {
        None
    } else {
        match p[0] {
            Some(a) => Some(a),
            None => first_present(p.drop_first()),
        }
    }
}

/// The address taken from parse results is the earliest one: it stands at some position
/// with no address before it; and there is none exactly when no text parsed.
pub proof fn law_first_present_is_earliest(p: Seq<Option<IpAddr>>)
    ensures
        first_present(p) is None <==> (forall|j: int| 0 <= j < p.len() ==> (#[trigger] p[j]) is None),
        first_present(p) matches Some(a) ==> exists|i: int|
            0 <= i < p.len() && p[i] == Some(a) && (forall|j: int| 0 <= j < i ==> (#[trigger] p[j]) is None),
    decreases p.len(),
{
    if p.len() > 0 {
        let t = p.drop_first();
        law_first_present_is_earliest(t);
        assert forall|j: int| 0 <= j < t.len() implies t[j] == p[j + 1] by {}
        if p[0] is None {
            if first_present(p) is None {
                assert forall|j: int| 0 <= j < p.len() implies (#[trigger] p[j]) is None by {
                    if j > 0 {
                        assert(p[j] == t[j - 1]);
                    }
                }
            } else {
                let a = first_present(p)->0;
                let i = choose|i: int|
                    0 <= i < t.len() && t[i] == Some(a) && (forall|j: int| 0 <= j < i ==> (#[trigger] t[j]) is None);
                assert(p[i + 1] == Some(a));
                assert forall|j: int| 0 <= j < i + 1 implies (#[trigger] p[j]) is None by {
                    if j > 0 {
                        assert(p[j] == t[j - 1]);
                    }
                }
            }
        } else {
            assert(p[0] == Some(first_present(p)->0));
        }
    }
}

/// Parse results with an address at position `i` and none before it end the search with
/// that address, whatever follows.
pub proof fn law_parsed_takes_earliest(v: DiscoveryView, p: Seq<Option<IpAddr>>, i: int)
    requires
        awaits_parse(v),
        0 <= i < p.len(),
        p[i] is Some,
        forall|j: int| 0 <= j < i ==> (#[trigger] p[j]) is None,
    ensures
        on_parsed_view(v, p).1 == ActionView::Finish(Ok(p[i]->0)),
        on_parsed_view(v, p).0.phase == Phase::Done,
{
    law_first_present_is_earliest(p);
    if first_present(p) is None {
        assert(p[i] is None);
    } else {
        let a = first_present(p)->0;
        let k = choose|k: int|
            0 <= k < p.len() && p[k] == Some(a) && (forall|j: int| 0 <= j < k ==> (#[trigger] p[j]) is None);
        if k < i {
            assert(p[k] is None);
        } else if i < k {
            assert(p[i] is None);
        }
    }
}

/// What the outcome of a command shows: its output, or `None` when it failed.
pub open spec fn output_text(out: Result<String, Error>) -> Option<Seq<char>> {
    match out {
        Ok(t) => Some(t@),
        Err(_) => None,
    }
}

/// A state is well formed: while leases are looked at, the index is that of an interface.
pub open spec fn wf_view(v: DiscoveryView) -> bool {
    &&& 0 <= v.index
    &&& (v.phase == Phase::Lease || v.phase == Phase::LeaseParse) ==> v.index < v.interfaces.len()
}

/// The search waits for the outcome of a command.
pub open spec fn awaits_output(v: DiscoveryView) -> bool {
    v.phase == Phase::Domifaddr || v.phase == Phase::Domiflist || v.phase == Phase::Lease
}

/// The search waits for parsed addresses.
pub open spec fn awaits_parse(v: DiscoveryView) -> bool {
    v.phase == Phase::DomifaddrParse || v.phase == Phase::LeaseParse
}

/// The start of a search for the address of `domain`.
pub open spec fn start_view(domain: Seq<char>) -> (DiscoveryView, ActionView) {
    (
        DiscoveryView {
            domain,
            phase: Phase::Domifaddr,
            strategy_failed: false,
            lease_error: false,
            interfaces: seq![],
            index: 0,
        },
        ActionView::Run(domain_query("domifaddr"@, domain)),
    )
}

/// Past the current interface: on to the next one, or the end of the search.
pub open spec fn next_lease(v: DiscoveryView) -> (DiscoveryView, ActionView) {
    if v.index + 1 < v.interfaces.len() {
        (
            DiscoveryView { phase: Phase::Lease, index: v.index + 1, ..v },
            ActionView::Run(lease_query(v.interfaces[v.index + 1])),
        )
    } else {
        let failed = v.strategy_failed || v.lease_error;
        (
            DiscoveryView { phase: Phase::Done, strategy_failed: failed, ..v },
            ActionView::Finish(Err(give_up(failed))),
        )
    }
}

/// The step that the outcome `out` of the pending command (`None` when it failed) makes.
pub open spec fn on_output_view(v: DiscoveryView, out: Option<Seq<char>>) -> (
    DiscoveryView,
    ActionView,
) {
    if v.phase == Phase::Domifaddr {
        match out {
            None => (
                DiscoveryView { phase: Phase::Domiflist, strategy_failed: true, ..v },
                ActionView::Run(domain_query("domiflist"@, v.domain)),
            ),
            Some(t) => (
                DiscoveryView { phase: Phase::DomifaddrParse, ..v },
                ActionView::Parse(interface_addresses(t)),
            ),
        }
    } else if v.phase == Phase::Domiflist {
        match out {
            None => (
                DiscoveryView { phase: Phase::Done, strategy_failed: true, ..v },
                ActionView::Finish(Err(DiscoveryError::ExecutionFailures)),
            ),
            Some(t) => {
                let ifaces = domiflist_interfaces(t);
                if ifaces.len() == 0 {
                    (
                        DiscoveryView { phase: Phase::Done, interfaces: ifaces, ..v },
                        ActionView::Finish(Err(give_up(v.strategy_failed))),
                    )
                } else {
                    (
                        DiscoveryView {
                            phase: Phase::Lease,
                            interfaces: ifaces,
                            index: 0,
                            lease_error: false,
                            ..v
                        },
                        ActionView::Run(lease_query(ifaces[0])),
                    )
                }
            },
        }
    } else {
        match out {
            None => next_lease(DiscoveryView { lease_error: true, ..v }),
            Some(t) => (
                DiscoveryView { phase: Phase::LeaseParse, ..v },
                ActionView::Parse(lease_addresses(t, v.interfaces[v.index].mac)),
            ),
        }
    }
}

/// The step that the parsed addresses `parsed` make: the first address ends the search.
pub open spec fn on_parsed_view(v: DiscoveryView, parsed: Seq<Option<IpAddr>>) -> (
    DiscoveryView,
    ActionView,
) {
    match first_present(parsed) {
        Some(ip) => (DiscoveryView { phase: Phase::Done, ..v }, ActionView::Finish(Ok(ip))),
        None => if v.phase == Phase::DomifaddrParse {
            (
                DiscoveryView { phase: Phase::Domiflist, ..v },
                ActionView::Run(domain_query("domiflist"@, v.domain)),
            )
        } else {
            next_lease(v)
        },
    }
}


/// The surroundings of a search: what each command prints (`None` when it fails to run),
/// and what each text parses to as an IP address (`None` when it is none). A world answers
/// the same command the same way each time it is asked; a search that asks one command twice
/// (two interfaces on one network) and gets two different answers is outside the laws stated
/// over a world, though each of its steps still follows `on_output_view` and `on_parsed_view`.
pub struct World {
    pub run: spec_fn(InvocationView) -> Option<Seq<char>>,
    pub parse: spec_fn(Seq<char>) -> Option<IpAddr>,
}

/// The parse results of the texts `c`, in order.
pub open spec fn parse_all(c: Seq<Seq<char>>, w: World) -> Seq<Option<IpAddr>> {
    c.map_values(|t: Seq<char>| (w.parse)(t))
}

/// What `virsh domifaddr` yields: `None` when it fails to run, otherwise the first address
/// among those it prints, if any parses.
pub open spec fn domifaddr_outcome(domain: Seq<char>, w: World) -> Option<Option<IpAddr>> {
    match (w.run)(domain_query("domifaddr"@, domain)) {
        None => None,
        Some(t) => Some(first_present(parse_all(interface_addresses(t), w))),
    }
}

/// What the DHCP leases of the network of `iface` yield for its MAC address: `None` when
/// `virsh net-dhcp-leases` fails to run, otherwise the first leased address, if any parses.
pub open spec fn lease_outcome(iface: InterfaceView, w: World) -> Option<Option<IpAddr>> {
    match (w.run)(lease_query(iface)) {
        None => None,
        Some(t) => Some(first_present(parse_all(lease_addresses(t, iface.mac), w))),
    }
}

/// What the leases of the interfaces `ifaces` yield: the first address found, in the order
/// of the interfaces; otherwise `None` when a lease query failed to run, and `Some(None)`
/// when none did.
pub open spec fn leases_outcome(ifaces: Seq<InterfaceView>, w: World) -> Option<Option<IpAddr>>
    decreases ifaces.len(),
{
    if ifaces.len() == 0 {
        Some(None)
    } else {
        let rest = leases_outcome(ifaces.drop_first(), w);
        match lease_outcome(ifaces[0], w) {
            Some(Some(ip)) => Some(Some(ip)),
            Some(None) => rest,
            None => if rest matches Some(Some(_)) {
                rest
            } else {
                None
            },
        }
    }
}

/// What the DHCP strategy yields: `None` when `virsh domiflist` fails to run, otherwise what
/// the leases of the interfaces it lists yield.
pub open spec fn dhcp_outcome(domain: Seq<char>, w: World) -> Option<Option<IpAddr>> {
    match (w.run)(domain_query("domiflist"@, domain)) {
        None => None,
        Some(t) => leases_outcome(domiflist_interfaces(t), w),
    }
}

/// The result of the search for the address of `domain`: the address that `virsh domifaddr`
/// gives, else the one the DHCP leases give; otherwise an execution failure when either
/// strategy failed to run, and no address when both ran.
pub open spec fn discovered(domain: Seq<char>, w: World) -> Result<IpAddr, DiscoveryError> {
    match domifaddr_outcome(domain, w) {
        Some(Some(ip)) => Ok(ip),
        d => match dhcp_outcome(domain, w) {
            Some(Some(ip)) => Ok(ip),
            l => Err(give_up(d is None || l is None)),
        },
    }
}

/// An outcome of lease queries, after earlier queries of which one failed (`failed`) and
/// none found an address.
pub open spec fn after_failure(failed: bool, r: Option<Option<IpAddr>>) -> Option<Option<IpAddr>> {
    if r matches Some(Some(_)) {
        r
    } else if failed {
        None
    } else {
        r
    }
}

/// The command that the search waits for.
pub open spec fn pending_query(v: DiscoveryView) -> InvocationView {
    if v.phase == Phase::Domifaddr {
        domain_query("domifaddr"@, v.domain)
    } else if v.phase == Phase::Domiflist {
        domain_query("domiflist"@, v.domain)
    } else {
        lease_query(v.interfaces[v.index])
    }
}

/// The texts whose parse results the search waits for, in the world `w`.
pub open spec fn pending_texts(v: DiscoveryView, w: World) -> Seq<Seq<char>> {
    if v.phase == Phase::DomifaddrParse {
        interface_addresses((w.run)(domain_query("domifaddr"@, v.domain))->0)
    } else {
        lease_addresses((w.run)(lease_query(v.interfaces[v.index]))->0, v.interfaces[v.index].mac)
    }
}

/// The state `v` is the one that a search reaches in the world `w`.
pub open spec fn on_track(v: DiscoveryView, w: World) -> bool {
    let d = domifaddr_outcome(v.domain, w);
    let domifaddr_over = !(d matches Some(Some(_))) && v.strategy_failed == (d is None);
    if v.phase == Phase::Domifaddr {
        !v.strategy_failed
    } else if v.phase == Phase::DomifaddrParse {
        !v.strategy_failed && (w.run)(domain_query("domifaddr"@, v.domain)) is Some
    } else if v.phase == Phase::Domiflist {
        domifaddr_over
    } else if v.phase == Phase::Lease || v.phase == Phase::LeaseParse {
        &&& domifaddr_over
        &&& (w.run)(domain_query("domiflist"@, v.domain)) matches Some(t)
        &&& v.interfaces == domiflist_interfaces(t)
        &&& 0 <= v.index < v.interfaces.len()
        &&& leases_outcome(v.interfaces, w) == after_failure(
            v.lease_error,
            leases_outcome(v.interfaces.skip(v.index), w),
        )
        &&& v.phase == Phase::LeaseParse ==> (w.run)(lease_query(v.interfaces[v.index])) is Some
    } else {
        true
    }
}

/// How far a search is from its end: its stage, then the steps left in that stage.
pub open spec fn stage(v: DiscoveryView) -> nat {
    if v.phase == Phase::Domifaddr {
        4
    } else if v.phase == Phase::DomifaddrParse {
        3
    } else if v.phase == Phase::Domiflist {
        2
    } else if v.phase == Phase::Done {
        0
    } else {
        1
    }
}

/// The steps left in the lease stage.
pub open spec fn steps_left(v: DiscoveryView) -> int {
    if v.phase == Phase::Lease {
        2 * (v.interfaces.len() - v.index)
    } else if v.phase == Phase::LeaseParse {
        2 * (v.interfaces.len() - v.index) - 1
    } else {
        0
    }
}

/// `v2` is closer to the end of the search than `v`.
pub open spec fn closer(v2: DiscoveryView, v: DiscoveryView) -> bool {
    stage(v2) < stage(v) || (stage(v2) == stage(v) && 0 <= steps_left(v2) < steps_left(v))
}

/// An action is the one that the state after it waits for: a command to run, texts to
/// parse, or the end of the search with the result of the world `w`.
pub open spec fn action_fits(v: DiscoveryView, a: ActionView, domain: Seq<char>, w: World) -> bool {
    match a {
        ActionView::Run(q) => awaits_output(v) && q == pending_query(v),
        ActionView::Parse(c) => awaits_parse(v) && c == pending_texts(v, w),
        ActionView::Finish(r) => v.phase == Phase::Done && r == discovered(domain, w),
    }
}

proof fn lemma_leases_skip(ifaces: Seq<InterfaceView>, i: int, w: World)
    requires
        0 <= i < ifaces.len(),
    ensures
        leases_outcome(ifaces.skip(i), w) == ({
            let rest = leases_outcome(ifaces.skip(i + 1), w);
            match lease_outcome(ifaces[i], w) {
                Some(Some(ip)) => Some(Some(ip)),
                Some(None) => rest,
                None => if rest matches Some(Some(_)) {
                    rest
                } else {
                    None
                },
            }
        }),
        i + 1 == ifaces.len() ==> leases_outcome(ifaces.skip(i + 1), w) == Some(None::<IpAddr>),
{
    let s = ifaces.skip(i);
    assert(s[0] == ifaces[i]);
    assert(s.drop_first() =~= ifaces.skip(i + 1));
    if i + 1 == ifaces.len() {
        assert(ifaces.skip(i + 1).len() == 0);
    }
}

/// A search starts on track in every world, asking for `virsh domifaddr`.
pub proof fn law_start_on_track(domain: Seq<char>, w: World)
    ensures
        on_track(start_view(domain).0, w),
        wf_view(start_view(domain).0),
        action_fits(start_view(domain).0, start_view(domain).1, domain, w),
        start_view(domain).0.domain == domain,
{
}

/// The outcome of the pending command, as the world gives it, keeps a search on track and
/// brings it closer to its end; the action that follows fits the new state, and a finished
/// search has the result that the world determines.
pub proof fn law_output_keeps_track(v: DiscoveryView, w: World)
    requires
        wf_view(v),
        awaits_output(v),
        on_track(v, w),
    ensures
        ({
            let (v2, a) = on_output_view(v, (w.run)(pending_query(v)));
            &&& wf_view(v2)
            &&& on_track(v2, w)
            &&& v2.domain == v.domain
            &&& action_fits(v2, a, v.domain, w)
            &&& closer(v2, v)
        }),
{
    let out = (w.run)(pending_query(v));
    let (v2, a) = on_output_view(v, out);
    if v.phase == Phase::Domiflist {
        if let Some(t) = out {
            let ifaces = domiflist_interfaces(t);
            if ifaces.len() > 0 {
                assert(ifaces.skip(0) =~= ifaces);
            }
        }
    } else if v.phase == Phase::Lease {
        lemma_leases_skip(v.interfaces, v.index, w);
        if out is None && v.index + 1 < v.interfaces.len() {
            lemma_leases_skip(v.interfaces, v.index + 1, w);
        }
    }
}

/// The parse results of the pending texts, as the world gives them, keep a search on track
/// and bring it closer to its end; the action that follows fits the new state, and a
/// finished search has the result that the world determines.
pub proof fn law_parsed_keeps_track(v: DiscoveryView, w: World)
    requires
        wf_view(v),
        awaits_parse(v),
        on_track(v, w),
    ensures
        ({
            let (v2, a) = on_parsed_view(v, parse_all(pending_texts(v, w), w));
            &&& wf_view(v2)
            &&& on_track(v2, w)
            &&& v2.domain == v.domain
            &&& action_fits(v2, a, v.domain, w)
            &&& closer(v2, v)
        }),
{
    if v.phase == Phase::LeaseParse {
        lemma_leases_skip(v.interfaces, v.index, w);
    }
}

/// The number of interfaces that `virsh domiflist` lists in the world `w` (none when it fails).
pub open spec fn interface_count(domain: Seq<char>, w: World) -> nat {
    match (w.run)(domain_query("domiflist"@, domain)) {
        Some(t) => domiflist_interfaces(t).len(),
        None => 0,
    }
}

/// The most steps that a search in state `v` still takes in the world `w`.
pub open spec fn steps_needed(v: DiscoveryView, w: World) -> int {
    let n = interface_count(v.domain, w) as int;
    if v.phase == Phase::Domifaddr {
        3 + 2 * n
    } else if v.phase == Phase::DomifaddrParse {
        2 + 2 * n
    } else if v.phase == Phase::Domiflist {
        1 + 2 * n
    } else if v.phase == Phase::Done {
        0
    } else {
        steps_left(v)
    }
}

/// The result of driving a search from state `v` for at most `fuel` steps, each step
/// answered as the world `w` answers: `None` if it has not ended by then.
pub open spec fn run_search(v: DiscoveryView, w: World, fuel: nat) -> Option<
    Result<IpAddr, DiscoveryError>,
>
    decreases fuel,
{
    if fuel == 0 {
        None
    } else if awaits_output(v) || awaits_parse(v) {
        let (v2, a) = if awaits_output(v) {
            on_output_view(v, (w.run)(pending_query(v)))
        } else {
            on_parsed_view(v, parse_all(pending_texts(v, w), w))
        };
        match a {
            ActionView::Finish(r) => Some(r),
            _ => run_search(v2, w, (fuel - 1) as nat),
        }
    } else {
        None
    }
}

proof fn lemma_run_search(v: DiscoveryView, w: World, fuel: nat)
    requires
        wf_view(v),
        on_track(v, w),
        v.phase != Phase::Done,
        fuel >= steps_needed(v, w),
    ensures
        run_search(v, w, fuel) == Some(discovered(v.domain, w)),
    decreases steps_needed(v, w),
{
    let (v2, a) = if awaits_output(v) {
        law_output_keeps_track(v, w);
        on_output_view(v, (w.run)(pending_query(v)))
    } else {
        law_parsed_keeps_track(v, w);
        on_parsed_view(v, parse_all(pending_texts(v, w), w))
    };
    if !(a is Finish) {
        assert(v2.phase != Phase::Done);
        assert(steps_needed(v2, w) < steps_needed(v, w));
        lemma_run_search(v2, w, (fuel - 1) as nat);
    }
}

/// A search driven with the answers of the world `w` ends within `3 + 2n` steps, where `n`
/// is the number of interfaces that `virsh domiflist` lists, with the result `discovered`:
/// the address from `virsh domifaddr`, else the first address leased to an interface, else
/// the error that says whether a query failed to run. The law covers searches whose commands
/// are answered as a function of the command (see `World`).
pub proof fn law_search_result(domain: Seq<char>, w: World)
    ensures
        run_search(start_view(domain).0, w, 3 + 2 * interface_count(domain, w)) == Some(
            discovered(domain, w),
        ),
{
    lemma_run_search(start_view(domain).0, w, 3 + 2 * interface_count(domain, w));
}

/// A search for the IP address of a libvirt guest.
#[derive(Debug)]
pub struct IpDiscovery {
    virsh: Virsh,
    phase: Phase,
    strategy_failed: bool,
    lease_error: bool,
    interfaces: Vec<Interface>,
    index: usize,
}

impl View for IpDiscovery {
    type V = DiscoveryView;

    closed spec fn view(&self) -> DiscoveryView {
        DiscoveryView {
            domain: self.virsh@,
            phase: self.phase,
            strategy_failed: self.strategy_failed,
            lease_error: self.lease_error,
            interfaces: self.interfaces@.map_values(|x: Interface| x@),
            index: self.index as int,
        }
    }
}

fn first_address(parsed: &Vec<Option<IpAddr>>) -> (r: Option<IpAddr>)
    ensures
        r == first_present(parsed@),
{
    let n = parsed.len();
    let mut i: usize = 0;
    assert(parsed@.skip(0) =~= parsed@);
    while i < n
        invariant
            n == parsed@.len(),
            i <= n,
            first_present(parsed@) == first_present(parsed@.skip(i as int)),
        decreases n - i,
    {
        assert(parsed@.skip(i as int)[0] == parsed@[i as int]);
        if let Some(a) = parsed[i] {
            return Some(a);
        }
        assert(parsed@.skip(i as int).drop_first() =~= parsed@.skip(i + 1));
        i = i + 1;
    }
    None
}

impl IpDiscovery {
    /// The state is well formed.
    pub open spec fn wf(&self) -> bool {
        wf_view(self@)
    }

    /// A search for the address of the domain that `virsh` is bound to.
    pub fn start(virsh: &Virsh) -> (r: (IpDiscovery, DiscoveryAction))
        ensures
            (r.0@, r.1@) == start_view(virsh@),
            r.0.wf(),
    {
        let inv = virsh.domifaddr();
        let d = IpDiscovery {
            virsh: virsh.duplicate(),
            phase: Phase::Domifaddr,
            strategy_failed: false,
            lease_error: false,
            interfaces: Vec::new(),
            index: 0,
        };
        assert(d@.interfaces =~= Seq::<InterfaceView>::empty());
        (d, DiscoveryAction::Run(inv))
    }

    /// The phase of the search.
    pub fn phase(&self) -> (r: Phase)
        ensures
            r == self@.phase,
    {
        self.phase
    }

    fn advance(&mut self) -> (r: DiscoveryAction)
        requires
            old(self).wf(),
            old(self)@.phase == Phase::Lease || old(self)@.phase == Phase::LeaseParse,
        ensures
            (final(self)@, r@) == next_lease(old(self)@),
            final(self).wf(),
    {
        assert(self@.interfaces.len() == self.interfaces@.len());
        assert(self.index < self.interfaces@.len());
        let count = self.interfaces.len();
        if self.index + 1 < count {
            self.index = self.index + 1;
            self.phase = Phase::Lease;
            let inv = self.virsh.net_dhcp_leases(self.interfaces[self.index].network.as_str());
            DiscoveryAction::Run(inv)
        } else {
            self.strategy_failed = self.strategy_failed || self.lease_error;
            self.phase = Phase::Done;
            let e = if self.strategy_failed {
                DiscoveryError::ExecutionFailures
            } else {
                DiscoveryError::NoAddress
            };
            DiscoveryAction::Finish(Err(e))
        }
    }

    /// Takes the outcome of the command that the last action asked to run.
    pub fn on_output(&mut self, out: Result<String, Error>) -> (r: DiscoveryAction)
        requires
            old(self).wf(),
            awaits_output(old(self)@),
        ensures
            (final(self)@, r@) == on_output_view(old(self)@, output_text(out)),
            final(self).wf(),
    {
        match self.phase {
            Phase::Domifaddr => match out {
                Err(_) => {
                    self.strategy_failed = true;
                    self.phase = Phase::Domiflist;
                    DiscoveryAction::Run(self.virsh.domiflist())
                },
                Ok(t) => {
                    self.phase = Phase::DomifaddrParse;
                    DiscoveryAction::Parse(parse_interface_addresses(t.as_str()))
                },
            },
            Phase::Domiflist => match out {
                Err(_) => {
                    self.strategy_failed = true;
                    self.phase = Phase::Done;
                    DiscoveryAction::Finish(Err(DiscoveryError::ExecutionFailures))
                },
                Ok(t) => {
                    let ifaces = parse_domiflist_interfaces(t.as_str());
                    if ifaces.len() == 0 {
                        self.interfaces = ifaces;
                        self.phase = Phase::Done;
                        let e = if self.strategy_failed {
                            DiscoveryError::ExecutionFailures
                        } else {
                            DiscoveryError::NoAddress
                        };
                        DiscoveryAction::Finish(Err(e))
                    } else {
                        let inv = self.virsh.net_dhcp_leases(ifaces[0].network.as_str());
                        self.interfaces = ifaces;
                        self.index = 0;
                        self.lease_error = false;
                        self.phase = Phase::Lease;
                        DiscoveryAction::Run(inv)
                    }
                },
            },
            _ => match out {
                Err(_) => {
                    self.lease_error = true;
                    self.advance()
                },
                Ok(t) => {
                    let found = parse_dhcp_leases(
                        t.as_str(),
                        self.interfaces[self.index].mac.as_str(),
                    );
                    self.phase = Phase::LeaseParse;
                    DiscoveryAction::Parse(found)
                },
            },
        }
    }

    /// Takes the parse results of the texts that the last action asked to parse, in order.
    pub fn on_parsed(&mut self, parsed: Vec<Option<IpAddr>>) -> (r: DiscoveryAction)
        requires
            old(self).wf(),
            awaits_parse(old(self)@),
        ensures
            (final(self)@, r@) == on_parsed_view(old(self)@, parsed@),
            final(self).wf(),
    {
        match first_address(&parsed) {
            Some(ip) => {
                self.phase = Phase::Done;
                DiscoveryAction::Finish(Ok(ip))
            },
            None => {
                if self.phase == Phase::DomifaddrParse {
                    self.phase = Phase::Domiflist;
                    DiscoveryAction::Run(self.virsh.domiflist())
                } else {
                    self.advance()
                }
            },
        }
    }
}

} // verus!
