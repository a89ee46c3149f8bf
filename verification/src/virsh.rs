//! The `virsh` commands that the libvirt backend runs, and what their output means.
use vstd::prelude::*;

use crate::error::Error;
use crate::types::{is_state_of, DomainName, DomainState};

verus! {

/// A command to run: a program and its arguments, and the text that describes a failure
/// to run it.
#[derive(Debug)]
pub struct Invocation {
    pub program: String,
    pub args: Vec<String>,
    pub context: String,
}

/// An `Invocation`, as text.
pub struct InvocationView {
    pub program: Seq<char>,
    pub args: Seq<Seq<char>>,
    pub context: Seq<char>,
}

impl View for Invocation {
    type V = InvocationView;

    open spec fn view(&self) -> InvocationView {
        InvocationView {
            program: self.program@,
            args: self.args.deep_view(),
            context: self.context@,
        }
    }
}

/// The text that describes a failure to run `virsh`.
pub open spec fn virsh_failure_context() -> Seq<char> {
    "Failed to execute virsh subcommand query layer"@
}

/// `virsh` run with the arguments `args`.
pub open spec fn virsh_with(args: Seq<Seq<char>>) -> InvocationView {
    InvocationView { program: "virsh"@, args, context: virsh_failure_context() }
}

/// The `virsh` command line tool, bound to one guest domain.
#[derive(Debug)]
pub struct Virsh {
    domain: DomainName,
}

impl View for Virsh {
    type V = Seq<char>;

    /// The name of the domain.
    closed spec fn view(&self) -> Seq<char> {
        self.domain@
    }
}

fn invocation(first: &str, second: &str) -> (r: Invocation)
    ensures
        r@ == virsh_with(seq![first@, second@]),
{
    let mut args: Vec<String> = Vec::new();
    args.push(first.to_owned());
    args.push(second.to_owned());
    assert(args.deep_view() =~= seq![first@, second@]);
    Invocation {
        program: "virsh".to_owned(),
        args,
        context: "Failed to execute virsh subcommand query layer".to_owned(),
    }
}

impl Virsh {
    /// `virsh` for the domain `domain`.
    pub fn new(domain: DomainName) -> (r: Virsh)
        ensures
            r@ == domain@,
    {
        Virsh { domain }
    }

    /// A copy of this tool, bound to the same domain.
    pub fn duplicate(&self) -> (r: Virsh)
        ensures
            r@ == self@,
    {
        Virsh { domain: self.domain.duplicate() }
    }

    /// `virsh <subcommand> <domain>`.
    pub fn call(&self, subcommand: &str) -> (r: Invocation)
        ensures
            r@ == virsh_with(seq![subcommand@, self@]),
    {
        invocation(subcommand, self.domain.as_str())
    }

    /// `virsh domifaddr <domain>`: the addresses of the domain's interfaces.
    pub fn domifaddr(&self) -> (r: Invocation)
        ensures
            r@ == virsh_with(seq!["domifaddr"@, self@]),
    {
        self.call("domifaddr")
    }

    /// `virsh domiflist <domain>`: the domain's interfaces.
    pub fn domiflist(&self) -> (r: Invocation)
        ensures
            r@ == virsh_with(seq!["domiflist"@, self@]),
    {
        self.call("domiflist")
    }

    /// `virsh net-dhcp-leases <network>`: the leases that a network handed out.
    pub fn net_dhcp_leases(&self, network: &str) -> (r: Invocation)
        ensures
            r@ == virsh_with(seq!["net-dhcp-leases"@, network@]),
    {
        invocation("net-dhcp-leases", network)
    }

    /// `virsh dominfo <domain>`, which succeeds when the domain exists.
    pub fn domain_exists(&self) -> (r: Invocation)
        ensures
            r@ == virsh_with(seq!["dominfo"@, self@]),
    {
        self.call("dominfo")
    }

    /// Whether the domain exists, from the outcome of `domain_exists`.
    pub fn domain_exists_result(output: Result<String, Error>) -> (r: Result<(), Error>)
        ensures
            output is Ok ==> r is Ok,
            output matches Err(e) ==> r == Err::<(), Error>(e),
    {
        match output {
            Ok(_) => Ok(()),
            Err(e) => Err(e),
        }
    }

    /// `virsh domstate <domain>`: the run state of the domain.
    pub fn state(&self) -> (r: Invocation)
        ensures
            r@ == virsh_with(seq!["domstate"@, self@]),
    {
        self.call("domstate")
    }

    /// The state of the domain, from the outcome of `state`.
    pub fn state_result(output: Result<String, Error>) -> (r: Result<DomainState, Error>)
        ensures
            output matches Ok(t) ==> (r matches Ok(s) && is_state_of(s, t@)),
            output matches Err(e) ==> r == Err::<DomainState, Error>(e),
    {
        match output {
            Ok(t) => Ok(DomainState::parse(t.as_str())),
            Err(e) => Err(e),
        }
    }
}

} // verus!
