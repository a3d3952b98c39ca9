//! Discovery of the host-side network wiring of containers: interface listings,
//! veth pairs and network-namespace handles.
use vstd::prelude::*;

pub mod container;
pub mod iface;
pub mod theorems;
pub mod netns;
pub mod text;

pub use container::{Container, ContainerRuntime, PidError};
pub use iface::{parse_ip_link_or_addr_printout, parse_printout, resolve, IntfRecord, ParseError, VethIntf};
pub use netns::{Locator, LocatorAction, LocatorEvent, NetnsError, Phase};

verus! {

/// The version line: `yacht <semver> (<commit date>)`.
pub fn version(semver: &str, commit_date: &str) -> (r: String)
    ensures
        r@ == "yacht "@ + semver@ + " ("@ + commit_date@ + ")"@,
{
    let mut v: Vec<char> = Vec::new();
    text::push_str(&mut v, "yacht ");
    text::push_str(&mut v, semver);
    text::push_str(&mut v, " (");
    text::push_str(&mut v, commit_date);
    text::push_str(&mut v, ")");
    text::string_of(v.as_slice())
}

} // verus!
