//! The host's own network interfaces.
//!
//! Discovery scans from the addresses of physical adapters only. An adapter
//! is told from a virtual or tunnel adapter by its name, and a few address
//! blocks are left out whatever the adapter is called.

use crate::text::{
    contains, contains_ignore_case, contains_ignore_case_in, contains_in, ends_with,
    ends_with_in, equals_in, pieces, split, split_bounds, starts_with, starts_with_in, to_chars,
    trim, trim_bounds, views,
};
use vstd::prelude::*;
use vstd::string::{StrSliceExecFns, StringExecFns};

verus! {

/// A local address together with the adapter it is bound to, both as the
/// host's interface listing shows them.
#[derive(Debug, PartialEq, Eq)]
pub struct Interface {
    /// The heading of the adapter's section in the listing.
    pub adapter: String,
    /// The address as text.
    pub address: String,
}

/// An [`Interface`] as two sequences of characters.
pub struct InterfaceView {
    pub adapter: Seq<char>,
    pub address: Seq<char>,
}

impl View for Interface {
    type V = InterfaceView;

    open spec fn view(&self) -> InterfaceView {
        InterfaceView { adapter: self.adapter@, address: self.address@ }
    }
}

/// The views of a list of interfaces.
pub open spec fn interface_views(list: Seq<Interface>) -> Seq<InterfaceView> {
    Seq::new(list.len(), |i: int| list[i]@)
}

/// An adapter is virtual when its name holds one of the words that
/// virtualisation, tunnel and loopback software put there. Letters are
/// compared without regard to ASCII case.
pub open spec fn is_virtual_name(name: Seq<char>) -> bool {
    ||| contains_ignore_case(name, "vmware"@)
    ||| contains_ignore_case(name, "virtual"@)
    ||| contains_ignore_case(name, "vethernet"@)
    ||| contains_ignore_case(name, "pseudo"@)
    ||| contains_ignore_case(name, "tap-windows"@)
    ||| contains_ignore_case(name, "vpn"@)
    ||| contains_ignore_case(name, "tun"@)
    ||| contains_ignore_case(name, "singbox"@)
    ||| contains_ignore_case(name, "wsl"@)
}

/// An address as text is scanned from unless it is the loopback address,
/// lies in `198.18.0.0/16` or in `169.254.0.0/16`, or does not have four
/// parts between dots.
pub open spec fn is_usable_address(address: Seq<char>) -> bool {
    &&& address != "127.0.0.1"@
    &&& !starts_with(address, "198.18."@)
    &&& !starts_with(address, "169.254."@)
    &&& split(address, '.').len() == 4
}

/// An interface is scanned from when its adapter is physical and its address
/// is usable.
pub open spec fn is_usable(iface: InterfaceView) -> bool {
    !is_virtual_name(iface.adapter) && is_usable_address(iface.address)
}

/// The addresses of the usable interfaces of `list`, in order.
pub open spec fn usable_of(list: Seq<InterfaceView>) -> Seq<Seq<char>>
    decreases list.len(),
{
    if list.len() == 0 {
        Seq::empty()
    } else if is_usable(list.last()) {
        usable_of(list.drop_last()).push(list.last().address)
    } else {
        usable_of(list.drop_last())
    }
}

/// A line of the listing opens an adapter's section when it ends in a colon
/// and holds no dotted leader.
pub open spec fn is_adapter_line(line: Seq<char>) -> bool {
    ends_with(line, ":"@) && !contains(line, ". . ."@)
}

/// A line of the listing gives an IPv4 address when it says so before a
/// colon.
pub open spec fn is_address_line(line: Seq<char>) -> bool {
    contains(line, "IPv4"@) && contains(line, ":"@)
}

/// The address on an address line: what follows the last colon, trimmed.
pub open spec fn address_on(line: Seq<char>) -> Seq<char> {
    trim(split(line, ':').last())
}

/// The interfaces that `lines` list when `adapter` is the section that was
/// open before them. Lines are trimmed, and empty lines say nothing.
pub open spec fn scan_lines(lines: Seq<Seq<char>>, adapter: Seq<char>) -> Seq<InterfaceView>
    decreases lines.len(),
{
    if lines.len() == 0 {
        Seq::empty()
    } else {
        let line = trim(lines[0]);
        let rest = lines.drop_first();
        if line.len() == 0 {
            scan_lines(rest, adapter)
        } else if is_adapter_line(line) {
            scan_lines(rest, line)
        } else if is_address_line(line) {
            seq![InterfaceView { adapter, address: address_on(line) }] + scan_lines(rest, adapter)
        } else {
            scan_lines(rest, adapter)
        }
    }
}

/// The interfaces that the output of `ipconfig` lists.
pub open spec fn listed_interfaces(output: Seq<char>) -> Seq<InterfaceView> {
    scan_lines(split(output, '\n'), Seq::empty())
}

/// Tells whether an adapter's name marks it as virtual.
pub fn is_virtual_adapter(name: &str) -> (b: bool)
    ensures
        b == is_virtual_name(name@),
{
    let v = to_chars(name);
    let n = v.len();
    assert(v@.subrange(0, n as int) =~= name@);
    contains_ignore_case_in(&v, 0, n, "vmware")
        || contains_ignore_case_in(&v, 0, n, "virtual")
        || contains_ignore_case_in(&v, 0, n, "vethernet")
        || contains_ignore_case_in(&v, 0, n, "pseudo")
        || contains_ignore_case_in(&v, 0, n, "tap-windows")
        || contains_ignore_case_in(&v, 0, n, "vpn")
        || contains_ignore_case_in(&v, 0, n, "tun")
        || contains_ignore_case_in(&v, 0, n, "singbox")
        || contains_ignore_case_in(&v, 0, n, "wsl")
}

/// Tells whether an address as text is one to scan from.
pub fn usable_address(address: &str) -> (b: bool)
    ensures
        b == is_usable_address(address@),
{
    let v = to_chars(address);
    let n = v.len();
    assert(v@.subrange(0, n as int) =~= address@);
    if equals_in(&v, 0, n, "127.0.0.1") {
        return false;
    }
    if starts_with_in(&v, 0, n, "198.18.") {
        return false;
    }
    if starts_with_in(&v, 0, n, "169.254.") {
        return false;
    }
    let parts = split_bounds(&v, 0, n, '.');
    parts.len() == 4
}

/// Picks the addresses to scan from out of the host's interfaces.
pub fn usable_addresses(interfaces: &Vec<Interface>) -> (out: Vec<String>)
    ensures
        views(out@) == usable_of(interface_views(interfaces@)),
{
    let mut out: Vec<String> = Vec::new();
    let mut i: usize = 0;
    let ghost all = interface_views(interfaces@);
    assert(views(out@) =~= usable_of(all.take(0)));
    while i < interfaces.len()
        invariant
            i <= interfaces.len(),
            all == interface_views(interfaces@),
            views(out@) == usable_of(all.take(i as int)),
        decreases interfaces.len() - i,
    {
        let iface = &interfaces[i];
        let ghost before = views(out@);
        proof {
            assert(all.take(i + 1).drop_last() =~= all.take(i as int));
            assert(all.take(i + 1).last() == iface@);
        }
        if !is_virtual_adapter(iface.adapter.as_str()) && usable_address(iface.address.as_str()) {
            out.push(iface.address.clone());
            assert(views(out@) =~= before.push(iface@.address));
        }
        i += 1;
    }
    assert(all.take(interfaces@.len() as int) =~= all);
    out
}

/// The addresses to scan from once the fallback has had its say: where the
/// interfaces gave none, the address that the host would send from, unless
/// that one lies in `198.18.0.0/16`.
pub open spec fn resolved(addresses: Seq<Seq<char>>, fallback: Option<Seq<char>>) -> Seq<
    Seq<char>,
> {
    if addresses.len() > 0 {
        addresses
    } else {
        match fallback {
            Some(ip) => if starts_with(ip, "198.18."@) {
                Seq::empty()
            } else {
                seq![ip]
            },
            None => Seq::empty(),
        }
    }
}

/// The view of an optional string.
pub open spec fn opt_text(s: Option<String>) -> Option<Seq<char>> {
    match s {
        Some(t) => Some(t@),
        None => None,
    }
}

/// Completes the addresses to scan from with the host's outbound address
/// where the interfaces gave none.
pub fn with_fallback(addresses: Vec<String>, fallback: Option<String>) -> (out: Vec<String>)
    ensures
        views(out@) == resolved(views(addresses@), opt_text(fallback)),
{
    if addresses.len() > 0 {
        return addresses;
    }
    let mut out: Vec<String> = Vec::new();
    match fallback {
        Some(ip) => {
            let v = to_chars(ip.as_str());
            let n = v.len();
            assert(v@.subrange(0, n as int) =~= ip@);
            if !starts_with_in(&v, 0, n, "198.18.") {
                out.push(ip);
                assert(views(out@) =~= seq![ip@]);
            } else {
                assert(views(out@) =~= Seq::<Seq<char>>::empty());
            }
        },
        None => {
            assert(views(out@) =~= Seq::<Seq<char>>::empty());
        },
    }
    out
}

/// Reads the interfaces out of the output of `ipconfig`.
pub fn parse_ipconfig(output: &str) -> (out: Vec<Interface>)
    ensures
        interface_views(out@) == listed_interfaces(output@),
{
    let v = to_chars(output);
    let lines = split_bounds(&v, 0, v.len(), '\n');
    assert(v@.subrange(0, v@.len() as int) =~= v@);
    let ghost all = pieces(v@, lines@);
    let mut out: Vec<Interface> = Vec::new();
    let mut adapter: (usize, usize) = (0, 0);
    let mut k: usize = 0;
    assert(all.skip(0) =~= all);
    assert(v@.subrange(0, 0) =~= Seq::<char>::empty());
    assert(interface_views(out@) + scan_lines(all, Seq::empty()) =~= listed_interfaces(output@));
    while k < lines.len()
        invariant
            k <= lines.len(),
            v@ == output@,
            all == pieces(v@, lines@),
            forall|i: int|
                0 <= i < lines.len() ==> (#[trigger] lines[i]).0 <= lines[i].1 <= v.len(),
            adapter.0 <= adapter.1 <= v.len(),
            interface_views(out@) + scan_lines(
                all.skip(k as int),
                v@.subrange(adapter.0 as int, adapter.1 as int),
            ) == listed_interfaces(output@),
        decreases lines.len() - k,
    {
        let (lo, hi) = lines[k];
        let (a, b) = trim_bounds(&v, lo, hi);
        let ghost rest = all.skip(k as int);
        let ghost line = v@.subrange(a as int, b as int);
        let ghost before = interface_views(out@);
        proof {
            assert(rest[0] == v@.subrange(lo as int, hi as int));
            assert(rest.drop_first() =~= all.skip(k + 1));
            assert(line == trim(rest[0]));
        }
        if a == b {
        } else if ends_with_in(&v, a, b, ":") && !contains_in(&v, a, b, ". . .") {
            adapter = (a, b);
        } else if contains_in(&v, a, b, "IPv4") && contains_in(&v, a, b, ":") {
            let parts = split_bounds(&v, a, b, ':');
            let (plo, phi) = parts[parts.len() - 1];
            let (c, d) = trim_bounds(&v, plo, phi);
            proof {
                let p = pieces(v@, parts@);
                assert(p.last() == v@.subrange(plo as int, phi as int));
                assert(v@.subrange(c as int, d as int) == address_on(line));
            }
            let iface = Interface {
                adapter: String::from_str(output.substring_char(adapter.0, adapter.1)),
                address: String::from_str(output.substring_char(c, d)),
            };
            out.push(iface);
            proof {
                let found = InterfaceView {
                    adapter: v@.subrange(adapter.0 as int, adapter.1 as int),
                    address: address_on(line),
                };
                let tail = scan_lines(
                    all.skip(k + 1),
                    v@.subrange(adapter.0 as int, adapter.1 as int),
                );
                assert(interface_views(out@) =~= before + seq![found]);
                assert((before + seq![found]) + tail =~= before + (seq![found] + tail));
            }
        }
        k += 1;
    }
    assert(all.skip(lines@.len() as int) =~= Seq::<Seq<char>>::empty());
    assert(interface_views(out@) + Seq::<InterfaceView>::empty() =~= interface_views(out@));
    out
}

} // verus!
