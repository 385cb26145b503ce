//! Finding devices on the local network.
//!
//! Discovery works in three steps. The host's usable addresses are turned
//! into a plan of probes, one for every other host of each address's /24
//! network. A driver carries the probes out, each from a socket bound to the
//! probe's own local address, and notes which of them connected. The
//! addresses that answered are then gathered, each once, and put in order.

use crate::address::{
    dotted, is_benchmark, is_link_local, is_loopback, law_blocks_show, parse_address, parse_ipv4,
    same_subnet, Ipv4,
};
use crate::interfaces::{is_usable_address, resolved, usable_of, InterfaceView};
use crate::text::views;
use vstd::prelude::*;

verus! {

/// The port on which a device listens for the debug bridge.
pub const DEVICE_PORT: u16 = 5555;

/// How long a probe waits for its connection, in milliseconds.
pub const PROBE_TIMEOUT_MS: u64 = 150;

/// The highest host number that is probed in a /24 network.
pub const LAST_HOST: u8 = 254;

/// One connection attempt: from a socket bound to `bind`, to `target` on
/// [`DEVICE_PORT`].
#[derive(Clone, Copy, Debug, PartialEq, Eq, Structural)]
pub struct Probe {
    pub bind: Ipv4,
    pub target: Ipv4,
}

/// The address of host `n` in the /24 network of `local`.
pub open spec fn host_at(local: Ipv4, n: nat) -> Ipv4 {
    Ipv4 { d: n as u8, ..local }
}

/// The probes from `local` to the hosts 1 to `n` of its network, without
/// `local` itself.
pub open spec fn probes_upto(local: Ipv4, n: nat) -> Seq<Probe>
    decreases n,
{
    if n == 0 {
        Seq::empty()
    } else if n == local.d {
        probes_upto(local, (n - 1) as nat)
    } else {
        probes_upto(local, (n - 1) as nat).push(Probe { bind: local, target: host_at(local, n) })
    }
}

/// The probes from `local`: one to every host from 1 to 254 of its /24
/// network but `local` itself, in rising order.
pub open spec fn probes_from(local: Ipv4) -> Seq<Probe> {
    probes_upto(local, 254)
}

/// The probes from an address given as text; none where the text is no
/// address.
pub open spec fn probes_of(local: Seq<char>) -> Seq<Probe> {
    match parse_address(local) {
        Some(ip) => probes_from(ip),
        None => Seq::empty(),
    }
}

/// The plan of a discovery: the probes from each local address in turn.
pub open spec fn plan_of(locals: Seq<Seq<char>>) -> Seq<Probe>
    decreases locals.len(),
{
    if locals.len() == 0 {
        Seq::empty()
    } else {
        plan_of(locals.drop_last()) + probes_of(locals.last())
    }
}

/// The targets of the probes that connected, in the plan's order. A probe
/// for which the driver noted nothing counts as not connected.
pub open spec fn hits(probes: Seq<Probe>, reachable: Seq<bool>) -> Seq<Ipv4>
    decreases probes.len(),
{
    if probes.len() == 0 {
        Seq::empty()
    } else {
        let before = hits(probes.drop_last(), reachable);
        let i = probes.len() - 1;
        if i < reachable.len() && reachable[i] {
            before.push(probes.last().target)
        } else {
            before
        }
    }
}

/// `s` with each address kept at its first occurrence only.
pub open spec fn distinct(s: Seq<Ipv4>) -> Seq<Ipv4>
    decreases s.len(),
{
    if s.len() == 0 {
        Seq::empty()
    } else {
        let before = distinct(s.drop_last());
        if before.contains(s.last()) {
            before
        } else {
            before.push(s.last())
        }
    }
}

/// Where `x` goes into `s`: behind every address whose last octet is not
/// larger than its own.
pub open spec fn slot(s: Seq<Ipv4>, x: Ipv4) -> int
    decreases s.len(),
{
    if s.len() > 0 && s.last().d > x.d {
        slot(s.drop_last(), x)
    } else {
        s.len() as int
    }
}

/// `s` in the order of the last octet. Addresses with the same last octet
/// stay in the order in which they came.
pub open spec fn ordered(s: Seq<Ipv4>) -> Seq<Ipv4>
    decreases s.len(),
{
    if s.len() == 0 {
        Seq::empty()
    } else {
        let before = ordered(s.drop_last());
        before.insert(slot(before, s.last()), s.last())
    }
}

/// The result of a discovery: the addresses that answered, each once, in
/// the order of the last octet.
pub open spec fn discovered(probes: Seq<Probe>, reachable: Seq<bool>) -> Seq<Ipv4> {
    ordered(distinct(hits(probes, reachable)))
}

/// The addresses of `list` in dotted decimal.
pub open spec fn dotted_all(list: Seq<Ipv4>) -> Seq<Seq<char>> {
    Seq::new(list.len(), |i: int| dotted(list[i]))
}

/// `s` rises in the last octet.
pub open spec fn rising(s: Seq<Ipv4>) -> bool {
    forall|i: int, j: int| 0 <= i <= j < s.len() ==> s[i].d <= s[j].d
}

/// No address stands twice in `s`.
pub open spec fn no_repeats(s: Seq<Ipv4>) -> bool {
    forall|i: int, j: int| 0 <= i < j < s.len() ==> s[i] != s[j]
}

/// Plans the probes from one local address.
pub fn subnet_probes(local: Ipv4) -> (out: Vec<Probe>)
    ensures
        out@ == probes_from(local),
{
    let mut out: Vec<Probe> = Vec::new();
    let mut n: u8 = 0;
    while n < LAST_HOST
        invariant
            n <= LAST_HOST,
            out@ == probes_upto(local, n as nat),
        decreases LAST_HOST - n,
    {
        n += 1;
        if n != local.d {
            let target = Ipv4 { a: local.a, b: local.b, c: local.c, d: n };
            out.push(Probe { bind: local, target });
        }
    }
    out
}

/// Plans the probes of a discovery from the host's usable addresses.
pub fn plan_scan(locals: &Vec<String>) -> (out: Vec<Probe>)
    ensures
        out@ == plan_of(views(locals@)),
        forall|i: int|
            0 <= i < out.len() ==> (#[trigger] out[i]).target != out[i].bind && same_subnet(
                out[i].target,
                out[i].bind,
            ) && 1 <= out[i].target.d <= 254 && names(views(locals@), out[i].bind),
{
    let ghost all = views(locals@);
    let mut out: Vec<Probe> = Vec::new();
    let mut i: usize = 0;
    assert(all.take(0) =~= Seq::<Seq<char>>::empty());
    while i < locals.len()
        invariant
            i <= locals.len(),
            all == views(locals@),
            out@ == plan_of(all.take(i as int)),
        decreases locals.len() - i,
    {
        proof {
            assert(all.take(i + 1).drop_last() =~= all.take(i as int));
            assert(all.take(i + 1).last() == locals@[i as int]@);
        }
        match parse_ipv4(locals[i].as_str()) {
            Some(ip) => {
                let mut probes = subnet_probes(ip);
                out.append(&mut probes);
            },
            None => {
                assert(out@ + Seq::<Probe>::empty() =~= out@);
            },
        }
        i += 1;
    }
    assert(all.take(locals@.len() as int) =~= all);
    proof {
        assert forall|i: int| 0 <= i < out.len() implies (#[trigger] out[i]).target != out[i].bind
            && same_subnet(out[i].target, out[i].bind) && 1 <= out[i].target.d <= 254 && names(
            all,
            out[i].bind,
        ) by {
            law_plan(all, i);
        }
    }
    out
}

/// Tells whether `x` stands in `list`.
fn holds(list: &Vec<Ipv4>, x: Ipv4) -> (b: bool)
    ensures
        b == list@.contains(x),
{
    let mut i: usize = 0;
    while i < list.len()
        invariant
            i <= list.len(),
            forall|k: int| 0 <= k < i ==> list@[k] != x,
        decreases list.len() - i,
    {
        if list[i] == x {
            return true;
        }
        i += 1;
    }
    false
}

/// Puts `x` into `list` at its slot.
fn place(list: &mut Vec<Ipv4>, x: Ipv4)
    ensures
        final(list)@ == old(list)@.insert(slot(old(list)@, x), x),
{
    let mut j: usize = list.len();
    assert(list@.take(j as int) =~= list@);
    while j > 0 && list[j - 1].d > x.d
        invariant
            j <= list.len(),
            list@ == old(list)@,
            slot(list@, x) == slot(list@.take(j as int), x),
        decreases j,
    {
        assert(list@.take(j as int).drop_last() =~= list@.take(j - 1));
        j -= 1;
    }
    list.insert(j, x);
}

/// Gathers the result of a discovery from the plan and from what the driver
/// noted of each probe: `reachable[i]` says whether `probes[i]` connected
/// within its time.
pub fn collect(probes: &Vec<Probe>, reachable: &Vec<bool>) -> (out: Vec<Ipv4>)
    ensures
        out@ == discovered(probes@, reachable@),
        rising(out@),
        no_repeats(out@),
{
    let mut found: Vec<Ipv4> = Vec::new();
    let mut i: usize = 0;
    assert(probes@.take(0) =~= Seq::<Probe>::empty());
    while i < probes.len()
        invariant
            i <= probes.len(),
            found@ == distinct(hits(probes@.take(i as int), reachable@)),
        decreases probes.len() - i,
    {
        proof {
            assert(probes@.take(i + 1).drop_last() =~= probes@.take(i as int));
        }
        if i < reachable.len() && reachable[i] {
            let target = probes[i].target;
            proof {
                let h = hits(probes@.take(i as int), reachable@);
                assert(h.push(target).drop_last() =~= h);
            }
            if !holds(&found, target) {
                found.push(target);
            }
        }
        i += 1;
    }
    assert(probes@.take(probes@.len() as int) =~= probes@);
    let mut out: Vec<Ipv4> = Vec::new();
    let mut k: usize = 0;
    assert(found@.take(0) =~= Seq::<Ipv4>::empty());
    while k < found.len()
        invariant
            k <= found.len(),
            out@ == ordered(found@.take(k as int)),
        decreases found.len() - k,
    {
        assert(found@.take(k + 1).drop_last() =~= found@.take(k as int));
        place(&mut out, found[k]);
        k += 1;
    }
    assert(found@.take(found@.len() as int) =~= found@);
    proof {
        law_discovered_order(probes@, reachable@);
    }
    out
}

/// Gathers the result of a discovery as text: the addresses that answered,
/// each once, in the order of the last octet, in dotted decimal and without
/// a port.
pub fn device_list(probes: &Vec<Probe>, reachable: &Vec<bool>) -> (out: Vec<String>)
    ensures
        views(out@) == dotted_all(discovered(probes@, reachable@)),
{
    let found = collect(probes, reachable);
    let mut out: Vec<String> = Vec::new();
    let mut i: usize = 0;
    while i < found.len()
        invariant
            i <= found.len(),
            views(out@) == dotted_all(found@.take(i as int)),
        decreases found.len() - i,
    {
        let text = found[i].to_text();
        let ghost before = views(out@);
        out.push(text);
        assert(views(out@) =~= before.push(dotted(found@[i as int])));
        assert(before.push(dotted(found@[i as int])) =~= dotted_all(found@.take(i + 1)));
        i += 1;
    }
    assert(found@.take(found@.len() as int) =~= found@);
    out
}

/// The slot of `x` lies within `s`, everything from the slot on has a larger
/// last octet than `x`, and what stands just before the slot has not.
pub proof fn lemma_slot(s: Seq<Ipv4>, x: Ipv4)
    ensures
        0 <= slot(s, x) <= s.len(),
        forall|i: int| slot(s, x) <= i < s.len() ==> (#[trigger] s[i]).d > x.d,
        slot(s, x) > 0 ==> s[slot(s, x) - 1].d <= x.d,
    decreases s.len(),
{
    if s.len() > 0 && s.last().d > x.d {
        let t = s.drop_last();
        lemma_slot(t, x);
        assert forall|i: int| slot(s, x) <= i < s.len() implies (#[trigger] s[i]).d > x.d by {
            if i < t.len() {
                assert(s[i] == t[i]);
            }
        }
        if slot(s, x) > 0 {
            assert(s[slot(s, x) - 1] == t[slot(t, x) - 1]);
        }
    }
}

/// The result of ordering rises in the last octet.
pub proof fn law_ordered_rises(s: Seq<Ipv4>)
    ensures
        rising(ordered(s)),
    decreases s.len(),
{
    if s.len() > 0 {
        let before = ordered(s.drop_last());
        let x = s.last();
        law_ordered_rises(s.drop_last());
        lemma_slot(before, x);
        let p = slot(before, x);
        before.insert_ensures(p, x);
        let after = before.insert(p, x);
        assert forall|i: int, j: int| 0 <= i <= j < after.len() implies after[i].d
            <= after[j].d by {
            if i < p {
                assert(after[i] == before[i]);
                assert(before[i].d <= before[p - 1].d);
            }
            if j > p {
                assert(after[j] == before[j - 1]);
            }
            if i > p {
                assert(after[i] == before[i - 1]);
            }
            if j < p {
                assert(after[j] == before[j]);
            }
        }
    }
}

/// Ordering moves addresses and neither adds nor drops one.
pub proof fn law_ordered_permutes(s: Seq<Ipv4>)
    ensures
        ordered(s).to_multiset() == s.to_multiset(),
        ordered(s).len() == s.len(),
    decreases s.len(),
{
    broadcast use vstd::seq_lib::to_multiset_build, vstd::seq_lib::to_multiset_insert;

    if s.len() == 0 {
        assert(ordered(s) =~= s);
    } else {
        let before = ordered(s.drop_last());
        let x = s.last();
        law_ordered_permutes(s.drop_last());
        lemma_slot(before, x);
        before.insert_ensures(slot(before, x), x);
        assert(s.drop_last().push(x) =~= s);
    }
}

/// What stands in an ordered list stood in the list it was made from.
pub proof fn lemma_ordered_source(s: Seq<Ipv4>, k: int)
    requires
        0 <= k < ordered(s).len(),
    ensures
        s.contains(ordered(s)[k]),
    decreases s.len(),
{
    let t = s.drop_last();
    let x = s.last();
    let before = ordered(t);
    lemma_slot(before, x);
    let p = slot(before, x);
    before.insert_ensures(p, x);
    if k == p {
        assert(s[s.len() - 1] == x);
    } else {
        let u = if k < p {
            k
        } else {
            k - 1
        };
        assert(ordered(s)[k] == before[u]);
        lemma_ordered_source(t, u);
        let i = choose|i: int| 0 <= i < t.len() && t[i] == before[u];
        assert(s[i] == t[i]);
    }
}

/// What stands in a list stands in the list that ordering makes of it.
pub proof fn lemma_ordered_keeps(s: Seq<Ipv4>, i: int)
    requires
        0 <= i < s.len(),
    ensures
        ordered(s).contains(s[i]),
    decreases s.len(),
{
    let t = s.drop_last();
    let x = s.last();
    let before = ordered(t);
    lemma_slot(before, x);
    let p = slot(before, x);
    before.insert_ensures(p, x);
    if i == s.len() - 1 {
        assert(ordered(s)[p] == s[i]);
    } else {
        assert(t[i] == s[i]);
        lemma_ordered_keeps(t, i);
        let u = choose|u: int| 0 <= u < before.len() && before[u] == s[i];
        if u < p {
            assert(ordered(s)[u] == s[i]);
        } else {
            assert(ordered(s)[u + 1] == s[i]);
        }
    }
}

/// What stands in a list stands in what is left when the repeats are
/// dropped.
pub proof fn lemma_distinct_keeps(s: Seq<Ipv4>, i: int)
    requires
        0 <= i < s.len(),
    ensures
        distinct(s).contains(s[i]),
    decreases s.len(),
{
    let t = s.drop_last();
    let before = distinct(t);
    if i < t.len() {
        assert(t[i] == s[i]);
        lemma_distinct_keeps(t, i);
        let k = choose|k: int| 0 <= k < before.len() && before[k] == s[i];
        assert(distinct(s)[k] == s[i]);
    } else if before.contains(s.last()) {
        let k = choose|k: int| 0 <= k < before.len() && before[k] == s.last();
        assert(distinct(s)[k] == s[i]);
    } else {
        assert(distinct(s)[before.len() as int] == s[i]);
    }
}

/// What is left when the repeats are dropped stood in the list before.
pub proof fn lemma_distinct_source(s: Seq<Ipv4>, k: int)
    requires
        0 <= k < distinct(s).len(),
    ensures
        s.contains(distinct(s)[k]),
    decreases s.len(),
{
    let t = s.drop_last();
    let before = distinct(t);
    if k < before.len() {
        assert(distinct(s)[k] == before[k]);
        lemma_distinct_source(t, k);
        let i = choose|i: int| 0 <= i < t.len() && t[i] == before[k];
        assert(s[i] == t[i]);
    } else {
        assert(s[s.len() - 1] == distinct(s)[k]);
    }
}

/// After the repeats are dropped no address stands twice.
pub proof fn law_distinct(s: Seq<Ipv4>)
    ensures
        no_repeats(distinct(s)),
    decreases s.len(),
{
    if s.len() > 0 {
        let t = s.drop_last();
        let before = distinct(t);
        law_distinct(t);
        let after = distinct(s);
        assert forall|i: int, j: int| 0 <= i < j < after.len() implies after[i] != after[j] by {
            if j == before.len() {
                assert(after[i] == before[i]);
                assert(before.contains(before[i]));
            } else {
                assert(after[i] == before[i]);
                assert(after[j] == before[j]);
            }
        }
    }
}

/// Every address of the hits is the target of a probe that connected.
pub proof fn law_hits_answered(probes: Seq<Probe>, reachable: Seq<bool>, k: int)
    requires
        0 <= k < hits(probes, reachable).len(),
    ensures
        exists|i: int|
            0 <= i < probes.len() && i < reachable.len() && reachable[i]
                && (#[trigger] probes[i]).target == hits(probes, reachable)[k],
    decreases probes.len(),
{
    let h = hits(probes, reachable);
    let t = probes.drop_last();
    let before = hits(t, reachable);
    let last = probes.len() - 1;
    if k < before.len() {
        assert(h[k] == before[k]);
        law_hits_answered(t, reachable, k);
        let i = choose|i: int|
            0 <= i < t.len() && i < reachable.len() && reachable[i] && (#[trigger] t[i]).target
                == before[k];
        assert(probes[i] == t[i]);
    } else {
        assert(probes[last].target == h[k]);
    }
}

/// Every address of a discovery's result is the target of a probe of the
/// plan that connected.
pub proof fn law_discovered_answered(probes: Seq<Probe>, reachable: Seq<bool>, k: int)
    requires
        0 <= k < discovered(probes, reachable).len(),
    ensures
        exists|i: int|
            0 <= i < probes.len() && i < reachable.len() && reachable[i]
                && (#[trigger] probes[i]).target == discovered(probes, reachable)[k],
{
    let h = hits(probes, reachable);
    let x = discovered(probes, reachable)[k];
    lemma_ordered_source(distinct(h), k);
    let u = choose|u: int| 0 <= u < distinct(h).len() && distinct(h)[u] == x;
    lemma_distinct_source(h, u);
    let w = choose|w: int| 0 <= w < h.len() && h[w] == x;
    law_hits_answered(probes, reachable, w);
}

/// Every probe that connected has its target in the discovery's result.
pub proof fn law_answered_discovered(probes: Seq<Probe>, reachable: Seq<bool>, i: int)
    requires
        0 <= i < probes.len(),
        i < reachable.len(),
        reachable[i],
    ensures
        discovered(probes, reachable).contains(probes[i].target),
{
    let h = hits(probes, reachable);
    lemma_hits_keeps(probes, reachable, i);
    let w = choose|w: int| 0 <= w < h.len() && h[w] == probes[i].target;
    lemma_distinct_keeps(h, w);
    let u = choose|u: int| 0 <= u < distinct(h).len() && distinct(h)[u] == probes[i].target;
    lemma_ordered_keeps(distinct(h), u);
}

/// The target of a probe that connected stands among the hits.
pub proof fn lemma_hits_keeps(probes: Seq<Probe>, reachable: Seq<bool>, i: int)
    requires
        0 <= i < probes.len(),
        i < reachable.len(),
        reachable[i],
    ensures
        hits(probes, reachable).contains(probes[i].target),
    decreases probes.len(),
{
    let h = hits(probes, reachable);
    let t = probes.drop_last();
    let before = hits(t, reachable);
    if i < t.len() {
        assert(t[i] == probes[i]);
        lemma_hits_keeps(t, reachable, i);
        let w = choose|w: int| 0 <= w < before.len() && before[w] == probes[i].target;
        assert(h[w] == probes[i].target);
    } else {
        assert(h[before.len() as int] == probes[i].target);
    }
}

/// The result of a discovery rises in the last octet and holds no address
/// twice.
pub proof fn law_discovered_order(probes: Seq<Probe>, reachable: Seq<bool>)
    ensures
        rising(discovered(probes, reachable)),
        no_repeats(discovered(probes, reachable)),
{
    let d = distinct(hits(probes, reachable));
    law_ordered_rises(d);
    law_distinct(hits(probes, reachable));
    lemma_ordered_keeps_distinct(d);
}

/// Ordering a list without repeats gives a list without repeats.
pub proof fn lemma_ordered_keeps_distinct(s: Seq<Ipv4>)
    requires
        no_repeats(s),
    ensures
        no_repeats(ordered(s)),
    decreases s.len(),
{
    if s.len() > 0 {
        let t = s.drop_last();
        let x = s.last();
        let before = ordered(t);
        assert(no_repeats(t)) by {
            assert forall|i: int, j: int| 0 <= i < j < t.len() implies t[i] != t[j] by {
                assert(t[i] == s[i] && t[j] == s[j]);
            }
        }
        lemma_ordered_keeps_distinct(t);
        lemma_slot(before, x);
        let p = slot(before, x);
        before.insert_ensures(p, x);
        let after = before.insert(p, x);
        assert forall|u: int| 0 <= u < before.len() implies before[u] != x by {
            lemma_ordered_source(t, u);
            let i = choose|i: int| 0 <= i < t.len() && t[i] == before[u];
            assert(s[i] == t[i]);
            assert(s[s.len() - 1] == x);
        }
        assert forall|i: int, j: int| 0 <= i < j < after.len() implies after[i] != after[j] by {
            let u = if i < p {
                i
            } else {
                i - 1
            };
            let w = if j < p {
                j
            } else {
                j - 1
            };
            if i != p {
                assert(after[i] == before[u]);
            }
            if j != p {
                assert(after[j] == before[w]);
            }
        }
    }
}

/// Every probe from `local` is bound to it, aims at another host of the
/// same /24 network and at a host number from 1 to 254.
pub proof fn law_probes_from(local: Ipv4, n: nat, i: int)
    requires
        n <= 254,
        0 <= i < probes_upto(local, n).len(),
    ensures
        probes_upto(local, n)[i].bind == local,
        same_subnet(probes_upto(local, n)[i].target, local),
        probes_upto(local, n)[i].target != local,
        1 <= probes_upto(local, n)[i].target.d <= n,
    decreases n,
{
    if n > 0 {
        let before = probes_upto(local, (n - 1) as nat);
        if i < before.len() {
            law_probes_from(local, (n - 1) as nat, i);
        }
    }
}

/// Every probe of a plan is bound to one of the local addresses, aims at
/// another host of that address's /24 network and at a host number from 1
/// to 254.
pub proof fn law_plan(locals: Seq<Seq<char>>, i: int)
    requires
        0 <= i < plan_of(locals).len(),
    ensures
        exists|k: int|
            0 <= k < locals.len() && parse_address(#[trigger] locals[k]) == Some(
                plan_of(locals)[i].bind,
            ),
        same_subnet(plan_of(locals)[i].target, plan_of(locals)[i].bind),
        plan_of(locals)[i].target != plan_of(locals)[i].bind,
        1 <= plan_of(locals)[i].target.d <= 254,
    decreases locals.len(),
{
    let before = plan_of(locals.drop_last());
    if i < before.len() {
        law_plan(locals.drop_last(), i);
        let k = choose|k: int|
            0 <= k < locals.drop_last().len() && parse_address(#[trigger] locals.drop_last()[k])
                == Some(before[i].bind);
        assert(locals[k] == locals.drop_last()[k]);
    } else {
        let ip = parse_address(locals.last()).unwrap();
        law_probes_from(ip, 254, i - before.len());
        assert(locals[locals.len() - 1] == locals.last());
    }
}

/// The addresses that `locals` name.
pub open spec fn names(locals: Seq<Seq<char>>, ip: Ipv4) -> bool {
    exists|k: int| 0 <= k < locals.len() && parse_address(#[trigger] locals[k]) == Some(ip)
}

/// The local addresses keep clear of the blocks that a discovery must not
/// report: none lies in `127.0.0.0/24`, in `169.254.0.0/16` or in
/// `198.18.0.0/16`.
pub open spec fn clear_of_blocks(locals: Seq<Seq<char>>) -> bool {
    forall|ip: Ipv4| #[trigger]
        names(locals, ip) ==> !(ip.a == 127 && ip.b == 0 && ip.c == 0) && !is_link_local(ip)
            && !is_benchmark(ip)
}

/// No two of the local addresses lie in one /24 network.
pub open spec fn apart(locals: Seq<Seq<char>>) -> bool {
    forall|x: Ipv4, y: Ipv4|
        #![trigger names(locals, x), names(locals, y)]
        names(locals, x) && names(locals, y) && same_subnet(x, y) ==> x == y
}

/// A discovery never reports the address it scanned from. Where the host's
/// addresses keep clear of the loopback network, of the link-local block
/// and of the benchmark block, it reports no address of those either; and
/// where no two of the host's addresses share a /24 network, it reports
/// none of the host's own addresses.
pub proof fn law_discovery_leaves_out(locals: Seq<Seq<char>>, reachable: Seq<bool>, k: int)
    requires
        0 <= k < discovered(plan_of(locals), reachable).len(),
    ensures
        exists|i: int|
            0 <= i < plan_of(locals).len() && (#[trigger] plan_of(locals)[i]).target
                == discovered(plan_of(locals), reachable)[k] && plan_of(locals)[i].bind
                != discovered(plan_of(locals), reachable)[k],
        clear_of_blocks(locals) ==> !is_loopback(discovered(plan_of(locals), reachable)[k])
            && !is_link_local(discovered(plan_of(locals), reachable)[k]) && !is_benchmark(
            discovered(plan_of(locals), reachable)[k],
        ),
        apart(locals) ==> !names(locals, discovered(plan_of(locals), reachable)[k]),
{
    let plan = plan_of(locals);
    let found = discovered(plan, reachable)[k];
    law_discovered_answered(plan, reachable, k);
    let i = choose|i: int|
        0 <= i < plan.len() && i < reachable.len() && reachable[i] && (#[trigger] plan[i]).target
            == found;
    law_plan(locals, i);
    let bind = plan[i].bind;
    assert(names(locals, bind));
    if apart(locals) && names(locals, found) {
        assert(same_subnet(found, bind));
        assert(false);
    }
}

/// An address that passed as usable lies in none of the blocks that a
/// discovery must not report from.
pub proof fn law_usable_is_clear(text: Seq<char>, ip: Ipv4)
    requires
        is_usable_address(text),
        parse_address(text) == Some(ip),
    ensures
        !is_loopback(ip),
        !is_link_local(ip),
        !is_benchmark(ip),
{
    law_blocks_show(text, ip);
}

/// Every address that is picked out of the host's interfaces passed as
/// usable.
pub proof fn lemma_usable_of(list: Seq<InterfaceView>, k: int)
    requires
        0 <= k < usable_of(list).len(),
    ensures
        is_usable_address(usable_of(list)[k]),
    decreases list.len(),
{
    let before = usable_of(list.drop_last());
    if k < before.len() {
        lemma_usable_of(list.drop_last(), k);
    }
}

/// The addresses that are scanned from, as far as they come from the
/// host's interfaces, lie outside the blocks that are left out: none is the
/// loopback address, link-local or of the benchmark block.
pub proof fn law_scanned_from_clear(list: Seq<InterfaceView>, ip: Ipv4)
    requires
        names(usable_of(list), ip),
    ensures
        !is_loopback(ip),
        !is_link_local(ip),
        !is_benchmark(ip),
{
    let locals = usable_of(list);
    let k = choose|k: int| 0 <= k < locals.len() && parse_address(#[trigger] locals[k]) == Some(ip);
    lemma_usable_of(list, k);
    law_usable_is_clear(locals[k], ip);
}

/// The address that stands in where the interfaces gave none is never of
/// the benchmark block.
pub proof fn law_fallback_clear(fallback: Option<Seq<char>>, ip: Ipv4)
    requires
        names(resolved(Seq::empty(), fallback), ip),
    ensures
        !is_benchmark(ip),
{
    let locals = resolved(Seq::empty(), fallback);
    let k = choose|k: int| 0 <= k < locals.len() && parse_address(#[trigger] locals[k]) == Some(ip);
    law_blocks_show(locals[k], ip);
}

/// Whatever answers, a discovery that scans from the host's usable
/// interfaces, or from the address that stands in where they gave none,
/// reports no address of the benchmark block. Where the interfaces gave an
/// address, it reports no link-local address either.
pub proof fn law_discovery_blocks(
    list: Seq<InterfaceView>,
    fallback: Option<Seq<char>>,
    reachable: Seq<bool>,
    k: int,
)
    requires
        0 <= k < discovered(plan_of(resolved(usable_of(list), fallback)), reachable).len(),
    ensures
        !is_benchmark(discovered(plan_of(resolved(usable_of(list), fallback)), reachable)[k]),
        usable_of(list).len() > 0 ==> !is_link_local(
            discovered(plan_of(resolved(usable_of(list), fallback)), reachable)[k],
        ),
{
    let locals = resolved(usable_of(list), fallback);
    let plan = plan_of(locals);
    let found = discovered(plan, reachable)[k];
    law_discovered_answered(plan, reachable, k);
    let i = choose|i: int|
        0 <= i < plan.len() && i < reachable.len() && reachable[i] && (#[trigger] plan[i]).target
            == found;
    law_plan(locals, i);
    let bind = plan[i].bind;
    assert(names(locals, bind));
    assert(same_subnet(found, bind));
    if usable_of(list).len() > 0 {
        law_scanned_from_clear(list, bind);
    } else {
        assert(usable_of(list) =~= Seq::<Seq<char>>::empty());
        law_fallback_clear(fallback, bind);
    }
}

} // verus!
