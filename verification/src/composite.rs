//! Merging the services found by every source into one list: PHPStudy's
//! `Extensions`, the store's own `Extensions`, and standalone installs.
//! A `(kind, install path)` pair appears once, the first source winning;
//! PHP instances that share a port are moved to free ones.

use vstd::prelude::*;
use crate::service::{ServiceInstance, ServiceKind, ServiceOrigin};
use crate::scanner::{ExtensionsListing, PhpStudyScanner, found_views, spec_scan, DirEntryInfo};

verus! {

/// The merger of all discovery sources.
pub struct CompositeScanner;

/// `x` names the same installation as some entry of `out`.
pub open spec fn has_same(out: Seq<ServiceInstance>, x: ServiceInstance) -> bool {
    exists|i: int|
        0 <= i < out.len() && (#[trigger] out[i]).kind == x.kind && out[i].install_path@
            == x.install_path@
}

/// `out` with `x` added unless it already has the installation.
pub open spec fn spec_push_dedup(out: Seq<ServiceInstance>, x: ServiceInstance) -> Seq<
    ServiceInstance,
> {
    if has_same(out, x) {
        out
    } else {
        out.push(x)
    }
}

/// `out` with every entry of `xs` added in turn.
pub open spec fn push_all(out: Seq<ServiceInstance>, xs: Seq<ServiceInstance>) -> Seq<
    ServiceInstance,
>
    decreases xs.len(),
{
    if xs.len() == 0 {
        out
    } else {
        spec_push_dedup(push_all(out, xs.drop_last()), xs.last())
    }
}

/// Adds `inst` unless the list already has its kind and install path.
pub fn push_dedup(out: &mut Vec<ServiceInstance>, inst: ServiceInstance)
    ensures
        final(out)@ == spec_push_dedup(old(out)@, inst),
{
    let p = crate::text::chars_of(inst.install_path.as_str());
    let mut i: usize = 0;
    while i < out.len()
        invariant
            i <= out.len(),
            p@ == inst.install_path@,
            forall|j: int|
                0 <= j < i ==> !((#[trigger] out@[j]).kind == inst.kind && out@[j].install_path@
                    == inst.install_path@),
        decreases out.len() - i,
    {
        let q = crate::text::chars_of(out[i].install_path.as_str());
        if out[i].kind == inst.kind && crate::text::eq(&q, &p) {
            return;
        }
        i += 1;
    }
    out.push(inst);
}

pub(crate) fn push_all_exec(out: &mut Vec<ServiceInstance>, xs: Vec<ServiceInstance>, store: bool)
    ensures
        final(out)@ == push_all(
            old(out)@,
            if store {
                xs@.map_values(|x: ServiceInstance| as_store(x))
            } else {
                xs@
            },
        ),
{
    let ghost ys = if store {
        xs@.map_values(|x: ServiceInstance| as_store(x))
    } else {
        xs@
    };
    let ghost start = out@;
    let ghost orig = xs@;
    let mut xs = xs;
    let mut k: usize = 0;
    let n = xs.len();
    while xs.len() > 0
        invariant
            xs.len() + k == n,
            n == orig.len(),
            ys.len() == n,
            xs@ == orig.skip(k as int),
            ys == (if store {
                orig.map_values(|x: ServiceInstance| as_store(x))
            } else {
                orig
            }),
            out@ == push_all(start, ys.take(k as int)),
        decreases xs.len(),
    {
        assert(xs@[0] == orig[k as int]);
        let mut x = xs.remove(0);
        assert(xs@ =~= orig.skip(k + 1));
        if store {
            x.origin = ServiceOrigin::Store;
        }
        assert(ys.take(k + 1).drop_last() == ys.take(k as int));
        assert(ys.take(k + 1).last() == ys[k as int]);
        push_dedup(out, x);
        k += 1;
    }
    assert(ys.take(n as int) == ys);
}

/// An entry re-labelled as installed from the store.
pub open spec fn as_store(x: ServiceInstance) -> ServiceInstance {
    ServiceInstance { origin: ServiceOrigin::Store, ..x }
}

// ======================== PHP port reassignment ========================

/// The ports of the PHP entries.
pub open spec fn php_ports(s: Seq<ServiceInstance>) -> Set<int>
    decreases s.len(),
{
    if s.len() == 0 {
        Set::empty()
    } else if s.last().kind == ServiceKind::Php {
        php_ports(s.drop_last()).insert(s.last().port as int)
    } else {
        php_ports(s.drop_last())
    }
}

proof fn lemma_php_ports(s: Seq<ServiceInstance>)
    ensures
        php_ports(s).finite(),
        php_ports(s).len() <= s.len(),
        forall|j: int| 0 <= j < s.len() && s[j].kind == ServiceKind::Php ==> php_ports(s).contains(#[trigger] s[j].port as int),
        forall|x: int| #[trigger] php_ports(s).contains(x) ==> 0 <= x < 65536,
    decreases s.len(),
{
    if s.len() > 0 {
        lemma_php_ports(s.drop_last());
        assert forall|j: int| 0 <= j < s.len() && s[j].kind == ServiceKind::Php implies php_ports(s).contains(#[trigger] s[j].port as int) by {
            if j < s.len() - 1 {
                assert(s.drop_last()[j] == s[j]);
            }
        }
    }
}

/// The lowest port from `p` up that `used` does not hold.
pub open spec fn first_free(used: Set<int>, p: int) -> int
    decreases 65536 - p,
{
    if p >= 65536 {
        p
    } else if !used.contains(p) {
        p
    } else {
        first_free(used, p + 1)
    }
}

/// The ports after reassignment, from entry `i` on: a PHP entry whose
/// port an earlier PHP entry kept moves to the lowest port from 9000 that
/// no PHP entry uses or was given; every other entry keeps its port.
pub open spec fn ports_from(s: Seq<ServiceInstance>, i: int, used: Set<int>, seen: Set<int>) -> Seq<u16>
    decreases s.len() - i,
{
    if i >= s.len() || i < 0 {
        Seq::empty()
    } else if s[i].kind != ServiceKind::Php {
        seq![s[i].port] + ports_from(s, i + 1, used, seen)
    } else if seen.contains(s[i].port as int) {
        let p = first_free(used, 9000);
        seq![p as u16] + ports_from(s, i + 1, used.insert(p), seen.insert(p))
    } else {
        seq![s[i].port] + ports_from(s, i + 1, used, seen.insert(s[i].port as int))
    }
}

pub open spec fn spec_reassigned_ports(s: Seq<ServiceInstance>) -> Seq<u16> {
    ports_from(s, 0, php_ports(s), Set::empty())
}

/// The entry on another port.
pub open spec fn with_port(x: ServiceInstance, p: u16) -> ServiceInstance {
    ServiceInstance { port: p, ..x }
}

proof fn lemma_push_set(before: Seq<u16>, after: Seq<u16>, set: Set<int>, q: u16)
    requires
        after == before.push(q),
        forall|x: int| set.contains(x) <==> 0 <= x < 65536 && before.contains(x as u16),
    ensures
        forall|x: int| set.insert(q as int).contains(x) <==> 0 <= x < 65536 && after.contains(x as u16),
{
    assert forall|x: int| set.insert(q as int).contains(x) <==> 0 <= x < 65536 && after.contains(x as u16) by {
        if 0 <= x < 65536 && after.contains(x as u16) {
            let j = choose|j: int| 0 <= j < after.len() && after[j] == x as u16;
            if j < before.len() {
                assert(before[j] == after[j]);
                assert(before.contains(x as u16));
            } else {
                assert(x as u16 == q);
                assert(x == q as int);
            }
        }
        if set.contains(x) {
            assert(before.contains(x as u16));
            let j = choose|j: int| 0 <= j < before.len() && before[j] == x as u16;
            assert(after[j] == x as u16);
        }
        if x == q as int {
            assert(after[after.len() - 1] == q);
        }
    }
}

proof fn lemma_first_free(used: Set<int>, q: int, p: int)
    requires
        9000 <= q <= p < 65536,
        forall|x: int| q <= x < p ==> used.contains(x),
        !used.contains(p),
    ensures
        first_free(used, q) == p,
    decreases p - q,
{
    if q < p {
        lemma_first_free(used, q + 1, p);
    }
}

fn contains_port(v: &Vec<u16>, p: u16) -> (r: bool)
    ensures
        r == v@.contains(p),
{
    let mut i: usize = 0;
    while i < v.len()
        invariant
            i <= v.len(),
            forall|j: int| 0 <= j < i ==> v@[j] != p,
        decreases v.len() - i,
    {
        if v[i] == p {
            assert(v@[i as int] == p);
            return true;
        }
        i += 1;
    }
    false
}

/// Gives every PHP entry whose port an earlier PHP entry already holds
/// the lowest free port from 9000 (see `spec_reassigned_ports`); other
/// entries are untouched. Afterwards no two PHP entries share a port.
pub fn reassign_php_ports(out: &mut Vec<ServiceInstance>)
    requires
        old(out)@.len() <= 28267,
    ensures
        final(out)@.len() == old(out)@.len(),
        forall|i: int|
            0 <= i < old(out)@.len() ==> final(out)@[i] == with_port(
                old(out)@[i],
                #[trigger] spec_reassigned_ports(old(out)@)[i],
            ),
        forall|i: int, j: int|
            0 <= i < j < final(out)@.len() && final(out)@[i].kind == ServiceKind::Php
                && final(out)@[j].kind == ServiceKind::Php ==> #[trigger] final(out)@[i].port
                != #[trigger] final(out)@[j].port,
{
    let ghost s0 = out@;
    let n = out.len();
    // The ports PHP entries use.
    let mut used: Vec<u16> = Vec::new();
    let ghost mut gused: Set<int> = Set::empty();
    let mut i: usize = 0;
    while i < n
        invariant
            i <= n,
            n == out@.len(),
            out@ == s0,
            gused == php_ports(s0.take(i as int)),
            forall|x: int| gused.contains(x) <==> 0 <= x < 65536 && used@.contains(x as u16),
        decreases n - i,
    {
        assert(s0.take(i + 1).drop_last() == s0.take(i as int));
        assert(s0.take(i + 1).last() == s0[i as int]);
        if out[i].kind == ServiceKind::Php {
            let ghost before = used@;
            let q = out[i].port;
            used.push(q);
            proof {
                lemma_push_set(before, used@, gused, q);
                gused = gused.insert(q as int);
            }
        }
        i += 1;
    }
    assert(s0.take(n as int) == s0);
    proof {
        lemma_php_ports(s0);
    }
    let ghost mut gseen: Set<int> = Set::empty();
    let mut seen: Vec<u16> = Vec::new();
    let mut k: usize = 0;
    let mut extra: usize = 0;
    while k < n
        invariant
            k <= n,
            n == out@.len(),
            n == s0.len(),
            n <= 28267,
            extra <= k,
            gused.finite(),
            gused.len() <= n + extra,
            forall|x: int| gused.contains(x) <==> 0 <= x < 65536 && used@.contains(x as u16),
            forall|x: int| gseen.contains(x) <==> 0 <= x < 65536 && seen@.contains(x as u16),
            forall|x: int| #[trigger] gseen.contains(x) ==> gused.contains(x),
            forall|j: int| k <= j < n && s0[j].kind == ServiceKind::Php ==> gused.contains(#[trigger] s0[j].port as int),
            forall|j: int| k <= j < n ==> out@[j] == s0[j],
            forall|j: int| 0 <= j < k ==> (#[trigger] out@[j]) == with_port(s0[j], out@[j].port),
            forall|j: int| 0 <= j < k && out@[j].kind == ServiceKind::Php ==> gseen.contains(#[trigger] out@[j].port as int),
            forall|a: int, b: int|
                0 <= a < b < k && out@[a].kind == ServiceKind::Php && out@[b].kind == ServiceKind::Php ==> #[trigger] out@[a].port
                    != #[trigger] out@[b].port,
            Seq::new(k as nat, |j: int| out@[j].port) + ports_from(s0, k as int, gused, gseen) == spec_reassigned_ports(s0),
        decreases n - k,
    {
        let ghost prefix = Seq::new(k as nat, |j: int| out@[j].port);
        if out[k].kind == ServiceKind::Php {
            let q = out[k].port;
            if contains_port(&seen, q) {
                let mut p: u16 = 9000;
                proof {
                    vstd::set_lib::lemma_int_range(9000, 9000);
                }
                while contains_port(&used, p)
                    invariant
                        9000 <= p < 65535,
                        gused.finite(),
                        gused.len() <= 56534,
                        forall|x: int| gused.contains(x) <==> 0 <= x < 65536 && used@.contains(x as u16),
                        forall|x: int| 9000 <= x < p ==> gused.contains(x),
                    decreases 65535 - p,
                {
                    assert(gused.contains(p as int));
                    assert(vstd::set_lib::set_int_range(9000, p + 1).subset_of(gused));
                    proof {
                        vstd::set_lib::lemma_int_range(9000, p + 1);
                        vstd::set_lib::lemma_len_subset(vstd::set_lib::set_int_range(9000, p + 1), gused);
                    }
                    p += 1;
                }
                proof {
                    lemma_first_free(gused, 9000, p as int);
                }
                assert(!gseen.contains(p as int));
                let ghost old_out = out@;
                out[k].port = p;
                let ghost ub = used@;
                let ghost sb = seen@;
                used.push(p);
                seen.push(p);
                proof {
                    lemma_push_set(ub, used@, gused, p);
                    lemma_push_set(sb, seen@, gseen, p);
                    gused = gused.insert(p as int);
                    gseen = gseen.insert(p as int);
                }
                extra += 1;
                assert(Seq::new((k + 1) as nat, |j: int| out@[j].port) =~= prefix.push(p));
            } else {
                let ghost sb = seen@;
                seen.push(q);
                proof {
                    lemma_push_set(sb, seen@, gseen, q);
                    gseen = gseen.insert(q as int);
                }
                assert(Seq::new((k + 1) as nat, |j: int| out@[j].port) =~= prefix.push(q));
            }
        } else {
            assert(Seq::new((k + 1) as nat, |j: int| out@[j].port) =~= prefix.push(out@[k as int].port));
        }
        assert(Seq::new((k + 1) as nat, |j: int| out@[j].port) + ports_from(s0, k + 1, gused, gseen)
            =~= spec_reassigned_ports(s0));
        k += 1;
    }
    assert forall|i: int| 0 <= i < n implies out@[i] == with_port(s0[i], #[trigger] spec_reassigned_ports(s0)[i]) by {
        assert(Seq::new(k as nat, |j: int| out@[j].port)[i] == out@[i].port);
        assert(ports_from(s0, n as int, gused, gseen) =~= Seq::<u16>::empty());
    }
}

/// The listing's entries as plain values.
pub open spec fn listing_scan(l: ExtensionsListing) -> Seq<crate::scanner::FoundView> {
    spec_scan(
        l.exists,
        match l.php {
            Some(es) => Some(es@),
            None => None,
        },
        l.entries@,
    )
}

/// The PHP ports of a listing fit in a `u16` (see `php_ports_fit`).
pub open spec fn listing_fits(l: ExtensionsListing) -> bool {
    l.php matches Some(es) ==> crate::scanner::php_ports_fit(es@)
}

/// How many services a listing gives.
pub open spec fn scan_len(l: Option<ExtensionsListing>) -> int {
    match l {
        Some(x) => listing_scan(x).len() as int,
        None => 0,
    }
}

proof fn lemma_push_all_len(out: Seq<ServiceInstance>, xs: Seq<ServiceInstance>)
    ensures
        push_all(out, xs).len() <= out.len() + xs.len(),
    decreases xs.len(),
{
    if xs.len() > 0 {
        lemma_push_all_len(out, xs.drop_last());
    }
}

fn scan_listing(l: &Option<ExtensionsListing>) -> (r: Vec<ServiceInstance>)
    requires
        *l matches Some(x) ==> listing_fits(x),
    ensures
        r@.len() == scan_len(*l),
        forall|i: int| 0 <= i < r@.len() ==> crate::scanner::fresh(#[trigger] r@[i]),
        *l matches Some(x) ==> found_views(r@) == listing_scan(x),
        *l is None ==> r@.len() == 0,
{
    match l {
        Some(x) => {
            let r = PhpStudyScanner::scan(x);
            proof {
                let ghost gx = *x;
                crate::scanner::lemma_scan_len(
                    gx.exists,
                    match gx.php {
                        Some(es) => Some(es@),
                        None => None,
                    },
                    gx.entries@,
                );
                assert(found_views(r@).len() == r@.len());
            }
            r
        },
        None => Vec::new(),
    }
}

/// The merged list before ports are reassigned: PHPStudy's entries, then
/// the store's (relabelled as from the store), then the standalone ones,
/// each skipped when its installation is already listed.
pub open spec fn spec_merge(
    phpstudy: Seq<ServiceInstance>,
    store: Seq<ServiceInstance>,
    standalone: Seq<ServiceInstance>,
) -> Seq<ServiceInstance> {
    push_all(
        push_all(push_all(Seq::empty(), phpstudy), store.map_values(|x: ServiceInstance| as_store(x))),
        standalone,
    )
}

impl CompositeScanner {
    /// Every service of the PHPStudy and store `Extensions` listings and
    /// the standalone installs, merged (see `spec_merge`) and with PHP
    /// ports made unique (see `reassign_php_ports`).
    pub fn scan(
        phpstudy_extensions: Option<ExtensionsListing>,
        store_extensions: Option<ExtensionsListing>,
        standalone: Vec<ServiceInstance>,
    ) -> (r: Vec<ServiceInstance>)
        requires
            phpstudy_extensions matches Some(x) ==> listing_fits(x),
            store_extensions matches Some(x) ==> listing_fits(x),
            scan_len(phpstudy_extensions) + scan_len(store_extensions) + standalone@.len() <= 28267,
        ensures
            exists|p: Seq<ServiceInstance>, s: Seq<ServiceInstance>| {
                &&& (phpstudy_extensions matches Some(x) ==> found_views(p) == listing_scan(x))
                &&& (phpstudy_extensions is None ==> p.len() == 0)
                &&& (store_extensions matches Some(x) ==> found_views(s) == listing_scan(x))
                &&& (store_extensions is None ==> s.len() == 0)
                &&& (forall|i: int| 0 <= i < p.len() ==> crate::scanner::fresh(#[trigger] p[i]))
                &&& (forall|i: int| 0 <= i < s.len() ==> crate::scanner::fresh(#[trigger] s[i]))
                &&& r@.len() == spec_merge(p, s, standalone@).len()
                &&& forall|i: int| 0 <= i < r@.len() ==> r@[i] == with_port(
                    spec_merge(p, s, standalone@)[i],
                    #[trigger] spec_reassigned_ports(spec_merge(p, s, standalone@))[i],
                )
            },
            forall|i: int, j: int|
                0 <= i < j < r@.len() && r@[i].kind == ServiceKind::Php && r@[j].kind == ServiceKind::Php
                    ==> #[trigger] r@[i].port != #[trigger] r@[j].port,
    {
        let p = scan_listing(&phpstudy_extensions);
        let s = scan_listing(&store_extensions);
        let ghost pv = p@;
        let ghost sv = s@;
        let mut out: Vec<ServiceInstance> = Vec::new();
        push_all_exec(&mut out, p, false);
        push_all_exec(&mut out, s, true);
        push_all_exec(&mut out, standalone, false);
        proof {
            lemma_push_all_len(Seq::empty(), pv);
            lemma_push_all_len(push_all(Seq::empty(), pv), sv.map_values(|x: ServiceInstance| as_store(x)));
            lemma_push_all_len(
                push_all(push_all(Seq::empty(), pv), sv.map_values(|x: ServiceInstance| as_store(x))),
                standalone@,
            );
        }
        let ghost merged = out@;
        assert(merged == spec_merge(pv, sv, standalone@));
        reassign_php_ports(&mut out);
        out
    }
}

} // verus!
