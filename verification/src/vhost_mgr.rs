//! Virtual host bookkeeping: which web server to reload, whether a port
//! is free for a new site, Apache's `Listen` lines, and merging the
//! scanned vhosts with the saved metadata.

use vstd::prelude::*;
use crate::text::{append, append_str, chars_of, join_lines, lines, string_of, trim, trim_end, views};
use crate::num::decimal;
use crate::service::{ServiceInstance, ServiceKind, ServiceStatus};
use crate::vhost::{VhostSource, VirtualHost};
use crate::error::NaxOneError;

verus! {

/// The vhost manager; its file and process work is done by the caller.
pub struct VhostManager;

/// A running Nginx or Apache.
pub open spec fn running_web(s: ServiceInstance) -> bool {
    (s.kind == ServiceKind::Nginx || s.kind == ServiceKind::Apache) && s.status is Running
}

/// The first running web server.
pub open spec fn first_running_web(s: Seq<ServiceInstance>) -> Option<int>
    decreases s.len(),
{
    if s.len() == 0 {
        None
    } else if running_web(s[0]) {
        Some(0)
    } else {
        match first_running_web(s.drop_first()) {
            Some(i) => Some(i + 1),
            None => None,
        }
    }
}

/// Some vhost of ours already listens on `port`: another one (the same
/// server process serves them all), or the one being edited, which keeps
/// the port it owns.
pub open spec fn owned_by_us(port: u16, all: Seq<VirtualHost>) -> bool {
    exists|i: int| 0 <= i < all.len() && (#[trigger] all[i]).listen_port == port
}

/// Another vhost than `id` listens on `port`.
pub open spec fn port_still_used_spec(all: Seq<VirtualHost>, id: Seq<char>, port: u16) -> bool {
    exists|i: int| 0 <= i < all.len() && (#[trigger] all[i]).id@ != id && all[i].listen_port == port
}

/// The `Listen` line of a port.
pub open spec fn listen_line(port: u16) -> Seq<char> {
    "Listen "@ + decimal(port as nat)
}

/// Some line of `c` reads `Listen <port>` once trimmed.
pub open spec fn has_listen_line(c: Seq<char>, port: u16) -> bool {
    exists|i: int| 0 <= i < lines(c).len() && trim(#[trigger] lines(c)[i]) == listen_line(port)
}

/// `Listen.conf` after adding `port`: `None` when a line already reads
/// `Listen <port>` (once trimmed); otherwise the text with trailing
/// whitespace removed, then a line break, the new line and a line break.
/// A missing file counts as `Listen 80\n`.
pub open spec fn spec_with_listen_port(content: Option<Seq<char>>, port: u16) -> Option<Seq<char>> {
    let c = match content {
        Some(c) => c,
        None => "Listen 80\n"@,
    };
    if has_listen_line(c, port) {
        None
    } else {
        Some(trim_end(c) + "\n"@ + listen_line(port) + "\n"@)
    }
}

/// The lines of `ls` other than `Listen <port>`.
pub open spec fn drop_listen(ls: Seq<Seq<char>>, port: u16) -> Seq<Seq<char>>
    decreases ls.len(),
{
    if ls.len() == 0 {
        ls
    } else if trim(ls.last()) == listen_line(port) {
        drop_listen(ls.drop_last(), port)
    } else {
        drop_listen(ls.drop_last(), port).push(ls.last())
    }
}

/// `Listen.conf` without the `Listen <port>` lines, re-joined with `\n`.
pub open spec fn spec_without_listen_port(content: Seq<char>, port: u16) -> Seq<char> {
    join_lines(drop_listen(lines(content), port))
}

fn listen_line_exec(port: u16) -> (r: Vec<char>)
    ensures
        r@ == listen_line(port),
{
    let mut v = chars_of("Listen ");
    append(&mut v, &crate::num::decimal_chars(port as u64));
    v
}

/// The result of merging: a scanned vhost takes the creation and expiry
/// dates, the enabled and hosts flags and the origin of the saved entry
/// with its id.
pub open spec fn with_meta(scan: VirtualHost, meta: VirtualHost) -> VirtualHost {
    VirtualHost {
        created_at: meta.created_at,
        expires_at: meta.expires_at,
        enabled: meta.enabled,
        sync_hosts: meta.sync_hosts,
        source: meta.source,
        ..scan
    }
}

/// The first saved entry with the id.
pub open spec fn find_id(saved: Seq<VirtualHost>, id: Seq<char>) -> Option<int>
    decreases saved.len(),
{
    if saved.len() == 0 {
        None
    } else if saved[0].id@ == id {
        Some(0)
    } else {
        match find_id(saved.drop_first(), id) {
            Some(i) => Some(i + 1),
            None => None,
        }
    }
}

/// The id equals that of some entry.
pub open spec fn has_id(v: Seq<VirtualHost>, id: Seq<char>) -> bool {
    exists|i: int| 0 <= i < v.len() && (#[trigger] v[i]).id@ == id
}

/// The saved entries whose id no scanned vhost has, in order.
pub open spec fn saved_only(saved: Seq<VirtualHost>, scanned: Seq<VirtualHost>) -> Seq<VirtualHost>
    decreases saved.len(),
{
    if saved.len() == 0 {
        saved
    } else if has_id(scanned, saved.last().id@) {
        saved_only(saved.drop_last(), scanned)
    } else {
        saved_only(saved.drop_last(), scanned).push(saved.last())
    }
}

/// Each scanned vhost with its saved metadata, then the saved-only ones.
pub open spec fn spec_merge_vhosts(scanned: Seq<VirtualHost>, saved: Seq<VirtualHost>) -> Seq<
    VirtualHost,
> {
    scanned.map_values(
        |s: VirtualHost|
            match find_id(saved, s.id@) {
                Some(j) => with_meta(s, saved[j]),
                None => s,
            },
    ) + saved_only(saved, scanned)
}

fn find_id_exec(saved: &Vec<VirtualHost>, id: &String) -> (r: Option<usize>)
    ensures
        match r {
            Some(i) => find_id(saved@, id@) == Some(i as int) && i < saved.len(),
            None => find_id(saved@, id@) is None,
        },
{
    let ic = chars_of(id.as_str());
    let mut i: usize = 0;
    assert(saved@.skip(0) =~= saved@);
    while i < saved.len()
        invariant
            i <= saved.len(),
            ic@ == id@,
            find_id(saved@, id@) == match find_id(saved@.skip(i as int), id@) {
                Some(k) => Some(k + i),
                None => None,
            },
        decreases saved.len() - i,
    {
        assert(saved@.skip(i as int)[0] == saved@[i as int]);
        assert(saved@.skip(i as int).drop_first() == saved@.skip(i + 1));
        if crate::text::eq(&chars_of(saved[i].id.as_str()), &ic) {
            return Some(i);
        }
        i += 1;
    }
    None
}

impl VhostManager {
    /// A new manager.
    pub fn new() -> Self {
        VhostManager
    }

    /// The first running Nginx or Apache of the list.
    pub fn find_running_web_server(services: &[ServiceInstance]) -> (r: Option<&ServiceInstance>)
        ensures
            match first_running_web(services@) {
                Some(i) => r == Some(&services@[i]),
                None => r is None,
            },
    {
        let mut i: usize = 0;
        assert(services@.skip(0) =~= services@);
        while i < services.len()
            invariant
                i <= services.len(),
                first_running_web(services@) == match first_running_web(services@.skip(i as int)) {
                    Some(k) => Some(k + i),
                    None => None,
                },
            decreases services.len() - i,
        {
            assert(services@.skip(i as int)[0] == services@[i as int]);
            assert(services@.skip(i as int).drop_first() == services@.skip(i + 1));
            let s = &services[i];
            if (s.kind == ServiceKind::Nginx || s.kind == ServiceKind::Apache) && s.status.is_running() {
                return Some(s);
            }
            i += 1;
        }
        None
    }

    /// Whether a port must be test-bound before a vhost may use it: not
    /// for port 80, which the web server always listens on, nor for a port
    /// one of our vhosts already uses, be it another one (the same server
    /// process serves them all) or the one being edited (`self_id`), which
    /// keeps its own port; so `self_id` does not change the answer.
    pub fn needs_bind_probe(port: u16, all_vhosts: &[VirtualHost], self_id: Option<&str>) -> (r: bool)
        ensures
            r == (port != 80 && !owned_by_us(port, all_vhosts@)),
    {
        let _ = self_id;
        if port == 80 {
            return false;
        }
        let mut i: usize = 0;
        while i < all_vhosts.len()
            invariant
                i <= all_vhosts.len(),
                port != 80,
                forall|j: int| 0 <= j < i ==> (#[trigger] all_vhosts@[j]).listen_port != port,
            decreases all_vhosts.len() - i,
        {
            if all_vhosts[i].listen_port == port {
                return false;
            }
            i += 1;
        }
        true
    }

    /// The verdict on a port for a vhost: fine when no test bind is needed
    /// (see `needs_bind_probe`) or the test bind succeeded (`bind_ok`);
    /// otherwise the port is in use by an unknown program.
    pub fn check_port_conflict(
        port: u16,
        all_vhosts: &[VirtualHost],
        self_id: Option<&str>,
        bind_ok: bool,
    ) -> (r: Result<(), NaxOneError>)
        ensures
            (port != 80 && !owned_by_us(port, all_vhosts@) && !bind_ok) <==> (r is Err),
            r matches Err(e) ==> (e == (NaxOneError::PortInUse { port, by: None })),
    {
        if !VhostManager::needs_bind_probe(port, all_vhosts, self_id) || bind_ok {
            Ok(())
        } else {
            Err(NaxOneError::PortInUse { port, by: None })
        }
    }

    /// Whether another vhost than `id` still listens on `port`, so that
    /// its `Listen` line must stay.
    pub fn port_still_used(all_vhosts: &[VirtualHost], id: &str, port: u16) -> (r: bool)
        ensures
            r == port_still_used_spec(all_vhosts@, id@, port),
    {
        let ic = chars_of(id);
        let mut i: usize = 0;
        while i < all_vhosts.len()
            invariant
                i <= all_vhosts.len(),
                ic@ == id@,
                forall|j: int|
                    0 <= j < i ==> !((#[trigger] all_vhosts@[j]).id@ != id@ && all_vhosts@[j].listen_port
                        == port),
            decreases all_vhosts.len() - i,
        {
            let v = &all_vhosts[i];
            if !crate::text::eq(&chars_of(v.id.as_str()), &ic) && v.listen_port == port {
                return true;
            }
            i += 1;
        }
        false
    }

    /// `Listen.conf` with `Listen <port>` added (see
    /// `spec_with_listen_port`); `None` when nothing needs writing.
    pub fn with_listen_port(content: Option<&str>, port: u16) -> (r: Option<String>)
        ensures
            crate::vhost::opt_view(r) == spec_with_listen_port(
                match content {
                    Some(c) => Some(c@),
                    None => None,
                },
                port,
            ),
    {
        let c = match content {
            Some(c) => chars_of(c),
            None => chars_of("Listen 80\n"),
        };
        assert(c@ == match content {
            Some(c) => c@,
            None => "Listen 80\n"@,
        });
        let ll = listen_line_exec(port);
        let ls = crate::lineedit::lines_vec(&c);
        let mut i: usize = 0;
        while i < ls.len()
            invariant
                i <= ls.len(),
                views(ls@) == lines(c@),
                ll@ == listen_line(port),
                c@ == match content {
                    Some(c) => c@,
                    None => "Listen 80\n"@,
                },
                forall|j: int| 0 <= j < i ==> trim(#[trigger] lines(c@)[j]) != listen_line(port),
            decreases ls.len() - i,
        {
            assert(views(ls@)[i as int] == ls@[i as int]@);
            if crate::text::eq(&crate::text::trim_of(&ls[i]), &ll) {
                assert(trim(lines(c@)[i as int]) == listen_line(port));
                assert(has_listen_line(c@, port));
                return None;
            }
            i += 1;
        }
        let mut r = crate::text::trim_end_of(&c);
        append_str(&mut r, "\n");
        append(&mut r, &ll);
        append_str(&mut r, "\n");
        Some(string_of(&r))
    }

    /// `Listen.conf` without the `Listen <port>` lines (see
    /// `spec_without_listen_port`).
    pub fn without_listen_port(content: &str, port: u16) -> (r: String)
        ensures
            r@ == spec_without_listen_port(content@, port),
    {
        let c = chars_of(content);
        let ll = listen_line_exec(port);
        let ls = crate::lineedit::lines_vec(&c);
        let mut kept: Vec<Vec<char>> = Vec::new();
        let mut i: usize = 0;
        while i < ls.len()
            invariant
                i <= ls.len(),
                views(ls@) == lines(c@),
                ll@ == listen_line(port),
                views(kept@) == drop_listen(views(ls@).take(i as int), port),
            decreases ls.len() - i,
        {
            assert(views(ls@).take(i + 1).drop_last() == views(ls@).take(i as int));
            assert(views(ls@).take(i + 1).last() == ls@[i as int]@);
            if !crate::text::eq(&crate::text::trim_of(&ls[i]), &ll) {
                let e = crate::text::slice_of(&ls[i], 0, ls[i].len());
                assert(e@ =~= ls@[i as int]@);
                kept.push(e);
            }
            assert(views(kept@) =~= drop_listen(views(ls@).take(i + 1), port));
            i += 1;
        }
        assert(views(ls@).take(ls.len() as int) == views(ls@));
        string_of(&crate::text::join_lines_of(&kept))
    }
}

fn id_in(ids: &Vec<Vec<char>>, id: &[char]) -> (r: bool)
    ensures
        r == exists|i: int| 0 <= i < ids@.len() && (#[trigger] ids@[i])@ == id@,
{
    let mut i: usize = 0;
    while i < ids.len()
        invariant
            i <= ids.len(),
            forall|j: int| 0 <= j < i ==> (#[trigger] ids@[j])@ != id@,
        decreases ids.len() - i,
    {
        if crate::text::eq(&ids[i], id) {
            return true;
        }
        i += 1;
    }
    false
}

impl VhostManager {
    /// The vhosts found in the configuration files merged with the saved
    /// metadata (see `spec_merge_vhosts`): a scanned vhost keeps its
    /// scanned settings but takes the saved dates, flags and origin; saved
    /// vhosts that no file holds any more are kept after them.
    pub fn merge_vhosts(scanned: Vec<VirtualHost>, saved: Vec<VirtualHost>) -> (r: Vec<VirtualHost>)
        ensures
            r@ == spec_merge_vhosts(scanned@, saved@),
    {
        let ghost sc0 = scanned@;
        let ghost sv0 = saved@;
        let ghost first = sc0.map_values(
            |s: VirtualHost|
                match find_id(sv0, s.id@) {
                    Some(j) => with_meta(s, sv0[j]),
                    None => s,
                },
        );
        assert forall|j: int| 0 <= j < sc0.len() implies #[trigger] first[j] == match find_id(sv0, sc0[j].id@) {
            Some(i) => with_meta(sc0[j], sv0[i]),
            None => sc0[j],
        } by {}
        let mut result: Vec<VirtualHost> = Vec::new();
        let mut ids: Vec<Vec<char>> = Vec::new();
        let mut scanned = scanned;
        let n = scanned.len();
        let mut k: usize = 0;
        while scanned.len() > 0
            invariant
                scanned.len() + k == n,
                n == sc0.len(),
                scanned@ == sc0.skip(k as int),
                saved@ == sv0,
                result@ == first.take(k as int),
                first.len() == n,
                forall|j: int| 0 <= j < n ==> #[trigger] first[j] == match find_id(sv0, sc0[j].id@) {
                    Some(i) => with_meta(sc0[j], sv0[i]),
                    None => sc0[j],
                },
                ids@.len() == k,
                forall|j: int| 0 <= j < k ==> (#[trigger] ids@[j])@ == sc0[j].id@,
            decreases scanned.len(),
        {
            assert(scanned@[0] == sc0[k as int]);
            let mut scan = scanned.remove(0);
            assert(scanned@ =~= sc0.skip(k + 1));
            ids.push(chars_of(scan.id.as_str()));
            let ghost orig = scan;
            match find_id_exec(&saved, &scan.id) {
                Some(j) => {
                    let meta = &saved[j];
                    scan.created_at = meta.created_at.clone();
                    scan.expires_at = meta.expires_at.clone();
                    scan.enabled = meta.enabled;
                    scan.sync_hosts = meta.sync_hosts;
                    scan.source = meta.source.copy();
                    assert(scan == with_meta(orig, sv0[j as int]));
                },
                None => {},
            }
            assert(first[k as int] == scan);
            result.push(scan);
            assert(result@ =~= first.take(k + 1));
            k += 1;
        }
        assert(first.take(n as int) =~= first);
        let ghost mid = result@;
        let mut saved = saved;
        let m = saved.len();
        let mut t: usize = 0;
        while saved.len() > 0
            invariant
                saved.len() + t == m,
                m == sv0.len(),
                saved@ == sv0.skip(t as int),
                ids@.len() == sc0.len(),
                forall|j: int| 0 <= j < sc0.len() ==> (#[trigger] ids@[j])@ == sc0[j].id@,
                result@ == mid + saved_only(sv0.take(t as int), sc0),
            decreases saved.len(),
        {
            assert(saved@[0] == sv0[t as int]);
            let meta = saved.remove(0);
            assert(saved@ =~= sv0.skip(t + 1));
            assert(sv0.take(t + 1).drop_last() == sv0.take(t as int));
            assert(sv0.take(t + 1).last() == meta);
            let mid_id = chars_of(meta.id.as_str());
            let found = id_in(&ids, &mid_id);
            proof {
                if found {
                    let i = choose|i: int| 0 <= i < ids@.len() && (#[trigger] ids@[i])@ == mid_id@;
                    assert(sc0[i].id@ == meta.id@);
                }
                if has_id(sc0, meta.id@) {
                    let i = choose|i: int| 0 <= i < sc0.len() && (#[trigger] sc0[i]).id@ == meta.id@;
                    assert(ids@[i]@ == mid_id@);
                }
            }
            if !found {
                result.push(meta);
            }
            assert(result@ =~= mid + saved_only(sv0.take(t + 1), sc0));
            t += 1;
        }
        assert(sv0.take(m as int) =~= sv0);
        result
    }
}

} // verus!

verus! {

// ======================== The rollback journal ========================

/// One compensating step, as values: restore a file to its earlier
/// content (`None`: it did not exist, so delete it), or take a hosts
/// entry out again.
pub enum UndoStep {
    File(Seq<char>, Option<Seq<char>>),
    Host(Seq<char>),
}

/// A compensating step recorded after a step of a vhost write succeeded.
#[derive(Debug)]
pub enum RollbackAction {
    /// Write `original` back to `path`, or delete `path` when it was new.
    RestoreFile { path: String, original: Option<String> },
    /// Remove the hosts entry of `hostname` that the write added.
    RemoveHostsEntry { hostname: String },
}

pub open spec fn opt_view(o: Option<String>) -> Option<Seq<char>> {
    match o {
        Some(s) => Some(s@),
        None => None,
    }
}

pub open spec fn action_view(a: RollbackAction) -> UndoStep {
    match a {
        RollbackAction::RestoreFile { path, original } => UndoStep::File(path@, opt_view(original)),
        RollbackAction::RemoveHostsEntry { hostname } => UndoStep::Host(hostname@),
    }
}

/// The journal of a vhost write: each step that succeeded pushes the step
/// that undoes it; on failure they run newest first.
pub struct Rollback {
    actions: Vec<RollbackAction>,
}

impl View for Rollback {
    type V = Seq<UndoStep>;

    closed spec fn view(&self) -> Seq<UndoStep> {
        self.actions@.map_values(|a: RollbackAction| action_view(a))
    }
}

impl Rollback {
    /// An empty journal.
    pub fn new() -> (r: Rollback)
        ensures
            r@ == Seq::<UndoStep>::empty(),
    {
        let r = Rollback { actions: Vec::new() };
        assert(r@ =~= Seq::<UndoStep>::empty());
        r
    }

    /// Records that `path` was written, and what it held before (`None`:
    /// it did not exist).
    pub fn write_text(&mut self, path: &str, original: Option<String>)
        ensures
            final(self)@ == old(self)@.push(UndoStep::File(path@, opt_view(original))),
    {
        let p = string_of(&chars_of(path));
        self.actions.push(RollbackAction::RestoreFile { path: p, original });
        assert(self@ =~= old(self)@.push(UndoStep::File(path@, opt_view(original))));
    }

    /// Records that a hosts entry for `hostname` was added.
    pub fn add_hosts(&mut self, hostname: &str)
        ensures
            final(self)@ == old(self)@.push(UndoStep::Host(hostname@)),
    {
        let h = string_of(&chars_of(hostname));
        self.actions.push(RollbackAction::RemoveHostsEntry { hostname: h });
        assert(self@ =~= old(self)@.push(UndoStep::Host(hostname@)));
    }

    /// Commits the write: the journal is dropped; the number of steps that
    /// no longer need undoing is returned.
    pub fn commit(self) -> (r: usize)
        ensures
            r == self@.len(),
    {
        self.actions.len()
    }

    /// Takes the compensating steps out, newest first, leaving the journal
    /// empty.
    pub fn undo_all(&mut self) -> (r: Vec<RollbackAction>)
        ensures
            r@.map_values(|a: RollbackAction| action_view(a)) == old(self)@.reverse(),
            final(self)@ == Seq::<UndoStep>::empty(),
    {
        let mut taken = Rollback { actions: Vec::new() };
        core::mem::swap(self, &mut taken);
        assert(self@ =~= Seq::<UndoStep>::empty());
        taken.rollback()
    }

    /// The compensating steps to run, newest first.
    pub fn rollback(self) -> (r: Vec<RollbackAction>)
        ensures
            r@.map_values(|a: RollbackAction| action_view(a)) == self@.reverse(),
    {
        let ghost v = self@;
        let mut acts = self.actions;
        let mut out: Vec<RollbackAction> = Vec::new();
        while acts.len() > 0
            invariant
                acts@.len() <= v.len(),
                v == acts@.map_values(|a: RollbackAction| action_view(a)) + out@.map_values(
                    |a: RollbackAction| action_view(a),
                ).reverse(),
            decreases acts.len(),
        {
            let ghost before_acts = acts@;
            let ghost before_out = out@;
            let a = acts.pop().unwrap();
            out.push(a);
            assert(before_acts =~= acts@.push(a));
            assert(out@.map_values(|a: RollbackAction| action_view(a)).reverse() =~= seq![action_view(a)]
                + before_out.map_values(|a: RollbackAction| action_view(a)).reverse());
            assert(v =~= acts@.map_values(|a: RollbackAction| action_view(a)) + out@.map_values(
                |a: RollbackAction| action_view(a),
            ).reverse());
        }
        assert(out@.map_values(|a: RollbackAction| action_view(a)) =~= v.reverse());
        out
    }
}

// ------------------------------------------------------------------
// What undoing does to the files and the hosts entries
// ------------------------------------------------------------------

/// A step of a vhost write: a file written with new content, or a hosts
/// entry added.
pub enum TxStep {
    Write(Seq<char>, Seq<char>),
    AddHost(Seq<char>),
}

/// What a file held, if it existed.
pub open spec fn held(files: Map<Seq<char>, Seq<char>>, p: Seq<char>) -> Option<Seq<char>> {
    if files.dom().contains(p) {
        Some(files[p])
    } else {
        None
    }
}

/// The files after the steps.
pub open spec fn tx_files(files: Map<Seq<char>, Seq<char>>, steps: Seq<TxStep>) -> Map<Seq<char>, Seq<char>>
    decreases steps.len(),
{
    if steps.len() == 0 {
        files
    } else {
        let f = tx_files(files, steps.drop_last());
        match steps.last() {
            TxStep::Write(p, c) => f.insert(p, c),
            TxStep::AddHost(_) => f,
        }
    }
}

/// The hosts entries after the steps.
pub open spec fn tx_hosts(hosts: Set<Seq<char>>, steps: Seq<TxStep>) -> Set<Seq<char>>
    decreases steps.len(),
{
    if steps.len() == 0 {
        hosts
    } else {
        let h = tx_hosts(hosts, steps.drop_last());
        match steps.last() {
            TxStep::Write(_, _) => h,
            TxStep::AddHost(n) => h.insert(n),
        }
    }
}

/// The journal the steps leave, each write recorded with what the file
/// held just before it.
pub open spec fn tx_journal(files: Map<Seq<char>, Seq<char>>, steps: Seq<TxStep>) -> Seq<UndoStep>
    decreases steps.len(),
{
    if steps.len() == 0 {
        Seq::empty()
    } else {
        let j = tx_journal(files, steps.drop_last());
        match steps.last() {
            TxStep::Write(p, _) => j.push(UndoStep::File(p, held(tx_files(files, steps.drop_last()), p))),
            TxStep::AddHost(n) => j.push(UndoStep::Host(n)),
        }
    }
}

/// The files after running compensating steps in the given order.
pub open spec fn undo_files(files: Map<Seq<char>, Seq<char>>, undo: Seq<UndoStep>) -> Map<Seq<char>, Seq<char>>
    decreases undo.len(),
{
    if undo.len() == 0 {
        files
    } else {
        let f = match undo[0] {
            UndoStep::File(p, Some(c)) => files.insert(p, c),
            UndoStep::File(p, None) => files.remove(p),
            UndoStep::Host(_) => files,
        };
        undo_files(f, undo.drop_first())
    }
}

/// The hosts entries after running compensating steps in the given order.
pub open spec fn undo_hosts(hosts: Set<Seq<char>>, undo: Seq<UndoStep>) -> Set<Seq<char>>
    decreases undo.len(),
{
    if undo.len() == 0 {
        hosts
    } else {
        let h = match undo[0] {
            UndoStep::Host(n) => hosts.remove(n),
            UndoStep::File(_, _) => hosts,
        };
        undo_hosts(h, undo.drop_first())
    }
}

/// The hosts entries the steps add.
pub open spec fn added_hosts(steps: Seq<TxStep>) -> Set<Seq<char>>
    decreases steps.len(),
{
    if steps.len() == 0 {
        Set::empty()
    } else {
        match steps.last() {
            TxStep::Write(_, _) => added_hosts(steps.drop_last()),
            TxStep::AddHost(n) => added_hosts(steps.drop_last()).insert(n),
        }
    }
}

/// The hosts entries named in compensating steps.
pub open spec fn undone_hosts(undo: Seq<UndoStep>) -> Set<Seq<char>>
    decreases undo.len(),
{
    if undo.len() == 0 {
        Set::empty()
    } else {
        match undo[0] {
            UndoStep::Host(n) => undone_hosts(undo.drop_first()).insert(n),
            UndoStep::File(_, _) => undone_hosts(undo.drop_first()),
        }
    }
}

proof fn lemma_undo_files_prefix(files: Map<Seq<char>, Seq<char>>, u: UndoStep, rest: Seq<UndoStep>)
    ensures
        undo_files(files, seq![u] + rest) == undo_files(
            match u {
                UndoStep::File(p, Some(c)) => files.insert(p, c),
                UndoStep::File(p, None) => files.remove(p),
                UndoStep::Host(_) => files,
            },
            rest,
        ),
{
    assert((seq![u] + rest).drop_first() =~= rest);
}

proof fn lemma_files_restored(files: Map<Seq<char>, Seq<char>>, steps: Seq<TxStep>)
    ensures
        undo_files(tx_files(files, steps), tx_journal(files, steps).reverse()) == files,
    decreases steps.len(),
{
    if steps.len() > 0 {
        let init = steps.drop_last();
        lemma_files_restored(files, init);
        let f = tx_files(files, init);
        let j = tx_journal(files, init);
        match steps.last() {
            TxStep::Write(p, c) => {
                let u = UndoStep::File(p, held(f, p));
                assert(tx_journal(files, steps).reverse() =~= seq![u] + j.reverse());
                lemma_undo_files_prefix(f.insert(p, c), u, j.reverse());
                if f.dom().contains(p) {
                    assert(f.insert(p, c).insert(p, f[p]) =~= f);
                } else {
                    assert(f.insert(p, c).remove(p) =~= f);
                }
            },
            TxStep::AddHost(n) => {
                let u = UndoStep::Host(n);
                assert(tx_journal(files, steps).reverse() =~= seq![u] + j.reverse());
                lemma_undo_files_prefix(f, u, j.reverse());
            },
        }
    }
}

proof fn lemma_undo_hosts(hosts: Set<Seq<char>>, undo: Seq<UndoStep>)
    ensures
        undo_hosts(hosts, undo) == hosts.difference(undone_hosts(undo)),
    decreases undo.len(),
{
    if undo.len() > 0 {
        let rest = undo.drop_first();
        match undo[0] {
            UndoStep::Host(n) => {
                lemma_undo_hosts(hosts.remove(n), rest);
                assert(hosts.remove(n).difference(undone_hosts(rest)) =~= hosts.difference(
                    undone_hosts(rest).insert(n),
                ));
            },
            UndoStep::File(_, _) => {
                lemma_undo_hosts(hosts, rest);
            },
        }
    } else {
        assert(hosts.difference(Set::empty()) =~= hosts);
    }
}

proof fn lemma_undone_prefix(u: UndoStep, rest: Seq<UndoStep>)
    ensures
        undone_hosts(seq![u] + rest) == match u {
            UndoStep::Host(n) => undone_hosts(rest).insert(n),
            UndoStep::File(_, _) => undone_hosts(rest),
        },
{
    assert((seq![u] + rest).drop_first() =~= rest);
}

proof fn lemma_hosts_run(files: Map<Seq<char>, Seq<char>>, hosts: Set<Seq<char>>, steps: Seq<TxStep>)
    ensures
        tx_hosts(hosts, steps) == hosts.union(added_hosts(steps)),
        undone_hosts(tx_journal(files, steps).reverse()) == added_hosts(steps),
    decreases steps.len(),
{
    if steps.len() == 0 {
        assert(hosts.union(Set::empty()) =~= hosts);
        assert(tx_journal(files, steps).reverse() =~= Seq::<UndoStep>::empty());
    } else {
        let init = steps.drop_last();
        lemma_hosts_run(files, hosts, init);
        let j = tx_journal(files, init);
        match steps.last() {
            TxStep::Write(p, _) => {
                let u = UndoStep::File(p, held(tx_files(files, init), p));
                assert(tx_journal(files, steps).reverse() =~= seq![u] + j.reverse());
                lemma_undone_prefix(u, j.reverse());
            },
            TxStep::AddHost(n) => {
                let u = UndoStep::Host(n);
                assert(tx_journal(files, steps).reverse() =~= seq![u] + j.reverse());
                lemma_undone_prefix(u, j.reverse());
                assert(hosts.union(added_hosts(init)).insert(n) =~= hosts.union(added_hosts(init).insert(n)));
            },
        }
    }
}

/// Running the journal of a failed vhost write newest first puts every
/// file back as it was before the write (its old content, or gone when it
/// was new), and leaves the hosts entries as they were, provided the
/// write only added names that were not there already (an entry that was
/// there before is taken out too).
pub proof fn law_rollback_restores(files: Map<Seq<char>, Seq<char>>, hosts: Set<Seq<char>>, steps: Seq<TxStep>)
    requires
        hosts.disjoint(added_hosts(steps)),
    ensures
        undo_files(tx_files(files, steps), tx_journal(files, steps).reverse()) == files,
        undo_hosts(tx_hosts(hosts, steps), tx_journal(files, steps).reverse()) == hosts,
{
    lemma_files_restored(files, steps);
    lemma_hosts_run(files, hosts, steps);
    let j = tx_journal(files, steps).reverse();
    lemma_undo_hosts(tx_hosts(hosts, steps), j);
    assert(hosts.union(added_hosts(steps)).difference(added_hosts(steps)) =~= hosts);
}

} // verus!
