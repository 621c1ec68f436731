//! Writing a virtual host as one transaction, as a step function: the
//! caller carries out each action (write a file, look whether one exists,
//! read `Listen.conf`, add a hosts entry, reload the web server) and
//! reports what it saw. Each step that changed something is journalled;
//! when a later step fails, the journal's compensating steps are handed
//! back newest first, so that running them puts everything back.

use vstd::prelude::*;
use crate::text::{chars_of, string_of, append_str};
use crate::error::{NaxOneError, spec_error_message};
use crate::paths::{win_join, win_join_exec};
use crate::vhost::{VirtualHost, spec_config_filename, strs};
use crate::template::{SimpleTemplateEngine, TemplateEngine, apache_conf, nginx_conf, vhost_check};
use crate::vhost_mgr::{
    Rollback, RollbackAction, UndoStep, VhostManager, action_view, opt_view, port_still_used_spec,
    spec_with_listen_port,
};

verus! {

/// Where a vhost write stands.
#[derive(Clone, Copy, PartialEq, Eq, Structural, Debug)]
pub enum VhostPhase {
    Begin,
    /// The Nginx configuration is being written.
    WriteNginx,
    /// The Apache configuration is being written.
    WriteApache,
    /// The rewrite rules are being written for Nginx (`nginx.htaccess`).
    WriteNginxRules,
    /// The rewrite rules are being written for Apache (`.htaccess`).
    WriteApacheRules,
    /// With no rules, whether `nginx.htaccess` exists is being asked.
    CheckNginxRules,
    /// With no rules, an existing `nginx.htaccess` is being emptied.
    ClearNginxRules,
    /// With no rules, whether `.htaccess` exists is being asked.
    CheckApacheRules,
    /// `Listen.conf` is being read.
    ReadListen,
    /// `Listen.conf` is being written with the vhost's port.
    WriteListen,
    /// The hosts entry of the server name is being added.
    AddServerName,
    /// The hosts entry of the alias of this index is being added.
    AddAlias { i: usize },
    /// The running web server is being reloaded.
    Reloading,
    /// The write is over.
    Done,
}

/// What the caller saw after carrying out the last action.
pub enum VhostEvent {
    Start,
    /// Whether the file asked about exists.
    Exists(bool),
    /// The file was written; what it held before (`None`: it was new).
    Wrote(Option<String>),
    /// Reading the old content or writing failed.
    WriteFailed(NaxOneError),
    /// `Listen.conf`'s content (`None`: it does not exist), or the error.
    ListenRead(Result<Option<String>, NaxOneError>),
    /// The hosts entry was added, or the error.
    HostAdded(Result<(), NaxOneError>),
    /// The web server reloaded, or the error.
    Reloaded(Result<(), NaxOneError>),
}

/// What the caller does next.
pub enum VhostAction {
    /// Say whether this file exists.
    CheckExists(String),
    /// Note what the file holds (if it exists), then write the content.
    Write { path: String, content: String },
    /// Read `Listen.conf` at this path.
    ReadListen(String),
    /// Add a hosts entry for this name at 127.0.0.1.
    AddHost(String),
    /// Reload the running web server.
    Reload,
    /// The write succeeded; nothing needs undoing.
    Commit,
    /// The write failed with this message: run these compensating steps,
    /// in this order, first.
    Fail { undo: Vec<RollbackAction>, message: String },
}

/// An action as values.
pub enum ActView {
    CheckExists(Seq<char>),
    Write(Seq<char>, Seq<char>),
    ReadListen(Seq<char>),
    AddHost(Seq<char>),
    Reload,
    Commit,
    Fail(Seq<UndoStep>, Seq<char>),
}

pub open spec fn act_view(a: VhostAction) -> ActView {
    match a {
        VhostAction::CheckExists(p) => ActView::CheckExists(p@),
        VhostAction::Write { path, content } => ActView::Write(path@, content@),
        VhostAction::ReadListen(p) => ActView::ReadListen(p@),
        VhostAction::AddHost(h) => ActView::AddHost(h@),
        VhostAction::Reload => ActView::Reload,
        VhostAction::Commit => ActView::Commit,
        VhostAction::Fail { undo, message } => ActView::Fail(
            undo@.map_values(|a: RollbackAction| action_view(a)),
            message@,
        ),
    }
}

/// A vhost write in progress: the vhost, where its files go, whether a
/// running web server must be reloaded, the phase, and the journal.
pub struct VhostWrite {
    pub vhost: VirtualHost,
    pub nginx_dir: String,
    pub apache_dir: String,
    pub listen_conf: String,
    pub reload: bool,
    pub phase: VhostPhase,
    pub journal: Rollback,
}

/// The Nginx configuration file of the vhost.
pub open spec fn nginx_file(w: VhostWrite) -> Seq<char> {
    win_join(w.nginx_dir@, spec_config_filename(w.vhost.server_name@, w.vhost.listen_port))
}

/// The Apache configuration file of the vhost.
pub open spec fn apache_file(w: VhostWrite) -> Seq<char> {
    win_join(w.apache_dir@, spec_config_filename(w.vhost.server_name@, w.vhost.listen_port))
}

/// The Nginx rewrite rules file in the document root.
pub open spec fn nginx_rules(w: VhostWrite) -> Seq<char> {
    win_join(w.vhost.document_root@, "nginx.htaccess"@)
}

/// The Apache rewrite rules file in the document root.
pub open spec fn apache_rules(w: VhostWrite) -> Seq<char> {
    win_join(w.vhost.document_root@, ".htaccess"@)
}

/// The first non-empty alias at index `from` or later.
pub open spec fn next_alias(aliases: Seq<Seq<char>>, from: int) -> Option<int>
    decreases aliases.len() - from,
{
    if from < 0 || from >= aliases.len() {
        None
    } else if aliases[from].len() > 0 {
        Some(from)
    } else {
        next_alias(aliases, from + 1)
    }
}

/// Reload when a web server runs, else done.
pub open spec fn reload_or_done(w: VhostWrite) -> (VhostPhase, ActView) {
    if w.reload {
        (VhostPhase::Reloading, ActView::Reload)
    } else {
        (VhostPhase::Done, ActView::Commit)
    }
}

/// The hosts entry of the next non-empty alias from `from`, else reload.
pub open spec fn after_alias(w: VhostWrite, from: int) -> (VhostPhase, ActView) {
    match next_alias(strs(w.vhost.aliases@), from) {
        Some(j) => (VhostPhase::AddAlias { i: j as usize }, ActView::AddHost(w.vhost.aliases@[j]@)),
        None => reload_or_done(w),
    }
}

/// The hosts entries when the vhost keeps the hosts file in sync, else
/// reload.
pub open spec fn hosts_or_reload(w: VhostWrite) -> (VhostPhase, ActView) {
    if w.vhost.sync_hosts {
        (VhostPhase::AddServerName, ActView::AddHost(w.vhost.server_name@))
    } else {
        reload_or_done(w)
    }
}

/// After the rewrite rules: `Listen.conf` for a port other than 80, else
/// the hosts entries.
pub open spec fn after_rules(w: VhostWrite) -> (VhostPhase, ActView) {
    if w.vhost.listen_port != 80 {
        (VhostPhase::ReadListen, ActView::ReadListen(w.listen_conf@))
    } else {
        hosts_or_reload(w)
    }
}

/// The file a write phase writes.
pub open spec fn written_file(w: VhostWrite) -> Seq<char> {
    match w.phase {
        VhostPhase::WriteNginx => nginx_file(w),
        VhostPhase::WriteApache => apache_file(w),
        VhostPhase::WriteNginxRules | VhostPhase::ClearNginxRules => nginx_rules(w),
        VhostPhase::WriteApacheRules => apache_rules(w),
        _ => w.listen_conf@,
    }
}

/// What comes after a file was written in a write phase.
pub open spec fn after_write(w: VhostWrite) -> (VhostPhase, ActView) {
    match w.phase {
        VhostPhase::WriteNginx => (VhostPhase::WriteApache, ActView::Write(apache_file(w), apache_conf(w.vhost))),
        VhostPhase::WriteApache => if w.vhost.rewrite_rule@.len() > 0 {
            (VhostPhase::WriteNginxRules, ActView::Write(nginx_rules(w), w.vhost.rewrite_rule@))
        } else {
            (VhostPhase::CheckNginxRules, ActView::CheckExists(nginx_rules(w)))
        },
        VhostPhase::WriteNginxRules => (VhostPhase::WriteApacheRules, ActView::Write(apache_rules(w), w.vhost.rewrite_rule@)),
        VhostPhase::ClearNginxRules => (VhostPhase::CheckApacheRules, ActView::CheckExists(apache_rules(w))),
        VhostPhase::WriteApacheRules => after_rules(w),
        _ => hosts_or_reload(w),
    }
}

/// Whether the phase waits for a file write.
pub open spec fn is_write_phase(p: VhostPhase) -> bool {
    ||| p == VhostPhase::WriteNginx
    ||| p == VhostPhase::WriteApache
    ||| p == VhostPhase::WriteNginxRules
    ||| p == VhostPhase::WriteApacheRules
    ||| p == VhostPhase::ClearNginxRules
    ||| p == VhostPhase::WriteListen
}

/// The failure ending the write: the journal undone newest first.
pub open spec fn fail_with(w: VhostWrite, m: Seq<char>) -> (VhostPhase, ActView, Seq<UndoStep>) {
    (VhostPhase::Done, ActView::Fail(w.journal@.reverse(), m), Seq::empty())
}

/// The message when the hosts entry of the server name cannot be added.
pub open spec fn hosts_failure(e: NaxOneError) -> Seq<char> {
    let inner = if e is PermissionDenied {
        "hosts 文件写入失败（请以管理员身份运行 RustStudy）: "@ + spec_error_message(e)
    } else {
        "hosts 文件写入失败: "@ + spec_error_message(e)
    };
    "Config error: "@ + inner
}

/// Whether `ev` answers the action of the write's phase.
pub open spec fn vhost_event_fits(w: VhostWrite, ev: VhostEvent) -> bool {
    match w.phase {
        VhostPhase::Begin => ev is Start,
        VhostPhase::CheckNginxRules | VhostPhase::CheckApacheRules => ev is Exists,
        VhostPhase::ReadListen => ev is ListenRead,
        VhostPhase::AddServerName => ev is HostAdded,
        VhostPhase::AddAlias { i } => ev is HostAdded && i < w.vhost.aliases@.len(),
        VhostPhase::Reloading => ev is Reloaded,
        VhostPhase::Done => false,
        _ => ev is Wrote || ev is WriteFailed,
    }
}

/// The next phase, action and journal of a write.
pub open spec fn vhost_next(w: VhostWrite, ev: VhostEvent) -> (VhostPhase, ActView, Seq<UndoStep>) {
    let j = w.journal@;
    match (w.phase, ev) {
        (VhostPhase::Begin, _) => match vhost_check(w.vhost) {
            Err(m) => fail_with(w, "Template error: "@ + m),
            Ok(()) => (VhostPhase::WriteNginx, ActView::Write(nginx_file(w), nginx_conf(w.vhost)), j),
        },
        (VhostPhase::CheckNginxRules, VhostEvent::Exists(b)) => if b {
            (VhostPhase::ClearNginxRules, ActView::Write(nginx_rules(w), Seq::empty()), j)
        } else {
            (VhostPhase::CheckApacheRules, ActView::CheckExists(apache_rules(w)), j)
        },
        (VhostPhase::CheckApacheRules, VhostEvent::Exists(b)) => if b {
            (VhostPhase::WriteApacheRules, ActView::Write(apache_rules(w), Seq::empty()), j)
        } else {
            let n = after_rules(w);
            (n.0, n.1, j)
        },
        (VhostPhase::ReadListen, VhostEvent::ListenRead(res)) => match res {
            Err(e) => fail_with(w, spec_error_message(e)),
            Ok(c) => match spec_with_listen_port(opt_view(c), w.vhost.listen_port) {
                Some(t) => (VhostPhase::WriteListen, ActView::Write(w.listen_conf@, t), j),
                None => {
                    let n = hosts_or_reload(w);
                    (n.0, n.1, j)
                },
            },
        },
        (VhostPhase::AddServerName, VhostEvent::HostAdded(res)) => match res {
            Err(e) => fail_with(w, hosts_failure(e)),
            Ok(()) => {
                let n = after_alias(w, 0);
                (n.0, n.1, j.push(UndoStep::Host(w.vhost.server_name@)))
            },
        },
        (VhostPhase::AddAlias { i }, VhostEvent::HostAdded(res)) => {
            let n = after_alias(w, i + 1);
            match res {
                Ok(()) => (n.0, n.1, j.push(UndoStep::Host(w.vhost.aliases@[i as int]@))),
                Err(_) => (n.0, n.1, j),
            }
        },
        (VhostPhase::Reloading, VhostEvent::Reloaded(res)) => match res {
            Ok(()) => (VhostPhase::Done, ActView::Commit, j),
            Err(e) => fail_with(w, spec_error_message(e)),
        },
        (_, VhostEvent::WriteFailed(e)) => fail_with(w, spec_error_message(e)),
        (_, VhostEvent::Wrote(o)) => {
            let n = after_write(w);
            (n.0, n.1, j.push(UndoStep::File(written_file(w), opt_view(o))))
        },
        _ => (w.phase, ActView::Commit, j),
    }
}

fn act_reload_or_done(reload: bool) -> (r: (VhostPhase, VhostAction))
    ensures
        (r.0, act_view(r.1)) == (if reload { (VhostPhase::Reloading, ActView::Reload) } else { (VhostPhase::Done, ActView::Commit) }),
{
    if reload {
        (VhostPhase::Reloading, VhostAction::Reload)
    } else {
        (VhostPhase::Done, VhostAction::Commit)
    }
}

impl VhostWrite {
    /// A write of `vhost` that has not started; `reload` says whether a
    /// running web server is to be reloaded at the end.
    pub fn new(vhost: VirtualHost, nginx_dir: String, apache_dir: String, listen_conf: String, reload: bool) -> (r: VhostWrite)
        ensures
            r.vhost == vhost,
            r.nginx_dir == nginx_dir,
            r.apache_dir == apache_dir,
            r.listen_conf == listen_conf,
            r.reload == reload,
            r.phase == VhostPhase::Begin,
            r.journal@ == Seq::<UndoStep>::empty(),
    {
        VhostWrite { vhost, nginx_dir, apache_dir, listen_conf, reload, phase: VhostPhase::Begin, journal: Rollback::new() }
    }

    fn file_of_phase(&self) -> (r: String)
        ensures
            r@ == written_file(*self),
    {
        let fname = self.vhost.config_filename();
        match self.phase {
            VhostPhase::WriteNginx => string_of(&win_join_exec(&chars_of(self.nginx_dir.as_str()), &chars_of(fname.as_str()))),
            VhostPhase::WriteApache => string_of(&win_join_exec(&chars_of(self.apache_dir.as_str()), &chars_of(fname.as_str()))),
            VhostPhase::WriteNginxRules | VhostPhase::ClearNginxRules => string_of(
                &win_join_exec(&chars_of(self.vhost.document_root.as_str()), &chars_of("nginx.htaccess")),
            ),
            VhostPhase::WriteApacheRules => string_of(
                &win_join_exec(&chars_of(self.vhost.document_root.as_str()), &chars_of(".htaccess")),
            ),
            _ => string_of(&chars_of(self.listen_conf.as_str())),
        }
    }

    fn alias_from(&self, from: usize) -> (r: (VhostPhase, VhostAction))
        requires
            from <= self.vhost.aliases@.len(),
        ensures
            (r.0, act_view(r.1)) == after_alias(*self, from as int),
    {
        let mut k = from;
        while k < self.vhost.aliases.len()
            invariant
                from <= k <= self.vhost.aliases@.len(),
                next_alias(strs(self.vhost.aliases@), from as int) == next_alias(strs(self.vhost.aliases@), k as int),
            decreases self.vhost.aliases.len() - k,
        {
            assert(strs(self.vhost.aliases@)[k as int] == self.vhost.aliases@[k as int]@);
            if chars_of(self.vhost.aliases[k].as_str()).len() > 0 {
                let h = string_of(&chars_of(self.vhost.aliases[k].as_str()));
                return (VhostPhase::AddAlias { i: k }, VhostAction::AddHost(h));
            }
            k += 1;
        }
        act_reload_or_done(self.reload)
    }

    fn hosts_or_reload(&self) -> (r: (VhostPhase, VhostAction))
        ensures
            (r.0, act_view(r.1)) == hosts_or_reload(*self),
    {
        if self.vhost.sync_hosts {
            (VhostPhase::AddServerName, VhostAction::AddHost(string_of(&chars_of(self.vhost.server_name.as_str()))))
        } else {
            act_reload_or_done(self.reload)
        }
    }

    fn after_rules(&self) -> (r: (VhostPhase, VhostAction))
        ensures
            (r.0, act_view(r.1)) == after_rules(*self),
    {
        if self.vhost.listen_port != 80 {
            (VhostPhase::ReadListen, VhostAction::ReadListen(string_of(&chars_of(self.listen_conf.as_str()))))
        } else {
            self.hosts_or_reload()
        }
    }

    fn after_write(&self) -> (r: (VhostPhase, VhostAction))
        ensures
            (r.0, act_view(r.1)) == after_write(*self),
    {
        let rules_n = string_of(&win_join_exec(&chars_of(self.vhost.document_root.as_str()), &chars_of("nginx.htaccess")));
        let rules_a = string_of(&win_join_exec(&chars_of(self.vhost.document_root.as_str()), &chars_of(".htaccess")));
        match self.phase {
            VhostPhase::WriteNginx => {
                let fname = self.vhost.config_filename();
                let path = string_of(&win_join_exec(&chars_of(self.apache_dir.as_str()), &chars_of(fname.as_str())));
                let content = SimpleTemplateEngine::apache_text(&self.vhost);
                (VhostPhase::WriteApache, VhostAction::Write { path, content })
            },
            VhostPhase::WriteApache => if chars_of(self.vhost.rewrite_rule.as_str()).len() > 0 {
                let rule = string_of(&chars_of(self.vhost.rewrite_rule.as_str()));
                (VhostPhase::WriteNginxRules, VhostAction::Write { path: rules_n, content: rule })
            } else {
                (VhostPhase::CheckNginxRules, VhostAction::CheckExists(rules_n))
            },
            VhostPhase::WriteNginxRules => {
                let rule = string_of(&chars_of(self.vhost.rewrite_rule.as_str()));
                (VhostPhase::WriteApacheRules, VhostAction::Write { path: rules_a, content: rule })
            },
            VhostPhase::ClearNginxRules => (VhostPhase::CheckApacheRules, VhostAction::CheckExists(rules_a)),
            VhostPhase::WriteApacheRules => self.after_rules(),
            _ => self.hosts_or_reload(),
        }
    }

    fn fail(&mut self, message: String) -> (r: VhostAction)
        ensures
            (VhostPhase::Done, act_view(r), final(self).journal@) == fail_with(*old(self), message@),
            final(self).phase == VhostPhase::Done,
            final(self).vhost == old(self).vhost,
            final(self).nginx_dir == old(self).nginx_dir,
            final(self).apache_dir == old(self).apache_dir,
            final(self).listen_conf == old(self).listen_conf,
            final(self).reload == old(self).reload,
    {
        let undo = self.journal.undo_all();
        self.phase = VhostPhase::Done;
        VhostAction::Fail { undo, message }
    }

    fn step_begin(&mut self, ev: VhostEvent) -> (r: VhostAction)
        requires
            vhost_event_fits(*old(self), ev),
            old(self).phase == VhostPhase::Begin,
        ensures
            (final(self).phase, act_view(r), final(self).journal@) == vhost_next(*old(self), ev),
            final(self).vhost == old(self).vhost,
            final(self).nginx_dir == old(self).nginx_dir,
            final(self).apache_dir == old(self).apache_dir,
            final(self).listen_conf == old(self).listen_conf,
            final(self).reload == old(self).reload,
    {
        match self.vhost.validate() {
            Err(m) => {
                let mut t = chars_of("Template error: ");
                append_str(&mut t, m.as_str());
                self.fail(string_of(&t))
            },
            Ok(()) => {
                let fname = self.vhost.config_filename();
                let path = string_of(&win_join_exec(&chars_of(self.nginx_dir.as_str()), &chars_of(fname.as_str())));
                let content = SimpleTemplateEngine::nginx_text(&self.vhost);
                self.phase = VhostPhase::WriteNginx;
                VhostAction::Write { path, content }
            },
        }
    }

    fn step_check_nginx(&mut self, ev: VhostEvent) -> (r: VhostAction)
        requires
            vhost_event_fits(*old(self), ev),
            old(self).phase == VhostPhase::CheckNginxRules,
        ensures
            (final(self).phase, act_view(r), final(self).journal@) == vhost_next(*old(self), ev),
            final(self).vhost == old(self).vhost,
            final(self).nginx_dir == old(self).nginx_dir,
            final(self).apache_dir == old(self).apache_dir,
            final(self).listen_conf == old(self).listen_conf,
            final(self).reload == old(self).reload,
    {
        match ev {
            VhostEvent::Exists(true) => {
                let path = string_of(&win_join_exec(&chars_of(self.vhost.document_root.as_str()), &chars_of("nginx.htaccess")));
                self.phase = VhostPhase::ClearNginxRules;
                VhostAction::Write { path, content: String::new() }
            },
            _ => {
                let path = string_of(&win_join_exec(&chars_of(self.vhost.document_root.as_str()), &chars_of(".htaccess")));
                self.phase = VhostPhase::CheckApacheRules;
                VhostAction::CheckExists(path)
            },
        }
    }

    fn step_check_apache(&mut self, ev: VhostEvent) -> (r: VhostAction)
        requires
            vhost_event_fits(*old(self), ev),
            old(self).phase == VhostPhase::CheckApacheRules,
        ensures
            (final(self).phase, act_view(r), final(self).journal@) == vhost_next(*old(self), ev),
            final(self).vhost == old(self).vhost,
            final(self).nginx_dir == old(self).nginx_dir,
            final(self).apache_dir == old(self).apache_dir,
            final(self).listen_conf == old(self).listen_conf,
            final(self).reload == old(self).reload,
    {
        match ev {
            VhostEvent::Exists(true) => {
                let path = string_of(&win_join_exec(&chars_of(self.vhost.document_root.as_str()), &chars_of(".htaccess")));
                self.phase = VhostPhase::WriteApacheRules;
                VhostAction::Write { path, content: String::new() }
            },
            _ => {
                let (ph, act) = self.after_rules();
                self.phase = ph;
                act
            },
        }
    }

    fn step_listen(&mut self, ev: VhostEvent) -> (r: VhostAction)
        requires
            vhost_event_fits(*old(self), ev),
            old(self).phase == VhostPhase::ReadListen,
        ensures
            (final(self).phase, act_view(r), final(self).journal@) == vhost_next(*old(self), ev),
            final(self).vhost == old(self).vhost,
            final(self).nginx_dir == old(self).nginx_dir,
            final(self).apache_dir == old(self).apache_dir,
            final(self).listen_conf == old(self).listen_conf,
            final(self).reload == old(self).reload,
    {
        match ev {
            VhostEvent::ListenRead(Err(e)) => {
                let m = e.to_message();
                self.fail(m)
            },
            VhostEvent::ListenRead(Ok(c)) => {
                let cur: Option<&str> = match &c {
                    Some(t) => Some(t.as_str()),
                    None => None,
                };
                assert(match cur { Some(t) => Some(t@), None => None::<Seq<char>> } == opt_view(c));
                match VhostManager::with_listen_port(cur, self.vhost.listen_port) {
                    Some(t) => {
                        self.phase = VhostPhase::WriteListen;
                        VhostAction::Write { path: string_of(&chars_of(self.listen_conf.as_str())), content: t }
                    },
                    None => {
                        let (ph, act) = self.hosts_or_reload();
                        self.phase = ph;
                        act
                    },
                }
            },
            _ => VhostAction::Commit,
        }
    }

    fn step_server_name(&mut self, ev: VhostEvent) -> (r: VhostAction)
        requires
            vhost_event_fits(*old(self), ev),
            old(self).phase == VhostPhase::AddServerName,
        ensures
            (final(self).phase, act_view(r), final(self).journal@) == vhost_next(*old(self), ev),
            final(self).vhost == old(self).vhost,
            final(self).nginx_dir == old(self).nginx_dir,
            final(self).apache_dir == old(self).apache_dir,
            final(self).listen_conf == old(self).listen_conf,
            final(self).reload == old(self).reload,
    {
        match ev {
            VhostEvent::HostAdded(Err(e)) => {
                let mut t = chars_of("Config error: ");
                match e {
                    NaxOneError::PermissionDenied(_) => append_str(&mut t, "hosts 文件写入失败（请以管理员身份运行 RustStudy）: "),
                    _ => append_str(&mut t, "hosts 文件写入失败: "),
                }
                let em = e.to_message();
                append_str(&mut t, em.as_str());
                proof {
                    reveal_strlit("Config error: ");
                    reveal_strlit("hosts 文件写入失败（请以管理员身份运行 RustStudy）: ");
                    reveal_strlit("hosts 文件写入失败: ");
                }
                assert(t@ =~= hosts_failure(e));
                self.fail(string_of(&t))
            },
            _ => {
                let (ph, act) = self.alias_from(0);
                self.journal.add_hosts(self.vhost.server_name.as_str());
                self.phase = ph;
                act
            },
        }
    }

    fn step_alias(&mut self, ev: VhostEvent) -> (r: VhostAction)
        requires
            vhost_event_fits(*old(self), ev),
            old(self).phase is AddAlias,
        ensures
            (final(self).phase, act_view(r), final(self).journal@) == vhost_next(*old(self), ev),
            final(self).vhost == old(self).vhost,
            final(self).nginx_dir == old(self).nginx_dir,
            final(self).apache_dir == old(self).apache_dir,
            final(self).listen_conf == old(self).listen_conf,
            final(self).reload == old(self).reload,
    {
        let i = match self.phase {
            VhostPhase::AddAlias { i } => i,
            _ => 0,
        };
        assert(i < self.vhost.aliases.len());
        let (ph, act) = self.alias_from(i + 1);
        match ev {
            VhostEvent::HostAdded(Ok(())) => {
                self.journal.add_hosts(self.vhost.aliases[i].as_str());
            },
            _ => {},
        }
        self.phase = ph;
        act
    }

    fn step_reload(&mut self, ev: VhostEvent) -> (r: VhostAction)
        requires
            vhost_event_fits(*old(self), ev),
            old(self).phase == VhostPhase::Reloading,
        ensures
            (final(self).phase, act_view(r), final(self).journal@) == vhost_next(*old(self), ev),
            final(self).vhost == old(self).vhost,
            final(self).nginx_dir == old(self).nginx_dir,
            final(self).apache_dir == old(self).apache_dir,
            final(self).listen_conf == old(self).listen_conf,
            final(self).reload == old(self).reload,
    {
        match ev {
            VhostEvent::Reloaded(Err(e)) => {
                let m = e.to_message();
                self.fail(m)
            },
            _ => {
                self.phase = VhostPhase::Done;
                VhostAction::Commit
            },
        }
    }

    fn step_write(&mut self, ev: VhostEvent) -> (r: VhostAction)
        requires
            vhost_event_fits(*old(self), ev),
            is_write_phase(old(self).phase),
        ensures
            (final(self).phase, act_view(r), final(self).journal@) == vhost_next(*old(self), ev),
            final(self).vhost == old(self).vhost,
            final(self).nginx_dir == old(self).nginx_dir,
            final(self).apache_dir == old(self).apache_dir,
            final(self).listen_conf == old(self).listen_conf,
            final(self).reload == old(self).reload,
    {
        match ev {
            VhostEvent::WriteFailed(e) => {
                let m = e.to_message();
                self.fail(m)
            },
            VhostEvent::Wrote(o) => {
                let path = self.file_of_phase();
                let (ph, act) = self.after_write();
                self.journal.write_text(path.as_str(), o);
                self.phase = ph;
                act
            },
            _ => VhostAction::Commit,
        }
    }

    /// One step of the write: writes the Nginx and the Apache
    /// configuration, then the rewrite rules into the document root (or
    /// empties rule files that exist when the vhost has none), adds the
    /// port to `Listen.conf` when it is not 80, adds the hosts entries when
    /// the vhost keeps them in sync (an alias that fails is skipped),
    /// reloads the running web server, and commits. Any failure ends the
    /// write with the journal's compensating steps, newest first.
    pub fn step(&mut self, ev: VhostEvent) -> (r: VhostAction)
        requires
            vhost_event_fits(*old(self), ev),
        ensures
            (final(self).phase, act_view(r), final(self).journal@) == vhost_next(*old(self), ev),
            final(self).vhost == old(self).vhost,
            final(self).nginx_dir == old(self).nginx_dir,
            final(self).apache_dir == old(self).apache_dir,
            final(self).listen_conf == old(self).listen_conf,
            final(self).reload == old(self).reload,
    {
        match self.phase {
            VhostPhase::Begin => self.step_begin(ev),
            VhostPhase::CheckNginxRules => self.step_check_nginx(ev),
            VhostPhase::CheckApacheRules => self.step_check_apache(ev),
            VhostPhase::ReadListen => self.step_listen(ev),
            VhostPhase::AddServerName => self.step_server_name(ev),
            VhostPhase::AddAlias { .. } => self.step_alias(ev),
            VhostPhase::Reloading => self.step_reload(ev),
            VhostPhase::Done => VhostAction::Commit,
            _ => self.step_write(ev),
        }
    }
}

} // verus!

verus! {

// ======================== Clean-up after an update, and a delete ========================

/// A clean-up step, carried out best effort.
pub enum Cleanup {
    /// Delete this file.
    DeleteFile(String),
    /// Take the hosts entry of this name out.
    RemoveHost(String),
    /// Take `Listen <port>` out of `Listen.conf`.
    RemoveListen(u16),
}

/// A clean-up step as values.
pub enum CleanView {
    DeleteFile(Seq<char>),
    RemoveHost(Seq<char>),
    RemoveListen(u16),
}

pub open spec fn clean_view(c: Cleanup) -> CleanView {
    match c {
        Cleanup::DeleteFile(p) => CleanView::DeleteFile(p@),
        Cleanup::RemoveHost(h) => CleanView::RemoveHost(h@),
        Cleanup::RemoveListen(p) => CleanView::RemoveListen(p),
    }
}

pub open spec fn cleans_view(v: Seq<Cleanup>) -> Seq<CleanView> {
    v.map_values(|c: Cleanup| clean_view(c))
}

/// The hosts entries of the non-empty aliases, in order.
pub open spec fn alias_removals(aliases: Seq<Seq<char>>) -> Seq<CleanView>
    decreases aliases.len(),
{
    if aliases.len() == 0 {
        Seq::empty()
    } else if aliases.last().len() == 0 {
        alias_removals(aliases.drop_last())
    } else {
        alias_removals(aliases.drop_last()).push(CleanView::RemoveHost(aliases.last()))
    }
}

/// The configuration files of a vhost, Nginx then Apache.
pub open spec fn config_files(v: VirtualHost, nginx_dir: Seq<char>, apache_dir: Seq<char>) -> Seq<CleanView> {
    let f = spec_config_filename(v.server_name@, v.listen_port);
    seq![CleanView::DeleteFile(win_join(nginx_dir, f)), CleanView::DeleteFile(win_join(apache_dir, f))]
}

/// The port's `Listen` line is taken out when it is not 80 and no other
/// vhost than `v` listens there (`keep` another port not to touch).
pub open spec fn listen_removal(v: VirtualHost, all: Seq<VirtualHost>, also_keep: Option<u16>) -> Seq<CleanView> {
    if v.listen_port != 80 && also_keep != Some(v.listen_port) && !port_still_used_spec(all, v.id@, v.listen_port) {
        seq![CleanView::RemoveListen(v.listen_port)]
    } else {
        Seq::empty()
    }
}

/// After `new` was written over `old`: when the file name changed, the old
/// files and hosts entries go, and the old port's `Listen` line when the
/// new vhost does not use it and no other vhost listens there.
pub open spec fn spec_update_cleanup(
    old: VirtualHost,
    new: VirtualHost,
    all: Seq<VirtualHost>,
    nginx_dir: Seq<char>,
    apache_dir: Seq<char>,
) -> Seq<CleanView> {
    if spec_config_filename(old.server_name@, old.listen_port) == spec_config_filename(new.server_name@, new.listen_port) {
        Seq::empty()
    } else {
        config_files(old, nginx_dir, apache_dir) + seq![CleanView::RemoveHost(old.server_name@)]
            + alias_removals(strs(old.aliases@)) + listen_removal(old, all, Some(new.listen_port))
    }
}

/// A delete: the configuration files, the port's `Listen` line when no
/// other vhost listens there (its failure fails the delete), then the
/// hosts entries.
pub open spec fn spec_delete_plan(v: VirtualHost, all: Seq<VirtualHost>, nginx_dir: Seq<char>, apache_dir: Seq<char>) -> Seq<CleanView> {
    config_files(v, nginx_dir, apache_dir) + listen_removal(v, all, None) + seq![CleanView::RemoveHost(v.server_name@)]
        + alias_removals(strs(v.aliases@))
}

fn push_alias_removals(out: &mut Vec<Cleanup>, aliases: &Vec<String>)
    ensures
        cleans_view(final(out)@) == cleans_view(old(out)@) + alias_removals(strs(aliases@)),
{
    let ghost start = cleans_view(out@);
    let mut i: usize = 0;
    while i < aliases.len()
        invariant
            i <= aliases.len(),
            cleans_view(out@) == start + alias_removals(strs(aliases@).take(i as int)),
        decreases aliases.len() - i,
    {
        let ghost pre = strs(aliases@).take(i as int);
        assert(strs(aliases@).take(i + 1).drop_last() == pre);
        assert(strs(aliases@).take(i + 1).last() == aliases@[i as int]@);
        let ghost before = out@;
        if chars_of(aliases[i].as_str()).len() > 0 {
            let c = Cleanup::RemoveHost(string_of(&chars_of(aliases[i].as_str())));
            out.push(c);
            assert(cleans_view(out@) =~= cleans_view(before).push(clean_view(c)));
        }
        assert(cleans_view(out@) =~= start + alias_removals(strs(aliases@).take(i + 1)));
        i += 1;
    }
    assert(strs(aliases@).take(aliases.len() as int) == strs(aliases@));
}

fn push_config_files(out: &mut Vec<Cleanup>, v: &VirtualHost, nginx_dir: &str, apache_dir: &str)
    ensures
        cleans_view(final(out)@) == cleans_view(old(out)@) + config_files(*v, nginx_dir@, apache_dir@),
{
    let f = v.config_filename();
    out.push(Cleanup::DeleteFile(string_of(&win_join_exec(&chars_of(nginx_dir), &chars_of(f.as_str())))));
    out.push(Cleanup::DeleteFile(string_of(&win_join_exec(&chars_of(apache_dir), &chars_of(f.as_str())))));
    assert(cleans_view(out@) =~= cleans_view(old(out)@) + config_files(*v, nginx_dir@, apache_dir@));
}

/// What to clean up after `new` was written over `old` (see
/// `spec_update_cleanup`); `all_vhosts` are all the vhosts known.
pub fn update_cleanup(
    old: &VirtualHost,
    new: &VirtualHost,
    all_vhosts: &[VirtualHost],
    nginx_dir: &str,
    apache_dir: &str,
) -> (r: Vec<Cleanup>)
    ensures
        cleans_view(r@) == spec_update_cleanup(*old, *new, all_vhosts@, nginx_dir@, apache_dir@),
{
    let mut out: Vec<Cleanup> = Vec::new();
    let of = old.config_filename();
    let nf = new.config_filename();
    if crate::text::eq(&chars_of(of.as_str()), &chars_of(nf.as_str())) {
        assert(cleans_view(out@) =~= Seq::<CleanView>::empty());
        return out;
    }
    push_config_files(&mut out, old, nginx_dir, apache_dir);
    let ghost s1 = cleans_view(out@);
    let h = Cleanup::RemoveHost(string_of(&chars_of(old.server_name.as_str())));
    out.push(h);
    assert(cleans_view(out@) =~= s1.push(clean_view(h)));
    let ghost s2 = cleans_view(out@);
    push_alias_removals(&mut out, &old.aliases);
    let ghost s3 = cleans_view(out@);
    let used = VhostManager::port_still_used(all_vhosts, old.id.as_str(), old.listen_port);
    if old.listen_port != 80 && old.listen_port != new.listen_port && !used {
        let l = Cleanup::RemoveListen(old.listen_port);
        out.push(l);
        assert(cleans_view(out@) =~= s3.push(clean_view(l)));
    }
    assert(cleans_view(out@) =~= s3 + listen_removal(*old, all_vhosts@, Some(new.listen_port)));
    assert(s2 =~= config_files(*old, nginx_dir@, apache_dir@) + seq![CleanView::RemoveHost(old.server_name@)]);
    assert(cleans_view(out@) =~= spec_update_cleanup(*old, *new, all_vhosts@, nginx_dir@, apache_dir@));
    out
}

/// What a delete of `v` does, in order (see `spec_delete_plan`); the web
/// server is reloaded afterwards when it runs.
pub fn delete_plan(v: &VirtualHost, all_vhosts: &[VirtualHost], nginx_dir: &str, apache_dir: &str) -> (r: Vec<Cleanup>)
    ensures
        cleans_view(r@) == spec_delete_plan(*v, all_vhosts@, nginx_dir@, apache_dir@),
{
    let mut out: Vec<Cleanup> = Vec::new();
    push_config_files(&mut out, v, nginx_dir, apache_dir);
    let ghost s1 = cleans_view(out@);
    let used = VhostManager::port_still_used(all_vhosts, v.id.as_str(), v.listen_port);
    if v.listen_port != 80 && !used {
        let l = Cleanup::RemoveListen(v.listen_port);
        out.push(l);
        assert(cleans_view(out@) =~= s1.push(clean_view(l)));
    }
    assert(cleans_view(out@) =~= s1 + listen_removal(*v, all_vhosts@, None));
    let ghost s2 = cleans_view(out@);
    let h = Cleanup::RemoveHost(string_of(&chars_of(v.server_name.as_str())));
    out.push(h);
    assert(cleans_view(out@) =~= s2.push(clean_view(h)));
    push_alias_removals(&mut out, &v.aliases);
    assert(cleans_view(out@) =~= spec_delete_plan(*v, all_vhosts@, nginx_dir@, apache_dir@));
    out
}

} // verus!
