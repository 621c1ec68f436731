//! The services the manager runs: their kinds, states and origins.

use vstd::prelude::*;
use crate::text::{chars_of, lower, lower_of};

verus! {

/// The kinds of service.
#[derive(Clone, Copy, PartialEq, Eq, Structural, Debug, Hash)]
pub enum ServiceKind {
    Nginx,
    Apache,
    Mysql,
    Redis,
    Php,
}

/// Where a service installation was found.
#[derive(Clone, Copy, PartialEq, Eq, Structural, Debug)]
pub enum ServiceOrigin {
    /// Under PHPStudy's `Extensions` directory.
    PhpStudy,
    /// Installed from the in-app store.
    Store,
    /// A path the user added.
    Manual,
    /// Found on the system, outside any managed directory.
    System,
}

/// The run state of a service.
#[derive(Clone, Copy, PartialEq, Eq, Structural, Debug)]
pub enum ServiceStatus {
    Stopped,
    Starting,
    Running { pid: u32, memory_mb: Option<u64> },
    Stopping,
}

/// One installed service.
#[derive(Clone, Debug)]
pub struct ServiceInstance {
    pub kind: ServiceKind,
    pub version: String,
    pub variant: Option<String>,
    pub install_path: String,
    pub config_path: Option<String>,
    pub port: u16,
    pub status: ServiceStatus,
    pub auto_start: bool,
    pub origin: ServiceOrigin,
}

pub open spec fn spec_display_name(k: ServiceKind) -> Seq<char> {
    match k {
        ServiceKind::Nginx => "Nginx"@,
        ServiceKind::Apache => "Apache"@,
        ServiceKind::Mysql => "MySQL"@,
        ServiceKind::Redis => "Redis"@,
        ServiceKind::Php => "PHP"@,
    }
}

pub open spec fn spec_kind_str(k: ServiceKind) -> Seq<char> {
    match k {
        ServiceKind::Nginx => "nginx"@,
        ServiceKind::Apache => "apache"@,
        ServiceKind::Mysql => "mysql"@,
        ServiceKind::Redis => "redis"@,
        ServiceKind::Php => "php"@,
    }
}

/// The kind a name stands for, in any letter case; `httpd` is Apache.
pub open spec fn spec_parse_kind(s: Seq<char>) -> Option<ServiceKind> {
    let l = lower(s);
    if l == "nginx"@ {
        Some(ServiceKind::Nginx)
    } else if l == "apache"@ || l == "httpd"@ {
        Some(ServiceKind::Apache)
    } else if l == "mysql"@ {
        Some(ServiceKind::Mysql)
    } else if l == "redis"@ {
        Some(ServiceKind::Redis)
    } else if l == "php"@ {
        Some(ServiceKind::Php)
    } else {
        None
    }
}

impl ServiceKind {
    /// The name shown to the user.
    pub fn display_name(&self) -> (r: &'static str)
        ensures
            r@ == spec_display_name(*self),
    {
        match self {
            ServiceKind::Nginx => "Nginx",
            ServiceKind::Apache => "Apache",
            ServiceKind::Mysql => "MySQL",
            ServiceKind::Redis => "Redis",
            ServiceKind::Php => "PHP",
        }
    }

    /// Nginx and Apache serve web pages; both want port 80.
    pub fn is_web_server(&self) -> (r: bool)
        ensures
            r == (*self == ServiceKind::Nginx || *self == ServiceKind::Apache),
    {
        match self {
            ServiceKind::Nginx | ServiceKind::Apache => true,
            _ => false,
        }
    }
}

/// The lower-case name stored in settings.
pub fn kind_to_str(k: ServiceKind) -> (r: &'static str)
    ensures
        r@ == spec_kind_str(k),
{
    match k {
        ServiceKind::Nginx => "nginx",
        ServiceKind::Apache => "apache",
        ServiceKind::Mysql => "mysql",
        ServiceKind::Redis => "redis",
        ServiceKind::Php => "php",
    }
}

/// The kind a settings name stands for; an unknown name is an error
/// that quotes it.
pub fn parse_kind(s: &str) -> (r: Result<ServiceKind, String>)
    ensures
        match spec_parse_kind(s@) {
            Some(k) => r == Ok::<ServiceKind, String>(k),
            None => r matches Err(m) && m@ == "未知服务类型: "@ + s@,
        },
{
    let l = lower_of(&chars_of(s));
    if crate::text::eq_str(&l, "nginx") {
        Ok(ServiceKind::Nginx)
    } else if crate::text::eq_str(&l, "apache") || crate::text::eq_str(&l, "httpd") {
        Ok(ServiceKind::Apache)
    } else if crate::text::eq_str(&l, "mysql") {
        Ok(ServiceKind::Mysql)
    } else if crate::text::eq_str(&l, "redis") {
        Ok(ServiceKind::Redis)
    } else if crate::text::eq_str(&l, "php") {
        Ok(ServiceKind::Php)
    } else {
        let mut m = chars_of("未知服务类型: ");
        crate::text::append_str(&mut m, s);
        Err(crate::text::string_of(&m))
    }
}

pub open spec fn spec_origin_str(o: ServiceOrigin) -> Seq<char> {
    match o {
        ServiceOrigin::PhpStudy => "phpstudy"@,
        ServiceOrigin::Store => "store"@,
        ServiceOrigin::Manual => "manual"@,
        ServiceOrigin::System => "system"@,
    }
}

/// The lower-case name of an origin.
pub fn origin_str(o: &ServiceOrigin) -> (r: &'static str)
    ensures
        r@ == spec_origin_str(*o),
{
    match o {
        ServiceOrigin::PhpStudy => "phpstudy",
        ServiceOrigin::Store => "store",
        ServiceOrigin::Manual => "manual",
        ServiceOrigin::System => "system",
    }
}

impl ServiceStatus {
    /// Only a service with a process is running.
    pub fn is_running(&self) -> (r: bool)
        ensures
            r == (*self is Running),
    {
        match self {
            ServiceStatus::Running { .. } => true,
            _ => false,
        }
    }
}

} // verus!

verus! {

/// A service as the user interface lists it.
pub struct ServiceInfo {
    pub id: String,
    pub kind: ServiceKind,
    pub display_name: String,
    pub version: String,
    pub variant: Option<String>,
    pub port: u16,
    pub status: ServiceStatus,
    pub install_path: String,
    /// `phpstudy`, `store`, `manual` or `system`.
    pub origin: String,
}

/// A PHP installation as the user interface lists it.
pub struct PhpInstanceInfo {
    pub id: String,
    pub label: String,
    pub version: String,
    pub variant: Option<String>,
    pub install_path: String,
}

pub open spec fn opt_str_view(o: Option<String>) -> Option<Seq<char>> {
    match o {
        Some(s) => Some(s@),
        None => None,
    }
}

fn copy_string(s: &String) -> (r: String)
    ensures
        r@ == s@,
{
    crate::text::string_of(&chars_of(s.as_str()))
}

fn copy_opt(o: &Option<String>) -> (r: Option<String>)
    ensures
        opt_str_view(r) == opt_str_view(*o),
{
    match o {
        Some(s) => Some(copy_string(s)),
        None => None,
    }
}

impl ServiceInfo {
    /// The listing of service `s`, known by `id`: its kind's name and
    /// version as the display name, and its origin's name.
    pub fn of(s: &ServiceInstance, id: String) -> (r: ServiceInfo)
        ensures
            r.id == id,
            r.kind == s.kind,
            r.display_name@ == spec_display_name(s.kind) + " "@ + s.version@,
            r.version@ == s.version@,
            opt_str_view(r.variant) == opt_str_view(s.variant),
            r.port == s.port,
            r.status == s.status,
            r.install_path@ == s.install_path@,
            r.origin@ == spec_origin_str(s.origin),
    {
        let mut d = chars_of(s.kind.display_name());
        crate::text::append_str(&mut d, " ");
        crate::text::append_str(&mut d, s.version.as_str());
        ServiceInfo {
            id,
            kind: s.kind,
            display_name: crate::text::string_of(&d),
            version: copy_string(&s.version),
            variant: copy_opt(&s.variant),
            port: s.port,
            status: s.status,
            install_path: copy_string(&s.install_path),
            origin: crate::text::string_of(&chars_of(origin_str(&s.origin))),
        }
    }
}

impl PhpInstanceInfo {
    /// The listing of PHP installation `s`, known by `id`, labelled
    /// `PHP <version> <variant>` (the variant empty when there is none).
    pub fn of(s: &ServiceInstance, id: String) -> (r: PhpInstanceInfo)
        ensures
            r.id == id,
            r.label@ == "PHP "@ + s.version@ + " "@ + match s.variant {
                Some(v) => v@,
                None => Seq::empty(),
            },
            r.version@ == s.version@,
            opt_str_view(r.variant) == opt_str_view(s.variant),
            r.install_path@ == s.install_path@,
    {
        let mut l = chars_of("PHP ");
        crate::text::append_str(&mut l, s.version.as_str());
        crate::text::append_str(&mut l, " ");
        match &s.variant {
            Some(v) => crate::text::append_str(&mut l, v.as_str()),
            None => {},
        }
        PhpInstanceInfo {
            id,
            label: crate::text::string_of(&l),
            version: copy_string(&s.version),
            variant: copy_opt(&s.variant),
            install_path: copy_string(&s.install_path),
        }
    }
}

} // verus!
