//! Where the configuration file of an installed service is.

use vstd::prelude::*;
use crate::text::{append_str, chars_of, string_of};
use crate::paths::{win_join, win_join_exec};
use crate::service::{ServiceInstance, ServiceKind, spec_display_name};

verus! {

/// The configuration file of an installation in `install` that names none
/// of its own: `conf\nginx.conf`, `my.ini` or `redis.windows.conf`; other
/// kinds have no default.
pub open spec fn default_config_path(install: Seq<char>, kind: ServiceKind) -> Option<Seq<char>> {
    match kind {
        ServiceKind::Nginx => Some(win_join(win_join(install, "conf"@), "nginx.conf"@)),
        ServiceKind::Mysql => Some(win_join(install, "my.ini"@)),
        ServiceKind::Redis => Some(win_join(install, "redis.windows.conf"@)),
        _ => None,
    }
}

/// The index of the first service of the kind.
pub open spec fn first_of_kind(services: Seq<ServiceInstance>, kind: ServiceKind) -> Option<int>
    decreases services.len(),
{
    if services.len() == 0 {
        None
    } else if services[0].kind == kind {
        Some(0)
    } else {
        match first_of_kind(services.drop_first(), kind) {
            Some(i) => Some(i + 1),
            None => None,
        }
    }
}

/// The configuration file of the first service of the kind: the one it
/// names, else the default for its kind.
pub open spec fn spec_service_config_path(services: Seq<ServiceInstance>, kind: ServiceKind) -> Option<Seq<char>> {
    match first_of_kind(services, kind) {
        Some(i) => match services[i].config_path {
            Some(p) => Some(p@),
            None => default_config_path(services[i].install_path@, kind),
        },
        None => None,
    }
}

proof fn lemma_first_of_kind(services: Seq<ServiceInstance>, kind: ServiceKind)
    ensures
        match first_of_kind(services, kind) {
            Some(i) => 0 <= i < services.len() && services[i].kind == kind && forall|j: int|
                0 <= j < i ==> services[j].kind != kind,
            None => forall|j: int| 0 <= j < services.len() ==> services[j].kind != kind,
        },
    decreases services.len(),
{
    if services.len() > 0 {
        lemma_first_of_kind(services.drop_first(), kind);
        match first_of_kind(services.drop_first(), kind) {
            Some(i) => {
                assert forall|j: int| 0 < j < i + 1 implies services[j].kind != kind by {
                    assert(services[j] == services.drop_first()[j - 1]);
                }
            },
            None => {
                assert forall|j: int| 0 < j < services.len() implies services[j].kind != kind by {
                    assert(services[j] == services.drop_first()[j - 1]);
                }
            },
        }
    }
}

fn default_config_exec(install: &str, kind: ServiceKind) -> (r: Option<String>)
    ensures
        match r {
            Some(p) => default_config_path(install@, kind) == Some(p@),
            None => default_config_path(install@, kind) is None,
        },
{
    let i = chars_of(install);
    match kind {
        ServiceKind::Nginx => {
            let c = win_join_exec(&i, &chars_of("conf"));
            Some(string_of(&win_join_exec(&c, &chars_of("nginx.conf"))))
        },
        ServiceKind::Mysql => Some(string_of(&win_join_exec(&i, &chars_of("my.ini")))),
        ServiceKind::Redis => Some(string_of(&win_join_exec(&i, &chars_of("redis.windows.conf")))),
        _ => None,
    }
}

/// The configuration file of the first service of the kind (see
/// `spec_service_config_path`).
pub fn find_service_config_path(services: &[ServiceInstance], kind: ServiceKind) -> (r: Option<String>)
    ensures
        match r {
            Some(p) => spec_service_config_path(services@, kind) == Some(p@),
            None => spec_service_config_path(services@, kind) is None,
        },
{
    proof {
        lemma_first_of_kind(services@, kind);
    }
    let mut i: usize = 0;
    while i < services.len()
        invariant
            i <= services.len(),
            forall|j: int| 0 <= j < i ==> services@[j].kind != kind,
        decreases services.len() - i,
    {
        if services[i].kind == kind {
            proof {
                lemma_first_of_kind(services@, kind);
            }
            return match &services[i].config_path {
                Some(p) => Some(string_of(&chars_of(p.as_str()))),
                None => default_config_exec(services[i].install_path.as_str(), kind),
            };
        }
        i += 1;
    }
    None
}

/// The kind named by a service name in the configuration commands.
pub open spec fn config_kind(name: Seq<char>) -> Option<ServiceKind> {
    if name == "nginx"@ {
        Some(ServiceKind::Nginx)
    } else if name == "mysql"@ {
        Some(ServiceKind::Mysql)
    } else if name == "redis"@ {
        Some(ServiceKind::Redis)
    } else {
        None
    }
}

/// The configuration file of the service named `service` (`nginx`,
/// `mysql` or `redis`), or the error for an unknown name or a service not
/// installed.
pub fn get_config_file_path(service: &str, services: &[ServiceInstance]) -> (r: Result<String, String>)
    ensures
        match config_kind(service@) {
            None => r matches Err(m) && m@ == "Unknown service: "@ + service@,
            Some(k) => match spec_service_config_path(services@, k) {
                Some(p) => r matches Ok(s) && s@ == p,
                None => r matches Err(m) && m@ == service@ + " config not found"@,
            },
        },
{
    let n = chars_of(service);
    let kind = if crate::text::eq_str(&n, "nginx") {
        ServiceKind::Nginx
    } else if crate::text::eq_str(&n, "mysql") {
        ServiceKind::Mysql
    } else if crate::text::eq_str(&n, "redis") {
        ServiceKind::Redis
    } else {
        let mut m = chars_of("Unknown service: ");
        append_str(&mut m, service);
        return Err(string_of(&m));
    };
    match find_service_config_path(services, kind) {
        Some(p) => Ok(p),
        None => {
            let mut m = chars_of(service);
            append_str(&mut m, " config not found");
            Err(string_of(&m))
        },
    }
}

/// The configuration file edited in the settings of an Nginx, MySQL or
/// Redis service, or `<name> not found` when none is installed.
pub fn editable_config_path(services: &[ServiceInstance], kind: ServiceKind) -> (r: Result<String, String>)
    requires
        kind == ServiceKind::Nginx || kind == ServiceKind::Mysql || kind == ServiceKind::Redis,
    ensures
        match spec_service_config_path(services@, kind) {
            Some(p) => r matches Ok(s) && s@ == p,
            None => r matches Err(m) && m@ == spec_display_name(kind) + " not found"@,
        },
{
    match find_service_config_path(services, kind) {
        Some(p) => Ok(p),
        None => {
            let mut m = chars_of(kind.display_name());
            append_str(&mut m, " not found");
            Err(string_of(&m))
        },
    }
}

} // verus!
