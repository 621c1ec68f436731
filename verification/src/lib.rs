//! Verified core of a local PHP development-environment manager: virtual
//! host validation and rendering, configuration-file editing for Nginx,
//! MySQL, Redis and php.ini, service discovery bookkeeping, and the small
//! parsers used around them.

use vstd::prelude::*;

pub mod text;
pub mod num;
pub mod vhost;
pub mod lineedit;
pub mod config_editor;
pub mod config_laws;
pub mod php;
pub mod error;
pub mod template;
pub mod paths;
pub mod service;
pub mod app_config;
pub mod scanner;
pub mod composite;
pub mod versions;
pub mod pie;
pub mod proxy;
pub mod tasklist;
pub mod vhost_mgr;
pub mod vhost_scan;
pub mod hosts;
pub mod ssl_cert;
pub mod installer;
pub mod logtail;
pub mod site_template;
pub mod store;
pub mod process_cmd;
pub mod strangers;
pub mod port_diag;
pub mod dev_tools;
pub mod service_mgr;
pub mod vhost_cmd;
pub mod app_paths;
pub mod settings;
pub mod sources;
pub mod system_scan;
pub mod cache;
pub mod global_php;
pub mod service_config;
pub mod unpack;
pub mod stop_flow;
pub mod install_flow;
pub mod vhost_flow;

verus! {

} // verus!
