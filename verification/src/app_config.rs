//! The application's own settings file: general paths, the web server in
//! use, database and cache ports, and the PHP instances.

use vstd::prelude::*;
use std::collections::HashMap;
use crate::text::{chars_of, string_of};
use crate::service::ServiceKind;
use crate::paths::win_join;

verus! {

/// The settings file.
pub struct AppConfig {
    pub general: GeneralConfig,
    pub web_server: WebServerConfig,
    pub mysql: MysqlConfig,
    pub redis: RedisConfig,
    pub php_instances: HashMap<String, PhpInstanceConfig>,
}

/// A standalone installation the user pointed the manager at.
pub struct ExtraInstallPath {
    pub id: String,
    pub kind: ServiceKind,
    pub path: String,
    pub label: Option<String>,
}

/// Paths and start-up choices.
pub struct GeneralConfig {
    pub data_dir: String,
    pub www_root: String,
    pub phpstudy_path: Option<String>,
    pub auto_start: Vec<String>,
    pub log_dir: Option<String>,
    pub log_retention_days: u32,
    pub extra_install_paths: Vec<ExtraInstallPath>,
    pub package_install_root: Option<String>,
    /// Whether the managed services are stopped when the application exits.
    pub stop_services_on_exit: bool,
}

/// The web server in use and the chosen versions.
pub struct WebServerConfig {
    pub active: String,
    pub nginx_version: Option<String>,
    pub apache_version: Option<String>,
}

/// The MySQL version and port.
pub struct MysqlConfig {
    pub version: Option<String>,
    pub port: u16,
}

/// The Redis version and port.
pub struct RedisConfig {
    pub version: Option<String>,
    pub port: u16,
}

/// One PHP-CGI instance.
pub struct PhpInstanceConfig {
    pub port: u16,
    pub workers: u16,
    pub auto_start: bool,
}

/// Nothing starts automatically unless chosen.
pub fn default_auto_start() -> (r: Vec<String>)
    ensures
        r@.len() == 0,
{
    Vec::new()
}

/// Logs are kept a week.
pub fn default_log_retention() -> (r: u32)
    ensures
        r == 7,
{
    7
}

/// Nginx serves unless Apache is chosen.
pub fn default_web_server() -> (r: String)
    ensures
        r@ == "nginx"@,
{
    "nginx".to_owned()
}

pub fn default_mysql_port() -> (r: u16)
    ensures
        r == 3306,
{
    3306
}

pub fn default_redis_port() -> (r: u16)
    ensures
        r == 6379,
{
    6379
}

pub fn default_workers() -> (r: u16)
    ensures
        r == 16,
{
    16
}

impl WebServerConfig {
    pub fn default() -> (r: Self)
        ensures
            r.active@ == "nginx"@,
            r.nginx_version is None,
            r.apache_version is None,
    {
        WebServerConfig { active: default_web_server(), nginx_version: None, apache_version: None }
    }
}

impl MysqlConfig {
    pub fn default() -> (r: Self)
        ensures
            r.version is None,
            r.port == 3306,
    {
        MysqlConfig { version: None, port: default_mysql_port() }
    }
}

impl RedisConfig {
    pub fn default() -> (r: Self)
        ensures
            r.version is None,
            r.port == 6379,
    {
        RedisConfig { version: None, port: default_redis_port() }
    }
}

impl AppConfig {
    /// The settings of a fresh setup on a PHPStudy directory: data and
    /// PHPStudy paths are that directory, sites live in its `WWW`, Nginx
    /// and MySQL start automatically, logs are kept seven days, and
    /// everything else takes its default.
    pub fn default_with_phpstudy(phpstudy_path: String) -> (r: Self)
        ensures
            r.general.data_dir@ == phpstudy_path@,
            r.general.www_root@ == win_join(phpstudy_path@, "WWW"@),
            r.general.phpstudy_path matches Some(p) && p@ == phpstudy_path@,
            r.general.auto_start@.len() == 2,
            r.general.auto_start@[0]@ == "nginx"@,
            r.general.auto_start@[1]@ == "mysql"@,
            r.general.log_dir is None,
            r.general.log_retention_days == 7,
            r.general.extra_install_paths@.len() == 0,
            r.general.package_install_root is None,
            !r.general.stop_services_on_exit,
            r.web_server.active@ == "nginx"@,
            r.web_server.nginx_version is None,
            r.web_server.apache_version is None,
            r.mysql.version is None,
            r.mysql.port == 3306,
            r.redis.version is None,
            r.redis.port == 6379,
            r.php_instances@ == Map::<String, PhpInstanceConfig>::empty(),
    {
        let p = chars_of(phpstudy_path.as_str());
        let www = string_of(&crate::paths::win_join_exec(&p, &chars_of("WWW")));
        let data_dir = phpstudy_path.clone();
        let auto = vec!["nginx".to_owned(), "mysql".to_owned()];
        AppConfig {
            general: GeneralConfig {
                data_dir,
                www_root: www,
                phpstudy_path: Some(phpstudy_path),
                auto_start: auto,
                log_dir: None,
                log_retention_days: 7,
                extra_install_paths: Vec::new(),
                package_install_root: None,
                stop_services_on_exit: false,
            },
            web_server: WebServerConfig::default(),
            mysql: MysqlConfig::default(),
            redis: RedisConfig::default(),
            php_instances: HashMap::new(),
        }
    }
}

} // verus!
