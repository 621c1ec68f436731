//! Discovery of the services laid out the PHPStudy way: `Extensions/php/
//! php85nts/`, `Extensions/Nginx1.26.2/`, `Extensions/MySQL8.0.40/`, and
//! so on. The directory listing is read by the caller; what it means is
//! decided here.

use vstd::prelude::*;
use crate::text::{append, append_str, chars_of, lower, starts_with, string_of, views};
use crate::service::{ServiceInstance, ServiceKind, ServiceOrigin, ServiceStatus};
use crate::paths::win_join;

verus! {

/// What the caller found of one directory entry: its name and full path,
/// whether it is a directory, and which of `probe_names()` exist under it.
pub struct DirEntryInfo {
    pub name: String,
    pub path: String,
    pub is_dir: bool,
    pub present: Vec<String>,
}

/// The scanner of PHPStudy-style `Extensions` directories.
pub struct PhpStudyScanner;

// ======================== Directory names ========================

pub open spec fn is_ascii_digit(c: char) -> bool {
    '0' <= c && c <= '9'
}

/// The first char that is neither an ASCII digit nor a dot.
pub open spec fn first_non_version(s: Seq<char>) -> Option<int>
    decreases s.len(),
{
    if s.len() == 0 {
        None
    } else if !is_ascii_digit(s[0]) && s[0] != '.' {
        Some(0)
    } else {
        match first_non_version(s.drop_first()) {
            Some(i) => Some(i + 1),
            None => None,
        }
    }
}

/// The version a PHP directory name carries: `85` reads as `8.5`, `734`
/// as `7.3.4`, a dotted version stays, a single digit stays.
pub open spec fn php_version_of(digits: Seq<char>) -> Seq<char> {
    if crate::text::find_char(digits, '.') is Some {
        digits
    } else if digits.len() == 2 {
        seq![digits[0], '.', digits[1]]
    } else if digits.len() > 2 {
        seq![digits[0], '.', digits[1], '.'] + digits.skip(2)
    } else {
        digits
    }
}

/// `php85nts` → (`8.5`, `nts`): after an optional `php`, the leading
/// digits and dots give the version and the rest the variant (`nts` when
/// there is no rest).
pub open spec fn spec_parse_php_dir_name(name: Seq<char>) -> (Seq<char>, Seq<char>) {
    let n = if starts_with(name, "php"@) {
        name.skip(3)
    } else {
        name
    };
    match first_non_version(n) {
        Some(p) => (php_version_of(n.take(p)), n.skip(p)),
        None => (php_version_of(n), "nts"@),
    }
}

proof fn lemma_first_non_version_some(s: Seq<char>, i: int)
    requires
        0 <= i < s.len(),
        !is_ascii_digit(s[i]) && s[i] != '.',
        forall|j: int| 0 <= j < i ==> is_ascii_digit(#[trigger] s[j]) || s[j] == '.',
    ensures
        first_non_version(s) == Some(i),
    decreases i,
{
    if i > 0 {
        lemma_first_non_version_some(s.drop_first(), i - 1);
    }
}

proof fn lemma_first_non_version_none(s: Seq<char>)
    requires
        forall|j: int| 0 <= j < s.len() ==> is_ascii_digit(#[trigger] s[j]) || s[j] == '.',
    ensures
        first_non_version(s) is None,
    decreases s.len(),
{
    if s.len() > 0 {
        lemma_first_non_version_none(s.drop_first());
    }
}

fn php_version_exec(d: &[char]) -> (r: Vec<char>)
    ensures
        r@ == php_version_of(d@),
{
    if crate::text::find_char_exec(d, '.').is_some() {
        crate::text::slice_of(d, 0, d.len())
    } else if d.len() == 2 {
        let r = vec![d[0], '.', d[1]];
        assert(r@ =~= seq![d@[0], '.', d@[1]]);
        r
    } else if d.len() > 2 {
        let mut r = vec![d[0], '.', d[1], '.'];
        append(&mut r, &crate::text::slice_of(d, 2, d.len()));
        assert(r@ =~= seq![d@[0], '.', d@[1], '.'] + d@.skip(2));
        r
    } else {
        crate::text::slice_of(d, 0, d.len())
    }
}

fn parse_php_dir_chars(name: &[char]) -> (r: (Vec<char>, Vec<char>))
    ensures
        (r.0@, r.1@) == spec_parse_php_dir_name(name@),
{
    proof {
        reveal_strlit("php");
    }
    let php = chars_of("php");
    let n = if crate::text::starts_with_chars(name, &php) {
        crate::text::slice_of(name, 3, name.len())
    } else {
        crate::text::slice_of(name, 0, name.len())
    };
    let ghost expect_n = if starts_with(name@, "php"@) {
        name@.skip(3)
    } else {
        name@
    };
    assert(n@ =~= expect_n);
    let mut i: usize = 0;
    while i < n.len()
        invariant
            i <= n.len(),
            n@ == expect_n,
            expect_n == (if starts_with(name@, "php"@) { name@.skip(3) } else { name@ }),
            forall|j: int| 0 <= j < i ==> is_ascii_digit(#[trigger] n@[j]) || n@[j] == '.',
        decreases n.len() - i,
    {
        let c = n[i];
        if !('0' <= c && c <= '9') && c != '.' {
            proof {
                lemma_first_non_version_some(n@, i as int);
            }
            let digits = crate::text::slice_of(&n, 0, i);
            let variant = crate::text::slice_of(&n, i, n.len());
            return (php_version_exec(&digits), variant);
        }
        i += 1;
    }
    proof {
        lemma_first_non_version_none(n@);
    }
    (php_version_exec(&n), chars_of("nts"))
}

/// The version and variant of a PHP directory name (see
/// `spec_parse_php_dir_name`).
pub fn parse_php_dir_name(name: &str) -> (r: (String, String))
    ensures
        (r.0@, r.1@) == spec_parse_php_dir_name(name@),
{
    let (v, w) = parse_php_dir_chars(&chars_of(name));
    (string_of(&v), string_of(&w))
}

/// Every char below 128.
pub open spec fn ascii_upto(s: Seq<char>, n: int) -> bool {
    forall|j: int| 0 <= j < n && j < s.len() ==> (s[j] as u32) < 128
}

/// The name after the prefix, or nothing when the name is no longer than
/// the prefix.
pub open spec fn spec_extract_version(name: Seq<char>, prefix: Seq<char>) -> Seq<char> {
    if name.len() > prefix.len() {
        name.skip(prefix.len() as int)
    } else {
        Seq::empty()
    }
}

/// `Nginx1.15.11` with prefix `Nginx` → `1.15.11`. The prefix and the
/// part of the name it covers are ASCII, so that bytes and chars agree.
pub fn extract_version(name: &str, prefix: &str) -> (r: String)
    requires
        ascii_upto(prefix@, prefix@.len() as int),
        ascii_upto(name@, prefix@.len() as int),
    ensures
        r@ == spec_extract_version(name@, prefix@),
{
    let n = chars_of(name);
    let p = chars_of(prefix);
    if n.len() > p.len() {
        string_of(&crate::text::slice_of(&n, p.len(), n.len()))
    } else {
        String::new()
    }
}

// ======================== Scanning a listing ========================

/// The relative paths the scanner asks about.
pub fn probe_names() -> (r: Vec<&'static str>)
    ensures
        r@.len() == 12,
{
    vec![
        "php-cgi.exe",
        "php.ini",
        "nginx.exe",
        "conf/nginx.conf",
        "bin/httpd.exe",
        "conf/httpd.conf",
        "bin/mysqld.exe",
        "my.ini",
        "my.cnf",
        "redis-server.exe",
        "redis.windows.conf",
        "redis.conf",
    ]
}

/// The plain-value form of an entry: name, path, directory flag, present
/// paths.
pub open spec fn entry_has(e: DirEntryInfo, rel: Seq<char>) -> bool {
    exists|i: int| 0 <= i < e.present@.len() && #[trigger] e.present@[i]@ == rel
}

fn has_exec(e: &DirEntryInfo, rel: &str) -> (r: bool)
    ensures
        r == entry_has(*e, rel@),
{
    let mut i: usize = 0;
    while i < e.present.len()
        invariant
            i <= e.present.len(),
            forall|j: int| 0 <= j < i ==> (#[trigger] e.present@[j])@ != rel@,
        decreases e.present.len() - i,
    {
        if crate::text::eq_str(&chars_of(e.present[i].as_str()), rel) {
            return true;
        }
        i += 1;
    }
    false
}

/// The first config candidate present, joined to the entry's path.
pub open spec fn config_of(e: DirEntryInfo, candidates: Seq<Seq<char>>) -> Option<Seq<char>>
    decreases candidates.len(),
{
    if candidates.len() == 0 {
        None
    } else if entry_has(e, candidates[0]) {
        Some(win_join(e.path@, candidates[0]))
    } else {
        config_of(e, candidates.drop_first())
    }
}

fn config_exec(e: &DirEntryInfo, candidates: &Vec<&str>) -> (r: Option<String>)
    ensures
        crate::vhost::opt_view(r) == config_of(*e, candidates@.map_values(|c: &str| c@)),
{
    let ghost cs = candidates@.map_values(|c: &str| c@);
    let mut i: usize = 0;
    assert(cs.skip(0) == cs);
    while i < candidates.len()
        invariant
            i <= candidates.len(),
            cs == candidates@.map_values(|c: &str| c@),
            config_of(*e, cs) == config_of(*e, cs.skip(i as int)),
        decreases candidates.len() - i,
    {
        assert(cs.skip(i as int)[0] == candidates@[i as int]@);
        assert(cs.skip(i as int).drop_first() == cs.skip(i + 1));
        if has_exec(e, candidates[i]) {
            let p = chars_of(e.path.as_str());
            let j = crate::paths::win_join_exec(&p, &chars_of(candidates[i]));
            return Some(string_of(&j));
        }
        i += 1;
    }
    None
}

/// What an instance found by the scanner is made of, as plain values:
/// kind, version, variant, path, config, port.
pub type FoundView = (ServiceKind, Seq<char>, Option<Seq<char>>, Seq<char>, Option<Seq<char>>, u16);

pub open spec fn found_view(s: ServiceInstance) -> FoundView {
    (
        s.kind,
        s.version@,
        crate::vhost::opt_view(s.variant),
        s.install_path@,
        crate::vhost::opt_view(s.config_path),
        s.port,
    )
}

pub open spec fn found_views(v: Seq<ServiceInstance>) -> Seq<FoundView> {
    v.map_values(|s: ServiceInstance| found_view(s))
}

/// Fresh from a scan: stopped, not started automatically, from PHPStudy.
pub open spec fn fresh(s: ServiceInstance) -> bool {
    s.status == ServiceStatus::Stopped && !s.auto_start && s.origin == ServiceOrigin::PhpStudy
}

/// The PHP installations of `php/`, in listing order, on ports 9000, 9001,
/// ... in that order.
pub open spec fn php_found(entries: Seq<DirEntryInfo>) -> Seq<FoundView>
    decreases entries.len(),
{
    if entries.len() == 0 {
        Seq::empty()
    } else {
        let r = php_found(entries.drop_last());
        let e = entries.last();
        if e.is_dir && entry_has(e, "php-cgi.exe"@) {
            let (v, w) = spec_parse_php_dir_name(e.name@);
            r.push(
                (
                    ServiceKind::Php,
                    v,
                    Some(w),
                    e.path@,
                    config_of(e, seq!["php.ini"@]),
                    (9000 + r.len()) as u16,
                ),
            )
        } else {
            r
        }
    }
}

/// The directories of one kind: the name starts with the prefix (ASCII
/// case ignored) and the executable is present.
pub open spec fn kind_found(
    entries: Seq<DirEntryInfo>,
    prefix: Seq<char>,
    exe: Seq<char>,
    kind: ServiceKind,
    port: u16,
    candidates: Seq<Seq<char>>,
) -> Seq<FoundView>
    decreases entries.len(),
{
    if entries.len() == 0 {
        Seq::empty()
    } else {
        let r = kind_found(entries.drop_last(), prefix, exe, kind, port, candidates);
        let e = entries.last();
        if e.is_dir && starts_with(lower(e.name@), lower(prefix)) && entry_has(e, exe) {
            r.push(
                (
                    kind,
                    spec_extract_version(e.name@, prefix),
                    None,
                    e.path@,
                    config_of(e, candidates),
                    port,
                ),
            )
        } else {
            r
        }
    }
}

/// Everything a scan finds: PHP first, then Nginx, Apache, MySQL and
/// Redis, each in listing order.
pub open spec fn spec_scan(
    exists: bool,
    php: Option<Seq<DirEntryInfo>>,
    entries: Seq<DirEntryInfo>,
) -> Seq<FoundView> {
    if !exists {
        Seq::empty()
    } else {
        let p = match php {
            Some(es) => php_found(es),
            None => Seq::empty(),
        };
        p + kind_found(entries, "Nginx"@, "nginx.exe"@, ServiceKind::Nginx, 80, seq!["conf/nginx.conf"@])
            + kind_found(entries, "Apache"@, "bin/httpd.exe"@, ServiceKind::Apache, 80, seq!["conf/httpd.conf"@])
            + kind_found(entries, "MySQL"@, "bin/mysqld.exe"@, ServiceKind::Mysql, 3306, seq!["my.ini"@, "my.cnf"@])
            + kind_found(entries, "redis"@, "redis-server.exe"@, ServiceKind::Redis, 6379, seq!["redis.windows.conf"@, "redis.conf"@])
    }
}

/// What the caller read of an `Extensions` directory: whether it exists,
/// the entries of its `php` subdirectory (when that could be read), and
/// its own entries.
pub struct ExtensionsListing {
    pub exists: bool,
    pub php: Option<Vec<DirEntryInfo>>,
    pub entries: Vec<DirEntryInfo>,
}

fn instance(kind: ServiceKind, version: String, variant: Option<String>, path: String, config_path:
    Option<String>, port: u16) -> (r: ServiceInstance)
    ensures
        found_view(r) == (kind, version@, crate::vhost::opt_view(variant), path@, crate::vhost::opt_view(config_path), port),
        fresh(r),
{
    ServiceInstance {
        kind,
        version,
        variant,
        install_path: path,
        config_path,
        port,
        status: ServiceStatus::Stopped,
        auto_start: false,
        origin: ServiceOrigin::PhpStudy,
    }
}

proof fn lemma_php_found_prefix(es: Seq<DirEntryInfo>, i: int)
    requires
        0 <= i <= es.len(),
    ensures
        php_found(es.take(i)).len() <= php_found(es).len(),
    decreases es.len() - i,
{
    if i < es.len() {
        lemma_php_found_prefix(es, i + 1);
        assert(es.take(i + 1).drop_last() =~= es.take(i));
    } else {
        assert(es.take(i) =~= es);
    }
}

/// The PHP ports `9000 + k` fit in a `u16`: at most 56536 PHP directories.
pub open spec fn php_ports_fit(es: Seq<DirEntryInfo>) -> bool {
    php_found(es).len() <= 56536
}

fn php_scan(entries: &Vec<DirEntryInfo>, out: &mut Vec<ServiceInstance>)
    requires
        php_ports_fit(entries@),
    ensures
        found_views(final(out)@) == found_views(old(out)@) + php_found(entries@),
        forall|i: int| 0 <= i < old(out)@.len() ==> final(out)@[i] == old(out)@[i],
        forall|i: int| old(out)@.len() <= i < final(out)@.len() ==> fresh(#[trigger] final(out)@[i]),
{
    let ghost base = found_views(out@);
    let ghost start = out@;
    let mut count: u16 = 0;
    let mut i: usize = 0;
    while i < entries.len()
        invariant
            i <= entries.len(),
            php_ports_fit(entries@),
            count as int == php_found(entries@.take(i as int)).len(),
            count <= i,
            found_views(out@) == base + php_found(entries@.take(i as int)),
            base == found_views(start),
            start.len() <= out@.len(),
            forall|k: int| 0 <= k < start.len() ==> out@[k] == start[k],
            forall|k: int| start.len() <= k < out@.len() ==> fresh(#[trigger] out@[k]),
        decreases entries.len() - i,
    {
        let ghost pre = entries@.take(i as int);
        assert(entries@.take(i + 1).drop_last() == pre);
        assert(entries@.take(i + 1).last() == entries@[i as int]);
        let e = &entries[i];
        if e.is_dir && has_exec(e, "php-cgi.exe") {
            proof {
                lemma_php_found_prefix(entries@, i + 1);
                assert(php_found(entries@.take(i + 1)).len() == php_found(pre).len() + 1);
            }
            let (v, w) = parse_php_dir_name(e.name.as_str());
            let cands = vec!["php.ini"];
            let cfg = config_exec(e, &cands);
            assert(cands@.map_values(|c: &str| c@) =~= seq!["php.ini"@]);
            let inst = instance(ServiceKind::Php, v, Some(w), e.path.clone(), cfg, 9000 + count);
            let ghost before = out@;
            out.push(inst);
            assert(found_views(out@) =~= found_views(before).push(found_view(inst)));
            count += 1;
        }
        assert(found_views(out@) =~= base + php_found(entries@.take(i + 1)));
        i += 1;
    }
    assert(entries@.take(entries.len() as int) == entries@);
}

proof fn lemma_lower_ascii(name: Seq<char>, prefix: Seq<char>)
    requires
        ascii_upto(prefix, prefix.len() as int),
        starts_with(lower(name), lower(prefix)),
    ensures
        ascii_upto(name, prefix.len() as int),
{
    assert forall|j: int| 0 <= j < prefix.len() && j < name.len() implies (name[j] as u32) < 128 by {
        assert(lower(name)[j] == crate::text::lower_char(name[j]));
        assert(lower(prefix)[j] == crate::text::lower_char(prefix[j]));
        assert(lower(name).take(lower(prefix).len() as int)[j] == lower(name)[j]);
    }
}

fn kind_scan(
    entries: &Vec<DirEntryInfo>,
    prefix: &str,
    exe: &str,
    kind: ServiceKind,
    port: u16,
    cands: &Vec<&str>,
    out: &mut Vec<ServiceInstance>,
)
    requires
        ascii_upto(prefix@, prefix@.len() as int),
    ensures
        found_views(final(out)@) == found_views(old(out)@) + kind_found(
            entries@,
            prefix@,
            exe@,
            kind,
            port,
            cands@.map_values(|c: &str| c@),
        ),
        forall|i: int| 0 <= i < old(out)@.len() ==> final(out)@[i] == old(out)@[i],
        forall|i: int| old(out)@.len() <= i < final(out)@.len() ==> fresh(#[trigger] final(out)@[i]),
{
    let ghost base = found_views(out@);
    let ghost start = out@;
    let ghost cs = cands@.map_values(|c: &str| c@);
    let lp = crate::text::lower_of(&chars_of(prefix));
    let mut i: usize = 0;
    while i < entries.len()
        invariant
            i <= entries.len(),
            lp@ == lower(prefix@),
            ascii_upto(prefix@, prefix@.len() as int),
            cs == cands@.map_values(|c: &str| c@),
            found_views(out@) == base + kind_found(entries@.take(i as int), prefix@, exe@, kind, port, cs),
            base == found_views(start),
            start.len() <= out@.len(),
            forall|k: int| 0 <= k < start.len() ==> out@[k] == start[k],
            forall|k: int| start.len() <= k < out@.len() ==> fresh(#[trigger] out@[k]),
        decreases entries.len() - i,
    {
        let ghost pre = entries@.take(i as int);
        assert(entries@.take(i + 1).drop_last() == pre);
        assert(entries@.take(i + 1).last() == entries@[i as int]);
        let e = &entries[i];
        let ln = crate::text::lower_of(&chars_of(e.name.as_str()));
        if e.is_dir && crate::text::starts_with_chars(&ln, &lp) && has_exec(e, exe) {
            proof {
                lemma_lower_ascii(e.name@, prefix@);
            }
            let v = extract_version(e.name.as_str(), prefix);
            let cfg = config_exec(e, cands);
            let inst = instance(kind, v, None, e.path.clone(), cfg, port);
            let ghost before = out@;
            out.push(inst);
            assert(found_views(out@) =~= found_views(before).push(found_view(inst)));
        }
        assert(found_views(out@) =~= base + kind_found(entries@.take(i + 1), prefix@, exe@, kind, port, cs));
        i += 1;
    }
    assert(entries@.take(entries.len() as int) == entries@);
}

impl PhpStudyScanner {
    /// The services of a PHPStudy-style `Extensions` directory (see
    /// `spec_scan`), each stopped, not started automatically, and of
    /// PHPStudy origin.
    pub fn scan(listing: &ExtensionsListing) -> (r: Vec<ServiceInstance>)
        requires
            listing.php matches Some(es) ==> php_ports_fit(es@),
        ensures
            found_views(r@) == spec_scan(
                listing.exists,
                match listing.php {
                    Some(es) => Some(es@),
                    None => None,
                },
                listing.entries@,
            ),
            forall|i: int| 0 <= i < r@.len() ==> fresh(#[trigger] r@[i]),
    {
        let mut out: Vec<ServiceInstance> = Vec::new();
        if !listing.exists {
            assert(found_views(out@) =~= Seq::<FoundView>::empty());
            return out;
        }
        match &listing.php {
            Some(es) => php_scan(es, &mut out),
            None => {},
        }
        proof {
            reveal_strlit("Nginx");
            reveal_strlit("Apache");
            reveal_strlit("MySQL");
            reveal_strlit("redis");
        }
        let c1 = vec!["conf/nginx.conf"];
        assert(c1@.map_values(|c: &str| c@) =~= seq!["conf/nginx.conf"@]);
        kind_scan(&listing.entries, "Nginx", "nginx.exe", ServiceKind::Nginx, 80, &c1, &mut out);
        let c2 = vec!["conf/httpd.conf"];
        assert(c2@.map_values(|c: &str| c@) =~= seq!["conf/httpd.conf"@]);
        kind_scan(&listing.entries, "Apache", "bin/httpd.exe", ServiceKind::Apache, 80, &c2, &mut out);
        let c3 = vec!["my.ini", "my.cnf"];
        assert(c3@.map_values(|c: &str| c@) =~= seq!["my.ini"@, "my.cnf"@]);
        kind_scan(&listing.entries, "MySQL", "bin/mysqld.exe", ServiceKind::Mysql, 3306, &c3, &mut out);
        let c4 = vec!["redis.windows.conf", "redis.conf"];
        assert(c4@.map_values(|c: &str| c@) =~= seq!["redis.windows.conf"@, "redis.conf"@]);
        kind_scan(&listing.entries, "redis", "redis-server.exe", ServiceKind::Redis, 6379, &c4, &mut out);
        out
    }
}

pub proof fn lemma_scan_len(exists: bool, php: Option<Seq<DirEntryInfo>>, entries: Seq<DirEntryInfo>)
    ensures
        spec_scan(exists, php, entries).len() <= (match php {
            Some(es) => es.len() as int,
            None => 0,
        }) + 4 * entries.len(),
{
    if let Some(es) = php {
        lemma_php_found_len(es);
    }
    lemma_kind_found_len(entries, "Nginx"@, "nginx.exe"@, ServiceKind::Nginx, 80, seq!["conf/nginx.conf"@]);
    lemma_kind_found_len(entries, "Apache"@, "bin/httpd.exe"@, ServiceKind::Apache, 80, seq!["conf/httpd.conf"@]);
    lemma_kind_found_len(entries, "MySQL"@, "bin/mysqld.exe"@, ServiceKind::Mysql, 3306, seq!["my.ini"@, "my.cnf"@]);
    lemma_kind_found_len(entries, "redis"@, "redis-server.exe"@, ServiceKind::Redis, 6379, seq!["redis.windows.conf"@, "redis.conf"@]);
}

proof fn lemma_php_found_len(es: Seq<DirEntryInfo>)
    ensures
        php_found(es).len() <= es.len(),
    decreases es.len(),
{
    if es.len() > 0 {
        lemma_php_found_len(es.drop_last());
    }
}

proof fn lemma_kind_found_len(
    es: Seq<DirEntryInfo>,
    prefix: Seq<char>,
    exe: Seq<char>,
    kind: ServiceKind,
    port: u16,
    candidates: Seq<Seq<char>>,
)
    ensures
        kind_found(es, prefix, exe, kind, port, candidates).len() <= es.len(),
    decreases es.len(),
{
    if es.len() > 0 {
        lemma_kind_found_len(es.drop_last(), prefix, exe, kind, port, candidates);
    }
}

} // verus!
