//! Reading and editing the main configuration files of Nginx (`nginx.conf`),
//! MySQL (`my.ini`) and Redis (`redis.windows.conf`). Reading keeps a
//! default for every key that is missing or unparsable; saving rewrites the
//! lines of the known keys and keeps every other line as it was.

use vstd::prelude::*;
use crate::text::{
    first_where, starts_with,
    append, append_str, chars_of, join_lines, lines, slice_of, string_of, trim, trim_of, views,
};
use crate::num::{decimal, decimal_chars, parse_unsigned, parse_unsigned_exec};
use crate::lineedit::{
    LineKind, after_token, concat4, find_first, find_last, find_line, first_ws_exec, indent,
    indent_of, join_with_insert, join_with_push, join_with_update, last_where_line, lines_vec,
    pred,
};

verus! {

// ======================== Configuration records ========================

/// The Nginx settings shown in the editor.
pub struct NginxConfig {
    pub worker_processes: String,
    pub worker_connections: u32,
    pub worker_rlimit_nofile: u32,
    pub keepalive_timeout: u32,
    pub keepalive_requests: u32,
    pub sendfile: bool,
    pub sendfile_max_chunk: String,
    pub client_max_body_size: String,
    pub client_body_buffer_size: String,
    pub client_body_timeout: u32,
    pub client_header_buffer_size: String,
    pub client_header_timeout: u32,
    pub large_client_header_buffers: String,
    pub send_timeout: u32,
    pub reset_timedout_connection: bool,
    pub server_names_hash_bucket_size: u32,
    pub gzip: bool,
    pub gzip_level: u8,
    pub gzip_min_length: u32,
}

/// The MySQL settings shown in the editor.
pub struct MysqlConfig {
    pub port: u16,
    pub max_connections: u32,
    pub max_allowed_packet: String,
    pub innodb_buffer_pool_size: String,
    pub innodb_log_file_size: String,
    pub innodb_log_buffer_size: String,
    pub innodb_flush_log_at_trx_commit: u8,
    pub innodb_lock_wait_timeout: u32,
    pub character_set_server: String,
    pub collation_server: String,
    pub init_connect: String,
    pub key_buffer_size: String,
    pub table_open_cache: u32,
    pub tmp_table_size: String,
    pub max_heap_table_size: String,
    pub interactive_timeout: u32,
    pub wait_timeout: u32,
    pub sort_buffer_size: String,
    pub read_buffer_size: String,
    pub read_rnd_buffer_size: String,
    pub join_buffer_size: String,
    pub myisam_sort_buffer_size: String,
    pub thread_cache_size: u32,
    pub log_error_verbosity: u8,
    pub default_storage_engine: String,
}

/// The Redis settings shown in the editor.
pub struct RedisConfig {
    pub port: u16,
    pub bind: String,
    pub timeout: u32,
    pub databases: u16,
    pub maxmemory: String,
    pub maxclients: u32,
    pub maxmemory_policy: String,
    pub tcp_backlog: u32,
    pub tcp_keepalive: u32,
    pub loglevel: String,
    pub save_rules: String,
    pub rdbcompression: bool,
    pub appendonly: bool,
    pub appendfsync: String,
    pub requirepass: String,
    pub logfile: String,
    pub rdbchecksum: bool,
    pub dbfilename: String,
    pub dir: String,
    pub stop_writes_on_bgsave_error: bool,
}

/// The editor of the services' main configuration files.
pub struct ConfigEditor;

// ======================== Spec of the line operations ========================

/// `trim_end_matches(';')`.
pub open spec fn trim_end_semis(s: Seq<char>) -> Seq<char>
    decreases s.len(),
{
    if s.len() > 0 && s.last() == ';' {
        trim_end_semis(s.drop_last())
    } else {
        s
    }
}

/// The value the Nginx reader takes from the trimmed line `t` of `key`.
pub open spec fn nginx_value(t: Seq<char>, key: Seq<char>) -> Seq<char> {
    trim(trim_end_semis(trim(trim(t.skip(key.len() as int)))))
}

/// The value of the first active Nginx line for `key`.
pub open spec fn spec_nginx_get(c: Seq<char>, key: Seq<char>) -> Option<Seq<char>> {
    match find_line(c, LineKind::NginxDirective, key) {
        Some(i) => Some(nginx_value(trim(lines(c)[i]), key)),
        None => None,
    }
}

/// `<indent>key value;`
pub open spec fn nginx_line(l: Seq<char>, key: Seq<char>, value: Seq<char>) -> Seq<char> {
    indent(l) + key + seq![' '] + value + seq![';']
}

/// Rewrites the first active line of `key`; other text is kept.
pub open spec fn spec_nginx_set(c: Seq<char>, key: Seq<char>, value: Seq<char>) -> Seq<char> {
    let ls = lines(c);
    match find_line(c, LineKind::NginxDirective, key) {
        Some(i) => join_lines(ls.update(i, nginx_line(ls[i], key, value))),
        None => join_lines(ls),
    }
}

/// Rewrites the first active line of `key`, else the first commented one,
/// else inserts `    key value;` after the last active line mentioning
/// `after`.
pub open spec fn spec_nginx_set_or_insert(
    c: Seq<char>,
    key: Seq<char>,
    value: Seq<char>,
    after: Seq<char>,
) -> Seq<char> {
    let ls = lines(c);
    match find_line(c, LineKind::NginxDirective, key) {
        Some(i) => join_lines(ls.update(i, nginx_line(ls[i], key, value))),
        None => match find_line(c, LineKind::NginxCommented, key) {
            Some(i) => join_lines(ls.update(i, nginx_line(ls[i], key, value))),
            None => match last_where_line(c, LineKind::Mentions, after) {
                Some(j) => join_lines(
                    ls.insert(j + 1, "    "@ + key + seq![' '] + value + seq![';']),
                ),
                None => join_lines(ls),
            },
        },
    }
}

/// The trimmed text after the first `=`.
pub open spec fn ini_value(t: Seq<char>) -> Seq<char> {
    match crate::text::split_once(t, '=') {
        Some((_, v)) => trim(v),
        None => Seq::empty(),
    }
}

/// The value of the first active `key=value` line.
pub open spec fn spec_ini_get(c: Seq<char>, key: Seq<char>) -> Option<Seq<char>> {
    match find_line(c, LineKind::IniGet, key) {
        Some(i) => Some(ini_value(trim(lines(c)[i]))),
        None => None,
    }
}

/// `key=value`
pub open spec fn ini_line(key: Seq<char>, value: Seq<char>) -> Seq<char> {
    key + seq!['='] + value
}

/// Rewrites the first active `key=` line, else the first commented one;
/// otherwise the text is only re-joined.
pub open spec fn spec_ini_set(c: Seq<char>, key: Seq<char>, value: Seq<char>) -> Seq<char> {
    let ls = lines(c);
    match find_line(c, LineKind::IniActive, key) {
        Some(i) => join_lines(ls.update(i, ini_line(key, value))),
        None => match find_line(c, LineKind::IniCommented, key) {
            Some(i) => join_lines(ls.update(i, ini_line(key, value))),
            None => join_lines(ls),
        },
    }
}

/// `trim_matches('"')` from the front.
pub open spec fn trim_quotes_start(s: Seq<char>) -> Seq<char>
    decreases s.len(),
{
    if s.len() > 0 && s[0] == '"' {
        trim_quotes_start(s.drop_first())
    } else {
        s
    }
}

/// `trim_matches('"')` from the back.
pub open spec fn trim_quotes_end(s: Seq<char>) -> Seq<char>
    decreases s.len(),
{
    if s.len() > 0 && s.last() == '"' {
        trim_quotes_end(s.drop_last())
    } else {
        s
    }
}

/// `trim_matches('"')`.
pub open spec fn trim_quotes(s: Seq<char>) -> Seq<char> {
    trim_quotes_start(trim_quotes_end(s))
}

/// The value of the first active `key value` line.
pub open spec fn spec_redis_get(c: Seq<char>, key: Seq<char>) -> Option<Seq<char>> {
    match find_line(c, LineKind::RedisGet, key) {
        Some(i) => Some(trim_quotes(trim(after_token(trim(lines(c)[i]))->0))),
        None => None,
    }
}

/// `key value`
pub open spec fn redis_line(key: Seq<char>, value: Seq<char>) -> Seq<char> {
    key + seq![' '] + value
}

/// Rewrites the first active `key` line, else the first commented one,
/// else appends `key value`.
pub open spec fn spec_redis_set(c: Seq<char>, key: Seq<char>, value: Seq<char>) -> Seq<char> {
    let ls = lines(c);
    match find_line(c, LineKind::RedisActive, key) {
        Some(i) => join_lines(ls.update(i, redis_line(key, value))),
        None => match find_line(c, LineKind::RedisCommented, key) {
            Some(i) => join_lines(ls.update(i, redis_line(key, value))),
            None => join_lines(ls.push(redis_line(key, value))),
        },
    }
}

/// Comments out the first active `key` line as `# <trimmed line>`.
pub open spec fn spec_redis_comment(c: Seq<char>, key: Seq<char>) -> Seq<char> {
    let ls = lines(c);
    match find_line(c, LineKind::RedisActive, key) {
        Some(i) => join_lines(ls.update(i, seq!['#', ' '] + trim(ls[i]))),
        None => join_lines(ls),
    }
}

// ======================== Executable line operations ========================

fn one(c: char) -> (r: Vec<char>)
    ensures
        r@ == seq![c],
{
    let mut r = Vec::new();
    r.push(c);
    r
}

fn trim_end_semis_exec(s: &[char]) -> (r: Vec<char>)
    ensures
        r@ == trim_end_semis(s@),
{
    let mut i: usize = s.len();
    assert(s@.take(s.len() as int) == s@);
    while i > 0 && s[i - 1] == ';'
        invariant
            i <= s.len(),
            trim_end_semis(s@) == trim_end_semis(s@.take(i as int)),
        decreases i,
    {
        assert(s@.take(i as int).drop_last() == s@.take(i - 1));
        i -= 1;
    }
    let r = slice_of(s, 0, i);
    assert(r@ == s@.take(i as int));
    r
}

proof fn lemma_trim_end_semis_full(s: Seq<char>)
    ensures
        trim_end_semis(s) == trim_end_semis(s.take(s.len() as int)),
{
    assert(s.take(s.len() as int) == s);
}

fn nginx_get(content: &[char], key: &[char]) -> (r: Option<Vec<char>>)
    ensures
        match r {
            Some(v) => spec_nginx_get(content@, key@) == Some(v@),
            None => spec_nginx_get(content@, key@) is None,
        },
{
    let ls = lines_vec(content);
    match find_first(&ls, &LineKind::NginxDirective, key) {
        Some(i) => {
            assert(views(ls@)[i as int] == ls@[i as int]@);
            proof {
                crate::text::lemma_first_where_spec(views(ls@), pred(LineKind::NginxDirective, key@));
            }
            let t = trim_of(&ls[i]);
            let rest = slice_of(&t, key.len(), t.len());
            let r1 = trim_of(&rest);
            let r2 = trim_of(&r1);
            proof {
                lemma_trim_end_semis_full(r2@);
            }
            let r3 = trim_end_semis_exec(&r2);
            Some(trim_of(&r3))
        },
        None => None,
    }
}

fn nginx_set(content: &[char], key: &[char], value: &[char]) -> (r: Vec<char>)
    ensures
        r@ == spec_nginx_set(content@, key@, value@),
{
    let ls = lines_vec(content);
    match find_first(&ls, &LineKind::NginxDirective, key) {
        Some(i) => {
            assert(views(ls@)[i as int] == ls@[i as int]@);
            let ind = indent_of(&ls[i]);
            let mut nl = concat4(&ind, key, &one(' '), value);
            nl.push(';');
            assert(nl@ =~= nginx_line(views(ls@)[i as int], key@, value@));
            join_with_update(ls, i, nl)
        },
        None => crate::text::join_lines_of(&ls),
    }
}

fn nginx_set_or_insert(content: &[char], key: &[char], value: &[char], after: &[char]) -> (r: Vec<
    char,
>)
    ensures
        r@ == spec_nginx_set_or_insert(content@, key@, value@, after@),
{
    let ls = lines_vec(content);
    match find_first(&ls, &LineKind::NginxDirective, key) {
        Some(i) => {
            assert(views(ls@)[i as int] == ls@[i as int]@);
            let ind = indent_of(&ls[i]);
            let mut nl = concat4(&ind, key, &one(' '), value);
            nl.push(';');
            assert(nl@ =~= nginx_line(views(ls@)[i as int], key@, value@));
            return join_with_update(ls, i, nl);
        },
        None => {},
    }
    match find_first(&ls, &LineKind::NginxCommented, key) {
        Some(i) => {
            assert(views(ls@)[i as int] == ls@[i as int]@);
            let ind = indent_of(&ls[i]);
            let mut nl = concat4(&ind, key, &one(' '), value);
            nl.push(';');
            assert(nl@ =~= nginx_line(views(ls@)[i as int], key@, value@));
            return join_with_update(ls, i, nl);
        },
        None => {},
    }
    match find_last(&ls, &LineKind::Mentions, after) {
        Some(j) => {
            let sp = chars_of("    ");
            let mut nl = concat4(&sp, key, &one(' '), value);
            nl.push(';');
            assert(nl@ =~= "    "@ + key@ + seq![' '] + value@ + seq![';']);
            join_with_insert(ls, j + 1, nl)
        },
        None => crate::text::join_lines_of(&ls),
    }
}

fn ini_get(content: &[char], key: &[char]) -> (r: Option<Vec<char>>)
    ensures
        match r {
            Some(v) => spec_ini_get(content@, key@) == Some(v@),
            None => spec_ini_get(content@, key@) is None,
        },
{
    let ls = lines_vec(content);
    match find_first(&ls, &LineKind::IniGet, key) {
        Some(i) => {
            assert(views(ls@)[i as int] == ls@[i as int]@);
            proof {
                crate::text::lemma_first_where_spec(views(ls@), pred(LineKind::IniGet, key@));
            }
            let t = trim_of(&ls[i]);
            match crate::text::split_once_exec(&t, '=') {
                Some((_, v)) => Some(trim_of(&v)),
                None => None,
            }
        },
        None => None,
    }
}

fn ini_set(content: &[char], key: &[char], value: &[char]) -> (r: Vec<char>)
    ensures
        r@ == spec_ini_set(content@, key@, value@),
{
    let ls = lines_vec(content);
    let mut nl = slice_of(key, 0, key.len());
    nl.push('=');
    append(&mut nl, value);
    assert(nl@ =~= ini_line(key@, value@));
    match find_first(&ls, &LineKind::IniActive, key) {
        Some(i) => {
            return join_with_update(ls, i, nl);
        },
        None => {},
    }
    match find_first(&ls, &LineKind::IniCommented, key) {
        Some(i) => join_with_update(ls, i, nl),
        None => crate::text::join_lines_of(&ls),
    }
}

pub fn trim_quotes_exec(s: &[char]) -> (r: Vec<char>)
    ensures
        r@ == trim_quotes(s@),
{
    let mut hi: usize = s.len();
    assert(s@.take(s.len() as int) == s@);
    while hi > 0 && s[hi - 1] == '"'
        invariant
            hi <= s.len(),
            trim_quotes_end(s@) == trim_quotes_end(s@.take(hi as int)),
        decreases hi,
    {
        assert(s@.take(hi as int).drop_last() == s@.take(hi - 1));
        hi -= 1;
    }
    assert(s@.take(s.len() as int) == s@);
    if hi > 0 {
        assert(s@.take(hi as int).last() == s@[hi - 1]);
    }
    let e = slice_of(s, 0, hi);
    assert(e@ == trim_quotes_end(s@));
    let mut lo: usize = 0;
    assert(e@.skip(0) == e@);
    while lo < e.len() && e[lo] == '"'
        invariant
            lo <= e.len(),
            trim_quotes_start(e@) == trim_quotes_start(e@.skip(lo as int)),
        decreases e.len() - lo,
    {
        assert(e@.skip(lo as int).drop_first() == e@.skip(lo + 1));
        lo += 1;
    }
    if lo < e.len() {
        assert(e@.skip(lo as int)[0] == e@[lo as int]);
    }
    slice_of(&e, lo, e.len())
}

fn redis_get(content: &[char], key: &[char]) -> (r: Option<Vec<char>>)
    ensures
        match r {
            Some(v) => spec_redis_get(content@, key@) == Some(v@),
            None => spec_redis_get(content@, key@) is None,
        },
{
    let ls = lines_vec(content);
    match find_first(&ls, &LineKind::RedisGet, key) {
        Some(i) => {
            assert(views(ls@)[i as int] == ls@[i as int]@);
            proof {
                crate::text::lemma_first_where_spec(views(ls@), pred(LineKind::RedisGet, key@));
            }
            let t = trim_of(&ls[i]);
            match first_ws_exec(&t) {
                Some(w) => {
                    let v = slice_of(&t, w + 1, t.len());
                    let tv = trim_of(&v);
                    Some(trim_quotes_exec(&tv))
                },
                None => {
                    assert(after_token(t@) is None);
                    None
                },
            }
        },
        None => None,
    }
}

fn redis_set(content: &[char], key: &[char], value: &[char]) -> (r: Vec<char>)
    ensures
        r@ == spec_redis_set(content@, key@, value@),
{
    let ls = lines_vec(content);
    let mut nl = slice_of(key, 0, key.len());
    nl.push(' ');
    append(&mut nl, value);
    assert(nl@ =~= redis_line(key@, value@));
    match find_first(&ls, &LineKind::RedisActive, key) {
        Some(i) => {
            return join_with_update(ls, i, nl);
        },
        None => {},
    }
    match find_first(&ls, &LineKind::RedisCommented, key) {
        Some(i) => join_with_update(ls, i, nl),
        None => join_with_push(ls, nl),
    }
}

fn redis_comment(content: &[char], key: &[char]) -> (r: Vec<char>)
    ensures
        r@ == spec_redis_comment(content@, key@),
{
    let ls = lines_vec(content);
    match find_first(&ls, &LineKind::RedisActive, key) {
        Some(i) => {
            assert(views(ls@)[i as int] == ls@[i as int]@);
            let t = trim_of(&ls[i]);
            let mut nl: Vec<char> = Vec::new();
            nl.push('#');
            nl.push(' ');
            append(&mut nl, &t);
            assert(nl@ =~= seq!['#', ' '] + trim(views(ls@)[i as int]));
            join_with_update(ls, i, nl)
        },
        None => crate::text::join_lines_of(&ls),
    }
}

} // verus!

verus! {

// ======================== Laws: a read gives back what a write wrote ========================

/// A line predicate that looks only at the trimmed line is unchanged by
/// trimming.
pub proof fn lemma_pred_trim_only(kind: LineKind, key: Seq<char>)
    ensures
        crate::text::trim_only(pred(kind, key)),
{
    assert forall|l: Seq<char>| #[trigger] pred(kind, key)(l) == pred(kind, key)(trim(l)) by {
        crate::text::lemma_trim_props(l);
    }
}

/// After an edit, re-reading the joined text finds the edited line first.
pub proof fn lemma_find_after_edit(new: Seq<Seq<char>>, i: int, p: spec_fn(Seq<char>) -> bool)
    requires
        0 <= i < new.len(),
        forall|j: int| 0 <= j < new.len() ==> crate::text::no_nl(#[trigger] new[j]),
        p(new[i]),
        forall|j: int| 0 <= j < i ==> !p(#[trigger] new[j]),
        crate::text::trim_only(p),
        !p(Seq::empty()),
    ensures
        crate::text::first_where(lines(join_lines(new)), p) == Some(i),
        trim(lines(join_lines(new))[i]) == trim(new[i]),
{
    crate::text::lemma_lines_join(new);
    crate::text::lemma_first_where_found(new, p, i);
    crate::text::lemma_first_where_relined(new, p);
}

/// A key an INI line can carry: non-empty, already trimmed, free of `=`
/// and line breaks.
pub open spec fn ini_key_shape(k: Seq<char>) -> bool {
    &&& k.len() > 0
    &&& trim(k) == k
    &&& forall|j: int| 0 <= j < k.len() ==> k[j] != '=' && k[j] != '\n'
}

/// A key the MySQL reader finds again: an INI key that does not open a
/// comment.
pub open spec fn ini_key_ok(k: Seq<char>) -> bool {
    &&& ini_key_shape(k)
    &&& k[0] != '#'
    &&& k[0] != ';'
}

pub proof fn lemma_ini_line(k: Seq<char>, v: Seq<char>)
    requires
        ini_key_shape(k),
    ensures
        trim(ini_line(k, v)) == k + seq!['='] + crate::text::trim_end(v),
        crate::lineedit::ini_key_is(trim(ini_line(k, v)), k),
        ini_value(trim(ini_line(k, v))) == trim(v),
        trim(ini_line(k, v)).len() > 0,
        trim(ini_line(k, v))[0] == k[0],
        crate::text::no_nl(v) ==> crate::text::no_nl(ini_line(k, v)),
{
    let l = ini_line(k, v);
    crate::text::lemma_trim_props(k);
    crate::text::lemma_trim_end_concat(k, '=', v);
    assert(l[0] == k[0]);
    crate::text::lemma_trim_nonws_first(l);
    let t = k + seq!['='] + crate::text::trim_end(v);
    assert(t[k.len() as int] == '=');
    assert forall|j: int| 0 <= j < k.len() implies t[j] != '=' by {
        assert(t[j] == k[j]);
    }
    crate::text::lemma_find_char_some(t, '=', k.len() as int);
    assert(t.take(k.len() as int) == k);
    assert(t.skip(k.len() as int + 1) == crate::text::trim_end(v));
    crate::text::lemma_trim_end_idem(v);
    if crate::text::no_nl(v) {
        assert forall|j: int| 0 <= j < l.len() implies l[j] != '\n' by {
            if j < k.len() {
                assert(l[j] == k[j]);
            } else if j > k.len() {
                assert(l[j] == v[j - k.len() - 1]);
            }
        }
    }
}

/// Replacing line `i` by `l` in the lines of `c`, where no earlier line
/// satisfies `p` and `l` does, makes `l` the first line a reader finds.
pub proof fn lemma_read_after_update(
    c: Seq<char>,
    i: int,
    l: Seq<char>,
    p: spec_fn(Seq<char>) -> bool,
)
    requires
        0 <= i < lines(c).len(),
        forall|j: int| 0 <= j < i ==> !p(#[trigger] lines(c)[j]),
        p(l),
        crate::text::no_nl(l),
        crate::text::trim_only(p),
        !p(Seq::empty()),
    ensures
        first_where(lines(join_lines(lines(c).update(i, l))), p) == Some(i),
        trim(lines(join_lines(lines(c).update(i, l)))[i]) == trim(l),
{
    let ls = lines(c);
    let new = ls.update(i, l);
    crate::text::lemma_lines_no_nl(c);
    assert forall|j: int| 0 <= j < i implies !p(#[trigger] new[j]) by {
        assert(new[j] == ls[j]);
    }
    assert forall|j: int| 0 <= j < new.len() implies crate::text::no_nl(#[trigger] new[j]) by {
        if j != i {
            assert(new[j] == ls[j]);
        }
    }
    lemma_find_after_edit(new, i, p);
}

/// Replacing line `i` (or, with `i` one past the end, appending) by `l`
/// makes `l` the first line a reader finds.
pub proof fn lemma_read_after_push(c: Seq<char>, l: Seq<char>, p: spec_fn(Seq<char>) -> bool)
    requires
        forall|j: int| 0 <= j < lines(c).len() ==> !p(#[trigger] lines(c)[j]),
        p(l),
        crate::text::no_nl(l),
        crate::text::trim_only(p),
        !p(Seq::empty()),
    ensures
        first_where(lines(join_lines(lines(c).push(l))), p) == Some(lines(c).len() as int),
        trim(lines(join_lines(lines(c).push(l)))[lines(c).len() as int]) == trim(l),
{
    let ls = lines(c);
    let new = ls.push(l);
    crate::text::lemma_lines_no_nl(c);
    assert forall|j: int| 0 <= j < ls.len() implies !p(#[trigger] new[j]) by {
        assert(new[j] == ls[j]);
    }
    assert forall|j: int| 0 <= j < new.len() implies crate::text::no_nl(#[trigger] new[j]) by {
        if j < ls.len() {
            assert(new[j] == ls[j]);
        }
    }
    lemma_find_after_edit(new, ls.len() as int, p);
}

/// A key the Redis reader finds again: non-empty, free of whitespace and
/// not opening a comment.
pub open spec fn redis_key_ok(k: Seq<char>) -> bool {
    &&& k.len() > 0
    &&& forall|j: int| 0 <= j < k.len() ==> !crate::text::is_ws(k[j])
    &&& k[0] != '#'
}

pub proof fn lemma_redis_line(k: Seq<char>, v: Seq<char>)
    requires
        redis_key_ok(k),
        trim(v).len() > 0,
        crate::text::no_nl(v),
    ensures
        pred(LineKind::RedisGet, k)(redis_line(k, v)),
        trim_quotes(trim(after_token(trim(redis_line(k, v)))->0)) == trim_quotes(trim(v)),
        crate::text::no_nl(redis_line(k, v)),
{
    let l = redis_line(k, v);
    let te = crate::text::trim_end(v);
    assert(te.len() > 0);
    crate::text::lemma_trim_end_append(k + seq![' '], v);
    assert(l == (k + seq![' ']) + v);
    assert(l[0] == k[0]);
    crate::text::lemma_trim_nonws_first(l);
    let t = (k + seq![' ']) + te;
    assert(trim(l) == t);
    assert(t[k.len() as int] == ' ');
    assert forall|j: int| 0 <= j < k.len() implies !crate::text::is_ws(t[j]) by {
        assert(t[j] == k[j]);
    }
    crate::lineedit::lemma_first_ws_some(t, k.len() as int);
    assert(t.take(k.len() as int) == k);
    assert(t.skip(k.len() as int + 1) == te);
    crate::text::lemma_trim_end_idem(v);
    assert forall|j: int| 0 <= j < l.len() implies l[j] != '\n' by {
        if j < k.len() {
            assert(l[j] == k[j]);
        } else if j > k.len() {
            assert(l[j] == v[j - k.len() - 1]);
        }
    }
}

/// Writing a Redis `key value` and reading the key back gives the value,
/// trimmed and without surrounding quotes. The writer edits the key's
/// active line, else its commented line, else appends one.
pub proof fn law_redis_set_then_get(c: Seq<char>, k: Seq<char>, v: Seq<char>)
    requires
        redis_key_ok(k),
        crate::text::no_nl(v),
        trim(v).len() > 0,
    ensures
        spec_redis_get(spec_redis_set(c, k, v), k) == Some(trim_quotes(trim(v))),
{
    let ls = lines(c);
    let pa = pred(LineKind::RedisActive, k);
    let pg = pred(LineKind::RedisGet, k);
    lemma_pred_trim_only(LineKind::RedisGet, k);
    lemma_redis_line(k, v);
    let l = redis_line(k, v);
    assert(!pg(Seq::empty()));
    crate::text::lemma_first_where_spec(ls, pa);
    crate::text::lemma_first_where_spec(ls, pred(LineKind::RedisCommented, k));
    assert forall|j: int| 0 <= j < ls.len() && !pa(ls[j]) implies !pg(#[trigger] ls[j]) by {}
    if find_line(c, LineKind::RedisActive, k) is Some {
        let i = find_line(c, LineKind::RedisActive, k)->0;
        lemma_read_after_update(c, i, l, pg);
    } else if find_line(c, LineKind::RedisCommented, k) is Some {
        let i = find_line(c, LineKind::RedisCommented, k)->0;
        lemma_read_after_update(c, i, l, pg);
    } else {
        lemma_read_after_push(c, l, pg);
    }
}

/// A key the Nginx reader finds again: non-empty, free of whitespace,
/// and not opening a comment.
pub open spec fn nginx_key_ok(k: Seq<char>) -> bool {
    &&& k.len() > 0
    &&& forall|j: int| 0 <= j < k.len() ==> !crate::text::is_ws(k[j])
    &&& k[0] != '#'
}

/// What the Nginx reader gives back of a written value: leading
/// whitespace, trailing semicolons and surrounding whitespace removed.
pub open spec fn nginx_read_back(v: Seq<char>) -> Seq<char> {
    trim(trim_end_semis(crate::text::trim_start(v)))
}

pub proof fn lemma_nginx_line(l: Seq<char>, k: Seq<char>, v: Seq<char>)
    requires
        nginx_key_ok(k),
        crate::text::no_nl(l),
        crate::text::no_nl(v),
    ensures
        pred(LineKind::NginxDirective, k)(nginx_line(l, k, v)),
        nginx_value(trim(nginx_line(l, k, v)), k) == nginx_read_back(v),
        crate::text::no_nl(nginx_line(l, k, v)),
{
    let ind = indent(l);
    let body = k + seq![' '] + v + seq![';'];
    let line = nginx_line(l, k, v);
    assert(line == ind + body);
    crate::text::lemma_trim_start_props(l);
    assert forall|j: int| 0 <= j < ind.len() implies crate::text::is_ws(line[j]) by {
        assert(line[j] == l[j]);
    }
    crate::text::lemma_trim_start_skip(line, ind.len() as int);
    assert(line.skip(ind.len() as int) == body);
    assert(line.last() == ';');
    assert(crate::text::trim_end(line) == line);
    assert(body[0] == k[0]);
    assert(crate::text::trim_start(body) == body);
    assert(trim(line) == body);
    assert(body.skip(k.len() as int) == seq![' '] + v + seq![';']);
    assert(body.take(k.len() as int) == k);
    let rest = seq![' '] + v + seq![';'];
    assert(rest[0] == ' ');
    crate::text::lemma_trim_props(rest);
    assert(rest.last() == ';');
    assert(crate::text::trim_end(rest) == rest);
    assert(rest.drop_first() == v + seq![';']);
    crate::text::lemma_trim_start_append_char(v, ';');
    assert(crate::text::trim_start(rest) == crate::text::trim_start(v) + seq![';']);
    assert(trim(rest) == crate::text::trim_start(v) + seq![';']);
    let tsv = crate::text::trim_start(v) + seq![';'];
    assert(tsv.last() == ';');
    assert(tsv.drop_last() == crate::text::trim_start(v));
    assert(trim_end_semis(tsv) == trim_end_semis(crate::text::trim_start(v)));
    assert forall|j: int| 0 <= j < line.len() implies line[j] != '\n' by {
        if j < ind.len() {
            assert(line[j] == l[j]);
        } else if j < ind.len() + k.len() {
            assert(line[j] == k[j - ind.len()]);
        } else if j > ind.len() + k.len() && j < line.len() - 1 {
            assert(line[j] == v[j - ind.len() - k.len() - 1]);
        }
    }
}

/// Writing an Nginx `key value;` over the key's active line and reading
/// the key back gives the value (see `nginx_read_back`). The writer only
/// rewrites a line the key already has; it adds none.
pub proof fn law_nginx_set_then_get(c: Seq<char>, k: Seq<char>, v: Seq<char>)
    requires
        nginx_key_ok(k),
        crate::text::no_nl(v),
        find_line(c, LineKind::NginxDirective, k) is Some,
    ensures
        spec_nginx_get(spec_nginx_set(c, k, v), k) == Some(nginx_read_back(v)),
{
    let ls = lines(c);
    let p = pred(LineKind::NginxDirective, k);
    lemma_pred_trim_only(LineKind::NginxDirective, k);
    crate::text::lemma_first_where_spec(ls, p);
    crate::text::lemma_lines_no_nl(c);
    let i = find_line(c, LineKind::NginxDirective, k)->0;
    lemma_nginx_line(ls[i], k, v);
    assert(!p(Seq::empty()));
    lemma_read_after_update(c, i, nginx_line(ls[i], k, v), p);
}

/// Writing a MySQL `key=value` and reading the key back gives the value,
/// trimmed. The writer only edits a line the key already has (active or
/// commented); it appends nothing.
pub proof fn law_ini_set_then_get(c: Seq<char>, k: Seq<char>, v: Seq<char>)
    requires
        ini_key_ok(k),
        crate::text::no_nl(v),
        find_line(c, LineKind::IniActive, k) is Some || find_line(c, LineKind::IniCommented, k) is Some,
    ensures
        spec_ini_get(spec_ini_set(c, k, v), k) == Some(trim(v)),
{
    let ls = lines(c);
    let pa = pred(LineKind::IniActive, k);
    let pg = pred(LineKind::IniGet, k);
    lemma_pred_trim_only(LineKind::IniGet, k);
    lemma_ini_line(k, v);
    let l = ini_line(k, v);
    assert(crate::text::no_nl(l)) by {
        assert forall|j: int| 0 <= j < l.len() implies l[j] != '\n' by {
            if j < k.len() {
                assert(l[j] == k[j]);
            } else if j > k.len() {
                assert(l[j] == v[j - k.len() - 1]);
            }
        }
    }
    assert(pg(l));
    assert(!pg(Seq::empty()));
    let i = if find_line(c, LineKind::IniActive, k) is Some {
        crate::text::lemma_first_where_spec(ls, pa);
        find_line(c, LineKind::IniActive, k)->0
    } else {
        crate::text::lemma_first_where_spec(ls, pa);
        crate::text::lemma_first_where_spec(ls, pred(LineKind::IniCommented, k));
        find_line(c, LineKind::IniCommented, k)->0
    };
    assert forall|j: int| 0 <= j < i implies !pg(#[trigger] ls[j]) by {
        assert(!pa(ls[j]));
    }
    lemma_read_after_update(c, i, l, pg);
}

} // verus!

verus! {

// ======================== Reading with defaults ========================

/// The view of an optional character vector.
pub open spec fn opt_view(o: Option<Vec<char>>) -> Option<Seq<char>> {
    match o {
        Some(v) => Some(v@),
        None => None,
    }
}

/// The text found, else the default.
pub open spec fn text_or(o: Option<Seq<char>>, d: Seq<char>) -> Seq<char> {
    match o {
        Some(v) => v,
        None => d,
    }
}

/// The number the text found parses to (at most `max`), else the default.
pub open spec fn num_or(o: Option<Seq<char>>, max: nat, d: nat) -> nat {
    match o {
        Some(v) => match parse_unsigned(v, max) {
            Some(n) => n,
            None => d,
        },
        None => d,
    }
}

/// Whether the text found is `on`, else the default.
pub open spec fn flag_or(o: Option<Seq<char>>, on: Seq<char>, d: bool) -> bool {
    match o {
        Some(v) => v == on,
        None => d,
    }
}

pub(crate) fn text_or_exec(o: Option<Vec<char>>, d: String) -> (r: String)
    ensures
        r@ == text_or(opt_view(o), d@),
{
    match o {
        Some(v) => string_of(&v),
        None => d,
    }
}

pub(crate) fn num_or_exec(o: Option<Vec<char>>, max: u64, d: u64) -> (r: u64)
    requires
        d <= max,
    ensures
        r == num_or(opt_view(o), max as nat, d as nat),
        r <= max,
{
    match o {
        Some(v) => match parse_unsigned_exec(&v, max) {
            Some(n) => n,
            None => d,
        },
        None => d,
    }
}

pub(crate) fn flag_or_exec(o: Option<Vec<char>>, on: &str, d: bool) -> (r: bool)
    ensures
        r == flag_or(opt_view(o), on@, d),
{
    match o {
        Some(v) => crate::text::eq_str(&v, on),
        None => d,
    }
}

fn ng(c: &[char], key: &str) -> (r: Option<Vec<char>>)
    ensures
        opt_view(r) == spec_nginx_get(c@, key@),
{
    let k = chars_of(key);
    nginx_get(c, &k)
}

/// `on` / `off`.
pub open spec fn on_off(b: bool) -> Seq<char> {
    if b {
        seq!['o', 'n']
    } else {
        seq!['o', 'f', 'f']
    }
}

fn on_off_exec(b: bool) -> (r: Vec<char>)
    ensures
        r@ == on_off(b),
{
    if b {
        vec!['o', 'n']
    } else {
        vec!['o', 'f', 'f']
    }
}

/// An Nginx text setting as read.
pub open spec fn ng_text(c: Seq<char>, k: Seq<char>, d: Seq<char>) -> Seq<char> {
    text_or(spec_nginx_get(c, k), d)
}

/// An Nginx number setting as read.
pub open spec fn ng_num(c: Seq<char>, k: Seq<char>, max: nat, d: nat) -> nat {
    num_or(spec_nginx_get(c, k), max, d)
}

/// An Nginx `on`/`off` setting as read.
pub open spec fn ng_flag(c: Seq<char>, k: Seq<char>, d: bool) -> bool {
    flag_or(spec_nginx_get(c, k), seq!['o', 'n'], d)
}

fn ns(c: Vec<char>, key: &str, v: &[char]) -> (r: Vec<char>)
    ensures
        r@ == spec_nginx_set(c@, key@, v@),
{
    let k = chars_of(key);
    nginx_set(&c, &k, v)
}

fn nsi(c: Vec<char>, key: &str, v: &[char], after: &str) -> (r: Vec<char>)
    ensures
        r@ == spec_nginx_set_or_insert(c@, key@, v@, after@),
{
    let k = chars_of(key);
    let a = chars_of(after);
    nginx_set_or_insert(&c, &k, v, &a)
}

/// The Nginx text after saving `cfg` into `c`: each known directive is
/// rewritten in place; `gzip_level` and `gzip_min_length` are inserted
/// after the last `gzip` line when the file has neither an active nor a
/// commented line for them.
pub open spec fn spec_save_nginx(c: Seq<char>, cfg: NginxConfig) -> Seq<char> {
    let c = spec_nginx_set(c, "worker_processes"@, cfg.worker_processes@);
    let c = spec_nginx_set(c, "worker_connections"@, decimal(cfg.worker_connections as nat));
    let c = spec_nginx_set(c, "worker_rlimit_nofile"@, decimal(cfg.worker_rlimit_nofile as nat));
    let c = spec_nginx_set(c, "keepalive_timeout"@, decimal(cfg.keepalive_timeout as nat));
    let c = spec_nginx_set(c, "keepalive_requests"@, decimal(cfg.keepalive_requests as nat));
    let c = spec_nginx_set(c, "sendfile"@, on_off(cfg.sendfile));
    let c = spec_nginx_set(c, "sendfile_max_chunk"@, cfg.sendfile_max_chunk@);
    let c = spec_nginx_set(c, "client_max_body_size"@, cfg.client_max_body_size@);
    let c = spec_nginx_set(c, "client_body_buffer_size"@, cfg.client_body_buffer_size@);
    let c = spec_nginx_set(c, "client_body_timeout"@, decimal(cfg.client_body_timeout as nat));
    let c = spec_nginx_set(c, "client_header_buffer_size"@, cfg.client_header_buffer_size@);
    let c = spec_nginx_set(c, "client_header_timeout"@, decimal(cfg.client_header_timeout as nat));
    let c = spec_nginx_set(c, "large_client_header_buffers"@, cfg.large_client_header_buffers@);
    let c = spec_nginx_set(c, "send_timeout"@, decimal(cfg.send_timeout as nat));
    let c = spec_nginx_set(c, "reset_timedout_connection"@, on_off(cfg.reset_timedout_connection));
    let c = spec_nginx_set(
        c,
        "server_names_hash_bucket_size"@,
        decimal(cfg.server_names_hash_bucket_size as nat),
    );
    let c = spec_nginx_set(c, "gzip"@, on_off(cfg.gzip));
    let c = spec_nginx_set_or_insert(c, "gzip_level"@, decimal(cfg.gzip_level as nat), "gzip"@);
    spec_nginx_set_or_insert(c, "gzip_min_length"@, decimal(cfg.gzip_min_length as nat), "gzip"@)
}

impl NginxConfig {
    /// The settings of a stock `nginx.conf`.
    pub fn default() -> (d: Self)
        ensures
            d.worker_processes@ == "4"@,
            d.worker_connections == 40960,
            d.worker_rlimit_nofile == 100000,
            d.keepalive_timeout == 3600,
            d.keepalive_requests == 100,
            d.sendfile,
            d.sendfile_max_chunk@ == "512k"@,
            d.client_max_body_size@ == "50m"@,
            d.client_body_buffer_size@ == "60k"@,
            d.client_body_timeout == 60,
            d.client_header_buffer_size@ == "64k"@,
            d.client_header_timeout == 3600,
            d.large_client_header_buffers@ == "4 64k"@,
            d.send_timeout == 3600,
            d.reset_timedout_connection,
            d.server_names_hash_bucket_size == 256,
            !d.gzip,
            d.gzip_level == 6,
            d.gzip_min_length == 1024,
    {
        NginxConfig {
            worker_processes: "4".to_owned(),
            worker_connections: 40960,
            worker_rlimit_nofile: 100000,
            keepalive_timeout: 3600,
            keepalive_requests: 100,
            sendfile: true,
            sendfile_max_chunk: "512k".to_owned(),
            client_max_body_size: "50m".to_owned(),
            client_body_buffer_size: "60k".to_owned(),
            client_body_timeout: 60,
            client_header_buffer_size: "64k".to_owned(),
            client_header_timeout: 3600,
            large_client_header_buffers: "4 64k".to_owned(),
            send_timeout: 3600,
            reset_timedout_connection: true,
            server_names_hash_bucket_size: 256,
            gzip: false,
            gzip_level: 6,
            gzip_min_length: 1024,
        }
    }
}

impl ConfigEditor {
    /// A new editor.
    pub fn new() -> Self {
        ConfigEditor
    }

    /// The Nginx settings of `content`: each directive as the first active
    /// `key value;` line gives it, else its default; a number that does not
    /// parse keeps the default, and a switch is on only when it reads `on`.
    pub fn read_nginx(&self, content: &str) -> (cfg: NginxConfig)
        ensures
            cfg.worker_processes@ == ng_text(content@, "worker_processes"@, "4"@),
            cfg.worker_connections == ng_num(content@, "worker_connections"@, u32::MAX as nat, 40960),
            cfg.worker_rlimit_nofile == ng_num(content@, "worker_rlimit_nofile"@, u32::MAX as nat, 100000),
            cfg.keepalive_timeout == ng_num(content@, "keepalive_timeout"@, u32::MAX as nat, 3600),
            cfg.keepalive_requests == ng_num(content@, "keepalive_requests"@, u32::MAX as nat, 100),
            cfg.sendfile == ng_flag(content@, "sendfile"@, true),
            cfg.sendfile_max_chunk@ == ng_text(content@, "sendfile_max_chunk"@, "512k"@),
            cfg.client_max_body_size@ == ng_text(content@, "client_max_body_size"@, "50m"@),
            cfg.client_body_buffer_size@ == ng_text(content@, "client_body_buffer_size"@, "60k"@),
            cfg.client_body_timeout == ng_num(content@, "client_body_timeout"@, u32::MAX as nat, 60),
            cfg.client_header_buffer_size@ == ng_text(content@, "client_header_buffer_size"@, "64k"@),
            cfg.client_header_timeout == ng_num(content@, "client_header_timeout"@, u32::MAX as nat, 3600),
            cfg.large_client_header_buffers@ == ng_text(
                content@,
                "large_client_header_buffers"@,
                "4 64k"@,
            ),
            cfg.send_timeout == ng_num(content@, "send_timeout"@, u32::MAX as nat, 3600),
            cfg.reset_timedout_connection == ng_flag(content@, "reset_timedout_connection"@, true),
            cfg.server_names_hash_bucket_size == ng_num(
                content@,
                "server_names_hash_bucket_size"@,
                u32::MAX as nat,
                256,
            ),
            cfg.gzip == ng_flag(content@, "gzip"@, false),
            cfg.gzip_level == ng_num(content@, "gzip_level"@, u8::MAX as nat, 6),
            cfg.gzip_min_length == ng_num(content@, "gzip_min_length"@, u32::MAX as nat, 1024),
    {
        proof {
            reveal_strlit("on");
            assert("on"@ =~= seq!['o', 'n']);
        }
        let c = chars_of(content);
        let d = NginxConfig::default();
        let m: u64 = 0xffff_ffff;
        NginxConfig {
            worker_processes: text_or_exec(ng(&c, "worker_processes"), d.worker_processes),
            worker_connections: num_or_exec(ng(&c, "worker_connections"), m, d.worker_connections as u64) as u32,
            worker_rlimit_nofile: num_or_exec(ng(&c, "worker_rlimit_nofile"), m, d.worker_rlimit_nofile as u64) as u32,
            keepalive_timeout: num_or_exec(ng(&c, "keepalive_timeout"), m, d.keepalive_timeout as u64) as u32,
            keepalive_requests: num_or_exec(ng(&c, "keepalive_requests"), m, d.keepalive_requests as u64) as u32,
            sendfile: flag_or_exec(ng(&c, "sendfile"), "on", d.sendfile),
            sendfile_max_chunk: text_or_exec(ng(&c, "sendfile_max_chunk"), d.sendfile_max_chunk),
            client_max_body_size: text_or_exec(ng(&c, "client_max_body_size"), d.client_max_body_size),
            client_body_buffer_size: text_or_exec(ng(&c, "client_body_buffer_size"), d.client_body_buffer_size),
            client_body_timeout: num_or_exec(ng(&c, "client_body_timeout"), m, d.client_body_timeout as u64) as u32,
            client_header_buffer_size: text_or_exec(ng(&c, "client_header_buffer_size"), d.client_header_buffer_size),
            client_header_timeout: num_or_exec(ng(&c, "client_header_timeout"), m, d.client_header_timeout as u64) as u32,
            large_client_header_buffers: text_or_exec(ng(&c, "large_client_header_buffers"), d.large_client_header_buffers),
            send_timeout: num_or_exec(ng(&c, "send_timeout"), m, d.send_timeout as u64) as u32,
            reset_timedout_connection: flag_or_exec(ng(&c, "reset_timedout_connection"), "on", d.reset_timedout_connection),
            server_names_hash_bucket_size: num_or_exec(ng(&c, "server_names_hash_bucket_size"), m, d.server_names_hash_bucket_size as u64) as u32,
            gzip: flag_or_exec(ng(&c, "gzip"), "on", d.gzip),
            gzip_level: num_or_exec(ng(&c, "gzip_level"), 255, d.gzip_level as u64) as u8,
            gzip_min_length: num_or_exec(ng(&c, "gzip_min_length"), m, d.gzip_min_length as u64) as u32,
        }
    }

    /// `content` with the settings of `cfg` written into it (see
    /// `spec_save_nginx`); a `gzip_level` outside 1 to 9, which Nginx
    /// refuses, is rejected before anything is written.
    pub fn save_nginx(&self, content: &str, cfg: &NginxConfig) -> (r: Result<String, String>)
        ensures
            1 <= cfg.gzip_level <= 9 ==> (r matches Ok(s) && s@ == spec_save_nginx(content@, *cfg)),
            !(1 <= cfg.gzip_level <= 9) ==> (r matches Err(m) && m@ == "gzip_level 必须在 1-9 之间"@),
    {
        if cfg.gzip_level < 1 || cfg.gzip_level > 9 {
            return Err(string_of(&chars_of("gzip_level 必须在 1-9 之间")));
        }
        let mut c = chars_of(content);
        c = ns(c, "worker_processes", &chars_of(cfg.worker_processes.as_str()));
        c = ns(c, "worker_connections", &decimal_chars(cfg.worker_connections as u64));
        c = ns(c, "worker_rlimit_nofile", &decimal_chars(cfg.worker_rlimit_nofile as u64));
        c = ns(c, "keepalive_timeout", &decimal_chars(cfg.keepalive_timeout as u64));
        c = ns(c, "keepalive_requests", &decimal_chars(cfg.keepalive_requests as u64));
        c = ns(c, "sendfile", &on_off_exec(cfg.sendfile));
        c = ns(c, "sendfile_max_chunk", &chars_of(cfg.sendfile_max_chunk.as_str()));
        c = ns(c, "client_max_body_size", &chars_of(cfg.client_max_body_size.as_str()));
        c = ns(c, "client_body_buffer_size", &chars_of(cfg.client_body_buffer_size.as_str()));
        c = ns(c, "client_body_timeout", &decimal_chars(cfg.client_body_timeout as u64));
        c = ns(c, "client_header_buffer_size", &chars_of(cfg.client_header_buffer_size.as_str()));
        c = ns(c, "client_header_timeout", &decimal_chars(cfg.client_header_timeout as u64));
        c = ns(c, "large_client_header_buffers", &chars_of(cfg.large_client_header_buffers.as_str()));
        c = ns(c, "send_timeout", &decimal_chars(cfg.send_timeout as u64));
        c = ns(c, "reset_timedout_connection", &on_off_exec(cfg.reset_timedout_connection));
        c = ns(c, "server_names_hash_bucket_size", &decimal_chars(cfg.server_names_hash_bucket_size as u64));
        c = ns(c, "gzip", &on_off_exec(cfg.gzip));
        c = nsi(c, "gzip_level", &decimal_chars(cfg.gzip_level as u64), "gzip");
        c = nsi(c, "gzip_min_length", &decimal_chars(cfg.gzip_min_length as u64), "gzip");
        Ok(string_of(&c))
    }
}


// ======================== MySQL ========================

fn ig(c: &[char], key: &str) -> (r: Option<Vec<char>>)
    ensures
        opt_view(r) == spec_ini_get(c@, key@),
{
    let k = chars_of(key);
    ini_get(c, &k)
}

fn is(c: Vec<char>, key: &str, v: &[char]) -> (r: Vec<char>)
    ensures
        r@ == spec_ini_set(c@, key@, v@),
{
    let k = chars_of(key);
    ini_set(&c, &k, v)
}

/// A MySQL text setting as read.
pub open spec fn ig_text(c: Seq<char>, k: Seq<char>, d: Seq<char>) -> Seq<char> {
    text_or(spec_ini_get(c, k), d)
}

/// A MySQL number setting as read.
pub open spec fn ig_num(c: Seq<char>, k: Seq<char>, max: nat, d: nat) -> nat {
    num_or(spec_ini_get(c, k), max, d)
}

/// The MySQL text after saving `cfg` into `c`: each known key is
/// rewritten where the file has it, active or commented; no key is added.
pub open spec fn spec_save_mysql(c: Seq<char>, cfg: MysqlConfig) -> Seq<char> {
    let c = spec_ini_set(c, "port"@, decimal(cfg.port as nat));
    let c = spec_ini_set(c, "max_connections"@, decimal(cfg.max_connections as nat));
    let c = spec_ini_set(c, "max_allowed_packet"@, cfg.max_allowed_packet@);
    let c = spec_ini_set(c, "innodb_buffer_pool_size"@, cfg.innodb_buffer_pool_size@);
    let c = spec_ini_set(c, "innodb_log_file_size"@, cfg.innodb_log_file_size@);
    let c = spec_ini_set(c, "innodb_log_buffer_size"@, cfg.innodb_log_buffer_size@);
    let c = spec_ini_set(c, "innodb_flush_log_at_trx_commit"@, decimal(cfg.innodb_flush_log_at_trx_commit as nat));
    let c = spec_ini_set(c, "innodb_lock_wait_timeout"@, decimal(cfg.innodb_lock_wait_timeout as nat));
    let c = spec_ini_set(c, "character-set-server"@, cfg.character_set_server@);
    let c = spec_ini_set(c, "collation-server"@, cfg.collation_server@);
    let c = spec_ini_set(c, "init_connect"@, cfg.init_connect@);
    let c = spec_ini_set(c, "key_buffer_size"@, cfg.key_buffer_size@);
    let c = spec_ini_set(c, "table_open_cache"@, decimal(cfg.table_open_cache as nat));
    let c = spec_ini_set(c, "tmp_table_size"@, cfg.tmp_table_size@);
    let c = spec_ini_set(c, "max_heap_table_size"@, cfg.max_heap_table_size@);
    let c = spec_ini_set(c, "interactive_timeout"@, decimal(cfg.interactive_timeout as nat));
    let c = spec_ini_set(c, "wait_timeout"@, decimal(cfg.wait_timeout as nat));
    let c = spec_ini_set(c, "sort_buffer_size"@, cfg.sort_buffer_size@);
    let c = spec_ini_set(c, "read_buffer_size"@, cfg.read_buffer_size@);
    let c = spec_ini_set(c, "read_rnd_buffer_size"@, cfg.read_rnd_buffer_size@);
    let c = spec_ini_set(c, "join_buffer_size"@, cfg.join_buffer_size@);
    let c = spec_ini_set(c, "myisam_sort_buffer_size"@, cfg.myisam_sort_buffer_size@);
    let c = spec_ini_set(c, "thread_cache_size"@, decimal(cfg.thread_cache_size as nat));
    let c = spec_ini_set(c, "log_error_verbosity"@, decimal(cfg.log_error_verbosity as nat));
    spec_ini_set(c, "default-storage-engine"@, cfg.default_storage_engine@)
}

impl MysqlConfig {
    /// The settings of a stock `my.ini`.
    pub fn default() -> (d: Self)
        ensures
            d.port == 3306,
            d.max_connections == 100,
            d.max_allowed_packet@ == "16M"@,
            d.innodb_buffer_pool_size@ == "64M"@,
            d.innodb_log_file_size@ == "256M"@,
            d.innodb_log_buffer_size@ == "4M"@,
            d.innodb_flush_log_at_trx_commit == 1,
            d.innodb_lock_wait_timeout == 120,
            d.character_set_server@ == "utf8"@,
            d.collation_server@ == "utf8_unicode_ci"@,
            d.init_connect@ == "SET NAMES utf8"@,
            d.key_buffer_size@ == "32M"@,
            d.table_open_cache == 256,
            d.tmp_table_size@ == "64M"@,
            d.max_heap_table_size@ == "64M"@,
            d.interactive_timeout == 120,
            d.wait_timeout == 120,
            d.sort_buffer_size@ == "256kb"@,
            d.read_buffer_size@ == "512kb"@,
            d.read_rnd_buffer_size@ == "4M"@,
            d.join_buffer_size@ == "2M"@,
            d.myisam_sort_buffer_size@ == "32M"@,
            d.thread_cache_size == 16,
            d.log_error_verbosity == 1,
            d.default_storage_engine@ == "MyISAM"@,
    {
        MysqlConfig {
            port: 3306,
            max_connections: 100,
            max_allowed_packet: "16M".to_owned(),
            innodb_buffer_pool_size: "64M".to_owned(),
            innodb_log_file_size: "256M".to_owned(),
            innodb_log_buffer_size: "4M".to_owned(),
            innodb_flush_log_at_trx_commit: 1,
            innodb_lock_wait_timeout: 120,
            character_set_server: "utf8".to_owned(),
            collation_server: "utf8_unicode_ci".to_owned(),
            init_connect: "SET NAMES utf8".to_owned(),
            key_buffer_size: "32M".to_owned(),
            table_open_cache: 256,
            tmp_table_size: "64M".to_owned(),
            max_heap_table_size: "64M".to_owned(),
            interactive_timeout: 120,
            wait_timeout: 120,
            sort_buffer_size: "256kb".to_owned(),
            read_buffer_size: "512kb".to_owned(),
            read_rnd_buffer_size: "4M".to_owned(),
            join_buffer_size: "2M".to_owned(),
            myisam_sort_buffer_size: "32M".to_owned(),
            thread_cache_size: 16,
            log_error_verbosity: 1,
            default_storage_engine: "MyISAM".to_owned(),
        }
    }
}

impl ConfigEditor {
    /// The MySQL settings of `content`: each key as the first active
    /// `key=value` line gives it (value trimmed), else its default; a number
    /// that does not parse keeps the default.
    pub fn read_mysql(&self, content: &str) -> (cfg: MysqlConfig)
        ensures
            cfg.port == ig_num(content@, "port"@, u16::MAX as nat, 3306),
            cfg.max_connections == ig_num(content@, "max_connections"@, u32::MAX as nat, 100),
            cfg.max_allowed_packet@ == ig_text(content@, "max_allowed_packet"@, "16M"@),
            cfg.innodb_buffer_pool_size@ == ig_text(content@, "innodb_buffer_pool_size"@, "64M"@),
            cfg.innodb_log_file_size@ == ig_text(content@, "innodb_log_file_size"@, "256M"@),
            cfg.innodb_log_buffer_size@ == ig_text(content@, "innodb_log_buffer_size"@, "4M"@),
            cfg.innodb_flush_log_at_trx_commit == ig_num(content@, "innodb_flush_log_at_trx_commit"@, u8::MAX as nat, 1),
            cfg.innodb_lock_wait_timeout == ig_num(content@, "innodb_lock_wait_timeout"@, u32::MAX as nat, 120),
            cfg.character_set_server@ == ig_text(content@, "character-set-server"@, "utf8"@),
            cfg.collation_server@ == ig_text(content@, "collation-server"@, "utf8_unicode_ci"@),
            cfg.init_connect@ == ig_text(content@, "init_connect"@, "SET NAMES utf8"@),
            cfg.key_buffer_size@ == ig_text(content@, "key_buffer_size"@, "32M"@),
            cfg.table_open_cache == ig_num(content@, "table_open_cache"@, u32::MAX as nat, 256),
            cfg.tmp_table_size@ == ig_text(content@, "tmp_table_size"@, "64M"@),
            cfg.max_heap_table_size@ == ig_text(content@, "max_heap_table_size"@, "64M"@),
            cfg.interactive_timeout == ig_num(content@, "interactive_timeout"@, u32::MAX as nat, 120),
            cfg.wait_timeout == ig_num(content@, "wait_timeout"@, u32::MAX as nat, 120),
            cfg.sort_buffer_size@ == ig_text(content@, "sort_buffer_size"@, "256kb"@),
            cfg.read_buffer_size@ == ig_text(content@, "read_buffer_size"@, "512kb"@),
            cfg.read_rnd_buffer_size@ == ig_text(content@, "read_rnd_buffer_size"@, "4M"@),
            cfg.join_buffer_size@ == ig_text(content@, "join_buffer_size"@, "2M"@),
            cfg.myisam_sort_buffer_size@ == ig_text(content@, "myisam_sort_buffer_size"@, "32M"@),
            cfg.thread_cache_size == ig_num(content@, "thread_cache_size"@, u32::MAX as nat, 16),
            cfg.log_error_verbosity == ig_num(content@, "log_error_verbosity"@, u8::MAX as nat, 1),
            cfg.default_storage_engine@ == ig_text(content@, "default-storage-engine"@, "MyISAM"@),
    {
        let c = chars_of(content);
        let d = MysqlConfig::default();
        let m: u64 = 0xffff_ffff;
        MysqlConfig {
            port: num_or_exec(ig(&c, "port"), 65535, d.port as u64) as u16,
            max_connections: num_or_exec(ig(&c, "max_connections"), m, d.max_connections as u64) as u32,
            max_allowed_packet: text_or_exec(ig(&c, "max_allowed_packet"), d.max_allowed_packet),
            innodb_buffer_pool_size: text_or_exec(ig(&c, "innodb_buffer_pool_size"), d.innodb_buffer_pool_size),
            innodb_log_file_size: text_or_exec(ig(&c, "innodb_log_file_size"), d.innodb_log_file_size),
            innodb_log_buffer_size: text_or_exec(ig(&c, "innodb_log_buffer_size"), d.innodb_log_buffer_size),
            innodb_flush_log_at_trx_commit: num_or_exec(ig(&c, "innodb_flush_log_at_trx_commit"), 255, d.innodb_flush_log_at_trx_commit as u64) as u8,
            innodb_lock_wait_timeout: num_or_exec(ig(&c, "innodb_lock_wait_timeout"), m, d.innodb_lock_wait_timeout as u64) as u32,
            character_set_server: text_or_exec(ig(&c, "character-set-server"), d.character_set_server),
            collation_server: text_or_exec(ig(&c, "collation-server"), d.collation_server),
            init_connect: text_or_exec(ig(&c, "init_connect"), d.init_connect),
            key_buffer_size: text_or_exec(ig(&c, "key_buffer_size"), d.key_buffer_size),
            table_open_cache: num_or_exec(ig(&c, "table_open_cache"), m, d.table_open_cache as u64) as u32,
            tmp_table_size: text_or_exec(ig(&c, "tmp_table_size"), d.tmp_table_size),
            max_heap_table_size: text_or_exec(ig(&c, "max_heap_table_size"), d.max_heap_table_size),
            interactive_timeout: num_or_exec(ig(&c, "interactive_timeout"), m, d.interactive_timeout as u64) as u32,
            wait_timeout: num_or_exec(ig(&c, "wait_timeout"), m, d.wait_timeout as u64) as u32,
            sort_buffer_size: text_or_exec(ig(&c, "sort_buffer_size"), d.sort_buffer_size),
            read_buffer_size: text_or_exec(ig(&c, "read_buffer_size"), d.read_buffer_size),
            read_rnd_buffer_size: text_or_exec(ig(&c, "read_rnd_buffer_size"), d.read_rnd_buffer_size),
            join_buffer_size: text_or_exec(ig(&c, "join_buffer_size"), d.join_buffer_size),
            myisam_sort_buffer_size: text_or_exec(ig(&c, "myisam_sort_buffer_size"), d.myisam_sort_buffer_size),
            thread_cache_size: num_or_exec(ig(&c, "thread_cache_size"), m, d.thread_cache_size as u64) as u32,
            log_error_verbosity: num_or_exec(ig(&c, "log_error_verbosity"), 255, d.log_error_verbosity as u64) as u8,
            default_storage_engine: text_or_exec(ig(&c, "default-storage-engine"), d.default_storage_engine),
        }
    }

    /// `content` with the settings of `cfg` written into it (see
    /// `spec_save_mysql`).
    pub fn save_mysql(&self, content: &str, cfg: &MysqlConfig) -> (r: String)
        ensures
            r@ == spec_save_mysql(content@, *cfg),
    {
        let mut c = chars_of(content);
        c = is(c, "port", &decimal_chars(cfg.port as u64));
        c = is(c, "max_connections", &decimal_chars(cfg.max_connections as u64));
        c = is(c, "max_allowed_packet", &chars_of(cfg.max_allowed_packet.as_str()));
        c = is(c, "innodb_buffer_pool_size", &chars_of(cfg.innodb_buffer_pool_size.as_str()));
        c = is(c, "innodb_log_file_size", &chars_of(cfg.innodb_log_file_size.as_str()));
        c = is(c, "innodb_log_buffer_size", &chars_of(cfg.innodb_log_buffer_size.as_str()));
        c = is(c, "innodb_flush_log_at_trx_commit", &decimal_chars(cfg.innodb_flush_log_at_trx_commit as u64));
        c = is(c, "innodb_lock_wait_timeout", &decimal_chars(cfg.innodb_lock_wait_timeout as u64));
        c = is(c, "character-set-server", &chars_of(cfg.character_set_server.as_str()));
        c = is(c, "collation-server", &chars_of(cfg.collation_server.as_str()));
        c = is(c, "init_connect", &chars_of(cfg.init_connect.as_str()));
        c = is(c, "key_buffer_size", &chars_of(cfg.key_buffer_size.as_str()));
        c = is(c, "table_open_cache", &decimal_chars(cfg.table_open_cache as u64));
        c = is(c, "tmp_table_size", &chars_of(cfg.tmp_table_size.as_str()));
        c = is(c, "max_heap_table_size", &chars_of(cfg.max_heap_table_size.as_str()));
        c = is(c, "interactive_timeout", &decimal_chars(cfg.interactive_timeout as u64));
        c = is(c, "wait_timeout", &decimal_chars(cfg.wait_timeout as u64));
        c = is(c, "sort_buffer_size", &chars_of(cfg.sort_buffer_size.as_str()));
        c = is(c, "read_buffer_size", &chars_of(cfg.read_buffer_size.as_str()));
        c = is(c, "read_rnd_buffer_size", &chars_of(cfg.read_rnd_buffer_size.as_str()));
        c = is(c, "join_buffer_size", &chars_of(cfg.join_buffer_size.as_str()));
        c = is(c, "myisam_sort_buffer_size", &chars_of(cfg.myisam_sort_buffer_size.as_str()));
        c = is(c, "thread_cache_size", &decimal_chars(cfg.thread_cache_size as u64));
        c = is(c, "log_error_verbosity", &decimal_chars(cfg.log_error_verbosity as u64));
        c = is(c, "default-storage-engine", &chars_of(cfg.default_storage_engine.as_str()));
        string_of(&c)
    }
}


// ======================== Redis ========================

fn rg(c: &[char], key: &str) -> (r: Option<Vec<char>>)
    ensures
        opt_view(r) == spec_redis_get(c@, key@),
{
    let k = chars_of(key);
    redis_get(c, &k)
}

fn rs(c: Vec<char>, key: &str, v: &[char]) -> (r: Vec<char>)
    ensures
        r@ == spec_redis_set(c@, key@, v@),
{
    let k = chars_of(key);
    redis_set(&c, &k, v)
}

/// `yes` / `no`.
pub open spec fn yes_no(b: bool) -> Seq<char> {
    if b {
        seq!['y', 'e', 's']
    } else {
        seq!['n', 'o']
    }
}

fn yes_no_exec(b: bool) -> (r: Vec<char>)
    ensures
        r@ == yes_no(b),
{
    if b {
        vec!['y', 'e', 's']
    } else {
        vec!['n', 'o']
    }
}

/// A Redis text setting as read.
pub open spec fn rg_text(c: Seq<char>, k: Seq<char>, d: Seq<char>) -> Seq<char> {
    text_or(spec_redis_get(c, k), d)
}

/// A Redis number setting as read.
pub open spec fn rg_num(c: Seq<char>, k: Seq<char>, max: nat, d: nat) -> nat {
    num_or(spec_redis_get(c, k), max, d)
}

/// A Redis `yes`/`no` setting as read.
pub open spec fn rg_flag(c: Seq<char>, k: Seq<char>, d: bool) -> bool {
    flag_or(spec_redis_get(c, k), seq!['y', 'e', 's'], d)
}

/// The rules of the `save ...` lines, in file order: each trimmed line
/// that begins with `save ` gives the text after that prefix.
pub open spec fn save_rules_of(ls: Seq<Seq<char>>) -> Seq<Seq<char>>
    decreases ls.len(),
{
    if ls.len() == 0 {
        Seq::empty()
    } else {
        let rest = save_rules_of(ls.drop_last());
        let t = trim(ls.last());
        if starts_with(t, "save "@) {
            rest.push(t.skip("save "@.len() as int))
        } else {
            rest
        }
    }
}

/// The parts joined with `sep` between them.
pub open spec fn join_sep(parts: Seq<Seq<char>>, sep: Seq<char>) -> Seq<char>
    decreases parts.len(),
{
    if parts.len() == 0 {
        Seq::empty()
    } else if parts.len() == 1 {
        parts[0]
    } else {
        join_sep(parts.drop_last(), sep) + sep + parts.last()
    }
}

/// The save rules shown in the editor: the rules joined with ` / `, or
/// the default when the file has none.
pub open spec fn spec_save_rules(c: Seq<char>) -> Seq<char> {
    let rules = save_rules_of(lines(c));
    if rules.len() == 0 {
        "900 1 300 10 60 10000"@
    } else {
        join_sep(rules, " / "@)
    }
}

fn save_rules_exec(c: &[char]) -> (r: Vec<Vec<char>>)
    ensures
        views(r@) == save_rules_of(lines(c@)),
{
    let ls = lines_vec(c);
    let p = chars_of("save ");
    let mut r: Vec<Vec<char>> = Vec::new();
    let mut i: usize = 0;
    while i < ls.len()
        invariant
            i <= ls.len(),
            views(ls@) == lines(c@),
            p@ == "save "@,
            views(r@) == save_rules_of(views(ls@).take(i as int)),
        decreases ls.len() - i,
    {
        let ghost pre = views(ls@).take(i as int);
        assert(views(ls@).take(i + 1).drop_last() == pre);
        assert(views(ls@).take(i + 1).last() == ls@[i as int]@);
        let t = trim_of(&ls[i]);
        if crate::text::starts_with_chars(&t, &p) {
            let rest = slice_of(&t, p.len(), t.len());
            assert(rest@ == t@.skip(p@.len() as int));
            r.push(rest);
        }
        assert(views(r@) =~= save_rules_of(views(ls@).take(i + 1)));
        i += 1;
    }
    assert(views(ls@).take(ls.len() as int) == views(ls@));
    r
}

pub(crate) fn join_sep_exec(parts: &Vec<Vec<char>>, sep: &[char]) -> (r: Vec<char>)
    ensures
        r@ == join_sep(views(parts@), sep@),
{
    let mut r: Vec<char> = Vec::new();
    let mut i: usize = 0;
    while i < parts.len()
        invariant
            i <= parts.len(),
            r@ == join_sep(views(parts@).take(i as int), sep@),
        decreases parts.len() - i,
    {
        let ghost pre = views(parts@).take(i as int);
        assert(views(parts@).take(i + 1).drop_last() == pre);
        assert(views(parts@).take(i + 1).last() == parts@[i as int]@);
        if i > 0 {
            append(&mut r, sep);
        } else {
            assert(pre.len() == 0);
        }
        append(&mut r, &parts[i]);
        i += 1;
    }
    assert(views(parts@).take(parts.len() as int) == views(parts@));
    r
}

/// The Redis text after saving `cfg` into `c`: each known key is
/// rewritten in place, uncommented, or appended; an empty password
/// comments out the active `requirepass` line instead.
pub open spec fn spec_save_redis(c: Seq<char>, cfg: RedisConfig) -> Seq<char> {
    let c = spec_redis_set(c, "port"@, decimal(cfg.port as nat));
    let c = spec_redis_set(c, "bind"@, cfg.bind@);
    let c = spec_redis_set(c, "timeout"@, decimal(cfg.timeout as nat));
    let c = spec_redis_set(c, "databases"@, decimal(cfg.databases as nat));
    let c = spec_redis_set(c, "maxmemory"@, cfg.maxmemory@);
    let c = spec_redis_set(c, "maxclients"@, decimal(cfg.maxclients as nat));
    let c = spec_redis_set(c, "maxmemory-policy"@, cfg.maxmemory_policy@);
    let c = spec_redis_set(c, "tcp-backlog"@, decimal(cfg.tcp_backlog as nat));
    let c = spec_redis_set(c, "tcp-keepalive"@, decimal(cfg.tcp_keepalive as nat));
    let c = spec_redis_set(c, "loglevel"@, cfg.loglevel@);
    let c = spec_redis_set(c, "rdbcompression"@, yes_no(cfg.rdbcompression));
    let c = spec_redis_set(c, "appendonly"@, yes_no(cfg.appendonly));
    let c = spec_redis_set(c, "appendfsync"@, cfg.appendfsync@);
    let c = if cfg.requirepass@.len() == 0 {
        spec_redis_comment(c, "requirepass"@)
    } else {
        spec_redis_set(c, "requirepass"@, cfg.requirepass@)
    };
    let c = spec_redis_set(c, "rdbchecksum"@, yes_no(cfg.rdbchecksum));
    let c = spec_redis_set(c, "dbfilename"@, cfg.dbfilename@);
    let c = spec_redis_set(c, "dir"@, cfg.dir@);
    spec_redis_set(c, "stop-writes-on-bgsave-error"@, yes_no(cfg.stop_writes_on_bgsave_error))
}

impl RedisConfig {
    /// The settings of a stock `redis.windows.conf`.
    pub fn default() -> (d: Self)
        ensures
            d.port == 6379,
            d.bind@ == "127.0.0.1"@,
            d.timeout == 0,
            d.databases == 16,
            d.maxmemory@ == "1048576000"@,
            d.maxclients == 10000,
            d.maxmemory_policy@ == "noeviction"@,
            d.tcp_backlog == 511,
            d.tcp_keepalive == 0,
            d.loglevel@ == "notice"@,
            d.save_rules@ == "900 1 300 10 60 10000"@,
            d.rdbcompression == true,
            d.appendonly == false,
            d.appendfsync@ == "everysec"@,
            d.requirepass@ == Seq::<char>::empty(),
            d.logfile@ == Seq::<char>::empty(),
            d.rdbchecksum == true,
            d.dbfilename@ == "dump.rdb"@,
            d.dir@ == "./"@,
            d.stop_writes_on_bgsave_error == true,
    {
        RedisConfig {
            port: 6379,
            bind: "127.0.0.1".to_owned(),
            timeout: 0,
            databases: 16,
            maxmemory: "1048576000".to_owned(),
            maxclients: 10000,
            maxmemory_policy: "noeviction".to_owned(),
            tcp_backlog: 511,
            tcp_keepalive: 0,
            loglevel: "notice".to_owned(),
            save_rules: "900 1 300 10 60 10000".to_owned(),
            rdbcompression: true,
            appendonly: false,
            appendfsync: "everysec".to_owned(),
            requirepass: String::new(),
            logfile: String::new(),
            rdbchecksum: true,
            dbfilename: "dump.rdb".to_owned(),
            dir: "./".to_owned(),
            stop_writes_on_bgsave_error: true,
        }
    }
}

impl ConfigEditor {
    /// The Redis settings of `content`: each key as the first active
    /// `key value` line gives it (value trimmed, quotes removed), else its
    /// default; a number that does not parse keeps the default, a switch
    /// is on only when it reads `yes`, and the save rules are those of the
    /// `save` lines joined with ` / `.
    pub fn read_redis(&self, content: &str) -> (cfg: RedisConfig)
        ensures
            cfg.port == rg_num(content@, "port"@, u16::MAX as nat, 6379),
            cfg.bind@ == rg_text(content@, "bind"@, "127.0.0.1"@),
            cfg.timeout == rg_num(content@, "timeout"@, u32::MAX as nat, 0),
            cfg.databases == rg_num(content@, "databases"@, u16::MAX as nat, 16),
            cfg.maxmemory@ == rg_text(content@, "maxmemory"@, "1048576000"@),
            cfg.maxclients == rg_num(content@, "maxclients"@, u32::MAX as nat, 10000),
            cfg.maxmemory_policy@ == rg_text(content@, "maxmemory-policy"@, "noeviction"@),
            cfg.tcp_backlog == rg_num(content@, "tcp-backlog"@, u32::MAX as nat, 511),
            cfg.tcp_keepalive == rg_num(content@, "tcp-keepalive"@, u32::MAX as nat, 0),
            cfg.loglevel@ == rg_text(content@, "loglevel"@, "notice"@),
            cfg.rdbcompression == rg_flag(content@, "rdbcompression"@, true),
            cfg.appendonly == rg_flag(content@, "appendonly"@, false),
            cfg.appendfsync@ == rg_text(content@, "appendfsync"@, "everysec"@),
            cfg.requirepass@ == rg_text(content@, "requirepass"@, Seq::empty()),
            cfg.logfile@ == rg_text(content@, "logfile"@, Seq::empty()),
            cfg.rdbchecksum == rg_flag(content@, "rdbchecksum"@, true),
            cfg.dbfilename@ == rg_text(content@, "dbfilename"@, "dump.rdb"@),
            cfg.dir@ == rg_text(content@, "dir"@, "./"@),
            cfg.stop_writes_on_bgsave_error == rg_flag(content@, "stop-writes-on-bgsave-error"@, true),
            cfg.save_rules@ == spec_save_rules(content@),
    {
        proof {
            reveal_strlit("yes");
            assert("yes"@ =~= seq!['y', 'e', 's']);
        }
        let c = chars_of(content);
        let d = RedisConfig::default();
        let m: u64 = 0xffff_ffff;
        let rules = save_rules_exec(&c);
        let save_rules = if rules.len() == 0 {
            d.save_rules
        } else {
            let j = join_sep_exec(&rules, &chars_of(" / "));
            string_of(&j)
        };
        RedisConfig {
            port: num_or_exec(rg(&c, "port"), 65535, d.port as u64) as u16,
            bind: text_or_exec(rg(&c, "bind"), d.bind),
            timeout: num_or_exec(rg(&c, "timeout"), m, d.timeout as u64) as u32,
            databases: num_or_exec(rg(&c, "databases"), 65535, d.databases as u64) as u16,
            maxmemory: text_or_exec(rg(&c, "maxmemory"), d.maxmemory),
            maxclients: num_or_exec(rg(&c, "maxclients"), m, d.maxclients as u64) as u32,
            maxmemory_policy: text_or_exec(rg(&c, "maxmemory-policy"), d.maxmemory_policy),
            tcp_backlog: num_or_exec(rg(&c, "tcp-backlog"), m, d.tcp_backlog as u64) as u32,
            tcp_keepalive: num_or_exec(rg(&c, "tcp-keepalive"), m, d.tcp_keepalive as u64) as u32,
            loglevel: text_or_exec(rg(&c, "loglevel"), d.loglevel),
            save_rules,
            rdbcompression: flag_or_exec(rg(&c, "rdbcompression"), "yes", d.rdbcompression),
            appendonly: flag_or_exec(rg(&c, "appendonly"), "yes", d.appendonly),
            appendfsync: text_or_exec(rg(&c, "appendfsync"), d.appendfsync),
            requirepass: text_or_exec(rg(&c, "requirepass"), d.requirepass),
            logfile: text_or_exec(rg(&c, "logfile"), d.logfile),
            rdbchecksum: flag_or_exec(rg(&c, "rdbchecksum"), "yes", d.rdbchecksum),
            dbfilename: text_or_exec(rg(&c, "dbfilename"), d.dbfilename),
            dir: text_or_exec(rg(&c, "dir"), d.dir),
            stop_writes_on_bgsave_error: flag_or_exec(rg(&c, "stop-writes-on-bgsave-error"), "yes", d.stop_writes_on_bgsave_error),
        }
    }

    /// `content` with the settings of `cfg` written into it (see
    /// `spec_save_redis`).
    pub fn save_redis(&self, content: &str, cfg: &RedisConfig) -> (r: String)
        ensures
            r@ == spec_save_redis(content@, *cfg),
    {
        let mut c = chars_of(content);
        c = rs(c, "port", &decimal_chars(cfg.port as u64));
        c = rs(c, "bind", &chars_of(cfg.bind.as_str()));
        c = rs(c, "timeout", &decimal_chars(cfg.timeout as u64));
        c = rs(c, "databases", &decimal_chars(cfg.databases as u64));
        c = rs(c, "maxmemory", &chars_of(cfg.maxmemory.as_str()));
        c = rs(c, "maxclients", &decimal_chars(cfg.maxclients as u64));
        c = rs(c, "maxmemory-policy", &chars_of(cfg.maxmemory_policy.as_str()));
        c = rs(c, "tcp-backlog", &decimal_chars(cfg.tcp_backlog as u64));
        c = rs(c, "tcp-keepalive", &decimal_chars(cfg.tcp_keepalive as u64));
        c = rs(c, "loglevel", &chars_of(cfg.loglevel.as_str()));
        c = rs(c, "rdbcompression", &yes_no_exec(cfg.rdbcompression));
        c = rs(c, "appendonly", &yes_no_exec(cfg.appendonly));
        c = rs(c, "appendfsync", &chars_of(cfg.appendfsync.as_str()));
        if cfg.requirepass.as_str().is_empty() {
            let k = chars_of("requirepass");
            c = redis_comment(&c, &k);
        } else {
            c = rs(c, "requirepass", &chars_of(cfg.requirepass.as_str()));
        }
        c = rs(c, "rdbchecksum", &yes_no_exec(cfg.rdbchecksum));
        c = rs(c, "dbfilename", &chars_of(cfg.dbfilename.as_str()));
        c = rs(c, "dir", &chars_of(cfg.dir.as_str()));
        c = rs(c, "stop-writes-on-bgsave-error", &yes_no_exec(cfg.stop_writes_on_bgsave_error));
        string_of(&c)
    }
}

} // verus!
