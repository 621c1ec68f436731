//! Laws over a whole save followed by a read of a service's main
//! configuration file: what the editor writes for every setting, the reader
//! gives back, and a write of one setting leaves every other as it was.

use vstd::prelude::*;
use crate::text::{
    first_where, is_ws, join_lines, lemma_first_where_found, lemma_first_where_none,
    lemma_first_where_relined, lemma_first_where_spec, lemma_lines_join, lemma_lines_no_nl, lines,
    no_nl, trim, trim_only,
};
use crate::lineedit::{LineKind, find_line, nginx_directive, pred};
use crate::num::{decimal, lemma_decimal_digits, lemma_parse_decimal, parse_i32, signed_decimal};
use crate::php::{
    PhpIniSettings, law_php_set_then_get, on_off_cap, one_zero, php_flag, php_int, php_key_ok, php_num,
    php_text, save_basic_settings, save_extra_settings, save_opcache_session_settings,
    spec_php_get, spec_php_set, spec_save_ini_settings,
};
use crate::config_editor::{
    MysqlConfig, NginxConfig, RedisConfig, law_redis_set_then_get, lemma_redis_line, redis_key_ok,
    redis_line, rg_flag, rg_num, rg_text, spec_redis_comment, spec_redis_get, spec_redis_set, spec_save_redis,
    trim_quotes, trim_quotes_end, trim_quotes_start, yes_no, ig_num, ig_text, ini_key_ok, ini_line, law_ini_set_then_get,
    lemma_ini_line, lemma_nginx_line, lemma_pred_trim_only, law_nginx_set_then_get, ng_flag, ng_num,
    ng_text, nginx_key_ok, nginx_line, nginx_read_back, on_off, spec_nginx_get, spec_nginx_set,
    spec_ini_get, spec_ini_set, spec_nginx_set_or_insert, spec_save_mysql, spec_save_nginx,
    trim_end_semis,
};

verus! {

// ======================== Edits that leave a line kind alone ========================

/// Replacing an element on which `p` fails by one on which it fails too
/// leaves the first match of `p` where it was.
pub proof fn lemma_first_where_update(
    s: Seq<Seq<char>>,
    i: int,
    x: Seq<char>,
    p: spec_fn(Seq<char>) -> bool,
)
    requires
        0 <= i < s.len(),
        !p(s[i]),
        !p(x),
    ensures
        first_where(s.update(i, x), p) == first_where(s, p),
{
    let u = s.update(i, x);
    lemma_first_where_spec(s, p);
    match first_where(s, p) {
        Some(j) => {
            assert forall|m: int| 0 <= m < j implies !p(#[trigger] u[m]) by {
                if m != i {
                    assert(u[m] == s[m]);
                }
            }
            assert(u[j] == s[j]);
            lemma_first_where_found(u, p, j);
        },
        None => {
            assert forall|m: int| 0 <= m < u.len() implies !p(#[trigger] u[m]) by {
                if m != i {
                    assert(u[m] == s[m]);
                }
            }
            lemma_first_where_none(u, p);
        },
    }
}

/// Rewriting line `i` of `c` by `l`, where `p` matches neither, leaves the
/// first line `p` matches, and that line's trimmed text, as they were.
pub proof fn lemma_edit_frame(c: Seq<char>, i: int, l: Seq<char>, p: spec_fn(Seq<char>) -> bool)
    requires
        0 <= i < lines(c).len(),
        !p(lines(c)[i]),
        !p(l),
        no_nl(l),
        trim_only(p),
        !p(Seq::empty()),
    ensures
        first_where(lines(join_lines(lines(c).update(i, l))), p) == first_where(lines(c), p),
        first_where(lines(c), p) matches Some(j) ==> trim(
            lines(join_lines(lines(c).update(i, l)))[j],
        ) == trim(lines(c)[j]),
{
    let ls = lines(c);
    let new = ls.update(i, l);
    lemma_lines_no_nl(c);
    assert forall|j: int| 0 <= j < new.len() implies no_nl(#[trigger] new[j]) by {
        if j != i {
            assert(new[j] == ls[j]);
        }
    }
    lemma_lines_join(new);
    lemma_first_where_relined(new, p);
    lemma_first_where_update(ls, i, l, p);
    lemma_first_where_spec(ls, p);
}

/// Re-joining the lines of `c` leaves the first line `p` matches, and that
/// line's trimmed text, as they were.
pub proof fn lemma_rejoin_frame(c: Seq<char>, p: spec_fn(Seq<char>) -> bool)
    requires
        trim_only(p),
        !p(Seq::empty()),
    ensures
        first_where(lines(join_lines(lines(c))), p) == first_where(lines(c), p),
        first_where(lines(c), p) matches Some(j) ==> trim(lines(join_lines(lines(c)))[j]) == trim(
            lines(c)[j],
        ),
{
    lemma_lines_no_nl(c);
    lemma_lines_join(lines(c));
    lemma_first_where_relined(lines(c), p);
}

// ======================== Nginx ========================

/// A directive name: a key the Nginx reader finds again, without `;`.
pub open spec fn nginx_name(k: Seq<char>) -> bool {
    &&& nginx_key_ok(k)
    &&& forall|j: int| 0 <= j < k.len() ==> k[j] != ';'
}

/// No line is a directive line of two different names.
pub proof fn lemma_nginx_disjoint(t: Seq<char>, k1: Seq<char>, k2: Seq<char>)
    requires
        nginx_name(k1),
        nginx_name(k2),
        k1 != k2,
        nginx_directive(t, k1),
    ensures
        !nginx_directive(t, k2),
{
    if nginx_directive(t, k2) {
        let n1 = k1.len() as int;
        let n2 = k2.len() as int;
        if n1 < n2 {
            assert(t.take(n2)[n1] == t[n1]);
            assert(t.skip(n1)[0] == t[n1]);
            assert(k2[n1] == t[n1]);
        } else if n2 < n1 {
            assert(t.take(n1)[n2] == t[n2]);
            assert(t.skip(n2)[0] == t[n2]);
            assert(k1[n2] == t[n2]);
        } else {
            assert(k1 == t.take(n1));
        }
    }
}

/// Writing one directive leaves where any other directive is read, and
/// what is read of it, unchanged.
pub proof fn lemma_nginx_set_frame(c: Seq<char>, k2: Seq<char>, v: Seq<char>, k1: Seq<char>)
    requires
        nginx_name(k1),
        nginx_name(k2),
        k1 != k2,
        no_nl(v),
    ensures
        find_line(spec_nginx_set(c, k2, v), LineKind::NginxDirective, k1) == find_line(
            c,
            LineKind::NginxDirective,
            k1,
        ),
        spec_nginx_get(spec_nginx_set(c, k2, v), k1) == spec_nginx_get(c, k1),
{
    let ls = lines(c);
    let p1 = pred(LineKind::NginxDirective, k1);
    let p2 = pred(LineKind::NginxDirective, k2);
    lemma_pred_trim_only(LineKind::NginxDirective, k1);
    assert(!p1(Seq::empty()));
    lemma_first_where_spec(ls, p2);
    match find_line(c, LineKind::NginxDirective, k2) {
        Some(i) => {
            lemma_lines_no_nl(c);
            let l = nginx_line(ls[i], k2, v);
            lemma_nginx_line(ls[i], k2, v);
            lemma_nginx_disjoint(trim(ls[i]), k2, k1);
            lemma_nginx_disjoint(trim(l), k2, k1);
            lemma_edit_frame(c, i, l, p1);
        },
        None => {
            lemma_rejoin_frame(c, p1);
        },
    }
}

/// `lemma_nginx_set_frame` for every other directive name at once.
pub proof fn lemma_nginx_set_frames(c: Seq<char>, k2: Seq<char>, v: Seq<char>)
    requires
        nginx_name(k2),
        no_nl(v),
    ensures
        forall|k1: Seq<char>|
            nginx_name(k1) && k1 != k2 ==> #[trigger] find_line(
                spec_nginx_set(c, k2, v),
                LineKind::NginxDirective,
                k1,
            ) == find_line(c, LineKind::NginxDirective, k1),
        forall|k1: Seq<char>|
            nginx_name(k1) && k1 != k2 ==> #[trigger] spec_nginx_get(spec_nginx_set(c, k2, v), k1)
                == spec_nginx_get(c, k1),
{
    assert forall|k1: Seq<char>| nginx_name(k1) && k1 != k2 implies #[trigger] find_line(
        spec_nginx_set(c, k2, v),
        LineKind::NginxDirective,
        k1,
    ) == find_line(c, LineKind::NginxDirective, k1) by {
        lemma_nginx_set_frame(c, k2, v, k1);
    }
    assert forall|k1: Seq<char>| nginx_name(k1) && k1 != k2 implies #[trigger] spec_nginx_get(
        spec_nginx_set(c, k2, v),
        k1,
    ) == spec_nginx_get(c, k1) by {
        lemma_nginx_set_frame(c, k2, v, k1);
    }
}

/// A value made of characters that are neither whitespace nor `;` reads
/// back as written.
pub proof fn lemma_nginx_plain(s: Seq<char>)
    requires
        s.len() > 0,
        forall|j: int| 0 <= j < s.len() ==> !is_ws(s[j]) && s[j] != ';',
    ensures
        no_nl(s),
        nginx_read_back(s) == s,
{
    assert(!is_ws(s[0]));
    assert(crate::text::trim_start(s) == s);
    assert(s.last() != ';');
    assert(trim_end_semis(s) == s);
    assert(!is_ws(s.last()));
    assert(crate::text::trim_end(s) == s);
}

/// A text value the Nginx reader gives back as it was written.
pub open spec fn nginx_stable(v: Seq<char>) -> bool {
    no_nl(v) && nginx_read_back(v) == v
}

/// The file has an active line for every directive the editor saves.
pub open spec fn nginx_lists_all(c: Seq<char>) -> bool {
    &&& find_line(c, LineKind::NginxDirective, "worker_processes"@) is Some
    &&& find_line(c, LineKind::NginxDirective, "worker_connections"@) is Some
    &&& find_line(c, LineKind::NginxDirective, "worker_rlimit_nofile"@) is Some
    &&& find_line(c, LineKind::NginxDirective, "keepalive_timeout"@) is Some
    &&& find_line(c, LineKind::NginxDirective, "keepalive_requests"@) is Some
    &&& find_line(c, LineKind::NginxDirective, "sendfile"@) is Some
    &&& find_line(c, LineKind::NginxDirective, "sendfile_max_chunk"@) is Some
    &&& find_line(c, LineKind::NginxDirective, "client_max_body_size"@) is Some
    &&& find_line(c, LineKind::NginxDirective, "client_body_buffer_size"@) is Some
    &&& find_line(c, LineKind::NginxDirective, "client_body_timeout"@) is Some
    &&& find_line(c, LineKind::NginxDirective, "client_header_buffer_size"@) is Some
    &&& find_line(c, LineKind::NginxDirective, "client_header_timeout"@) is Some
    &&& find_line(c, LineKind::NginxDirective, "large_client_header_buffers"@) is Some
    &&& find_line(c, LineKind::NginxDirective, "send_timeout"@) is Some
    &&& find_line(c, LineKind::NginxDirective, "reset_timedout_connection"@) is Some
    &&& find_line(c, LineKind::NginxDirective, "server_names_hash_bucket_size"@) is Some
    &&& find_line(c, LineKind::NginxDirective, "gzip"@) is Some
    &&& find_line(c, LineKind::NginxDirective, "gzip_level"@) is Some
    &&& find_line(c, LineKind::NginxDirective, "gzip_min_length"@) is Some
}

/// The `i`-th directive the Nginx editor saves, in the order it writes them.
pub open spec fn nginx_key(i: int) -> Seq<char> {
    if i == 0 {
        "worker_processes"@
    } else if i == 1 {
        "worker_connections"@
    } else if i == 2 {
        "worker_rlimit_nofile"@
    } else if i == 3 {
        "keepalive_timeout"@
    } else if i == 4 {
        "keepalive_requests"@
    } else if i == 5 {
        "sendfile"@
    } else if i == 6 {
        "sendfile_max_chunk"@
    } else if i == 7 {
        "client_max_body_size"@
    } else if i == 8 {
        "client_body_buffer_size"@
    } else if i == 9 {
        "client_body_timeout"@
    } else if i == 10 {
        "client_header_buffer_size"@
    } else if i == 11 {
        "client_header_timeout"@
    } else if i == 12 {
        "large_client_header_buffers"@
    } else if i == 13 {
        "send_timeout"@
    } else if i == 14 {
        "reset_timedout_connection"@
    } else if i == 15 {
        "server_names_hash_bucket_size"@
    } else if i == 16 {
        "gzip"@
    } else if i == 17 {
        "gzip_level"@
    } else {
        "gzip_min_length"@
    }
}

/// The text the Nginx editor writes for its `i`-th directive.
pub open spec fn nginx_val(cfg: NginxConfig, i: int) -> Seq<char> {
    if i == 0 {
        cfg.worker_processes@
    } else if i == 1 {
        decimal(cfg.worker_connections as nat)
    } else if i == 2 {
        decimal(cfg.worker_rlimit_nofile as nat)
    } else if i == 3 {
        decimal(cfg.keepalive_timeout as nat)
    } else if i == 4 {
        decimal(cfg.keepalive_requests as nat)
    } else if i == 5 {
        on_off(cfg.sendfile)
    } else if i == 6 {
        cfg.sendfile_max_chunk@
    } else if i == 7 {
        cfg.client_max_body_size@
    } else if i == 8 {
        cfg.client_body_buffer_size@
    } else if i == 9 {
        decimal(cfg.client_body_timeout as nat)
    } else if i == 10 {
        cfg.client_header_buffer_size@
    } else if i == 11 {
        decimal(cfg.client_header_timeout as nat)
    } else if i == 12 {
        cfg.large_client_header_buffers@
    } else if i == 13 {
        decimal(cfg.send_timeout as nat)
    } else if i == 14 {
        on_off(cfg.reset_timedout_connection)
    } else if i == 15 {
        decimal(cfg.server_names_hash_bucket_size as nat)
    } else if i == 16 {
        on_off(cfg.gzip)
    } else if i == 17 {
        decimal(cfg.gzip_level as nat)
    } else {
        decimal(cfg.gzip_min_length as nat)
    }
}

/// The text after the first `n` directives of `cfg` are written over
/// their active lines.
pub open spec fn nginx_apply(c: Seq<char>, cfg: NginxConfig, n: nat) -> Seq<char>
    decreases n,
{
    if n == 0 {
        c
    } else {
        spec_nginx_set(nginx_apply(c, cfg, (n - 1) as nat), nginx_key(n - 1), nginx_val(cfg, n - 1))
    }
}

/// The length and first character of the `i`-th directive name, as one
/// number.
spec fn nginx_tag(i: int) -> int {
    if i == 0 {
        16119
    } else if i == 1 {
        18119
    } else if i == 2 {
        20119
    } else if i == 3 {
        17107
    } else if i == 4 {
        18107
    } else if i == 5 {
        8115
    } else if i == 6 {
        18115
    } else if i == 7 {
        20099
    } else if i == 8 {
        23099
    } else if i == 9 {
        19099
    } else if i == 10 {
        25099
    } else if i == 11 {
        21099
    } else if i == 12 {
        27108
    } else if i == 13 {
        12115
    } else if i == 14 {
        25114
    } else if i == 15 {
        29115
    } else if i == 16 {
        4103
    } else if i == 17 {
        10103
    } else {
        15103
    }
}

/// The directive names the editor saves are names, all different.
proof fn lemma_nginx_keys()
    ensures
        forall|i: int| 0 <= i < 19 ==> nginx_name(#[trigger] nginx_key(i)),
        forall|i: int, j: int|
            0 <= i < 19 && 0 <= j < 19 && i != j ==> #[trigger] nginx_key(i) != #[trigger] nginx_key(j),
{
    reveal_strlit("worker_processes");
    reveal_strlit("worker_connections");
    reveal_strlit("worker_rlimit_nofile");
    reveal_strlit("keepalive_timeout");
    reveal_strlit("keepalive_requests");
    reveal_strlit("sendfile");
    reveal_strlit("sendfile_max_chunk");
    reveal_strlit("client_max_body_size");
    reveal_strlit("client_body_buffer_size");
    reveal_strlit("client_body_timeout");
    reveal_strlit("client_header_buffer_size");
    reveal_strlit("client_header_timeout");
    reveal_strlit("large_client_header_buffers");
    reveal_strlit("send_timeout");
    reveal_strlit("reset_timedout_connection");
    reveal_strlit("server_names_hash_bucket_size");
    reveal_strlit("gzip");
    reveal_strlit("gzip_level");
    reveal_strlit("gzip_min_length");
    assert forall|i: int| 0 <= i < 19 implies nginx_key(i).len() * 1000 + (#[trigger] nginx_key(i)[0] as int)
        == nginx_tag(i) by {}
    assert forall|i: int, j: int| 0 <= i < 19 && 0 <= j < 19 && i != j implies #[trigger] nginx_tag(i)
        != #[trigger] nginx_tag(j) by {}
    assert forall|i: int, j: int|
        0 <= i < 19 && 0 <= j < 19 && i != j implies #[trigger] nginx_key(i) != #[trigger] nginx_key(j) by {
        assert(nginx_tag(i) != nginx_tag(j));
        assert(nginx_key(i).len() * 1000 + (nginx_key(i)[0] as int) == nginx_tag(i));
        assert(nginx_key(j).len() * 1000 + (nginx_key(j)[0] as int) == nginx_tag(j));
    }
}

/// Every text the editor writes for a directive is free of line breaks.
proof fn lemma_nginx_vals(cfg: NginxConfig)
    requires
        nginx_stable(cfg.worker_processes@),
        nginx_stable(cfg.sendfile_max_chunk@),
        nginx_stable(cfg.client_max_body_size@),
        nginx_stable(cfg.client_body_buffer_size@),
        nginx_stable(cfg.client_header_buffer_size@),
        nginx_stable(cfg.large_client_header_buffers@),
    ensures
        forall|i: int| 0 <= i < 19 ==> nginx_stable(#[trigger] nginx_val(cfg, i)),
{
    lemma_nginx_plain(on_off(true));
    lemma_nginx_plain(on_off(false));
    lemma_decimal_digits(cfg.worker_connections as nat);
    lemma_nginx_plain(decimal(cfg.worker_connections as nat));
    lemma_decimal_digits(cfg.worker_rlimit_nofile as nat);
    lemma_nginx_plain(decimal(cfg.worker_rlimit_nofile as nat));
    lemma_decimal_digits(cfg.keepalive_timeout as nat);
    lemma_nginx_plain(decimal(cfg.keepalive_timeout as nat));
    lemma_decimal_digits(cfg.keepalive_requests as nat);
    lemma_nginx_plain(decimal(cfg.keepalive_requests as nat));
    lemma_decimal_digits(cfg.client_body_timeout as nat);
    lemma_nginx_plain(decimal(cfg.client_body_timeout as nat));
    lemma_decimal_digits(cfg.client_header_timeout as nat);
    lemma_nginx_plain(decimal(cfg.client_header_timeout as nat));
    lemma_decimal_digits(cfg.send_timeout as nat);
    lemma_nginx_plain(decimal(cfg.send_timeout as nat));
    lemma_decimal_digits(cfg.server_names_hash_bucket_size as nat);
    lemma_nginx_plain(decimal(cfg.server_names_hash_bucket_size as nat));
    lemma_decimal_digits(cfg.gzip_level as nat);
    lemma_nginx_plain(decimal(cfg.gzip_level as nat));
    lemma_decimal_digits(cfg.gzip_min_length as nat);
    lemma_nginx_plain(decimal(cfg.gzip_min_length as nat));
}

/// Writing the first `n` directives leaves where a directive that is not
/// among them is read, and what is read of it, unchanged.
proof fn lemma_nginx_apply_frame(c: Seq<char>, cfg: NginxConfig, n: nat, k: Seq<char>)
    requires
        n <= 19,
        nginx_name(k),
        forall|i: int| 0 <= i < n ==> #[trigger] nginx_key(i) != k,
        forall|i: int| 0 <= i < 19 ==> nginx_name(#[trigger] nginx_key(i)),
        forall|i: int| 0 <= i < 19 ==> no_nl(#[trigger] nginx_val(cfg, i)),
    ensures
        find_line(nginx_apply(c, cfg, n), LineKind::NginxDirective, k) == find_line(
            c,
            LineKind::NginxDirective,
            k,
        ),
        spec_nginx_get(nginx_apply(c, cfg, n), k) == spec_nginx_get(c, k),
    decreases n,
{
    if n > 0 {
        let m = (n - 1) as nat;
        lemma_nginx_apply_frame(c, cfg, m, k);
        assert(nginx_key(m as int) != k);
        assert(no_nl(nginx_val(cfg, m as int)));
        lemma_nginx_set_frame(nginx_apply(c, cfg, m), nginx_key(m as int), nginx_val(cfg, m as int), k);
    }
}

/// After the first `n` directives are written, each of them reads back as
/// written.
proof fn lemma_nginx_apply_get(c: Seq<char>, cfg: NginxConfig, n: nat, j: int)
    requires
        0 <= j < n <= 19,
        forall|i: int| 0 <= i < 19 ==> find_line(c, LineKind::NginxDirective, #[trigger] nginx_key(i)) is Some,
        forall|i: int| 0 <= i < 19 ==> nginx_name(#[trigger] nginx_key(i)),
        forall|i: int, l: int|
            0 <= i < 19 && 0 <= l < 19 && i != l ==> #[trigger] nginx_key(i) != #[trigger] nginx_key(l),
        forall|i: int| 0 <= i < 19 ==> nginx_stable(#[trigger] nginx_val(cfg, i)),
    ensures
        spec_nginx_get(nginx_apply(c, cfg, n), nginx_key(j)) == Some(nginx_val(cfg, j)),
    decreases n,
{
    let m = (n - 1) as nat;
    let prev = nginx_apply(c, cfg, m);
    if j == m {
        assert forall|i: int| 0 <= i < m implies #[trigger] nginx_key(i) != nginx_key(j) by {}
        lemma_nginx_apply_frame(c, cfg, m, nginx_key(j));
        assert(nginx_key(j) == nginx_key(m as int));
        law_nginx_set_then_get(prev, nginx_key(j), nginx_val(cfg, j));
    } else {
        lemma_nginx_apply_get(c, cfg, m, j);
        assert(nginx_key(m as int) != nginx_key(j));
        lemma_nginx_set_frame(prev, nginx_key(m as int), nginx_val(cfg, m as int), nginx_key(j));
    }
}

/// What `spec_save_nginx` writes is the nineteen directives in order, once
/// `gzip_level` and `gzip_min_length` have active lines to rewrite.
proof fn lemma_nginx_save_is_apply(c: Seq<char>, cfg: NginxConfig)
    requires
        find_line(nginx_apply(c, cfg, 17), LineKind::NginxDirective, nginx_key(17)) is Some,
        find_line(nginx_apply(c, cfg, 18), LineKind::NginxDirective, nginx_key(18)) is Some,
    ensures
        spec_save_nginx(c, cfg) == nginx_apply(c, cfg, 19),
{
    assert(nginx_apply(c, cfg, 0) == c);
    let c1 = nginx_apply(c, cfg, 1);
    assert(c1 == spec_nginx_set(c, "worker_processes"@, cfg.worker_processes@));
    let c2 = nginx_apply(c, cfg, 2);
    assert(c2 == spec_nginx_set(c1, "worker_connections"@, decimal(cfg.worker_connections as nat)));
    let c3 = nginx_apply(c, cfg, 3);
    assert(c3 == spec_nginx_set(c2, "worker_rlimit_nofile"@, decimal(cfg.worker_rlimit_nofile as nat)));
    let c4 = nginx_apply(c, cfg, 4);
    assert(c4 == spec_nginx_set(c3, "keepalive_timeout"@, decimal(cfg.keepalive_timeout as nat)));
    let c5 = nginx_apply(c, cfg, 5);
    assert(c5 == spec_nginx_set(c4, "keepalive_requests"@, decimal(cfg.keepalive_requests as nat)));
    let c6 = nginx_apply(c, cfg, 6);
    assert(c6 == spec_nginx_set(c5, "sendfile"@, on_off(cfg.sendfile)));
    let c7 = nginx_apply(c, cfg, 7);
    assert(c7 == spec_nginx_set(c6, "sendfile_max_chunk"@, cfg.sendfile_max_chunk@));
    let c8 = nginx_apply(c, cfg, 8);
    assert(c8 == spec_nginx_set(c7, "client_max_body_size"@, cfg.client_max_body_size@));
    let c9 = nginx_apply(c, cfg, 9);
    assert(c9 == spec_nginx_set(c8, "client_body_buffer_size"@, cfg.client_body_buffer_size@));
    let c10 = nginx_apply(c, cfg, 10);
    assert(c10 == spec_nginx_set(c9, "client_body_timeout"@, decimal(cfg.client_body_timeout as nat)));
    let c11 = nginx_apply(c, cfg, 11);
    assert(c11 == spec_nginx_set(c10, "client_header_buffer_size"@, cfg.client_header_buffer_size@));
    let c12 = nginx_apply(c, cfg, 12);
    assert(c12 == spec_nginx_set(c11, "client_header_timeout"@, decimal(cfg.client_header_timeout as nat)));
    let c13 = nginx_apply(c, cfg, 13);
    assert(c13 == spec_nginx_set(c12, "large_client_header_buffers"@, cfg.large_client_header_buffers@));
    let c14 = nginx_apply(c, cfg, 14);
    assert(c14 == spec_nginx_set(c13, "send_timeout"@, decimal(cfg.send_timeout as nat)));
    let c15 = nginx_apply(c, cfg, 15);
    assert(c15 == spec_nginx_set(c14, "reset_timedout_connection"@, on_off(cfg.reset_timedout_connection)));
    let c16 = nginx_apply(c, cfg, 16);
    assert(c16 == spec_nginx_set(c15, "server_names_hash_bucket_size"@, decimal(cfg.server_names_hash_bucket_size as nat)));
    let c17 = nginx_apply(c, cfg, 17);
    assert(c17 == spec_nginx_set(c16, "gzip"@, on_off(cfg.gzip)));
    let c18 = nginx_apply(c, cfg, 18);
    assert(c18 == spec_nginx_set(c17, "gzip_level"@, decimal(cfg.gzip_level as nat)));
    let c19 = nginx_apply(c, cfg, 19);
    assert(c19 == spec_nginx_set(c18, "gzip_min_length"@, decimal(cfg.gzip_min_length as nat)));
    assert(spec_nginx_set_or_insert(c17, "gzip_level"@, decimal(cfg.gzip_level as nat), "gzip"@) == c18);
    assert(spec_nginx_set_or_insert(c18, "gzip_min_length"@, decimal(cfg.gzip_min_length as nat), "gzip"@) == c19);
}

/// After a save, each directive reads back as written.
proof fn lemma_nginx_save_reads(c: Seq<char>, cfg: NginxConfig)
    requires
        nginx_lists_all(c),
        nginx_stable(cfg.worker_processes@),
        nginx_stable(cfg.sendfile_max_chunk@),
        nginx_stable(cfg.client_max_body_size@),
        nginx_stable(cfg.client_body_buffer_size@),
        nginx_stable(cfg.client_header_buffer_size@),
        nginx_stable(cfg.large_client_header_buffers@),
    ensures
        forall|j: int| 0 <= j < 19 ==> #[trigger] spec_nginx_get(spec_save_nginx(c, cfg), nginx_key(j))
            == Some(nginx_val(cfg, j)),
{
    lemma_nginx_keys();
    lemma_nginx_vals(cfg);
    assert forall|i: int| 0 <= i < 19 implies find_line(c, LineKind::NginxDirective, #[trigger] nginx_key(i)) is Some by {}
    assert forall|i: int| 0 <= i < 17 implies #[trigger] nginx_key(i) != nginx_key(17) by {}
    lemma_nginx_apply_frame(c, cfg, 17, nginx_key(17));
    assert forall|i: int| 0 <= i < 18 implies #[trigger] nginx_key(i) != nginx_key(18) by {}
    lemma_nginx_apply_frame(c, cfg, 18, nginx_key(18));
    lemma_nginx_save_is_apply(c, cfg);
    assert forall|j: int| 0 <= j < 19 implies #[trigger] spec_nginx_get(spec_save_nginx(c, cfg), nginx_key(j))
        == Some(nginx_val(cfg, j)) by {
        lemma_nginx_apply_get(c, cfg, 19, j);
    }
}

/// Saving the Nginx settings into a file that has an active line for each
/// of them, then reading the file, gives back every setting saved: each
/// number, each switch, and each text that reads back as written (no line
/// break, no surrounding whitespace, no trailing `;`).
pub proof fn law_nginx_save_then_read(c: Seq<char>, cfg: NginxConfig)
    requires
        nginx_lists_all(c),
        nginx_stable(cfg.worker_processes@),
        nginx_stable(cfg.sendfile_max_chunk@),
        nginx_stable(cfg.client_max_body_size@),
        nginx_stable(cfg.client_body_buffer_size@),
        nginx_stable(cfg.client_header_buffer_size@),
        nginx_stable(cfg.large_client_header_buffers@),
    ensures
        ({
            let s = spec_save_nginx(c, cfg);
            &&& ng_text(s, "worker_processes"@, "4"@) == cfg.worker_processes@
            &&& ng_num(s, "worker_connections"@, u32::MAX as nat, 40960) == cfg.worker_connections as nat
            &&& ng_num(s, "worker_rlimit_nofile"@, u32::MAX as nat, 100000) == cfg.worker_rlimit_nofile as nat
            &&& ng_num(s, "keepalive_timeout"@, u32::MAX as nat, 3600) == cfg.keepalive_timeout as nat
            &&& ng_num(s, "keepalive_requests"@, u32::MAX as nat, 100) == cfg.keepalive_requests as nat
            &&& ng_flag(s, "sendfile"@, true) == cfg.sendfile
            &&& ng_text(s, "sendfile_max_chunk"@, "512k"@) == cfg.sendfile_max_chunk@
            &&& ng_text(s, "client_max_body_size"@, "50m"@) == cfg.client_max_body_size@
            &&& ng_text(s, "client_body_buffer_size"@, "60k"@) == cfg.client_body_buffer_size@
            &&& ng_num(s, "client_body_timeout"@, u32::MAX as nat, 60) == cfg.client_body_timeout as nat
            &&& ng_text(s, "client_header_buffer_size"@, "64k"@) == cfg.client_header_buffer_size@
            &&& ng_num(s, "client_header_timeout"@, u32::MAX as nat, 3600) == cfg.client_header_timeout as nat
            &&& ng_text(s, "large_client_header_buffers"@, "4 64k"@) == cfg.large_client_header_buffers@
            &&& ng_num(s, "send_timeout"@, u32::MAX as nat, 3600) == cfg.send_timeout as nat
            &&& ng_flag(s, "reset_timedout_connection"@, true) == cfg.reset_timedout_connection
            &&& ng_num(s, "server_names_hash_bucket_size"@, u32::MAX as nat, 256) == cfg.server_names_hash_bucket_size as nat
            &&& ng_flag(s, "gzip"@, false) == cfg.gzip
            &&& ng_num(s, "gzip_level"@, u8::MAX as nat, 6) == cfg.gzip_level as nat
            &&& ng_num(s, "gzip_min_length"@, u32::MAX as nat, 1024) == cfg.gzip_min_length as nat
        }),
{
    lemma_nginx_save_reads(c, cfg);
    reveal_strlit("on");
    assert("on"@ =~= seq!['o', 'n']);
    let s = spec_save_nginx(c, cfg);
    assert(spec_nginx_get(s, nginx_key(0)) == Some(nginx_val(cfg, 0)));
    assert(spec_nginx_get(s, nginx_key(1)) == Some(nginx_val(cfg, 1)));
    lemma_parse_decimal(cfg.worker_connections as nat, u32::MAX as nat);
    assert(spec_nginx_get(s, nginx_key(2)) == Some(nginx_val(cfg, 2)));
    lemma_parse_decimal(cfg.worker_rlimit_nofile as nat, u32::MAX as nat);
    assert(spec_nginx_get(s, nginx_key(3)) == Some(nginx_val(cfg, 3)));
    lemma_parse_decimal(cfg.keepalive_timeout as nat, u32::MAX as nat);
    assert(spec_nginx_get(s, nginx_key(4)) == Some(nginx_val(cfg, 4)));
    lemma_parse_decimal(cfg.keepalive_requests as nat, u32::MAX as nat);
    assert(spec_nginx_get(s, nginx_key(5)) == Some(nginx_val(cfg, 5)));
    assert(spec_nginx_get(s, nginx_key(6)) == Some(nginx_val(cfg, 6)));
    assert(spec_nginx_get(s, nginx_key(7)) == Some(nginx_val(cfg, 7)));
    assert(spec_nginx_get(s, nginx_key(8)) == Some(nginx_val(cfg, 8)));
    assert(spec_nginx_get(s, nginx_key(9)) == Some(nginx_val(cfg, 9)));
    lemma_parse_decimal(cfg.client_body_timeout as nat, u32::MAX as nat);
    assert(spec_nginx_get(s, nginx_key(10)) == Some(nginx_val(cfg, 10)));
    assert(spec_nginx_get(s, nginx_key(11)) == Some(nginx_val(cfg, 11)));
    lemma_parse_decimal(cfg.client_header_timeout as nat, u32::MAX as nat);
    assert(spec_nginx_get(s, nginx_key(12)) == Some(nginx_val(cfg, 12)));
    assert(spec_nginx_get(s, nginx_key(13)) == Some(nginx_val(cfg, 13)));
    lemma_parse_decimal(cfg.send_timeout as nat, u32::MAX as nat);
    assert(spec_nginx_get(s, nginx_key(14)) == Some(nginx_val(cfg, 14)));
    assert(spec_nginx_get(s, nginx_key(15)) == Some(nginx_val(cfg, 15)));
    lemma_parse_decimal(cfg.server_names_hash_bucket_size as nat, u32::MAX as nat);
    assert(spec_nginx_get(s, nginx_key(16)) == Some(nginx_val(cfg, 16)));
    assert(spec_nginx_get(s, nginx_key(17)) == Some(nginx_val(cfg, 17)));
    lemma_parse_decimal(cfg.gzip_level as nat, u8::MAX as nat);
    assert(spec_nginx_get(s, nginx_key(18)) == Some(nginx_val(cfg, 18)));
    lemma_parse_decimal(cfg.gzip_min_length as nat, u32::MAX as nat);
}

// ======================== MySQL ========================

/// Writing one `key=value` leaves where any other key is read or would be
/// written, and what is read of it, unchanged.
pub proof fn lemma_ini_set_frame(c: Seq<char>, k2: Seq<char>, v: Seq<char>, k1: Seq<char>)
    requires
        ini_key_ok(k1),
        ini_key_ok(k2),
        k1 != k2,
        no_nl(v),
    ensures
        find_line(spec_ini_set(c, k2, v), LineKind::IniActive, k1) == find_line(c, LineKind::IniActive, k1),
        find_line(spec_ini_set(c, k2, v), LineKind::IniCommented, k1) == find_line(
            c,
            LineKind::IniCommented,
            k1,
        ),
        spec_ini_get(spec_ini_set(c, k2, v), k1) == spec_ini_get(c, k1),
{
    let ls = lines(c);
    let pa = pred(LineKind::IniActive, k1);
    let pc = pred(LineKind::IniCommented, k1);
    let pg = pred(LineKind::IniGet, k1);
    lemma_pred_trim_only(LineKind::IniActive, k1);
    lemma_pred_trim_only(LineKind::IniCommented, k1);
    lemma_pred_trim_only(LineKind::IniGet, k1);
    assert(!pa(Seq::empty()) && !pc(Seq::empty()) && !pg(Seq::empty()));
    lemma_first_where_spec(ls, pred(LineKind::IniActive, k2));
    lemma_first_where_spec(ls, pred(LineKind::IniCommented, k2));
    let l = ini_line(k2, v);
    lemma_ini_line(k2, v);
    let i = match find_line(c, LineKind::IniActive, k2) {
        Some(i) => i,
        None => match find_line(c, LineKind::IniCommented, k2) {
            Some(i) => i,
            None => -1,
        },
    };
    if i >= 0 {
        lemma_edit_frame(c, i, l, pa);
        lemma_edit_frame(c, i, l, pc);
        lemma_edit_frame(c, i, l, pg);
    } else {
        lemma_rejoin_frame(c, pa);
        lemma_rejoin_frame(c, pc);
        lemma_rejoin_frame(c, pg);
    }
}

/// A value made of characters that are not whitespace reads back as written.
pub proof fn lemma_ini_plain(s: Seq<char>)
    requires
        s.len() > 0,
        forall|j: int| 0 <= j < s.len() ==> !is_ws(s[j]),
    ensures
        ini_stable(s),
{
    assert(!is_ws(s[0]));
    assert(!is_ws(s.last()));
    assert(crate::text::trim_end(s) == s);
    assert(crate::text::trim_start(s) == s);
}

/// A text value the MySQL reader gives back as it was written: no line
/// break and no surrounding whitespace.
pub open spec fn ini_stable(v: Seq<char>) -> bool {
    no_nl(v) && trim(v) == v
}

/// The file has an active or a commented `key=` line for every key the
/// MySQL editor saves.
pub open spec fn mysql_lists_all(c: Seq<char>) -> bool {
    &&& (find_line(c, LineKind::IniActive, "port"@) is Some || find_line(c, LineKind::IniCommented, "port"@) is Some)
    &&& (find_line(c, LineKind::IniActive, "max_connections"@) is Some || find_line(c, LineKind::IniCommented, "max_connections"@) is Some)
    &&& (find_line(c, LineKind::IniActive, "max_allowed_packet"@) is Some || find_line(c, LineKind::IniCommented, "max_allowed_packet"@) is Some)
    &&& (find_line(c, LineKind::IniActive, "innodb_buffer_pool_size"@) is Some || find_line(c, LineKind::IniCommented, "innodb_buffer_pool_size"@) is Some)
    &&& (find_line(c, LineKind::IniActive, "innodb_log_file_size"@) is Some || find_line(c, LineKind::IniCommented, "innodb_log_file_size"@) is Some)
    &&& (find_line(c, LineKind::IniActive, "innodb_log_buffer_size"@) is Some || find_line(c, LineKind::IniCommented, "innodb_log_buffer_size"@) is Some)
    &&& (find_line(c, LineKind::IniActive, "innodb_flush_log_at_trx_commit"@) is Some || find_line(c, LineKind::IniCommented, "innodb_flush_log_at_trx_commit"@) is Some)
    &&& (find_line(c, LineKind::IniActive, "innodb_lock_wait_timeout"@) is Some || find_line(c, LineKind::IniCommented, "innodb_lock_wait_timeout"@) is Some)
    &&& (find_line(c, LineKind::IniActive, "character-set-server"@) is Some || find_line(c, LineKind::IniCommented, "character-set-server"@) is Some)
    &&& (find_line(c, LineKind::IniActive, "collation-server"@) is Some || find_line(c, LineKind::IniCommented, "collation-server"@) is Some)
    &&& (find_line(c, LineKind::IniActive, "init_connect"@) is Some || find_line(c, LineKind::IniCommented, "init_connect"@) is Some)
    &&& (find_line(c, LineKind::IniActive, "key_buffer_size"@) is Some || find_line(c, LineKind::IniCommented, "key_buffer_size"@) is Some)
    &&& (find_line(c, LineKind::IniActive, "table_open_cache"@) is Some || find_line(c, LineKind::IniCommented, "table_open_cache"@) is Some)
    &&& (find_line(c, LineKind::IniActive, "tmp_table_size"@) is Some || find_line(c, LineKind::IniCommented, "tmp_table_size"@) is Some)
    &&& (find_line(c, LineKind::IniActive, "max_heap_table_size"@) is Some || find_line(c, LineKind::IniCommented, "max_heap_table_size"@) is Some)
    &&& (find_line(c, LineKind::IniActive, "interactive_timeout"@) is Some || find_line(c, LineKind::IniCommented, "interactive_timeout"@) is Some)
    &&& (find_line(c, LineKind::IniActive, "wait_timeout"@) is Some || find_line(c, LineKind::IniCommented, "wait_timeout"@) is Some)
    &&& (find_line(c, LineKind::IniActive, "sort_buffer_size"@) is Some || find_line(c, LineKind::IniCommented, "sort_buffer_size"@) is Some)
    &&& (find_line(c, LineKind::IniActive, "read_buffer_size"@) is Some || find_line(c, LineKind::IniCommented, "read_buffer_size"@) is Some)
    &&& (find_line(c, LineKind::IniActive, "read_rnd_buffer_size"@) is Some || find_line(c, LineKind::IniCommented, "read_rnd_buffer_size"@) is Some)
    &&& (find_line(c, LineKind::IniActive, "join_buffer_size"@) is Some || find_line(c, LineKind::IniCommented, "join_buffer_size"@) is Some)
    &&& (find_line(c, LineKind::IniActive, "myisam_sort_buffer_size"@) is Some || find_line(c, LineKind::IniCommented, "myisam_sort_buffer_size"@) is Some)
    &&& (find_line(c, LineKind::IniActive, "thread_cache_size"@) is Some || find_line(c, LineKind::IniCommented, "thread_cache_size"@) is Some)
    &&& (find_line(c, LineKind::IniActive, "log_error_verbosity"@) is Some || find_line(c, LineKind::IniCommented, "log_error_verbosity"@) is Some)
    &&& (find_line(c, LineKind::IniActive, "default-storage-engine"@) is Some || find_line(c, LineKind::IniCommented, "default-storage-engine"@) is Some)
}

/// The `i`-th key the MySQL editor saves, in the order it writes them.
pub open spec fn mysql_key(i: int) -> Seq<char> {
    if i == 0 {
        "port"@
    } else if i == 1 {
        "max_connections"@
    } else if i == 2 {
        "max_allowed_packet"@
    } else if i == 3 {
        "innodb_buffer_pool_size"@
    } else if i == 4 {
        "innodb_log_file_size"@
    } else if i == 5 {
        "innodb_log_buffer_size"@
    } else if i == 6 {
        "innodb_flush_log_at_trx_commit"@
    } else if i == 7 {
        "innodb_lock_wait_timeout"@
    } else if i == 8 {
        "character-set-server"@
    } else if i == 9 {
        "collation-server"@
    } else if i == 10 {
        "init_connect"@
    } else if i == 11 {
        "key_buffer_size"@
    } else if i == 12 {
        "table_open_cache"@
    } else if i == 13 {
        "tmp_table_size"@
    } else if i == 14 {
        "max_heap_table_size"@
    } else if i == 15 {
        "interactive_timeout"@
    } else if i == 16 {
        "wait_timeout"@
    } else if i == 17 {
        "sort_buffer_size"@
    } else if i == 18 {
        "read_buffer_size"@
    } else if i == 19 {
        "read_rnd_buffer_size"@
    } else if i == 20 {
        "join_buffer_size"@
    } else if i == 21 {
        "myisam_sort_buffer_size"@
    } else if i == 22 {
        "thread_cache_size"@
    } else if i == 23 {
        "log_error_verbosity"@
    } else {
        "default-storage-engine"@
    }
}

/// The text the MySQL editor writes for its `i`-th key.
pub open spec fn mysql_val(cfg: MysqlConfig, i: int) -> Seq<char> {
    if i == 0 {
        decimal(cfg.port as nat)
    } else if i == 1 {
        decimal(cfg.max_connections as nat)
    } else if i == 2 {
        cfg.max_allowed_packet@
    } else if i == 3 {
        cfg.innodb_buffer_pool_size@
    } else if i == 4 {
        cfg.innodb_log_file_size@
    } else if i == 5 {
        cfg.innodb_log_buffer_size@
    } else if i == 6 {
        decimal(cfg.innodb_flush_log_at_trx_commit as nat)
    } else if i == 7 {
        decimal(cfg.innodb_lock_wait_timeout as nat)
    } else if i == 8 {
        cfg.character_set_server@
    } else if i == 9 {
        cfg.collation_server@
    } else if i == 10 {
        cfg.init_connect@
    } else if i == 11 {
        cfg.key_buffer_size@
    } else if i == 12 {
        decimal(cfg.table_open_cache as nat)
    } else if i == 13 {
        cfg.tmp_table_size@
    } else if i == 14 {
        cfg.max_heap_table_size@
    } else if i == 15 {
        decimal(cfg.interactive_timeout as nat)
    } else if i == 16 {
        decimal(cfg.wait_timeout as nat)
    } else if i == 17 {
        cfg.sort_buffer_size@
    } else if i == 18 {
        cfg.read_buffer_size@
    } else if i == 19 {
        cfg.read_rnd_buffer_size@
    } else if i == 20 {
        cfg.join_buffer_size@
    } else if i == 21 {
        cfg.myisam_sort_buffer_size@
    } else if i == 22 {
        decimal(cfg.thread_cache_size as nat)
    } else if i == 23 {
        decimal(cfg.log_error_verbosity as nat)
    } else {
        cfg.default_storage_engine@
    }
}

/// The length and first character of the `i`-th MySQL key, as one number.
spec fn mysql_tag(i: int) -> int {
    if i == 0 {
        4112
    } else if i == 1 {
        15109
    } else if i == 2 {
        18109
    } else if i == 3 {
        23105
    } else if i == 4 {
        20105
    } else if i == 5 {
        22105
    } else if i == 6 {
        30105
    } else if i == 7 {
        24105
    } else if i == 8 {
        20099
    } else if i == 9 {
        16099
    } else if i == 10 {
        12105
    } else if i == 11 {
        15107
    } else if i == 12 {
        16116
    } else if i == 13 {
        14116
    } else if i == 14 {
        19109
    } else if i == 15 {
        19105
    } else if i == 16 {
        12119
    } else if i == 17 {
        16115
    } else if i == 18 {
        16114
    } else if i == 19 {
        20114
    } else if i == 20 {
        16106
    } else if i == 21 {
        23109
    } else if i == 22 {
        17116
    } else if i == 23 {
        19108
    } else {
        22100
    }
}

/// The text after the first `n` keys of `cfg` are written.
pub open spec fn mysql_apply(c: Seq<char>, cfg: MysqlConfig, n: nat) -> Seq<char>
    decreases n,
{
    if n == 0 {
        c
    } else {
        spec_ini_set(mysql_apply(c, cfg, (n - 1) as nat), mysql_key(n - 1), mysql_val(cfg, n - 1))
    }
}

/// The keys the MySQL editor saves are keys the reader finds, all different.
proof fn lemma_mysql_keys()
    ensures
        forall|i: int| 0 <= i < 25 ==> ini_key_ok(#[trigger] mysql_key(i)),
        forall|i: int, j: int|
            0 <= i < 25 && 0 <= j < 25 && i != j ==> #[trigger] mysql_key(i) != #[trigger] mysql_key(j),
{
    reveal_strlit("port");
    reveal_strlit("max_connections");
    reveal_strlit("max_allowed_packet");
    reveal_strlit("innodb_buffer_pool_size");
    reveal_strlit("innodb_log_file_size");
    reveal_strlit("innodb_log_buffer_size");
    reveal_strlit("innodb_flush_log_at_trx_commit");
    reveal_strlit("innodb_lock_wait_timeout");
    reveal_strlit("character-set-server");
    reveal_strlit("collation-server");
    reveal_strlit("init_connect");
    reveal_strlit("key_buffer_size");
    reveal_strlit("table_open_cache");
    reveal_strlit("tmp_table_size");
    reveal_strlit("max_heap_table_size");
    reveal_strlit("interactive_timeout");
    reveal_strlit("wait_timeout");
    reveal_strlit("sort_buffer_size");
    reveal_strlit("read_buffer_size");
    reveal_strlit("read_rnd_buffer_size");
    reveal_strlit("join_buffer_size");
    reveal_strlit("myisam_sort_buffer_size");
    reveal_strlit("thread_cache_size");
    reveal_strlit("log_error_verbosity");
    reveal_strlit("default-storage-engine");
    assert forall|i: int| 0 <= i < 25 implies ini_key_ok(#[trigger] mysql_key(i)) by {
        let k = mysql_key(i);
        assert(!is_ws(k[0]) && !is_ws(k.last()));
        assert(crate::text::trim_end(k) == k);
        assert(crate::text::trim_start(k) == k);
    }
    assert forall|i: int| 0 <= i < 25 implies mysql_key(i).len() * 1000 + (#[trigger] mysql_key(i)[0] as int)
        == mysql_tag(i) by {}
    assert forall|i: int, j: int| 0 <= i < 25 && 0 <= j < 25 && i != j implies #[trigger] mysql_tag(i)
        != #[trigger] mysql_tag(j) by {}
    assert forall|i: int, j: int|
        0 <= i < 25 && 0 <= j < 25 && i != j implies #[trigger] mysql_key(i) != #[trigger] mysql_key(j) by {
        assert(mysql_tag(i) != mysql_tag(j));
        assert(mysql_key(i).len() * 1000 + (mysql_key(i)[0] as int) == mysql_tag(i));
        assert(mysql_key(j).len() * 1000 + (mysql_key(j)[0] as int) == mysql_tag(j));
    }
}

/// Every text the MySQL editor writes for a key reads back as written.
proof fn lemma_mysql_vals(cfg: MysqlConfig)
    requires
        ini_stable(cfg.max_allowed_packet@),
        ini_stable(cfg.innodb_buffer_pool_size@),
        ini_stable(cfg.innodb_log_file_size@),
        ini_stable(cfg.innodb_log_buffer_size@),
        ini_stable(cfg.character_set_server@),
        ini_stable(cfg.collation_server@),
        ini_stable(cfg.init_connect@),
        ini_stable(cfg.key_buffer_size@),
        ini_stable(cfg.tmp_table_size@),
        ini_stable(cfg.max_heap_table_size@),
        ini_stable(cfg.sort_buffer_size@),
        ini_stable(cfg.read_buffer_size@),
        ini_stable(cfg.read_rnd_buffer_size@),
        ini_stable(cfg.join_buffer_size@),
        ini_stable(cfg.myisam_sort_buffer_size@),
        ini_stable(cfg.default_storage_engine@),
    ensures
        forall|i: int| 0 <= i < 25 ==> ini_stable(#[trigger] mysql_val(cfg, i)),
{
    lemma_decimal_digits(cfg.port as nat);
    lemma_ini_plain(decimal(cfg.port as nat));
    lemma_decimal_digits(cfg.max_connections as nat);
    lemma_ini_plain(decimal(cfg.max_connections as nat));
    lemma_decimal_digits(cfg.innodb_flush_log_at_trx_commit as nat);
    lemma_ini_plain(decimal(cfg.innodb_flush_log_at_trx_commit as nat));
    lemma_decimal_digits(cfg.innodb_lock_wait_timeout as nat);
    lemma_ini_plain(decimal(cfg.innodb_lock_wait_timeout as nat));
    lemma_decimal_digits(cfg.table_open_cache as nat);
    lemma_ini_plain(decimal(cfg.table_open_cache as nat));
    lemma_decimal_digits(cfg.interactive_timeout as nat);
    lemma_ini_plain(decimal(cfg.interactive_timeout as nat));
    lemma_decimal_digits(cfg.wait_timeout as nat);
    lemma_ini_plain(decimal(cfg.wait_timeout as nat));
    lemma_decimal_digits(cfg.thread_cache_size as nat);
    lemma_ini_plain(decimal(cfg.thread_cache_size as nat));
    lemma_decimal_digits(cfg.log_error_verbosity as nat);
    lemma_ini_plain(decimal(cfg.log_error_verbosity as nat));
}

/// Writing the first `n` keys leaves where a key that is not among them
/// is read or written, and what is read of it, unchanged.
proof fn lemma_mysql_apply_frame(c: Seq<char>, cfg: MysqlConfig, n: nat, k: Seq<char>)
    requires
        n <= 25,
        ini_key_ok(k),
        forall|i: int| 0 <= i < n ==> #[trigger] mysql_key(i) != k,
        forall|i: int| 0 <= i < 25 ==> ini_key_ok(#[trigger] mysql_key(i)),
        forall|i: int| 0 <= i < 25 ==> ini_stable(#[trigger] mysql_val(cfg, i)),
    ensures
        find_line(mysql_apply(c, cfg, n), LineKind::IniActive, k) == find_line(c, LineKind::IniActive, k),
        find_line(mysql_apply(c, cfg, n), LineKind::IniCommented, k) == find_line(
            c,
            LineKind::IniCommented,
            k,
        ),
        spec_ini_get(mysql_apply(c, cfg, n), k) == spec_ini_get(c, k),
    decreases n,
{
    if n > 0 {
        let m = (n - 1) as nat;
        lemma_mysql_apply_frame(c, cfg, m, k);
        assert(mysql_key(m as int) != k);
        assert(ini_stable(mysql_val(cfg, m as int)));
        lemma_ini_set_frame(mysql_apply(c, cfg, m), mysql_key(m as int), mysql_val(cfg, m as int), k);
    }
}

/// After the first `n` keys are written, each of them reads back as
/// written.
proof fn lemma_mysql_apply_get(c: Seq<char>, cfg: MysqlConfig, n: nat, j: int)
    requires
        0 <= j < n <= 25,
        forall|i: int|
            0 <= i < 25 ==> find_line(c, LineKind::IniActive, #[trigger] mysql_key(i)) is Some
                || find_line(c, LineKind::IniCommented, mysql_key(i)) is Some,
        forall|i: int| 0 <= i < 25 ==> ini_key_ok(#[trigger] mysql_key(i)),
        forall|i: int, l: int|
            0 <= i < 25 && 0 <= l < 25 && i != l ==> #[trigger] mysql_key(i) != #[trigger] mysql_key(l),
        forall|i: int| 0 <= i < 25 ==> ini_stable(#[trigger] mysql_val(cfg, i)),
    ensures
        spec_ini_get(mysql_apply(c, cfg, n), mysql_key(j)) == Some(mysql_val(cfg, j)),
    decreases n,
{
    let m = (n - 1) as nat;
    let prev = mysql_apply(c, cfg, m);
    if j == m {
        assert forall|i: int| 0 <= i < m implies #[trigger] mysql_key(i) != mysql_key(j) by {}
        lemma_mysql_apply_frame(c, cfg, m, mysql_key(j));
        assert(mysql_key(j) == mysql_key(m as int));
        law_ini_set_then_get(prev, mysql_key(j), mysql_val(cfg, j));
    } else {
        lemma_mysql_apply_get(c, cfg, m, j);
        assert(mysql_key(m as int) != mysql_key(j));
        lemma_ini_set_frame(prev, mysql_key(m as int), mysql_val(cfg, m as int), mysql_key(j));
    }
}

/// What `spec_save_mysql` writes is the keys in order.
proof fn lemma_mysql_save_is_apply(c: Seq<char>, cfg: MysqlConfig)
    ensures
        spec_save_mysql(c, cfg) == mysql_apply(c, cfg, 25),
{
    assert(mysql_apply(c, cfg, 0) == c);
    let c1 = mysql_apply(c, cfg, 1);
    assert(c1 == spec_ini_set(c, "port"@, decimal(cfg.port as nat)));
    let c2 = mysql_apply(c, cfg, 2);
    assert(c2 == spec_ini_set(c1, "max_connections"@, decimal(cfg.max_connections as nat)));
    let c3 = mysql_apply(c, cfg, 3);
    assert(c3 == spec_ini_set(c2, "max_allowed_packet"@, cfg.max_allowed_packet@));
    let c4 = mysql_apply(c, cfg, 4);
    assert(c4 == spec_ini_set(c3, "innodb_buffer_pool_size"@, cfg.innodb_buffer_pool_size@));
    let c5 = mysql_apply(c, cfg, 5);
    assert(c5 == spec_ini_set(c4, "innodb_log_file_size"@, cfg.innodb_log_file_size@));
    let c6 = mysql_apply(c, cfg, 6);
    assert(c6 == spec_ini_set(c5, "innodb_log_buffer_size"@, cfg.innodb_log_buffer_size@));
    let c7 = mysql_apply(c, cfg, 7);
    assert(c7 == spec_ini_set(c6, "innodb_flush_log_at_trx_commit"@, decimal(cfg.innodb_flush_log_at_trx_commit as nat)));
    let c8 = mysql_apply(c, cfg, 8);
    assert(c8 == spec_ini_set(c7, "innodb_lock_wait_timeout"@, decimal(cfg.innodb_lock_wait_timeout as nat)));
    let c9 = mysql_apply(c, cfg, 9);
    assert(c9 == spec_ini_set(c8, "character-set-server"@, cfg.character_set_server@));
    let c10 = mysql_apply(c, cfg, 10);
    assert(c10 == spec_ini_set(c9, "collation-server"@, cfg.collation_server@));
    let c11 = mysql_apply(c, cfg, 11);
    assert(c11 == spec_ini_set(c10, "init_connect"@, cfg.init_connect@));
    let c12 = mysql_apply(c, cfg, 12);
    assert(c12 == spec_ini_set(c11, "key_buffer_size"@, cfg.key_buffer_size@));
    let c13 = mysql_apply(c, cfg, 13);
    assert(c13 == spec_ini_set(c12, "table_open_cache"@, decimal(cfg.table_open_cache as nat)));
    let c14 = mysql_apply(c, cfg, 14);
    assert(c14 == spec_ini_set(c13, "tmp_table_size"@, cfg.tmp_table_size@));
    let c15 = mysql_apply(c, cfg, 15);
    assert(c15 == spec_ini_set(c14, "max_heap_table_size"@, cfg.max_heap_table_size@));
    let c16 = mysql_apply(c, cfg, 16);
    assert(c16 == spec_ini_set(c15, "interactive_timeout"@, decimal(cfg.interactive_timeout as nat)));
    let c17 = mysql_apply(c, cfg, 17);
    assert(c17 == spec_ini_set(c16, "wait_timeout"@, decimal(cfg.wait_timeout as nat)));
    let c18 = mysql_apply(c, cfg, 18);
    assert(c18 == spec_ini_set(c17, "sort_buffer_size"@, cfg.sort_buffer_size@));
    let c19 = mysql_apply(c, cfg, 19);
    assert(c19 == spec_ini_set(c18, "read_buffer_size"@, cfg.read_buffer_size@));
    let c20 = mysql_apply(c, cfg, 20);
    assert(c20 == spec_ini_set(c19, "read_rnd_buffer_size"@, cfg.read_rnd_buffer_size@));
    let c21 = mysql_apply(c, cfg, 21);
    assert(c21 == spec_ini_set(c20, "join_buffer_size"@, cfg.join_buffer_size@));
    let c22 = mysql_apply(c, cfg, 22);
    assert(c22 == spec_ini_set(c21, "myisam_sort_buffer_size"@, cfg.myisam_sort_buffer_size@));
    let c23 = mysql_apply(c, cfg, 23);
    assert(c23 == spec_ini_set(c22, "thread_cache_size"@, decimal(cfg.thread_cache_size as nat)));
    let c24 = mysql_apply(c, cfg, 24);
    assert(c24 == spec_ini_set(c23, "log_error_verbosity"@, decimal(cfg.log_error_verbosity as nat)));
    let c25 = mysql_apply(c, cfg, 25);
    assert(c25 == spec_ini_set(c24, "default-storage-engine"@, cfg.default_storage_engine@));
}

/// After a MySQL save, each key reads back as written.
proof fn lemma_mysql_save_reads(c: Seq<char>, cfg: MysqlConfig)
    requires
        mysql_lists_all(c),
        ini_stable(cfg.max_allowed_packet@),
        ini_stable(cfg.innodb_buffer_pool_size@),
        ini_stable(cfg.innodb_log_file_size@),
        ini_stable(cfg.innodb_log_buffer_size@),
        ini_stable(cfg.character_set_server@),
        ini_stable(cfg.collation_server@),
        ini_stable(cfg.init_connect@),
        ini_stable(cfg.key_buffer_size@),
        ini_stable(cfg.tmp_table_size@),
        ini_stable(cfg.max_heap_table_size@),
        ini_stable(cfg.sort_buffer_size@),
        ini_stable(cfg.read_buffer_size@),
        ini_stable(cfg.read_rnd_buffer_size@),
        ini_stable(cfg.join_buffer_size@),
        ini_stable(cfg.myisam_sort_buffer_size@),
        ini_stable(cfg.default_storage_engine@),
    ensures
        forall|j: int| 0 <= j < 25 ==> #[trigger] spec_ini_get(spec_save_mysql(c, cfg), mysql_key(j))
            == Some(mysql_val(cfg, j)),
{
    lemma_mysql_keys();
    lemma_mysql_vals(cfg);
    assert forall|i: int| 0 <= i < 25 implies find_line(c, LineKind::IniActive, #[trigger] mysql_key(i)) is Some
        || find_line(c, LineKind::IniCommented, mysql_key(i)) is Some by {}
    lemma_mysql_save_is_apply(c, cfg);
    assert forall|j: int| 0 <= j < 25 implies #[trigger] spec_ini_get(spec_save_mysql(c, cfg), mysql_key(j))
        == Some(mysql_val(cfg, j)) by {
        lemma_mysql_apply_get(c, cfg, 25, j);
    }
}

/// Saving the MySQL settings into a file that has an active or a commented
/// line for each of them, then reading the file, gives back every setting
/// saved: each number, and each text that reads back as written (no line
/// break, no surrounding whitespace).
pub proof fn law_mysql_save_then_read(c: Seq<char>, cfg: MysqlConfig)
    requires
        mysql_lists_all(c),
        ini_stable(cfg.max_allowed_packet@),
        ini_stable(cfg.innodb_buffer_pool_size@),
        ini_stable(cfg.innodb_log_file_size@),
        ini_stable(cfg.innodb_log_buffer_size@),
        ini_stable(cfg.character_set_server@),
        ini_stable(cfg.collation_server@),
        ini_stable(cfg.init_connect@),
        ini_stable(cfg.key_buffer_size@),
        ini_stable(cfg.tmp_table_size@),
        ini_stable(cfg.max_heap_table_size@),
        ini_stable(cfg.sort_buffer_size@),
        ini_stable(cfg.read_buffer_size@),
        ini_stable(cfg.read_rnd_buffer_size@),
        ini_stable(cfg.join_buffer_size@),
        ini_stable(cfg.myisam_sort_buffer_size@),
        ini_stable(cfg.default_storage_engine@),
    ensures
        ({
            let s = spec_save_mysql(c, cfg);
            &&& ig_num(s, "port"@, u16::MAX as nat, 3306) == cfg.port as nat
            &&& ig_num(s, "max_connections"@, u32::MAX as nat, 100) == cfg.max_connections as nat
            &&& ig_text(s, "max_allowed_packet"@, "16M"@) == cfg.max_allowed_packet@
            &&& ig_text(s, "innodb_buffer_pool_size"@, "64M"@) == cfg.innodb_buffer_pool_size@
            &&& ig_text(s, "innodb_log_file_size"@, "256M"@) == cfg.innodb_log_file_size@
            &&& ig_text(s, "innodb_log_buffer_size"@, "4M"@) == cfg.innodb_log_buffer_size@
            &&& ig_num(s, "innodb_flush_log_at_trx_commit"@, u8::MAX as nat, 1) == cfg.innodb_flush_log_at_trx_commit as nat
            &&& ig_num(s, "innodb_lock_wait_timeout"@, u32::MAX as nat, 120) == cfg.innodb_lock_wait_timeout as nat
            &&& ig_text(s, "character-set-server"@, "utf8"@) == cfg.character_set_server@
            &&& ig_text(s, "collation-server"@, "utf8_unicode_ci"@) == cfg.collation_server@
            &&& ig_text(s, "init_connect"@, "SET NAMES utf8"@) == cfg.init_connect@
            &&& ig_text(s, "key_buffer_size"@, "32M"@) == cfg.key_buffer_size@
            &&& ig_num(s, "table_open_cache"@, u32::MAX as nat, 256) == cfg.table_open_cache as nat
            &&& ig_text(s, "tmp_table_size"@, "64M"@) == cfg.tmp_table_size@
            &&& ig_text(s, "max_heap_table_size"@, "64M"@) == cfg.max_heap_table_size@
            &&& ig_num(s, "interactive_timeout"@, u32::MAX as nat, 120) == cfg.interactive_timeout as nat
            &&& ig_num(s, "wait_timeout"@, u32::MAX as nat, 120) == cfg.wait_timeout as nat
            &&& ig_text(s, "sort_buffer_size"@, "256kb"@) == cfg.sort_buffer_size@
            &&& ig_text(s, "read_buffer_size"@, "512kb"@) == cfg.read_buffer_size@
            &&& ig_text(s, "read_rnd_buffer_size"@, "4M"@) == cfg.read_rnd_buffer_size@
            &&& ig_text(s, "join_buffer_size"@, "2M"@) == cfg.join_buffer_size@
            &&& ig_text(s, "myisam_sort_buffer_size"@, "32M"@) == cfg.myisam_sort_buffer_size@
            &&& ig_num(s, "thread_cache_size"@, u32::MAX as nat, 16) == cfg.thread_cache_size as nat
            &&& ig_num(s, "log_error_verbosity"@, u8::MAX as nat, 1) == cfg.log_error_verbosity as nat
            &&& ig_text(s, "default-storage-engine"@, "MyISAM"@) == cfg.default_storage_engine@
        }),
{
    lemma_mysql_save_reads(c, cfg);
    let s = spec_save_mysql(c, cfg);
    assert(spec_ini_get(s, mysql_key(0)) == Some(mysql_val(cfg, 0)));
    lemma_parse_decimal(cfg.port as nat, u16::MAX as nat);
    assert(spec_ini_get(s, mysql_key(1)) == Some(mysql_val(cfg, 1)));
    lemma_parse_decimal(cfg.max_connections as nat, u32::MAX as nat);
    assert(spec_ini_get(s, mysql_key(2)) == Some(mysql_val(cfg, 2)));
    assert(spec_ini_get(s, mysql_key(3)) == Some(mysql_val(cfg, 3)));
    assert(spec_ini_get(s, mysql_key(4)) == Some(mysql_val(cfg, 4)));
    assert(spec_ini_get(s, mysql_key(5)) == Some(mysql_val(cfg, 5)));
    assert(spec_ini_get(s, mysql_key(6)) == Some(mysql_val(cfg, 6)));
    lemma_parse_decimal(cfg.innodb_flush_log_at_trx_commit as nat, u8::MAX as nat);
    assert(spec_ini_get(s, mysql_key(7)) == Some(mysql_val(cfg, 7)));
    lemma_parse_decimal(cfg.innodb_lock_wait_timeout as nat, u32::MAX as nat);
    assert(spec_ini_get(s, mysql_key(8)) == Some(mysql_val(cfg, 8)));
    assert(spec_ini_get(s, mysql_key(9)) == Some(mysql_val(cfg, 9)));
    assert(spec_ini_get(s, mysql_key(10)) == Some(mysql_val(cfg, 10)));
    assert(spec_ini_get(s, mysql_key(11)) == Some(mysql_val(cfg, 11)));
    assert(spec_ini_get(s, mysql_key(12)) == Some(mysql_val(cfg, 12)));
    lemma_parse_decimal(cfg.table_open_cache as nat, u32::MAX as nat);
    assert(spec_ini_get(s, mysql_key(13)) == Some(mysql_val(cfg, 13)));
    assert(spec_ini_get(s, mysql_key(14)) == Some(mysql_val(cfg, 14)));
    assert(spec_ini_get(s, mysql_key(15)) == Some(mysql_val(cfg, 15)));
    lemma_parse_decimal(cfg.interactive_timeout as nat, u32::MAX as nat);
    assert(spec_ini_get(s, mysql_key(16)) == Some(mysql_val(cfg, 16)));
    lemma_parse_decimal(cfg.wait_timeout as nat, u32::MAX as nat);
    assert(spec_ini_get(s, mysql_key(17)) == Some(mysql_val(cfg, 17)));
    assert(spec_ini_get(s, mysql_key(18)) == Some(mysql_val(cfg, 18)));
    assert(spec_ini_get(s, mysql_key(19)) == Some(mysql_val(cfg, 19)));
    assert(spec_ini_get(s, mysql_key(20)) == Some(mysql_val(cfg, 20)));
    assert(spec_ini_get(s, mysql_key(21)) == Some(mysql_val(cfg, 21)));
    assert(spec_ini_get(s, mysql_key(22)) == Some(mysql_val(cfg, 22)));
    lemma_parse_decimal(cfg.thread_cache_size as nat, u32::MAX as nat);
    assert(spec_ini_get(s, mysql_key(23)) == Some(mysql_val(cfg, 23)));
    lemma_parse_decimal(cfg.log_error_verbosity as nat, u8::MAX as nat);
    assert(spec_ini_get(s, mysql_key(24)) == Some(mysql_val(cfg, 24)));
}

// ======================== Redis ========================

/// Appending an element on which `p` fails leaves the first match of `p`
/// where it was.
pub proof fn lemma_first_where_push(s: Seq<Seq<char>>, x: Seq<char>, p: spec_fn(Seq<char>) -> bool)
    requires
        !p(x),
    ensures
        first_where(s.push(x), p) == first_where(s, p),
{
    let u = s.push(x);
    lemma_first_where_spec(s, p);
    match first_where(s, p) {
        Some(j) => {
            assert forall|m: int| 0 <= m < j implies !p(#[trigger] u[m]) by {
                assert(u[m] == s[m]);
            }
            assert(u[j] == s[j]);
            lemma_first_where_found(u, p, j);
        },
        None => {
            assert forall|m: int| 0 <= m < u.len() implies !p(#[trigger] u[m]) by {
                if m < s.len() {
                    assert(u[m] == s[m]);
                }
            }
            lemma_first_where_none(u, p);
        },
    }
}

/// Appending a line `p` does not match leaves the first line `p` matches,
/// and that line's trimmed text, as they were.
pub proof fn lemma_push_frame(c: Seq<char>, l: Seq<char>, p: spec_fn(Seq<char>) -> bool)
    requires
        !p(l),
        no_nl(l),
        trim_only(p),
        !p(Seq::empty()),
    ensures
        first_where(lines(join_lines(lines(c).push(l))), p) == first_where(lines(c), p),
        first_where(lines(c), p) matches Some(j) ==> trim(lines(join_lines(lines(c).push(l)))[j])
            == trim(lines(c)[j]),
{
    let ls = lines(c);
    let new = ls.push(l);
    lemma_lines_no_nl(c);
    assert forall|j: int| 0 <= j < new.len() implies no_nl(#[trigger] new[j]) by {
        if j < ls.len() {
            assert(new[j] == ls[j]);
        }
    }
    lemma_lines_join(new);
    lemma_first_where_relined(new, p);
    lemma_first_where_push(ls, l, p);
    lemma_first_where_spec(ls, p);
}

/// Writing one Redis key leaves what is read of any other key unchanged.
pub proof fn lemma_redis_set_frame(c: Seq<char>, k2: Seq<char>, v: Seq<char>, k1: Seq<char>)
    requires
        redis_key_ok(k1),
        redis_key_ok(k2),
        k1 != k2,
        no_nl(v),
        trim(v).len() > 0,
    ensures
        spec_redis_get(spec_redis_set(c, k2, v), k1) == spec_redis_get(c, k1),
{
    let ls = lines(c);
    let pg = pred(LineKind::RedisGet, k1);
    lemma_pred_trim_only(LineKind::RedisGet, k1);
    assert(!pg(Seq::empty()));
    lemma_first_where_spec(ls, pred(LineKind::RedisActive, k2));
    lemma_first_where_spec(ls, pred(LineKind::RedisCommented, k2));
    let l = redis_line(k2, v);
    lemma_redis_line(k2, v);
    match find_line(c, LineKind::RedisActive, k2) {
        Some(i) => {
            lemma_edit_frame(c, i, l, pg);
        },
        None => match find_line(c, LineKind::RedisCommented, k2) {
            Some(i) => {
                lemma_edit_frame(c, i, l, pg);
            },
            None => {
                lemma_push_frame(c, l, pg);
            },
        },
    }
}

/// A value made of characters that are neither whitespace nor `"` reads
/// back as written.
pub proof fn lemma_redis_plain(s: Seq<char>)
    requires
        s.len() > 0,
        forall|j: int| 0 <= j < s.len() ==> !is_ws(s[j]) && s[j] != '"',
    ensures
        redis_stable(s),
{
    assert(!is_ws(s[0]));
    assert(!is_ws(s.last()));
    assert(crate::text::trim_end(s) == s);
    assert(crate::text::trim_start(s) == s);
    assert(trim_quotes_end(s) == s);
    assert(trim_quotes_start(s) == s);
}

/// A text value the Redis reader gives back as it was written: not empty,
/// no line break, and nothing the reader strips (surrounding whitespace
/// and quotes).
pub open spec fn redis_stable(v: Seq<char>) -> bool {
    &&& v.len() > 0
    &&& no_nl(v)
    &&& trim_quotes(trim(v)) == v
}

/// The `i`-th key the Redis editor saves, in the order it writes them.
pub open spec fn redis_key(i: int) -> Seq<char> {
    if i == 0 {
        "port"@
    } else if i == 1 {
        "bind"@
    } else if i == 2 {
        "timeout"@
    } else if i == 3 {
        "databases"@
    } else if i == 4 {
        "maxmemory"@
    } else if i == 5 {
        "maxclients"@
    } else if i == 6 {
        "maxmemory-policy"@
    } else if i == 7 {
        "tcp-backlog"@
    } else if i == 8 {
        "tcp-keepalive"@
    } else if i == 9 {
        "loglevel"@
    } else if i == 10 {
        "rdbcompression"@
    } else if i == 11 {
        "appendonly"@
    } else if i == 12 {
        "appendfsync"@
    } else if i == 13 {
        "requirepass"@
    } else if i == 14 {
        "rdbchecksum"@
    } else if i == 15 {
        "dbfilename"@
    } else if i == 16 {
        "dir"@
    } else {
        "stop-writes-on-bgsave-error"@
    }
}

/// The text the Redis editor writes for its `i`-th key, when the password
/// is not empty.
pub open spec fn redis_val(cfg: RedisConfig, i: int) -> Seq<char> {
    if i == 0 {
        decimal(cfg.port as nat)
    } else if i == 1 {
        cfg.bind@
    } else if i == 2 {
        decimal(cfg.timeout as nat)
    } else if i == 3 {
        decimal(cfg.databases as nat)
    } else if i == 4 {
        cfg.maxmemory@
    } else if i == 5 {
        decimal(cfg.maxclients as nat)
    } else if i == 6 {
        cfg.maxmemory_policy@
    } else if i == 7 {
        decimal(cfg.tcp_backlog as nat)
    } else if i == 8 {
        decimal(cfg.tcp_keepalive as nat)
    } else if i == 9 {
        cfg.loglevel@
    } else if i == 10 {
        yes_no(cfg.rdbcompression)
    } else if i == 11 {
        yes_no(cfg.appendonly)
    } else if i == 12 {
        cfg.appendfsync@
    } else if i == 13 {
        cfg.requirepass@
    } else if i == 14 {
        yes_no(cfg.rdbchecksum)
    } else if i == 15 {
        cfg.dbfilename@
    } else if i == 16 {
        cfg.dir@
    } else {
        yes_no(cfg.stop_writes_on_bgsave_error)
    }
}

/// The length, first and last character of the `i`-th Redis key, as one
/// number.
spec fn redis_tag(i: int) -> int {
    if i == 0 {
        4112116
    } else if i == 1 {
        4098100
    } else if i == 2 {
        7116116
    } else if i == 3 {
        9100115
    } else if i == 4 {
        9109121
    } else if i == 5 {
        10109115
    } else if i == 6 {
        16109121
    } else if i == 7 {
        11116103
    } else if i == 8 {
        13116101
    } else if i == 9 {
        8108108
    } else if i == 10 {
        14114110
    } else if i == 11 {
        10097121
    } else if i == 12 {
        11097099
    } else if i == 13 {
        11114115
    } else if i == 14 {
        11114109
    } else if i == 15 {
        10100101
    } else if i == 16 {
        3100114
    } else {
        27115114
    }
}

/// Whether the editor comments out the `i`-th key instead of writing it:
/// the password, when it is empty.
pub open spec fn redis_skip(cfg: RedisConfig, i: int) -> bool {
    i == 13 && cfg.requirepass@.len() == 0
}

/// The text after the editor has gone through the first `n` keys of `cfg`.
pub open spec fn redis_apply(c: Seq<char>, cfg: RedisConfig, n: nat) -> Seq<char>
    decreases n,
{
    if n == 0 {
        c
    } else if redis_skip(cfg, n - 1) {
        spec_redis_comment(redis_apply(c, cfg, (n - 1) as nat), redis_key(n - 1))
    } else {
        spec_redis_set(redis_apply(c, cfg, (n - 1) as nat), redis_key(n - 1), redis_val(cfg, n - 1))
    }
}

/// The keys the Redis editor saves are keys the reader finds, all different.
proof fn lemma_redis_keys()
    ensures
        forall|i: int| 0 <= i < 18 ==> redis_key_ok(#[trigger] redis_key(i)),
        forall|i: int, j: int|
            0 <= i < 18 && 0 <= j < 18 && i != j ==> #[trigger] redis_key(i) != #[trigger] redis_key(j),
        redis_key_ok("logfile"@),
        forall|i: int| 0 <= i < 18 ==> #[trigger] redis_key(i) != "logfile"@,
{
    reveal_strlit("port");
    reveal_strlit("bind");
    reveal_strlit("timeout");
    reveal_strlit("databases");
    reveal_strlit("maxmemory");
    reveal_strlit("maxclients");
    reveal_strlit("maxmemory-policy");
    reveal_strlit("tcp-backlog");
    reveal_strlit("tcp-keepalive");
    reveal_strlit("loglevel");
    reveal_strlit("rdbcompression");
    reveal_strlit("appendonly");
    reveal_strlit("appendfsync");
    reveal_strlit("requirepass");
    reveal_strlit("rdbchecksum");
    reveal_strlit("dbfilename");
    reveal_strlit("dir");
    reveal_strlit("stop-writes-on-bgsave-error");
    reveal_strlit("logfile");
    assert forall|i: int| 0 <= i < 18 implies #[trigger] redis_key(i) != "logfile"@ by {
        assert(redis_key(i).len() * 1000000 + (redis_key(i)[0] as int) * 1000 + (redis_key(i).last() as int)
            == redis_tag(i));
        assert(redis_tag(i) != 7108101);
    }
    assert forall|i: int| 0 <= i < 18 implies redis_key(i).len() * 1000000 + (#[trigger] redis_key(i)[0] as int) * 1000
        + (redis_key(i).last() as int) == redis_tag(i) by {}
    assert forall|i: int, j: int| 0 <= i < 18 && 0 <= j < 18 && i != j implies #[trigger] redis_tag(i)
        != #[trigger] redis_tag(j) by {}
    assert forall|i: int, j: int|
        0 <= i < 18 && 0 <= j < 18 && i != j implies #[trigger] redis_key(i) != #[trigger] redis_key(j) by {
        assert(redis_tag(i) != redis_tag(j));
        assert(redis_key(i).len() * 1000000 + (redis_key(i)[0] as int) * 1000 + (redis_key(i).last() as int)
            == redis_tag(i));
        assert(redis_key(j).len() * 1000000 + (redis_key(j)[0] as int) * 1000 + (redis_key(j).last() as int)
            == redis_tag(j));
    }
}

/// Every text the Redis editor writes for a key reads back as written.
proof fn lemma_redis_vals(cfg: RedisConfig)
    requires
        redis_stable(cfg.bind@),
        redis_stable(cfg.maxmemory@),
        redis_stable(cfg.maxmemory_policy@),
        redis_stable(cfg.loglevel@),
        redis_stable(cfg.appendfsync@),
        cfg.requirepass@.len() > 0 ==> redis_stable(cfg.requirepass@),
        redis_stable(cfg.dbfilename@),
        redis_stable(cfg.dir@),
    ensures
        forall|i: int| 0 <= i < 18 && !redis_skip(cfg, i) ==> redis_stable(#[trigger] redis_val(cfg, i)),
{
    lemma_redis_plain(yes_no(true));
    lemma_redis_plain(yes_no(false));
    lemma_decimal_digits(cfg.port as nat);
    lemma_redis_plain(decimal(cfg.port as nat));
    lemma_decimal_digits(cfg.timeout as nat);
    lemma_redis_plain(decimal(cfg.timeout as nat));
    lemma_decimal_digits(cfg.databases as nat);
    lemma_redis_plain(decimal(cfg.databases as nat));
    lemma_decimal_digits(cfg.maxclients as nat);
    lemma_redis_plain(decimal(cfg.maxclients as nat));
    lemma_decimal_digits(cfg.tcp_backlog as nat);
    lemma_redis_plain(decimal(cfg.tcp_backlog as nat));
    lemma_decimal_digits(cfg.tcp_keepalive as nat);
    lemma_redis_plain(decimal(cfg.tcp_keepalive as nat));
}

/// Commenting out the first active line of one key leaves what is read of
/// any other key unchanged.
pub proof fn lemma_redis_comment_frame(c: Seq<char>, k2: Seq<char>, k1: Seq<char>)
    requires
        redis_key_ok(k1),
        redis_key_ok(k2),
        k1 != k2,
    ensures
        spec_redis_get(spec_redis_comment(c, k2), k1) == spec_redis_get(c, k1),
{
    let ls = lines(c);
    let pg = pred(LineKind::RedisGet, k1);
    lemma_pred_trim_only(LineKind::RedisGet, k1);
    assert(!pg(Seq::empty()));
    lemma_first_where_spec(ls, pred(LineKind::RedisActive, k2));
    match find_line(c, LineKind::RedisActive, k2) {
        Some(i) => {
            let l = seq!['#', ' '] + trim(ls[i]);
            lemma_lines_no_nl(c);
            lemma_commented_line(ls[i]);
            lemma_edit_frame(c, i, l, pg);
        },
        None => {
            lemma_rejoin_frame(c, pg);
        },
    }
}

/// `# ` before a trimmed line makes a line without a line break (when the
/// line has none) that trims to a text beginning with `#`.
pub proof fn lemma_commented_line(s: Seq<char>)
    ensures
        no_nl(s) ==> no_nl(seq!['#', ' '] + trim(s)),
        trim(seq!['#', ' '] + trim(s)).len() > 0,
        trim(seq!['#', ' '] + trim(s))[0] == '#',
{
    let t = trim(s);
    let l = seq!['#', ' '] + t;
    let e = crate::text::trim_end(s);
    crate::text::lemma_trim_end_props(s);
    crate::text::lemma_trim_start_props(e);
    if no_nl(s) {
        assert forall|j: int| 0 <= j < t.len() implies t[j] != '\n' by {
            assert(t[j] == e[e.len() - t.len() + j]);
            assert(e[e.len() - t.len() + j] == s[e.len() - t.len() + j]);
        }
        assert forall|j: int| 0 <= j < l.len() implies l[j] != '\n' by {
            if j >= 2 {
                assert(l[j] == t[j - 2]);
            }
        }
    }
    assert(l[0] == '#');
    crate::text::lemma_trim_nonws_first(l);
}

/// The file has no `requirepass` line the reader would take other than its
/// first active one, the line the editor comments out for an empty
/// password.
pub open spec fn redis_single_password(c: Seq<char>) -> bool {
    forall|j: int|
        #![trigger lines(c)[j]]
        0 <= j < lines(c).len() && pred(LineKind::RedisGet, "requirepass"@)(lines(c)[j]) ==> find_line(
            c,
            LineKind::RedisActive,
            "requirepass"@,
        ) == Some(j)
}

/// Writing another key keeps the file's single password line single.
proof fn lemma_redis_set_keeps_single(c: Seq<char>, k2: Seq<char>, v: Seq<char>)
    requires
        redis_single_password(c),
        redis_key_ok(k2),
        k2 != "requirepass"@,
        no_nl(v),
        trim(v).len() > 0,
    ensures
        redis_single_password(spec_redis_set(c, k2, v)),
{
    let rp = "requirepass"@;
    reveal_strlit("requirepass");
    let ls = lines(c);
    let pa = pred(LineKind::RedisActive, rp);
    let pg = pred(LineKind::RedisGet, rp);
    lemma_pred_trim_only(LineKind::RedisActive, rp);
    lemma_pred_trim_only(LineKind::RedisGet, rp);
    assert(!pa(Seq::empty()) && !pg(Seq::empty()));
    lemma_first_where_spec(ls, pred(LineKind::RedisActive, k2));
    lemma_first_where_spec(ls, pred(LineKind::RedisCommented, k2));
    let l = redis_line(k2, v);
    lemma_redis_line(k2, v);
    lemma_lines_no_nl(c);
    let c2 = spec_redis_set(c, k2, v);
    let i: int = match find_line(c, LineKind::RedisActive, k2) {
        Some(i) => i,
        None => match find_line(c, LineKind::RedisCommented, k2) {
            Some(i) => i,
            None => ls.len() as int,
        },
    };
    let new = if i < ls.len() {
        ls.update(i, l)
    } else {
        ls.push(l)
    };
    assert(c2 == join_lines(new));
    assert forall|j: int| 0 <= j < new.len() implies no_nl(#[trigger] new[j]) by {
        if j != i {
            assert(new[j] == ls[j]);
        }
    }
    lemma_lines_join(new);
    if i < ls.len() {
        lemma_edit_frame(c, i, l, pa);
    } else {
        lemma_push_frame(c, l, pa);
    }
    assert forall|j: int|
        #![trigger lines(c2)[j]]
        0 <= j < lines(c2).len() && pg(lines(c2)[j]) implies find_line(c2, LineKind::RedisActive, rp)
        == Some(j) by {
        crate::text::lemma_relined_index(new, j);
        crate::text::lemma_trim_strip_cr(new[j]);
        assert(pg(new[j]));
        if j != i {
            assert(new[j] == ls[j]);
        }
    }
}

/// Commenting out the first active password line of a file with a single
/// one leaves no password the reader takes.
proof fn lemma_redis_comment_clears(c: Seq<char>)
    requires
        redis_single_password(c),
    ensures
        spec_redis_get(spec_redis_comment(c, "requirepass"@), "requirepass"@) is None,
{
    let rp = "requirepass"@;
    let ls = lines(c);
    let pa = pred(LineKind::RedisActive, rp);
    let pg = pred(LineKind::RedisGet, rp);
    lemma_pred_trim_only(LineKind::RedisGet, rp);
    assert(!pg(Seq::empty()));
    lemma_first_where_spec(ls, pa);
    match find_line(c, LineKind::RedisActive, rp) {
        Some(i) => {
            let l = seq!['#', ' '] + trim(ls[i]);
            lemma_lines_no_nl(c);
            lemma_commented_line(ls[i]);
            let new = ls.update(i, l);
            assert forall|j: int| 0 <= j < new.len() implies no_nl(#[trigger] new[j]) by {
                if j != i {
                    assert(new[j] == ls[j]);
                }
            }
            assert forall|j: int| 0 <= j < new.len() implies !pg(#[trigger] new[j]) by {
                if j != i {
                    assert(new[j] == ls[j]);
                    assert(ls[j] == lines(c)[j]);
                }
            }
            lemma_first_where_none(new, pg);
            lemma_lines_join(new);
            lemma_first_where_relined(new, pg);
        },
        None => {
            assert forall|j: int| 0 <= j < ls.len() implies !pg(#[trigger] ls[j]) by {
                assert(!pa(ls[j]));
            }
            lemma_first_where_none(ls, pg);
            lemma_rejoin_frame(c, pg);
        },
    }
}

/// Going through keys `m` to `n - 1` leaves what is read of a key that is
/// not among them unchanged.
proof fn lemma_redis_apply_frame(c: Seq<char>, cfg: RedisConfig, m: nat, n: nat, k: Seq<char>)
    requires
        m <= n <= 18,
        redis_key_ok(k),
        forall|i: int| m <= i < n ==> #[trigger] redis_key(i) != k,
        forall|i: int| 0 <= i < 18 ==> redis_key_ok(#[trigger] redis_key(i)),
        forall|i: int| 0 <= i < 18 && !redis_skip(cfg, i) ==> redis_stable(#[trigger] redis_val(cfg, i)),
    ensures
        spec_redis_get(redis_apply(c, cfg, n), k) == spec_redis_get(redis_apply(c, cfg, m), k),
    decreases n,
{
    if n > m {
        let p = (n - 1) as nat;
        lemma_redis_apply_frame(c, cfg, m, p, k);
        assert(redis_key(p as int) != k);
        if redis_skip(cfg, p as int) {
            lemma_redis_comment_frame(redis_apply(c, cfg, p), redis_key(p as int), k);
        } else {
            assert(redis_stable(redis_val(cfg, p as int)));
            lemma_redis_set_frame(redis_apply(c, cfg, p), redis_key(p as int), redis_val(cfg, p as int), k);
        }
    }
}

/// After the editor has gone through the first `n` keys, each key it wrote
/// reads back as written.
proof fn lemma_redis_apply_get(c: Seq<char>, cfg: RedisConfig, n: nat, j: int)
    requires
        0 <= j < n <= 18,
        !redis_skip(cfg, j),
        forall|i: int| 0 <= i < 18 ==> redis_key_ok(#[trigger] redis_key(i)),
        forall|i: int, l: int|
            0 <= i < 18 && 0 <= l < 18 && i != l ==> #[trigger] redis_key(i) != #[trigger] redis_key(l),
        forall|i: int| 0 <= i < 18 && !redis_skip(cfg, i) ==> redis_stable(#[trigger] redis_val(cfg, i)),
    ensures
        spec_redis_get(redis_apply(c, cfg, n), redis_key(j)) == Some(redis_val(cfg, j)),
{
    let j1 = (j + 1) as nat;
    let prev = redis_apply(c, cfg, j as nat);
    assert(redis_stable(redis_val(cfg, j)));
    law_redis_set_then_get(prev, redis_key(j), redis_val(cfg, j));
    assert(redis_apply(c, cfg, j1) == spec_redis_set(prev, redis_key(j), redis_val(cfg, j)));
    assert forall|i: int| j1 <= i < n implies #[trigger] redis_key(i) != redis_key(j) by {}
    lemma_redis_apply_frame(c, cfg, j1, n, redis_key(j));
}

/// Before the password, the editor keeps a single password line single.
proof fn lemma_redis_apply_single(c: Seq<char>, cfg: RedisConfig, n: nat)
    requires
        n <= 13,
        redis_single_password(c),
        forall|i: int| 0 <= i < 18 ==> redis_key_ok(#[trigger] redis_key(i)),
        forall|i: int, l: int|
            0 <= i < 18 && 0 <= l < 18 && i != l ==> #[trigger] redis_key(i) != #[trigger] redis_key(l),
        forall|i: int| 0 <= i < 18 && !redis_skip(cfg, i) ==> redis_stable(#[trigger] redis_val(cfg, i)),
    ensures
        redis_single_password(redis_apply(c, cfg, n)),
    decreases n,
{
    reveal_strlit("requirepass");
    if n > 0 {
        let p = (n - 1) as nat;
        lemma_redis_apply_single(c, cfg, p);
        assert(redis_key(p as int) != redis_key(13));
        assert(redis_key(13) == "requirepass"@);
        assert(redis_stable(redis_val(cfg, p as int)));
        lemma_redis_set_keeps_single(redis_apply(c, cfg, p), redis_key(p as int), redis_val(cfg, p as int));
    }
}

/// What `spec_save_redis` writes is the keys in order, the password
/// commented out when it is empty.
proof fn lemma_redis_save_is_apply(c: Seq<char>, cfg: RedisConfig)
    ensures
        spec_save_redis(c, cfg) == redis_apply(c, cfg, 18),
{
    assert(redis_apply(c, cfg, 0) == c);
    let c1 = redis_apply(c, cfg, 1);
    assert(c1 == spec_redis_set(c, "port"@, decimal(cfg.port as nat)));
    let c2 = redis_apply(c, cfg, 2);
    assert(c2 == spec_redis_set(c1, "bind"@, cfg.bind@));
    let c3 = redis_apply(c, cfg, 3);
    assert(c3 == spec_redis_set(c2, "timeout"@, decimal(cfg.timeout as nat)));
    let c4 = redis_apply(c, cfg, 4);
    assert(c4 == spec_redis_set(c3, "databases"@, decimal(cfg.databases as nat)));
    let c5 = redis_apply(c, cfg, 5);
    assert(c5 == spec_redis_set(c4, "maxmemory"@, cfg.maxmemory@));
    let c6 = redis_apply(c, cfg, 6);
    assert(c6 == spec_redis_set(c5, "maxclients"@, decimal(cfg.maxclients as nat)));
    let c7 = redis_apply(c, cfg, 7);
    assert(c7 == spec_redis_set(c6, "maxmemory-policy"@, cfg.maxmemory_policy@));
    let c8 = redis_apply(c, cfg, 8);
    assert(c8 == spec_redis_set(c7, "tcp-backlog"@, decimal(cfg.tcp_backlog as nat)));
    let c9 = redis_apply(c, cfg, 9);
    assert(c9 == spec_redis_set(c8, "tcp-keepalive"@, decimal(cfg.tcp_keepalive as nat)));
    let c10 = redis_apply(c, cfg, 10);
    assert(c10 == spec_redis_set(c9, "loglevel"@, cfg.loglevel@));
    let c11 = redis_apply(c, cfg, 11);
    assert(c11 == spec_redis_set(c10, "rdbcompression"@, yes_no(cfg.rdbcompression)));
    let c12 = redis_apply(c, cfg, 12);
    assert(c12 == spec_redis_set(c11, "appendonly"@, yes_no(cfg.appendonly)));
    let c13 = redis_apply(c, cfg, 13);
    assert(c13 == spec_redis_set(c12, "appendfsync"@, cfg.appendfsync@));
    let c14 = redis_apply(c, cfg, 14);
    assert(c14 == (if cfg.requirepass@.len() == 0 { spec_redis_comment(c13, "requirepass"@) } else { spec_redis_set(c13, "requirepass"@, cfg.requirepass@) }));
    let c15 = redis_apply(c, cfg, 15);
    assert(c15 == spec_redis_set(c14, "rdbchecksum"@, yes_no(cfg.rdbchecksum)));
    let c16 = redis_apply(c, cfg, 16);
    assert(c16 == spec_redis_set(c15, "dbfilename"@, cfg.dbfilename@));
    let c17 = redis_apply(c, cfg, 17);
    assert(c17 == spec_redis_set(c16, "dir"@, cfg.dir@));
    let c18 = redis_apply(c, cfg, 18);
    assert(c18 == spec_redis_set(c17, "stop-writes-on-bgsave-error"@, yes_no(cfg.stop_writes_on_bgsave_error)));
}

/// After a Redis save, each key written reads back as written, and an
/// empty password reads back as none.
proof fn lemma_redis_save_reads(c: Seq<char>, cfg: RedisConfig)
    requires
        redis_stable(cfg.bind@),
        redis_stable(cfg.maxmemory@),
        redis_stable(cfg.maxmemory_policy@),
        redis_stable(cfg.loglevel@),
        redis_stable(cfg.appendfsync@),
        cfg.requirepass@.len() > 0 ==> redis_stable(cfg.requirepass@),
        cfg.requirepass@.len() == 0 ==> redis_single_password(c),
        redis_stable(cfg.dbfilename@),
        redis_stable(cfg.dir@),
    ensures
        forall|j: int| 0 <= j < 18 && !redis_skip(cfg, j) ==> #[trigger] spec_redis_get(spec_save_redis(c, cfg), redis_key(j))
            == Some(redis_val(cfg, j)),
        redis_skip(cfg, 13) ==> spec_redis_get(spec_save_redis(c, cfg), redis_key(13)) is None,
        spec_redis_get(spec_save_redis(c, cfg), "logfile"@) == spec_redis_get(c, "logfile"@),
{
    lemma_redis_keys();
    lemma_redis_vals(cfg);
    lemma_redis_save_is_apply(c, cfg);
    assert forall|j: int| 0 <= j < 18 && !redis_skip(cfg, j) implies #[trigger] spec_redis_get(spec_save_redis(c, cfg), redis_key(j))
        == Some(redis_val(cfg, j)) by {
        lemma_redis_apply_get(c, cfg, 18, j);
    }
    if redis_skip(cfg, 13) {
        lemma_redis_apply_single(c, cfg, 13);
        assert(redis_key(13) == "requirepass"@);
        lemma_redis_comment_clears(redis_apply(c, cfg, 13));
        assert(redis_apply(c, cfg, 14) == spec_redis_comment(redis_apply(c, cfg, 13), redis_key(13)));
        assert forall|i: int| 14 <= i < 18 implies #[trigger] redis_key(i) != redis_key(13) by {}
        lemma_redis_apply_frame(c, cfg, 14, 18, redis_key(13));
    }
    assert(redis_apply(c, cfg, 0) == c);
    lemma_redis_apply_frame(c, cfg, 0, 18, "logfile"@);
}

/// Saving the Redis settings, then reading the file, gives back every
/// setting saved: each number, each switch, and each text that reads back
/// as written (not empty, no line break, nothing the reader strips). A key
/// the file lacks is appended. An empty password comments out the file's
/// active password line and reads back empty, when the file has no other
/// password line the reader would take. The log file setting is not
/// written and reads as it did before.
pub proof fn law_redis_save_then_read(c: Seq<char>, cfg: RedisConfig)
    requires
        redis_stable(cfg.bind@),
        redis_stable(cfg.maxmemory@),
        redis_stable(cfg.maxmemory_policy@),
        redis_stable(cfg.loglevel@),
        redis_stable(cfg.appendfsync@),
        cfg.requirepass@.len() > 0 ==> redis_stable(cfg.requirepass@),
        cfg.requirepass@.len() == 0 ==> redis_single_password(c),
        redis_stable(cfg.dbfilename@),
        redis_stable(cfg.dir@),
    ensures
        ({
            let s = spec_save_redis(c, cfg);
            &&& rg_num(s, "port"@, u16::MAX as nat, 6379) == cfg.port as nat
            &&& rg_text(s, "bind"@, "127.0.0.1"@) == cfg.bind@
            &&& rg_num(s, "timeout"@, u32::MAX as nat, 0) == cfg.timeout as nat
            &&& rg_num(s, "databases"@, u16::MAX as nat, 16) == cfg.databases as nat
            &&& rg_text(s, "maxmemory"@, "1048576000"@) == cfg.maxmemory@
            &&& rg_num(s, "maxclients"@, u32::MAX as nat, 10000) == cfg.maxclients as nat
            &&& rg_text(s, "maxmemory-policy"@, "noeviction"@) == cfg.maxmemory_policy@
            &&& rg_num(s, "tcp-backlog"@, u32::MAX as nat, 511) == cfg.tcp_backlog as nat
            &&& rg_num(s, "tcp-keepalive"@, u32::MAX as nat, 0) == cfg.tcp_keepalive as nat
            &&& rg_text(s, "loglevel"@, "notice"@) == cfg.loglevel@
            &&& rg_flag(s, "rdbcompression"@, true) == cfg.rdbcompression
            &&& rg_flag(s, "appendonly"@, false) == cfg.appendonly
            &&& rg_text(s, "appendfsync"@, "everysec"@) == cfg.appendfsync@
            &&& rg_text(s, "requirepass"@, Seq::empty()) == cfg.requirepass@
            &&& rg_flag(s, "rdbchecksum"@, true) == cfg.rdbchecksum
            &&& rg_text(s, "dbfilename"@, "dump.rdb"@) == cfg.dbfilename@
            &&& rg_text(s, "dir"@, "./"@) == cfg.dir@
            &&& rg_flag(s, "stop-writes-on-bgsave-error"@, true) == cfg.stop_writes_on_bgsave_error
            &&& rg_text(s, "logfile"@, Seq::empty()) == rg_text(c, "logfile"@, Seq::empty())
        }),
{
    lemma_redis_save_reads(c, cfg);
    let s = spec_save_redis(c, cfg);
    reveal_strlit("yes");
    assert("yes"@ =~= seq!['y', 'e', 's']);
    assert(spec_redis_get(s, redis_key(0)) == Some(redis_val(cfg, 0)));
    lemma_parse_decimal(cfg.port as nat, u16::MAX as nat);
    assert(spec_redis_get(s, redis_key(1)) == Some(redis_val(cfg, 1)));
    assert(spec_redis_get(s, redis_key(2)) == Some(redis_val(cfg, 2)));
    lemma_parse_decimal(cfg.timeout as nat, u32::MAX as nat);
    assert(spec_redis_get(s, redis_key(3)) == Some(redis_val(cfg, 3)));
    lemma_parse_decimal(cfg.databases as nat, u16::MAX as nat);
    assert(spec_redis_get(s, redis_key(4)) == Some(redis_val(cfg, 4)));
    assert(spec_redis_get(s, redis_key(5)) == Some(redis_val(cfg, 5)));
    lemma_parse_decimal(cfg.maxclients as nat, u32::MAX as nat);
    assert(spec_redis_get(s, redis_key(6)) == Some(redis_val(cfg, 6)));
    assert(spec_redis_get(s, redis_key(7)) == Some(redis_val(cfg, 7)));
    lemma_parse_decimal(cfg.tcp_backlog as nat, u32::MAX as nat);
    assert(spec_redis_get(s, redis_key(8)) == Some(redis_val(cfg, 8)));
    lemma_parse_decimal(cfg.tcp_keepalive as nat, u32::MAX as nat);
    assert(spec_redis_get(s, redis_key(9)) == Some(redis_val(cfg, 9)));
    assert(spec_redis_get(s, redis_key(10)) == Some(redis_val(cfg, 10)));
    assert(spec_redis_get(s, redis_key(11)) == Some(redis_val(cfg, 11)));
    assert(spec_redis_get(s, redis_key(12)) == Some(redis_val(cfg, 12)));
    assert(redis_key(13) == "requirepass"@);
    assert(cfg.requirepass@.len() > 0 ==> spec_redis_get(s, redis_key(13)) == Some(redis_val(cfg, 13)));
    assert(spec_redis_get(s, redis_key(14)) == Some(redis_val(cfg, 14)));
    assert(spec_redis_get(s, redis_key(15)) == Some(redis_val(cfg, 15)));
    assert(spec_redis_get(s, redis_key(16)) == Some(redis_val(cfg, 16)));
    assert(spec_redis_get(s, redis_key(17)) == Some(redis_val(cfg, 17)));
}

// ======================== php.ini ========================

/// Writing one php.ini key leaves what is read of any other key unchanged.
pub proof fn lemma_php_set_frame(c: Seq<char>, k2: Seq<char>, v: Seq<char>, k1: Seq<char>)
    requires
        php_key_ok(k1),
        php_key_ok(k2),
        k1 != k2,
        no_nl(v),
    ensures
        spec_php_get(spec_php_set(c, k2, v), k1) == spec_php_get(c, k1),
{
    let ls = lines(c);
    let pg = pred(LineKind::PhpGet, k1);
    lemma_pred_trim_only(LineKind::PhpGet, k1);
    assert(!pg(Seq::empty()));
    lemma_first_where_spec(ls, pred(LineKind::PhpSet, k2));
    let l = ini_line(k2, v);
    lemma_ini_line(k2, v);
    match find_line(c, LineKind::PhpSet, k2) {
        Some(i) => {
            lemma_edit_frame(c, i, l, pg);
        },
        None => {
            lemma_push_frame(c, l, pg);
        },
    }
}

/// A value that neither begins nor ends with whitespace, and has no line
/// break, reads back from an INI line as written.
pub proof fn lemma_ini_ends(s: Seq<char>)
    requires
        s.len() > 0,
        !is_ws(s[0]),
        !is_ws(s.last()),
        no_nl(s),
    ensures
        ini_stable(s),
{
    assert(crate::text::trim_end(s) == s);
    assert(crate::text::trim_start(s) == s);
}

/// What `i32::to_string` writes, `str::parse::<i32>` reads back, and it
/// holds neither whitespace nor a line break at its ends.
pub proof fn lemma_signed_decimal(n: int)
    requires
        -0x8000_0000 <= n < 0x8000_0000,
    ensures
        parse_i32(signed_decimal(n)) == Some(n),
        ini_stable(signed_decimal(n)),
{
    if n < 0 {
        let m = (-n) as nat;
        lemma_decimal_digits(m);
        let s = signed_decimal(n);
        assert(s.drop_first() == decimal(m));
        assert(forall|j: int| 0 <= j < s.len() ==> !is_ws(#[trigger] s[j])) by {
            assert forall|j: int| 0 <= j < s.len() implies !is_ws(#[trigger] s[j]) by {
                if j > 0 {
                    assert(s[j] == decimal(m)[j - 1]);
                }
            }
        }
        lemma_ini_plain(s);
    } else {
        lemma_decimal_digits(n as nat);
        lemma_parse_decimal(n as nat, 0x7FFF_FFFF);
        lemma_ini_plain(decimal(n as nat));
    }
}

/// The `i`-th key the php.ini editor saves, in the order it writes them.
pub open spec fn php_key(i: int) -> Seq<char> {
    if i == 0 {
        "memory_limit"@
    } else if i == 1 {
        "upload_max_filesize"@
    } else if i == 2 {
        "post_max_size"@
    } else if i == 3 {
        "max_execution_time"@
    } else if i == 4 {
        "max_input_time"@
    } else if i == 5 {
        "display_errors"@
    } else if i == 6 {
        "error_reporting"@
    } else if i == 7 {
        "date.timezone"@
    } else if i == 8 {
        "file_uploads"@
    } else if i == 9 {
        "short_open_tag"@
    } else if i == 10 {
        "allow_url_fopen"@
    } else if i == 11 {
        "allow_url_include"@
    } else if i == 12 {
        "disable_functions"@
    } else if i == 13 {
        "expose_php"@
    } else if i == 14 {
        "open_basedir"@
    } else if i == 15 {
        "opcache.enable"@
    } else if i == 16 {
        "opcache.memory_consumption"@
    } else if i == 17 {
        "opcache.max_accelerated_files"@
    } else if i == 18 {
        "opcache.validate_timestamps"@
    } else if i == 19 {
        "opcache.revalidate_freq"@
    } else if i == 20 {
        "session.save_handler"@
    } else if i == 21 {
        "session.save_path"@
    } else if i == 22 {
        "session.gc_maxlifetime"@
    } else if i == 23 {
        "session.cookie_lifetime"@
    } else if i == 24 {
        "session.name"@
    } else if i == 25 {
        "session.use_cookies"@
    } else if i == 26 {
        "session.use_only_cookies"@
    } else if i == 27 {
        "session.use_strict_mode"@
    } else if i == 28 {
        "session.cookie_httponly"@
    } else if i == 29 {
        "session.cookie_samesite"@
    } else if i == 30 {
        "output_buffering"@
    } else if i == 31 {
        "default_charset"@
    } else if i == 32 {
        "max_file_uploads"@
    } else {
        "default_socket_timeout"@
    }
}

/// The text the php.ini editor writes for its `i`-th key.
pub open spec fn php_val(st: PhpIniSettings, i: int) -> Seq<char> {
    if i == 0 {
        st.memory_limit@
    } else if i == 1 {
        st.upload_max_filesize@
    } else if i == 2 {
        st.post_max_size@
    } else if i == 3 {
        decimal(st.max_execution_time as nat)
    } else if i == 4 {
        signed_decimal(st.max_input_time as int)
    } else if i == 5 {
        on_off_cap(st.display_errors)
    } else if i == 6 {
        st.error_reporting@
    } else if i == 7 {
        st.date_timezone@
    } else if i == 8 {
        on_off_cap(st.file_uploads)
    } else if i == 9 {
        on_off_cap(st.short_open_tag)
    } else if i == 10 {
        on_off_cap(st.allow_url_fopen)
    } else if i == 11 {
        on_off_cap(st.allow_url_include)
    } else if i == 12 {
        st.disable_functions@
    } else if i == 13 {
        on_off_cap(st.expose_php)
    } else if i == 14 {
        st.open_basedir@
    } else if i == 15 {
        one_zero(st.opcache_enable)
    } else if i == 16 {
        decimal(st.opcache_memory_consumption as nat)
    } else if i == 17 {
        decimal(st.opcache_max_accelerated_files as nat)
    } else if i == 18 {
        one_zero(st.opcache_validate_timestamps)
    } else if i == 19 {
        decimal(st.opcache_revalidate_freq as nat)
    } else if i == 20 {
        st.session_save_handler@
    } else if i == 21 {
        st.session_save_path@
    } else if i == 22 {
        decimal(st.session_gc_maxlifetime as nat)
    } else if i == 23 {
        decimal(st.session_cookie_lifetime as nat)
    } else if i == 24 {
        st.session_name@
    } else if i == 25 {
        on_off_cap(st.session_use_cookies)
    } else if i == 26 {
        on_off_cap(st.session_use_only_cookies)
    } else if i == 27 {
        one_zero(st.session_use_strict_mode)
    } else if i == 28 {
        on_off_cap(st.session_cookie_httponly)
    } else if i == 29 {
        st.session_cookie_samesite@
    } else if i == 30 {
        st.output_buffering@
    } else if i == 31 {
        seq!['"'] + st.default_charset@ + seq!['"']
    } else if i == 32 {
        decimal(st.max_file_uploads as nat)
    } else {
        decimal(st.default_socket_timeout as nat)
    }
}

/// The length, first and last two characters of the `i`-th php.ini key, as
/// one number.
spec fn php_tag(i: int) -> int {
    if i == 0 {
        12109116105
    } else if i == 1 {
        19117101122
    } else if i == 2 {
        13112101122
    } else if i == 3 {
        18109101109
    } else if i == 4 {
        14109101109
    } else if i == 5 {
        14100115114
    } else if i == 6 {
        15101103110
    } else if i == 7 {
        13100101110
    } else if i == 8 {
        12102115100
    } else if i == 9 {
        14115103097
    } else if i == 10 {
        15097110101
    } else if i == 11 {
        17097101100
    } else if i == 12 {
        17100115110
    } else if i == 13 {
        10101112104
    } else if i == 14 {
        12111114105
    } else if i == 15 {
        14111101108
    } else if i == 16 {
        26111110111
    } else if i == 17 {
        29111115101
    } else if i == 18 {
        27111115112
    } else if i == 19 {
        23111113101
    } else if i == 20 {
        20115114101
    } else if i == 21 {
        17115104116
    } else if i == 22 {
        22115101109
    } else if i == 23 {
        23115101109
    } else if i == 24 {
        12115101109
    } else if i == 25 {
        19115115101
    } else if i == 26 {
        24115115101
    } else if i == 27 {
        23115101100
    } else if i == 28 {
        23115121108
    } else if i == 29 {
        23115101116
    } else if i == 30 {
        16111103110
    } else if i == 31 {
        15100116101
    } else if i == 32 {
        16109115100
    } else {
        22100116117
    }
}

/// Whether the editor leaves the `i`-th key alone: the three keys written
/// only when their value is not empty.
pub open spec fn php_skip(st: PhpIniSettings, i: int) -> bool {
    ||| i == 14 && st.open_basedir@.len() == 0
    ||| i == 21 && st.session_save_path@.len() == 0
    ||| i == 29 && st.session_cookie_samesite@.len() == 0
}

/// The text after the editor has gone through the first `n` keys.
pub open spec fn php_apply(c: Seq<char>, st: PhpIniSettings, n: nat) -> Seq<char>
    decreases n,
{
    if n == 0 {
        c
    } else if php_skip(st, n - 1) {
        php_apply(c, st, (n - 1) as nat)
    } else {
        spec_php_set(php_apply(c, st, (n - 1) as nat), php_key(n - 1), php_val(st, n - 1))
    }
}

/// The keys the php.ini editor saves are keys the reader finds, all
/// different.
proof fn lemma_php_keys()
    ensures
        forall|i: int| 0 <= i < 34 ==> php_key_ok(#[trigger] php_key(i)),
        forall|i: int, j: int|
            0 <= i < 34 && 0 <= j < 34 && i != j ==> #[trigger] php_key(i) != #[trigger] php_key(j),
{
    reveal_strlit("memory_limit");
    reveal_strlit("upload_max_filesize");
    reveal_strlit("post_max_size");
    reveal_strlit("max_execution_time");
    reveal_strlit("max_input_time");
    reveal_strlit("display_errors");
    reveal_strlit("error_reporting");
    reveal_strlit("date.timezone");
    reveal_strlit("file_uploads");
    reveal_strlit("short_open_tag");
    reveal_strlit("allow_url_fopen");
    reveal_strlit("allow_url_include");
    reveal_strlit("disable_functions");
    reveal_strlit("expose_php");
    reveal_strlit("open_basedir");
    reveal_strlit("opcache.enable");
    reveal_strlit("opcache.memory_consumption");
    reveal_strlit("opcache.max_accelerated_files");
    reveal_strlit("opcache.validate_timestamps");
    reveal_strlit("opcache.revalidate_freq");
    reveal_strlit("session.save_handler");
    reveal_strlit("session.save_path");
    reveal_strlit("session.gc_maxlifetime");
    reveal_strlit("session.cookie_lifetime");
    reveal_strlit("session.name");
    reveal_strlit("session.use_cookies");
    reveal_strlit("session.use_only_cookies");
    reveal_strlit("session.use_strict_mode");
    reveal_strlit("session.cookie_httponly");
    reveal_strlit("session.cookie_samesite");
    reveal_strlit("output_buffering");
    reveal_strlit("default_charset");
    reveal_strlit("max_file_uploads");
    reveal_strlit("default_socket_timeout");
    assert forall|i: int| 0 <= i < 34 implies php_key_ok(#[trigger] php_key(i)) by {
        let k = php_key(i);
        assert(!is_ws(k[0]) && !is_ws(k.last()));
        assert(crate::text::trim_end(k) == k);
        assert(crate::text::trim_start(k) == k);
    }
    assert forall|i: int| 0 <= i < 34 implies php_key(i).len() * 1000000000 + (#[trigger] php_key(i)[0] as int)
        * 1000000 + (php_key(i).last() as int) * 1000 + (php_key(i)[php_key(i).len() - 2] as int)
        == php_tag(i) by {}
    assert forall|i: int, j: int| 0 <= i < 34 && 0 <= j < 34 && i != j implies #[trigger] php_tag(i)
        != #[trigger] php_tag(j) by {}
    assert forall|i: int, j: int|
        0 <= i < 34 && 0 <= j < 34 && i != j implies #[trigger] php_key(i) != #[trigger] php_key(j) by {
        assert(php_tag(i) != php_tag(j));
        assert(php_key(i).len() * 1000000000 + (php_key(i)[0] as int) * 1000000 + (php_key(i).last() as int)
            * 1000 + (php_key(i)[php_key(i).len() - 2] as int) == php_tag(i));
        assert(php_key(j).len() * 1000000000 + (php_key(j)[0] as int) * 1000000 + (php_key(j).last() as int)
            * 1000 + (php_key(j)[php_key(j).len() - 2] as int) == php_tag(j));
    }
}

/// Every text the php.ini editor writes for a key has no line break.
proof fn lemma_php_vals(st: PhpIniSettings)
    requires
        ini_stable(st.memory_limit@),
        ini_stable(st.upload_max_filesize@),
        ini_stable(st.post_max_size@),
        ini_stable(st.error_reporting@),
        ini_stable(st.date_timezone@),
        ini_stable(st.disable_functions@),
        ini_stable(st.open_basedir@),
        ini_stable(st.session_save_handler@),
        ini_stable(st.session_save_path@),
        ini_stable(st.session_name@),
        ini_stable(st.session_cookie_samesite@),
        ini_stable(st.output_buffering@),
        no_nl(st.default_charset@),
    ensures
        forall|i: int| 0 <= i < 34 ==> no_nl(#[trigger] php_val(st, i)),
{
    reveal_strlit("On");
    reveal_strlit("Off");
    reveal_strlit("1");
    reveal_strlit("0");
    lemma_ini_plain(on_off_cap(true));
    lemma_ini_plain(on_off_cap(false));
    lemma_ini_plain(one_zero(true));
    lemma_ini_plain(one_zero(false));
    lemma_signed_decimal(st.max_input_time as int);
    let cs = seq!['"'] + st.default_charset@ + seq!['"'];
    assert forall|j: int| 0 <= j < cs.len() implies cs[j] != '\n' by {
        if 0 < j < cs.len() - 1 {
            assert(cs[j] == st.default_charset@[j - 1]);
        }
    }
    lemma_decimal_digits(st.max_execution_time as nat);
    lemma_ini_plain(decimal(st.max_execution_time as nat));
    lemma_decimal_digits(st.opcache_memory_consumption as nat);
    lemma_ini_plain(decimal(st.opcache_memory_consumption as nat));
    lemma_decimal_digits(st.opcache_max_accelerated_files as nat);
    lemma_ini_plain(decimal(st.opcache_max_accelerated_files as nat));
    lemma_decimal_digits(st.opcache_revalidate_freq as nat);
    lemma_ini_plain(decimal(st.opcache_revalidate_freq as nat));
    lemma_decimal_digits(st.session_gc_maxlifetime as nat);
    lemma_ini_plain(decimal(st.session_gc_maxlifetime as nat));
    lemma_decimal_digits(st.session_cookie_lifetime as nat);
    lemma_ini_plain(decimal(st.session_cookie_lifetime as nat));
    lemma_decimal_digits(st.max_file_uploads as nat);
    lemma_ini_plain(decimal(st.max_file_uploads as nat));
    lemma_decimal_digits(st.default_socket_timeout as nat);
    lemma_ini_plain(decimal(st.default_socket_timeout as nat));
}

/// Going through the first `n` keys leaves what is read of a key that is
/// not written among them unchanged.
proof fn lemma_php_apply_frame(c: Seq<char>, st: PhpIniSettings, n: nat, k: Seq<char>)
    requires
        n <= 34,
        php_key_ok(k),
        forall|i: int| 0 <= i < n && !php_skip(st, i) ==> #[trigger] php_key(i) != k,
        forall|i: int| 0 <= i < 34 ==> php_key_ok(#[trigger] php_key(i)),
        forall|i: int| 0 <= i < 34 ==> no_nl(#[trigger] php_val(st, i)),
    ensures
        spec_php_get(php_apply(c, st, n), k) == spec_php_get(c, k),
    decreases n,
{
    if n > 0 {
        let m = (n - 1) as nat;
        lemma_php_apply_frame(c, st, m, k);
        if !php_skip(st, m as int) {
            assert(php_key(m as int) != k);
            assert(no_nl(php_val(st, m as int)));
            lemma_php_set_frame(php_apply(c, st, m), php_key(m as int), php_val(st, m as int), k);
        }
    }
}

/// After the editor has gone through the first `n` keys, each key it
/// wrote reads back as written, trimmed.
proof fn lemma_php_apply_get(c: Seq<char>, st: PhpIniSettings, n: nat, j: int)
    requires
        0 <= j < n <= 34,
        !php_skip(st, j),
        forall|i: int| 0 <= i < 34 ==> php_key_ok(#[trigger] php_key(i)),
        forall|i: int, l: int|
            0 <= i < 34 && 0 <= l < 34 && i != l ==> #[trigger] php_key(i) != #[trigger] php_key(l),
        forall|i: int| 0 <= i < 34 ==> no_nl(#[trigger] php_val(st, i)),
    ensures
        spec_php_get(php_apply(c, st, n), php_key(j)) == Some(trim(php_val(st, j))),
    decreases n,
{
    let m = (n - 1) as nat;
    let prev = php_apply(c, st, m);
    if j == m {
        assert(php_key(j) == php_key(m as int));
        law_php_set_then_get(prev, php_key(j), php_val(st, j));
    } else {
        lemma_php_apply_get(c, st, m, j);
        if !php_skip(st, m as int) {
            assert(php_key(m as int) != php_key(j));
            lemma_php_set_frame(prev, php_key(m as int), php_val(st, m as int), php_key(j));
        }
    }
}

/// What `spec_save_ini_settings` writes is the keys in order, the empty
/// optional ones left alone.
proof fn lemma_php_save_is_apply(c: Seq<char>, st: PhpIniSettings)
    ensures
        spec_save_ini_settings(c, st) == php_apply(c, st, 34),
{
    assert(php_apply(c, st, 0) == c);
    let c1 = php_apply(c, st, 1);
    assert(c1 == spec_php_set(c, "memory_limit"@, st.memory_limit@));
    let c2 = php_apply(c, st, 2);
    assert(c2 == spec_php_set(c1, "upload_max_filesize"@, st.upload_max_filesize@));
    let c3 = php_apply(c, st, 3);
    assert(c3 == spec_php_set(c2, "post_max_size"@, st.post_max_size@));
    let c4 = php_apply(c, st, 4);
    assert(c4 == spec_php_set(c3, "max_execution_time"@, decimal(st.max_execution_time as nat)));
    let c5 = php_apply(c, st, 5);
    assert(c5 == spec_php_set(c4, "max_input_time"@, signed_decimal(st.max_input_time as int)));
    let c6 = php_apply(c, st, 6);
    assert(c6 == spec_php_set(c5, "display_errors"@, on_off_cap(st.display_errors)));
    let c7 = php_apply(c, st, 7);
    assert(c7 == spec_php_set(c6, "error_reporting"@, st.error_reporting@));
    let c8 = php_apply(c, st, 8);
    assert(c8 == spec_php_set(c7, "date.timezone"@, st.date_timezone@));
    let c9 = php_apply(c, st, 9);
    assert(c9 == spec_php_set(c8, "file_uploads"@, on_off_cap(st.file_uploads)));
    let c10 = php_apply(c, st, 10);
    assert(c10 == spec_php_set(c9, "short_open_tag"@, on_off_cap(st.short_open_tag)));
    let c11 = php_apply(c, st, 11);
    assert(c11 == spec_php_set(c10, "allow_url_fopen"@, on_off_cap(st.allow_url_fopen)));
    let c12 = php_apply(c, st, 12);
    assert(c12 == spec_php_set(c11, "allow_url_include"@, on_off_cap(st.allow_url_include)));
    let c13 = php_apply(c, st, 13);
    assert(c13 == spec_php_set(c12, "disable_functions"@, st.disable_functions@));
    let c14 = php_apply(c, st, 14);
    assert(c14 == spec_php_set(c13, "expose_php"@, on_off_cap(st.expose_php)));
    let c15 = php_apply(c, st, 15);
    assert(c15 == (if st.open_basedir@.len() == 0 { c14 } else { spec_php_set(c14, "open_basedir"@, st.open_basedir@) }));
    assert(c15 == save_basic_settings(c, st));
    let c16 = php_apply(c, st, 16);
    assert(c16 == spec_php_set(c15, "opcache.enable"@, one_zero(st.opcache_enable)));
    let c17 = php_apply(c, st, 17);
    assert(c17 == spec_php_set(c16, "opcache.memory_consumption"@, decimal(st.opcache_memory_consumption as nat)));
    let c18 = php_apply(c, st, 18);
    assert(c18 == spec_php_set(c17, "opcache.max_accelerated_files"@, decimal(st.opcache_max_accelerated_files as nat)));
    let c19 = php_apply(c, st, 19);
    assert(c19 == spec_php_set(c18, "opcache.validate_timestamps"@, one_zero(st.opcache_validate_timestamps)));
    let c20 = php_apply(c, st, 20);
    assert(c20 == spec_php_set(c19, "opcache.revalidate_freq"@, decimal(st.opcache_revalidate_freq as nat)));
    let c21 = php_apply(c, st, 21);
    assert(c21 == spec_php_set(c20, "session.save_handler"@, st.session_save_handler@));
    let c22 = php_apply(c, st, 22);
    assert(c22 == (if st.session_save_path@.len() == 0 { c21 } else { spec_php_set(c21, "session.save_path"@, st.session_save_path@) }));
    let c23 = php_apply(c, st, 23);
    assert(c23 == spec_php_set(c22, "session.gc_maxlifetime"@, decimal(st.session_gc_maxlifetime as nat)));
    let c24 = php_apply(c, st, 24);
    assert(c24 == spec_php_set(c23, "session.cookie_lifetime"@, decimal(st.session_cookie_lifetime as nat)));
    let c25 = php_apply(c, st, 25);
    assert(c25 == spec_php_set(c24, "session.name"@, st.session_name@));
    let c26 = php_apply(c, st, 26);
    assert(c26 == spec_php_set(c25, "session.use_cookies"@, on_off_cap(st.session_use_cookies)));
    let c27 = php_apply(c, st, 27);
    assert(c27 == spec_php_set(c26, "session.use_only_cookies"@, on_off_cap(st.session_use_only_cookies)));
    let c28 = php_apply(c, st, 28);
    assert(c28 == spec_php_set(c27, "session.use_strict_mode"@, one_zero(st.session_use_strict_mode)));
    let c29 = php_apply(c, st, 29);
    assert(c29 == spec_php_set(c28, "session.cookie_httponly"@, on_off_cap(st.session_cookie_httponly)));
    let c30 = php_apply(c, st, 30);
    assert(c30 == (if st.session_cookie_samesite@.len() == 0 { c29 } else { spec_php_set(c29, "session.cookie_samesite"@, st.session_cookie_samesite@) }));
    assert(c30 == save_opcache_session_settings(c15, st));
    let c31 = php_apply(c, st, 31);
    assert(c31 == spec_php_set(c30, "output_buffering"@, st.output_buffering@));
    let c32 = php_apply(c, st, 32);
    assert(c32 == spec_php_set(c31, "default_charset"@, seq!['"'] + st.default_charset@ + seq!['"']));
    let c33 = php_apply(c, st, 33);
    assert(c33 == spec_php_set(c32, "max_file_uploads"@, decimal(st.max_file_uploads as nat)));
    let c34 = php_apply(c, st, 34);
    assert(c34 == spec_php_set(c33, "default_socket_timeout"@, decimal(st.default_socket_timeout as nat)));
    assert(c34 == save_extra_settings(c30, st));
}

/// After a php.ini save, each key the editor wrote reads back as written,
/// trimmed, and each key it left alone reads as before.
proof fn lemma_php_save_reads(c: Seq<char>, st: PhpIniSettings)
    requires
        ini_stable(st.memory_limit@),
        ini_stable(st.upload_max_filesize@),
        ini_stable(st.post_max_size@),
        ini_stable(st.error_reporting@),
        ini_stable(st.date_timezone@),
        ini_stable(st.disable_functions@),
        ini_stable(st.open_basedir@),
        ini_stable(st.session_save_handler@),
        ini_stable(st.session_save_path@),
        ini_stable(st.session_name@),
        ini_stable(st.session_cookie_samesite@),
        ini_stable(st.output_buffering@),
        no_nl(st.default_charset@),
    ensures
        forall|j: int| 0 <= j < 34 && !php_skip(st, j) ==> #[trigger] spec_php_get(spec_save_ini_settings(c, st), php_key(j))
            == Some(trim(php_val(st, j))),
        forall|j: int| 0 <= j < 34 && php_skip(st, j) ==> #[trigger] spec_php_get(spec_save_ini_settings(c, st), php_key(j))
            == spec_php_get(c, php_key(j)),
{
    lemma_php_keys();
    lemma_php_vals(st);
    lemma_php_save_is_apply(c, st);
    assert forall|j: int| 0 <= j < 34 && !php_skip(st, j) implies #[trigger] spec_php_get(spec_save_ini_settings(c, st), php_key(j))
        == Some(trim(php_val(st, j))) by {
        lemma_php_apply_get(c, st, 34, j);
    }
    assert forall|j: int| 0 <= j < 34 && php_skip(st, j) implies #[trigger] spec_php_get(spec_save_ini_settings(c, st), php_key(j))
        == spec_php_get(c, php_key(j)) by {
        assert forall|i: int| 0 <= i < 34 && !php_skip(st, i) implies #[trigger] php_key(i) != php_key(j) by {}
        lemma_php_apply_frame(c, st, 34, php_key(j));
    }
}

/// Part of `law_php_save_then_read`: the keys 0 to 11 in the order the
/// editor writes them.
#[verifier::spinoff_prover]
#[verifier::rlimit(40)]
proof fn lemma_php_save_then_read_basic(c: Seq<char>, st: PhpIniSettings)
    requires
        ini_stable(st.memory_limit@),
        ini_stable(st.upload_max_filesize@),
        ini_stable(st.post_max_size@),
        ini_stable(st.error_reporting@),
        ini_stable(st.date_timezone@),
        ini_stable(st.disable_functions@),
        ini_stable(st.open_basedir@),
        ini_stable(st.session_save_handler@),
        ini_stable(st.session_save_path@),
        ini_stable(st.session_name@),
        ini_stable(st.session_cookie_samesite@),
        ini_stable(st.output_buffering@),
        no_nl(st.default_charset@),
    ensures
        ({
            let s = spec_save_ini_settings(c, st);
            &&& php_text(s, "memory_limit"@, "256M"@) == st.memory_limit@
            &&& php_text(s, "upload_max_filesize"@, "64M"@) == st.upload_max_filesize@
            &&& php_text(s, "post_max_size"@, "64M"@) == st.post_max_size@
            &&& php_num(s, "max_execution_time"@, 300) == st.max_execution_time as nat
            &&& php_int(s, "max_input_time"@, 60) == st.max_input_time as int
            &&& php_flag(s, "display_errors"@, true) == st.display_errors
            &&& php_text(s, "error_reporting"@, "E_ALL"@) == st.error_reporting@
            &&& php_text(s, "date.timezone"@, "Asia/Shanghai"@) == st.date_timezone@
            &&& php_flag(s, "file_uploads"@, true) == st.file_uploads
            &&& php_flag(s, "short_open_tag"@, true) == st.short_open_tag
            &&& php_flag(s, "allow_url_fopen"@, true) == st.allow_url_fopen
            &&& php_flag(s, "allow_url_include"@, false) == st.allow_url_include
        }),
{
    lemma_php_save_reads(c, st);
    let s = spec_save_ini_settings(c, st);
    reveal_strlit("On");
    reveal_strlit("Off");
    reveal_strlit("on");
    reveal_strlit("1");
    reveal_strlit("0");
    lemma_ini_plain(on_off_cap(true));
    lemma_ini_plain(on_off_cap(false));
    lemma_ini_plain(one_zero(true));
    lemma_ini_plain(one_zero(false));
    lemma_signed_decimal(st.max_input_time as int);
    let cs = seq!['"'] + st.default_charset@ + seq!['"'];
    assert forall|j: int| 0 <= j < cs.len() implies cs[j] != '\n' by {
        if 0 < j < cs.len() - 1 {
            assert(cs[j] == st.default_charset@[j - 1]);
        }
    }
    lemma_ini_ends(cs);
    assert(spec_php_get(s, php_key(0)) == Some(trim(php_val(st, 0))));
    assert(spec_php_get(s, php_key(1)) == Some(trim(php_val(st, 1))));
    assert(spec_php_get(s, php_key(2)) == Some(trim(php_val(st, 2))));
    assert(spec_php_get(s, php_key(3)) == Some(trim(php_val(st, 3))));
    lemma_decimal_digits(st.max_execution_time as nat);
    lemma_ini_plain(decimal(st.max_execution_time as nat));
    lemma_parse_decimal(st.max_execution_time as nat, u32::MAX as nat);
    assert(spec_php_get(s, php_key(4)) == Some(trim(php_val(st, 4))));
    assert(spec_php_get(s, php_key(5)) == Some(trim(php_val(st, 5))));
    assert(spec_php_get(s, php_key(6)) == Some(trim(php_val(st, 6))));
    assert(spec_php_get(s, php_key(7)) == Some(trim(php_val(st, 7))));
    assert(spec_php_get(s, php_key(8)) == Some(trim(php_val(st, 8))));
    assert(spec_php_get(s, php_key(9)) == Some(trim(php_val(st, 9))));
    assert(spec_php_get(s, php_key(10)) == Some(trim(php_val(st, 10))));
    assert(spec_php_get(s, php_key(11)) == Some(trim(php_val(st, 11))));
}

/// Part of `law_php_save_then_read`: the keys 12 to 23 in the order the
/// editor writes them.
#[verifier::spinoff_prover]
#[verifier::rlimit(40)]
proof fn lemma_php_save_then_read_session(c: Seq<char>, st: PhpIniSettings)
    requires
        ini_stable(st.memory_limit@),
        ini_stable(st.upload_max_filesize@),
        ini_stable(st.post_max_size@),
        ini_stable(st.error_reporting@),
        ini_stable(st.date_timezone@),
        ini_stable(st.disable_functions@),
        ini_stable(st.open_basedir@),
        ini_stable(st.session_save_handler@),
        ini_stable(st.session_save_path@),
        ini_stable(st.session_name@),
        ini_stable(st.session_cookie_samesite@),
        ini_stable(st.output_buffering@),
        no_nl(st.default_charset@),
    ensures
        ({
            let s = spec_save_ini_settings(c, st);
            &&& php_text(s, "disable_functions"@, Seq::empty()) == st.disable_functions@
            &&& php_flag(s, "expose_php"@, true) == st.expose_php
            &&& php_text(s, "open_basedir"@, Seq::empty()) == (if st.open_basedir@.len() == 0 { php_text(c, "open_basedir"@, Seq::empty()) } else { st.open_basedir@ })
            &&& php_flag(s, "opcache.enable"@, false) == st.opcache_enable
            &&& php_num(s, "opcache.memory_consumption"@, 128) == st.opcache_memory_consumption as nat
            &&& php_num(s, "opcache.max_accelerated_files"@, 10000) == st.opcache_max_accelerated_files as nat
            &&& php_flag(s, "opcache.validate_timestamps"@, true) == st.opcache_validate_timestamps
            &&& php_num(s, "opcache.revalidate_freq"@, 2) == st.opcache_revalidate_freq as nat
            &&& php_text(s, "session.save_handler"@, "files"@) == st.session_save_handler@
            &&& php_text(s, "session.save_path"@, Seq::empty()) == (if st.session_save_path@.len() == 0 { php_text(c, "session.save_path"@, Seq::empty()) } else { st.session_save_path@ })
            &&& php_num(s, "session.gc_maxlifetime"@, 1440) == st.session_gc_maxlifetime as nat
            &&& php_num(s, "session.cookie_lifetime"@, 0) == st.session_cookie_lifetime as nat
        }),
{
    lemma_php_save_reads(c, st);
    let s = spec_save_ini_settings(c, st);
    reveal_strlit("On");
    reveal_strlit("Off");
    reveal_strlit("on");
    reveal_strlit("1");
    reveal_strlit("0");
    lemma_ini_plain(on_off_cap(true));
    lemma_ini_plain(on_off_cap(false));
    lemma_ini_plain(one_zero(true));
    lemma_ini_plain(one_zero(false));
    lemma_signed_decimal(st.max_input_time as int);
    let cs = seq!['"'] + st.default_charset@ + seq!['"'];
    assert forall|j: int| 0 <= j < cs.len() implies cs[j] != '\n' by {
        if 0 < j < cs.len() - 1 {
            assert(cs[j] == st.default_charset@[j - 1]);
        }
    }
    lemma_ini_ends(cs);
    assert(spec_php_get(s, php_key(12)) == Some(trim(php_val(st, 12))));
    assert(spec_php_get(s, php_key(13)) == Some(trim(php_val(st, 13))));
    assert(spec_php_get(s, php_key(14)) == (if php_skip(st, 14) { spec_php_get(c, php_key(14)) } else { Some(trim(php_val(st, 14))) }));
    assert(spec_php_get(s, php_key(15)) == Some(trim(php_val(st, 15))));
    assert(spec_php_get(s, php_key(16)) == Some(trim(php_val(st, 16))));
    lemma_decimal_digits(st.opcache_memory_consumption as nat);
    lemma_ini_plain(decimal(st.opcache_memory_consumption as nat));
    lemma_parse_decimal(st.opcache_memory_consumption as nat, u32::MAX as nat);
    assert(spec_php_get(s, php_key(17)) == Some(trim(php_val(st, 17))));
    lemma_decimal_digits(st.opcache_max_accelerated_files as nat);
    lemma_ini_plain(decimal(st.opcache_max_accelerated_files as nat));
    lemma_parse_decimal(st.opcache_max_accelerated_files as nat, u32::MAX as nat);
    assert(spec_php_get(s, php_key(18)) == Some(trim(php_val(st, 18))));
    assert(spec_php_get(s, php_key(19)) == Some(trim(php_val(st, 19))));
    lemma_decimal_digits(st.opcache_revalidate_freq as nat);
    lemma_ini_plain(decimal(st.opcache_revalidate_freq as nat));
    lemma_parse_decimal(st.opcache_revalidate_freq as nat, u32::MAX as nat);
    assert(spec_php_get(s, php_key(20)) == Some(trim(php_val(st, 20))));
    assert(spec_php_get(s, php_key(21)) == (if php_skip(st, 21) { spec_php_get(c, php_key(21)) } else { Some(trim(php_val(st, 21))) }));
    assert(spec_php_get(s, php_key(22)) == Some(trim(php_val(st, 22))));
    lemma_decimal_digits(st.session_gc_maxlifetime as nat);
    lemma_ini_plain(decimal(st.session_gc_maxlifetime as nat));
    lemma_parse_decimal(st.session_gc_maxlifetime as nat, u32::MAX as nat);
    assert(spec_php_get(s, php_key(23)) == Some(trim(php_val(st, 23))));
    lemma_decimal_digits(st.session_cookie_lifetime as nat);
    lemma_ini_plain(decimal(st.session_cookie_lifetime as nat));
    lemma_parse_decimal(st.session_cookie_lifetime as nat, u32::MAX as nat);
}

/// Part of `law_php_save_then_read`: the keys 24 to 33 in the order the
/// editor writes them.
#[verifier::spinoff_prover]
#[verifier::rlimit(40)]
proof fn lemma_php_save_then_read_extra(c: Seq<char>, st: PhpIniSettings)
    requires
        ini_stable(st.memory_limit@),
        ini_stable(st.upload_max_filesize@),
        ini_stable(st.post_max_size@),
        ini_stable(st.error_reporting@),
        ini_stable(st.date_timezone@),
        ini_stable(st.disable_functions@),
        ini_stable(st.open_basedir@),
        ini_stable(st.session_save_handler@),
        ini_stable(st.session_save_path@),
        ini_stable(st.session_name@),
        ini_stable(st.session_cookie_samesite@),
        ini_stable(st.output_buffering@),
        no_nl(st.default_charset@),
    ensures
        ({
            let s = spec_save_ini_settings(c, st);
            &&& php_text(s, "session.name"@, "PHPSESSID"@) == st.session_name@
            &&& php_flag(s, "session.use_cookies"@, true) == st.session_use_cookies
            &&& php_flag(s, "session.use_only_cookies"@, true) == st.session_use_only_cookies
            &&& php_flag(s, "session.use_strict_mode"@, false) == st.session_use_strict_mode
            &&& php_flag(s, "session.cookie_httponly"@, false) == st.session_cookie_httponly
            &&& php_text(s, "session.cookie_samesite"@, Seq::empty()) == (if st.session_cookie_samesite@.len() == 0 { php_text(c, "session.cookie_samesite"@, Seq::empty()) } else { st.session_cookie_samesite@ })
            &&& php_text(s, "output_buffering"@, "8192"@) == st.output_buffering@
            &&& php_text(s, "default_charset"@, "UTF-8"@) == seq!['"'] + st.default_charset@ + seq!['"']
            &&& php_num(s, "max_file_uploads"@, 20) == st.max_file_uploads as nat
            &&& php_num(s, "default_socket_timeout"@, 60) == st.default_socket_timeout as nat
        }),
{
    lemma_php_save_reads(c, st);
    let s = spec_save_ini_settings(c, st);
    reveal_strlit("On");
    reveal_strlit("Off");
    reveal_strlit("on");
    reveal_strlit("1");
    reveal_strlit("0");
    lemma_ini_plain(on_off_cap(true));
    lemma_ini_plain(on_off_cap(false));
    lemma_ini_plain(one_zero(true));
    lemma_ini_plain(one_zero(false));
    lemma_signed_decimal(st.max_input_time as int);
    let cs = seq!['"'] + st.default_charset@ + seq!['"'];
    assert forall|j: int| 0 <= j < cs.len() implies cs[j] != '\n' by {
        if 0 < j < cs.len() - 1 {
            assert(cs[j] == st.default_charset@[j - 1]);
        }
    }
    lemma_ini_ends(cs);
    assert(spec_php_get(s, php_key(24)) == Some(trim(php_val(st, 24))));
    assert(spec_php_get(s, php_key(25)) == Some(trim(php_val(st, 25))));
    assert(spec_php_get(s, php_key(26)) == Some(trim(php_val(st, 26))));
    assert(spec_php_get(s, php_key(27)) == Some(trim(php_val(st, 27))));
    assert(spec_php_get(s, php_key(28)) == Some(trim(php_val(st, 28))));
    assert(spec_php_get(s, php_key(29)) == (if php_skip(st, 29) { spec_php_get(c, php_key(29)) } else { Some(trim(php_val(st, 29))) }));
    assert(spec_php_get(s, php_key(30)) == Some(trim(php_val(st, 30))));
    assert(spec_php_get(s, php_key(31)) == Some(trim(php_val(st, 31))));
    assert(spec_php_get(s, php_key(32)) == Some(trim(php_val(st, 32))));
    lemma_decimal_digits(st.max_file_uploads as nat);
    lemma_ini_plain(decimal(st.max_file_uploads as nat));
    lemma_parse_decimal(st.max_file_uploads as nat, u32::MAX as nat);
    assert(spec_php_get(s, php_key(33)) == Some(trim(php_val(st, 33))));
    lemma_decimal_digits(st.default_socket_timeout as nat);
    lemma_ini_plain(decimal(st.default_socket_timeout as nat));
    lemma_parse_decimal(st.default_socket_timeout as nat, u32::MAX as nat);
}

/// Saving the php.ini settings, then reading the file, gives back every
/// setting saved: each number, each switch, and each text that reads back
/// as written (no line break, no surrounding whitespace); the charset comes
/// back in the double quotes it is written in, and `open_basedir`,
/// `session.save_path` and `session.cookie_samesite`, left alone when
/// empty, read as they did before. A key the file lacks is appended.
pub proof fn law_php_save_then_read(c: Seq<char>, st: PhpIniSettings)
    requires
        ini_stable(st.memory_limit@),
        ini_stable(st.upload_max_filesize@),
        ini_stable(st.post_max_size@),
        ini_stable(st.error_reporting@),
        ini_stable(st.date_timezone@),
        ini_stable(st.disable_functions@),
        ini_stable(st.open_basedir@),
        ini_stable(st.session_save_handler@),
        ini_stable(st.session_save_path@),
        ini_stable(st.session_name@),
        ini_stable(st.session_cookie_samesite@),
        ini_stable(st.output_buffering@),
        no_nl(st.default_charset@),
    ensures
        ({
            let s = spec_save_ini_settings(c, st);
            &&& php_text(s, "memory_limit"@, "256M"@) == st.memory_limit@
            &&& php_text(s, "upload_max_filesize"@, "64M"@) == st.upload_max_filesize@
            &&& php_text(s, "post_max_size"@, "64M"@) == st.post_max_size@
            &&& php_num(s, "max_execution_time"@, 300) == st.max_execution_time as nat
            &&& php_int(s, "max_input_time"@, 60) == st.max_input_time as int
            &&& php_flag(s, "display_errors"@, true) == st.display_errors
            &&& php_text(s, "error_reporting"@, "E_ALL"@) == st.error_reporting@
            &&& php_text(s, "date.timezone"@, "Asia/Shanghai"@) == st.date_timezone@
            &&& php_flag(s, "file_uploads"@, true) == st.file_uploads
            &&& php_flag(s, "short_open_tag"@, true) == st.short_open_tag
            &&& php_flag(s, "allow_url_fopen"@, true) == st.allow_url_fopen
            &&& php_flag(s, "allow_url_include"@, false) == st.allow_url_include
            &&& php_text(s, "disable_functions"@, Seq::empty()) == st.disable_functions@
            &&& php_flag(s, "expose_php"@, true) == st.expose_php
            &&& php_text(s, "open_basedir"@, Seq::empty()) == (if st.open_basedir@.len() == 0 { php_text(c, "open_basedir"@, Seq::empty()) } else { st.open_basedir@ })
            &&& php_flag(s, "opcache.enable"@, false) == st.opcache_enable
            &&& php_num(s, "opcache.memory_consumption"@, 128) == st.opcache_memory_consumption as nat
            &&& php_num(s, "opcache.max_accelerated_files"@, 10000) == st.opcache_max_accelerated_files as nat
            &&& php_flag(s, "opcache.validate_timestamps"@, true) == st.opcache_validate_timestamps
            &&& php_num(s, "opcache.revalidate_freq"@, 2) == st.opcache_revalidate_freq as nat
            &&& php_text(s, "session.save_handler"@, "files"@) == st.session_save_handler@
            &&& php_text(s, "session.save_path"@, Seq::empty()) == (if st.session_save_path@.len() == 0 { php_text(c, "session.save_path"@, Seq::empty()) } else { st.session_save_path@ })
            &&& php_num(s, "session.gc_maxlifetime"@, 1440) == st.session_gc_maxlifetime as nat
            &&& php_num(s, "session.cookie_lifetime"@, 0) == st.session_cookie_lifetime as nat
            &&& php_text(s, "session.name"@, "PHPSESSID"@) == st.session_name@
            &&& php_flag(s, "session.use_cookies"@, true) == st.session_use_cookies
            &&& php_flag(s, "session.use_only_cookies"@, true) == st.session_use_only_cookies
            &&& php_flag(s, "session.use_strict_mode"@, false) == st.session_use_strict_mode
            &&& php_flag(s, "session.cookie_httponly"@, false) == st.session_cookie_httponly
            &&& php_text(s, "session.cookie_samesite"@, Seq::empty()) == (if st.session_cookie_samesite@.len() == 0 { php_text(c, "session.cookie_samesite"@, Seq::empty()) } else { st.session_cookie_samesite@ })
            &&& php_text(s, "output_buffering"@, "8192"@) == st.output_buffering@
            &&& php_text(s, "default_charset"@, "UTF-8"@) == seq!['"'] + st.default_charset@ + seq!['"']
            &&& php_num(s, "max_file_uploads"@, 20) == st.max_file_uploads as nat
            &&& php_num(s, "default_socket_timeout"@, 60) == st.default_socket_timeout as nat
        }),
{
    lemma_php_save_then_read_basic(c, st);
    lemma_php_save_then_read_session(c, st);
    lemma_php_save_then_read_extra(c, st);
}

} // verus!

verus! {

// ======================== What a save leaves of the file's other lines ========================

/// Rewriting line `i` of `c`: the lines that come back are no more than
/// before, and every other one keeps its text up to surrounding
/// whitespace.
pub proof fn lemma_update_keeps_others(c: Seq<char>, i: int, l: Seq<char>)
    requires
        0 <= i < lines(c).len(),
        no_nl(l),
    ensures
        lines(join_lines(lines(c).update(i, l))).len() <= lines(c).len(),
        forall|j: int|
            0 <= j < lines(join_lines(lines(c).update(i, l))).len() && j != i ==> trim(
                #[trigger] lines(join_lines(lines(c).update(i, l)))[j],
            ) == trim(lines(c)[j]),
        i < lines(join_lines(lines(c).update(i, l))).len() ==> trim(lines(join_lines(lines(c).update(i, l)))[i])
            == trim(l),
{
    let ls = lines(c);
    let new = ls.update(i, l);
    lemma_lines_no_nl(c);
    assert forall|j: int| 0 <= j < new.len() implies no_nl(#[trigger] new[j]) by {
        if j != i {
            assert(new[j] == ls[j]);
        }
    }
    lemma_lines_join(new);
    crate::text::lemma_relined_len(new);
    assert forall|j: int| 0 <= j < lines(join_lines(new)).len() implies trim(
        #[trigger] lines(join_lines(new))[j],
    ) == trim(new[j]) by {
        crate::text::lemma_relined_index(new, j);
        crate::text::lemma_trim_strip_cr(new[j]);
    }
    assert forall|j: int| 0 <= j < lines(join_lines(new)).len() && j != i implies trim(
        #[trigger] lines(join_lines(new))[j],
    ) == trim(ls[j]) by {
        assert(trim(lines(join_lines(new))[j]) == trim(new[j]));
        assert(new[j] == ls[j]);
    }
    if i < lines(join_lines(new)).len() {
        assert(trim(lines(join_lines(new))[i]) == trim(new[i]));
    }
}

/// A line `p` matches in the text keeps matching at the same place after
/// line `i` is rewritten, when that place is not `i` and is still there.
pub open spec fn nginx_unique(c: Seq<char>, k: Seq<char>) -> bool {
    forall|j: int|
        #![trigger lines(c)[j]]
        0 <= j < lines(c).len() && pred(LineKind::NginxDirective, k)(lines(c)[j]) ==> find_line(
            c,
            LineKind::NginxDirective,
            k,
        ) == Some(j)
}

/// Rewriting the active line of directive `k2` keeps each directive line
/// unique and every line that is not `k2`'s as it was (up to surrounding
/// whitespace).
proof fn lemma_nginx_set_layout(c: Seq<char>, k2: Seq<char>, v: Seq<char>, k1: Seq<char>)
    requires
        nginx_name(k1),
        nginx_name(k2),
        no_nl(v),
        find_line(c, LineKind::NginxDirective, k2) is Some,
        nginx_unique(c, k1),
    ensures
        nginx_unique(spec_nginx_set(c, k2, v), k1),
        find_line(c, LineKind::NginxDirective, k1) is Some ==> find_line(spec_nginx_set(c, k2, v), LineKind::NginxDirective, k1) is Some,
        lines(spec_nginx_set(c, k2, v)).len() <= lines(c).len(),
        forall|j: int|
            0 <= j < lines(spec_nginx_set(c, k2, v)).len() && !pred(LineKind::NginxDirective, k2)(lines(c)[j])
                ==> trim(#[trigger] lines(spec_nginx_set(c, k2, v))[j]) == trim(lines(c)[j]),
{
    let ls = lines(c);
    let p1 = pred(LineKind::NginxDirective, k1);
    let p2 = pred(LineKind::NginxDirective, k2);
    lemma_pred_trim_only(LineKind::NginxDirective, k1);
    lemma_pred_trim_only(LineKind::NginxDirective, k2);
    lemma_first_where_spec(ls, p2);
    lemma_lines_no_nl(c);
    let i = find_line(c, LineKind::NginxDirective, k2)->0;
    let l = nginx_line(ls[i], k2, v);
    lemma_nginx_line(ls[i], k2, v);
    lemma_update_keeps_others(c, i, l);
    let s = spec_nginx_set(c, k2, v);
    assert(s == join_lines(ls.update(i, l)));
    if k1 != k2 {
        lemma_nginx_set_frame(c, k2, v, k1);
        lemma_nginx_disjoint(trim(l), k2, k1);
    } else {
        assert(!p2(Seq::empty()));
        crate::config_editor::lemma_read_after_update(c, i, l, p2);
    }
    assert forall|j: int|
        #![trigger lines(s)[j]]
        0 <= j < lines(s).len() && p1(lines(s)[j]) implies find_line(s, LineKind::NginxDirective, k1) == Some(j) by {
        if j != i {
            assert(p1(ls[j]));
            if k1 == k2 {
                assert(find_line(c, LineKind::NginxDirective, k1) == Some(j));
            }
        } else {
            assert(p1(l));
        }
    }
}

/// Writing the first `n` directives keeps each directive line unique and
/// every line that holds none of them as it was (up to surrounding
/// whitespace).
proof fn lemma_nginx_apply_layout(c: Seq<char>, cfg: NginxConfig, n: nat)
    requires
        n <= 19,
        forall|i: int| 0 <= i < 19 ==> find_line(c, LineKind::NginxDirective, #[trigger] nginx_key(i)) is Some,
        forall|i: int| 0 <= i < 19 ==> nginx_unique(c, #[trigger] nginx_key(i)),
        forall|i: int| 0 <= i < 19 ==> nginx_name(#[trigger] nginx_key(i)),
        forall|i: int, l: int|
            0 <= i < 19 && 0 <= l < 19 && i != l ==> #[trigger] nginx_key(i) != #[trigger] nginx_key(l),
        forall|i: int| 0 <= i < 19 ==> no_nl(#[trigger] nginx_val(cfg, i)),
    ensures
        forall|i: int| 0 <= i < 19 ==> nginx_unique(nginx_apply(c, cfg, n), #[trigger] nginx_key(i)),
        forall|i: int| 0 <= i < 19 ==> find_line(nginx_apply(c, cfg, n), LineKind::NginxDirective, #[trigger] nginx_key(i)) is Some,
        lines(nginx_apply(c, cfg, n)).len() <= lines(c).len(),
        forall|j: int|
            0 <= j < lines(nginx_apply(c, cfg, n)).len() && (forall|i: int|
                0 <= i < n ==> !pred(LineKind::NginxDirective, #[trigger] nginx_key(i))(lines(c)[j])) ==> trim(
                #[trigger] lines(nginx_apply(c, cfg, n))[j],
            ) == trim(lines(c)[j]),
    decreases n,
{
    if n > 0 {
        let m = (n - 1) as nat;
        lemma_nginx_apply_layout(c, cfg, m);
        let prev = nginx_apply(c, cfg, m);
        let k2 = nginx_key(m as int);
        let v = nginx_val(cfg, m as int);
        assert(no_nl(v));
        assert forall|i: int| 0 <= i < 19 implies nginx_unique(nginx_apply(c, cfg, n), #[trigger] nginx_key(i))
            && find_line(nginx_apply(c, cfg, n), LineKind::NginxDirective, nginx_key(i)) is Some by {
            lemma_nginx_set_layout(prev, k2, v, nginx_key(i));
        }
        lemma_nginx_set_layout(prev, k2, v, k2);
        lemma_pred_trim_only(LineKind::NginxDirective, k2);
        assert forall|j: int|
            0 <= j < lines(nginx_apply(c, cfg, n)).len() && (forall|i: int|
                0 <= i < n ==> !pred(LineKind::NginxDirective, #[trigger] nginx_key(i))(lines(c)[j])) implies trim(
            #[trigger] lines(nginx_apply(c, cfg, n))[j],
        ) == trim(lines(c)[j]) by {
            assert(!pred(LineKind::NginxDirective, nginx_key(m as int))(lines(c)[j]));
            assert(forall|i: int| 0 <= i < m ==> !pred(LineKind::NginxDirective, #[trigger] nginx_key(i))(lines(c)[j]));
            assert(trim(lines(prev)[j]) == trim(lines(c)[j]));
            assert(!pred(LineKind::NginxDirective, k2)(lines(prev)[j]));
        }
    }
}

/// Every text the Nginx editor writes for a directive is free of line
/// breaks.
proof fn lemma_nginx_nls(cfg: NginxConfig)
    requires
        no_nl(cfg.worker_processes@),
        no_nl(cfg.sendfile_max_chunk@),
        no_nl(cfg.client_max_body_size@),
        no_nl(cfg.client_body_buffer_size@),
        no_nl(cfg.client_header_buffer_size@),
        no_nl(cfg.large_client_header_buffers@),
    ensures
        forall|i: int| 0 <= i < 19 ==> no_nl(#[trigger] nginx_val(cfg, i)),
{
    lemma_nginx_plain(on_off(true));
    lemma_nginx_plain(on_off(false));
    lemma_decimal_digits(cfg.worker_connections as nat);
    lemma_nginx_plain(decimal(cfg.worker_connections as nat));
    lemma_decimal_digits(cfg.worker_rlimit_nofile as nat);
    lemma_nginx_plain(decimal(cfg.worker_rlimit_nofile as nat));
    lemma_decimal_digits(cfg.keepalive_timeout as nat);
    lemma_nginx_plain(decimal(cfg.keepalive_timeout as nat));
    lemma_decimal_digits(cfg.keepalive_requests as nat);
    lemma_nginx_plain(decimal(cfg.keepalive_requests as nat));
    lemma_decimal_digits(cfg.client_body_timeout as nat);
    lemma_nginx_plain(decimal(cfg.client_body_timeout as nat));
    lemma_decimal_digits(cfg.client_header_timeout as nat);
    lemma_nginx_plain(decimal(cfg.client_header_timeout as nat));
    lemma_decimal_digits(cfg.send_timeout as nat);
    lemma_nginx_plain(decimal(cfg.send_timeout as nat));
    lemma_decimal_digits(cfg.server_names_hash_bucket_size as nat);
    lemma_nginx_plain(decimal(cfg.server_names_hash_bucket_size as nat));
    lemma_decimal_digits(cfg.gzip_level as nat);
    lemma_nginx_plain(decimal(cfg.gzip_level as nat));
    lemma_decimal_digits(cfg.gzip_min_length as nat);
    lemma_nginx_plain(decimal(cfg.gzip_min_length as nat));
}

/// The file has each directive the editor saves on exactly one active
/// line.
pub open spec fn nginx_lists_each_once(c: Seq<char>) -> bool {
    &&& nginx_lists_all(c)
    &&& forall|i: int| 0 <= i < 19 ==> nginx_unique(c, #[trigger] nginx_key(i))
}

/// Saving the Nginx settings into a file that has each of them on exactly
/// one active line leaves each of them on exactly one active line, and
/// every line that holds none of them keeps its text (up to surrounding
/// whitespace); no line is added.
pub proof fn law_nginx_save_layout(c: Seq<char>, cfg: NginxConfig)
    requires
        nginx_lists_each_once(c),
        no_nl(cfg.worker_processes@),
        no_nl(cfg.sendfile_max_chunk@),
        no_nl(cfg.client_max_body_size@),
        no_nl(cfg.client_body_buffer_size@),
        no_nl(cfg.client_header_buffer_size@),
        no_nl(cfg.large_client_header_buffers@),
    ensures
        ({
            let s = spec_save_nginx(c, cfg);
            &&& nginx_lists_all(s)
            &&& forall|i: int| 0 <= i < 19 ==> nginx_unique(s, #[trigger] nginx_key(i))
            &&& lines(s).len() <= lines(c).len()
            &&& forall|j: int|
                0 <= j < lines(s).len() && (forall|i: int|
                    0 <= i < 19 ==> !pred(LineKind::NginxDirective, #[trigger] nginx_key(i))(lines(c)[j])) ==> trim(
                    #[trigger] lines(s)[j],
                ) == trim(lines(c)[j])
        }),
{
    lemma_nginx_keys();
    lemma_nginx_nls(cfg);
    assert forall|i: int| 0 <= i < 19 implies find_line(c, LineKind::NginxDirective, #[trigger] nginx_key(i)) is Some by {}
    assert forall|i: int| 0 <= i < 17 implies #[trigger] nginx_key(i) != nginx_key(17) by {}
    lemma_nginx_apply_frame(c, cfg, 17, nginx_key(17));
    assert forall|i: int| 0 <= i < 18 implies #[trigger] nginx_key(i) != nginx_key(18) by {}
    lemma_nginx_apply_frame(c, cfg, 18, nginx_key(18));
    lemma_nginx_save_is_apply(c, cfg);
    lemma_nginx_apply_layout(c, cfg, 19);
    let s = spec_save_nginx(c, cfg);
    assert forall|i: int| 0 <= i < 19 implies find_line(s, LineKind::NginxDirective, #[trigger] nginx_key(i)) is Some by {
    }
    assert(nginx_lists_all(s)) by {
        assert(find_line(s, LineKind::NginxDirective, nginx_key(0)) is Some);
        assert(find_line(s, LineKind::NginxDirective, nginx_key(1)) is Some);
        assert(find_line(s, LineKind::NginxDirective, nginx_key(2)) is Some);
        assert(find_line(s, LineKind::NginxDirective, nginx_key(3)) is Some);
        assert(find_line(s, LineKind::NginxDirective, nginx_key(4)) is Some);
        assert(find_line(s, LineKind::NginxDirective, nginx_key(5)) is Some);
        assert(find_line(s, LineKind::NginxDirective, nginx_key(6)) is Some);
        assert(find_line(s, LineKind::NginxDirective, nginx_key(7)) is Some);
        assert(find_line(s, LineKind::NginxDirective, nginx_key(8)) is Some);
        assert(find_line(s, LineKind::NginxDirective, nginx_key(9)) is Some);
        assert(find_line(s, LineKind::NginxDirective, nginx_key(10)) is Some);
        assert(find_line(s, LineKind::NginxDirective, nginx_key(11)) is Some);
        assert(find_line(s, LineKind::NginxDirective, nginx_key(12)) is Some);
        assert(find_line(s, LineKind::NginxDirective, nginx_key(13)) is Some);
        assert(find_line(s, LineKind::NginxDirective, nginx_key(14)) is Some);
        assert(find_line(s, LineKind::NginxDirective, nginx_key(15)) is Some);
        assert(find_line(s, LineKind::NginxDirective, nginx_key(16)) is Some);
        assert(find_line(s, LineKind::NginxDirective, nginx_key(17)) is Some);
        assert(find_line(s, LineKind::NginxDirective, nginx_key(18)) is Some);
    }
}

} // verus!

verus! {

/// Re-joining the lines of `c`: the lines that come back are no more than
/// before, and each keeps its text up to surrounding whitespace.
pub proof fn lemma_rejoin_keeps(c: Seq<char>)
    ensures
        lines(join_lines(lines(c))).len() <= lines(c).len(),
        forall|j: int|
            0 <= j < lines(join_lines(lines(c))).len() ==> trim(#[trigger] lines(join_lines(lines(c)))[j]) == trim(
                lines(c)[j],
            ),
{
    let ls = lines(c);
    lemma_lines_no_nl(c);
    lemma_lines_join(ls);
    crate::text::lemma_relined_len(ls);
    assert forall|j: int| 0 <= j < lines(join_lines(ls)).len() implies trim(#[trigger] lines(join_lines(ls))[j])
        == trim(ls[j]) by {
        crate::text::lemma_relined_index(ls, j);
        crate::text::lemma_trim_strip_cr(ls[j]);
    }
}

/// Whether line `l` names MySQL key `k`, active or commented.
pub open spec fn ini_names(k: Seq<char>, l: Seq<char>) -> bool {
    pred(LineKind::IniActive, k)(l) || pred(LineKind::IniCommented, k)(l)
}

/// Writing key `k2` keeps every line that does not name it (up to
/// surrounding whitespace), and adds no line.
proof fn lemma_ini_set_keeps(c: Seq<char>, k2: Seq<char>, v: Seq<char>)
    requires
        ini_key_ok(k2),
        no_nl(v),
    ensures
        lines(spec_ini_set(c, k2, v)).len() <= lines(c).len(),
        forall|j: int|
            0 <= j < lines(spec_ini_set(c, k2, v)).len() && !ini_names(k2, lines(c)[j]) ==> trim(
                #[trigger] lines(spec_ini_set(c, k2, v))[j],
            ) == trim(lines(c)[j]),
{
    let ls = lines(c);
    lemma_first_where_spec(ls, pred(LineKind::IniActive, k2));
    lemma_first_where_spec(ls, pred(LineKind::IniCommented, k2));
    lemma_ini_line(k2, v);
    let l = ini_line(k2, v);
    match find_line(c, LineKind::IniActive, k2) {
        Some(i) => {
            lemma_update_keeps_others(c, i, l);
        },
        None => match find_line(c, LineKind::IniCommented, k2) {
            Some(i) => {
                lemma_update_keeps_others(c, i, l);
            },
            None => {
                lemma_rejoin_keeps(c);
            },
        },
    }
}

/// Every text the MySQL editor writes for a key is free of line breaks.
proof fn lemma_mysql_nls(cfg: MysqlConfig)
    requires
        no_nl(cfg.max_allowed_packet@),
        no_nl(cfg.innodb_buffer_pool_size@),
        no_nl(cfg.innodb_log_file_size@),
        no_nl(cfg.innodb_log_buffer_size@),
        no_nl(cfg.character_set_server@),
        no_nl(cfg.collation_server@),
        no_nl(cfg.init_connect@),
        no_nl(cfg.key_buffer_size@),
        no_nl(cfg.tmp_table_size@),
        no_nl(cfg.max_heap_table_size@),
        no_nl(cfg.sort_buffer_size@),
        no_nl(cfg.read_buffer_size@),
        no_nl(cfg.read_rnd_buffer_size@),
        no_nl(cfg.join_buffer_size@),
        no_nl(cfg.myisam_sort_buffer_size@),
        no_nl(cfg.default_storage_engine@),
    ensures
        forall|i: int| 0 <= i < 25 ==> no_nl(#[trigger] mysql_val(cfg, i)),
{
    lemma_decimal_digits(cfg.port as nat);
    lemma_ini_plain(decimal(cfg.port as nat));
    lemma_decimal_digits(cfg.max_connections as nat);
    lemma_ini_plain(decimal(cfg.max_connections as nat));
    lemma_decimal_digits(cfg.innodb_flush_log_at_trx_commit as nat);
    lemma_ini_plain(decimal(cfg.innodb_flush_log_at_trx_commit as nat));
    lemma_decimal_digits(cfg.innodb_lock_wait_timeout as nat);
    lemma_ini_plain(decimal(cfg.innodb_lock_wait_timeout as nat));
    lemma_decimal_digits(cfg.table_open_cache as nat);
    lemma_ini_plain(decimal(cfg.table_open_cache as nat));
    lemma_decimal_digits(cfg.interactive_timeout as nat);
    lemma_ini_plain(decimal(cfg.interactive_timeout as nat));
    lemma_decimal_digits(cfg.wait_timeout as nat);
    lemma_ini_plain(decimal(cfg.wait_timeout as nat));
    lemma_decimal_digits(cfg.thread_cache_size as nat);
    lemma_ini_plain(decimal(cfg.thread_cache_size as nat));
    lemma_decimal_digits(cfg.log_error_verbosity as nat);
    lemma_ini_plain(decimal(cfg.log_error_verbosity as nat));
}

/// Writing the first `n` keys keeps every line that names none of them
/// (up to surrounding whitespace), and adds no line.
proof fn lemma_mysql_apply_keeps(c: Seq<char>, cfg: MysqlConfig, n: nat)
    requires
        n <= 25,
        forall|i: int| 0 <= i < 25 ==> ini_key_ok(#[trigger] mysql_key(i)),
        forall|i: int| 0 <= i < 25 ==> no_nl(#[trigger] mysql_val(cfg, i)),
    ensures
        lines(mysql_apply(c, cfg, n)).len() <= lines(c).len(),
        forall|j: int|
            0 <= j < lines(mysql_apply(c, cfg, n)).len() && (forall|i: int|
                0 <= i < n ==> !ini_names(#[trigger] mysql_key(i), lines(c)[j])) ==> trim(
                #[trigger] lines(mysql_apply(c, cfg, n))[j],
            ) == trim(lines(c)[j]),
    decreases n,
{
    if n > 0 {
        let m = (n - 1) as nat;
        lemma_mysql_apply_keeps(c, cfg, m);
        let prev = mysql_apply(c, cfg, m);
        let k2 = mysql_key(m as int);
        assert(no_nl(mysql_val(cfg, m as int)));
        lemma_ini_set_keeps(prev, k2, mysql_val(cfg, m as int));
        lemma_pred_trim_only(LineKind::IniActive, k2);
        lemma_pred_trim_only(LineKind::IniCommented, k2);
        assert forall|j: int|
            0 <= j < lines(mysql_apply(c, cfg, n)).len() && (forall|i: int|
                0 <= i < n ==> !ini_names(#[trigger] mysql_key(i), lines(c)[j])) implies trim(
            #[trigger] lines(mysql_apply(c, cfg, n))[j],
        ) == trim(lines(c)[j]) by {
            assert(!ini_names(mysql_key(m as int), lines(c)[j]));
            assert(forall|i: int| 0 <= i < m ==> !ini_names(#[trigger] mysql_key(i), lines(c)[j]));
            assert(trim(lines(prev)[j]) == trim(lines(c)[j]));
            assert(!ini_names(k2, lines(prev)[j]));
        }
    }
}

/// Saving the MySQL settings keeps every line that names none of the keys
/// the editor saves (up to surrounding whitespace), and adds no line.
pub proof fn law_mysql_save_keeps_other_lines(c: Seq<char>, cfg: MysqlConfig)
    requires
        no_nl(cfg.max_allowed_packet@),
        no_nl(cfg.innodb_buffer_pool_size@),
        no_nl(cfg.innodb_log_file_size@),
        no_nl(cfg.innodb_log_buffer_size@),
        no_nl(cfg.character_set_server@),
        no_nl(cfg.collation_server@),
        no_nl(cfg.init_connect@),
        no_nl(cfg.key_buffer_size@),
        no_nl(cfg.tmp_table_size@),
        no_nl(cfg.max_heap_table_size@),
        no_nl(cfg.sort_buffer_size@),
        no_nl(cfg.read_buffer_size@),
        no_nl(cfg.read_rnd_buffer_size@),
        no_nl(cfg.join_buffer_size@),
        no_nl(cfg.myisam_sort_buffer_size@),
        no_nl(cfg.default_storage_engine@),
    ensures
        ({
            let s = spec_save_mysql(c, cfg);
            &&& lines(s).len() <= lines(c).len()
            &&& forall|j: int|
                0 <= j < lines(s).len() && (forall|i: int| 0 <= i < 25 ==> !ini_names(#[trigger] mysql_key(i), lines(c)[j]))
                    ==> trim(#[trigger] lines(s)[j]) == trim(lines(c)[j])
        }),
{
    lemma_mysql_keys();
    lemma_mysql_nls(cfg);
    lemma_mysql_save_is_apply(c, cfg);
    lemma_mysql_apply_keeps(c, cfg, 25);
}

} // verus!
