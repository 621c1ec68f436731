//! Virtual hosts: the record written to both Nginx and Apache, and the
//! input checks that keep user text from escaping into the generated
//! configuration.

use vstd::prelude::*;
use crate::text::{
    append, append_str, chars_of, contains, contains_str, count_char, lower, lower_of, slice_of,
    string_of,
};
use crate::num::{decimal, decimal_chars};

verus! {

/// TLS settings of a virtual host.
#[derive(Debug)]
pub struct SslConfig {
    pub cert_path: String,
    pub key_path: String,
    pub force_https: bool,
}

/// Where a vhost originated from.
#[derive(Debug)]
pub enum VhostSource {
    /// Scanned from PHPStudy's Nginx vhosts directory.
    PhpStudy,
    /// Created inside the application (the default).
    Custom,
    /// Discovered under a standalone install (the package name, e.g. "nginx").
    Standalone(String),
}

impl VhostSource {
    /// The default origin of a vhost.
    pub fn default_source() -> (r: VhostSource)
        ensures
            r is Custom,
    {
        VhostSource::Custom
    }

    pub fn copy(&self) -> (r: VhostSource)
        ensures
            r == *self,
    {
        match self {
            VhostSource::PhpStudy => VhostSource::PhpStudy,
            VhostSource::Custom => VhostSource::Custom,
            VhostSource::Standalone(s) => VhostSource::Standalone(s.clone()),
        }
    }
}

/// A virtual host configuration (written both for Nginx and for Apache).
#[derive(Debug)]
pub struct VirtualHost {
    pub id: String,
    pub server_name: String,
    pub aliases: Vec<String>,
    pub listen_port: u16,
    pub document_root: String,
    pub php_version: Option<String>,
    pub php_fastcgi_port: Option<u16>,
    pub php_install_path: Option<String>,
    pub index_files: String,
    pub rewrite_rule: String,
    pub autoindex: bool,
    pub ssl: Option<SslConfig>,
    pub custom_directives: Option<String>,
    pub access_log: Option<String>,
    pub enabled: bool,
    /// ISO 8601 timestamp when this vhost was created.
    pub created_at: String,
    /// Expiry date (ISO 8601); empty means never.
    pub expires_at: String,
    /// Whether to keep the hosts file in sync.
    pub sync_hosts: bool,
    pub source: VhostSource,
}

/// The views of a sequence of strings.
pub open spec fn strs(v: Seq<String>) -> Seq<Seq<char>> {
    v.map_values(|s: String| s@)
}

/// The default of `enabled` and `sync_hosts` when absent from saved data.
pub fn default_enabled() -> (r: bool)
    ensures
        r,
{
    true
}

/// The default index files.
pub fn default_index_files() -> (r: String)
    ensures
        r@ == "index.php index.html"@,
{
    String::from_str("index.php index.html")
}

// ------------------------------------------------------------------
// Input checks
// ------------------------------------------------------------------

/// `char::is_ascii_alphanumeric`.
pub open spec fn is_ascii_alnum(c: char) -> bool {
    ('0' <= c && c <= '9') || ('a' <= c && c <= 'z') || ('A' <= c && c <= 'Z')
}

pub open spec fn hostname_char(c: char) -> bool {
    is_ascii_alnum(c) || c == '.' || c == '-' || c == '_' || c == '*'
}

/// A hostname is accepted when it is non-empty, at most 253 long, has no
/// `".."`, and uses only ASCII letters, digits, `.`, `-`, `_` and `*`.
/// (On such text byte length and character count agree.)
pub open spec fn spec_safe_hostname(s: Seq<char>) -> bool {
    &&& s.len() > 0
    &&& s.len() <= 253
    &&& !contains(s, seq!['.', '.'])
    &&& forall|i: int| 0 <= i < s.len() ==> hostname_char(s[i])
}

/// Characters refused in one-line fields and path-like fields.
pub open spec fn line_breaking(c: char) -> bool {
    c == '\n' || c == '\r' || c == ';' || c == '"' || c == '\'' || c == '{' || c == '}' || c == '<'
        || c == '>' || c == '\0'
}

pub open spec fn spec_safe_oneline(s: Seq<char>) -> bool {
    forall|i: int| 0 <= i < s.len() ==> !line_breaking(s[i])
}

/// The brace depth after `s`: one up for each `{`, one down for each `}`.
pub open spec fn brace_depth(s: Seq<char>) -> int
    decreases s.len(),
{
    if s.len() == 0 {
        0
    } else {
        brace_depth(s.drop_last()) + if s.last() == '{' {
            1int
        } else if s.last() == '}' {
            -1int
        } else {
            0int
        }
    }
}

/// The braces pair up in nesting order: the depth never goes below zero
/// and ends at zero.
pub open spec fn braces_nest(s: Seq<char>) -> bool {
    &&& forall|k: int| 0 <= k <= s.len() ==> brace_depth(#[trigger] s.take(k)) >= 0
    &&& brace_depth(s) == 0
}

/// A character that can be part of a directive name.
pub open spec fn ident_char(c: char) -> bool {
    is_ascii_alnum(c) || c == '_'
}

/// The first index from `j` on that is not whitespace.
pub open spec fn skip_ws_from(s: Seq<char>, j: int) -> int
    decreases s.len() - j,
{
    if 0 <= j < s.len() && crate::text::is_ws(s[j]) {
        skip_ws_from(s, j + 1)
    } else {
        j
    }
}

/// At `i` of `l` stands the word `kw` (not the end of a longer name)
/// followed, after any whitespace, by `{`: it opens a `kw` block.
pub open spec fn opens_block_at(l: Seq<char>, i: int, kw: Seq<char>) -> bool {
    &&& 0 <= i
    &&& i + kw.len() <= l.len()
    &&& l.subrange(i, i + kw.len()) == kw
    &&& (i == 0 || !ident_char(l[i - 1]))
    &&& skip_ws_from(l, i + kw.len()) < l.len()
    &&& l[skip_ws_from(l, i + kw.len())] == '{'
}

/// The text opens a `server` or `http` block, in any letter case and with
/// any spacing before the brace.
pub open spec fn opens_top_block(s: Seq<char>) -> bool {
    exists|i: int| opens_block_at(lower(s), i, "server"@) || opens_block_at(lower(s), i, "http"@)
}

/// Custom directives: no NUL, braces that pair up in nesting order (no
/// `}` closes the block around them), and no `server` or `http` block.
pub open spec fn spec_safe_custom_directives(s: Seq<char>) -> bool {
    &&& forall|i: int| 0 <= i < s.len() ==> s[i] != '\0'
    &&& braces_nest(s)
    &&& !opens_top_block(s)
}

fn is_ascii_alnum_exec(c: char) -> (r: bool)
    ensures
        r == is_ascii_alnum(c),
{
    ('0' <= c && c <= '9') || ('a' <= c && c <= 'z') || ('A' <= c && c <= 'Z')
}

/// Accepts ASCII letters, digits, `.`, `-`, `_`, `*`; refuses empty, over
/// long, or `".."`-containing names.
pub fn is_safe_hostname(s: &str) -> (r: bool)
    ensures
        r == spec_safe_hostname(s@),
{
    let v = chars_of(s);
    if v.len() == 0 || v.len() > 253 {
        return false;
    }
    if contains_str(&v, "..") {
        proof {
            reveal_strlit("..");
            assert(".."@ == seq!['.', '.']);
        }
        return false;
    }
    proof {
        reveal_strlit("..");
        assert(".."@ == seq!['.', '.']);
    }
    let mut i: usize = 0;
    while i < v.len()
        invariant
            i <= v.len(),
            v@ == s@,
            forall|j: int| 0 <= j < i ==> hostname_char(v@[j]),
        decreases v.len() - i,
    {
        let c = v[i];
        if !(is_ascii_alnum_exec(c) || c == '.' || c == '-' || c == '_' || c == '*') {
            assert(!hostname_char(v@[i as int]));
            return false;
        }
        i += 1;
    }
    true
}

fn all_oneline(v: &[char]) -> (r: bool)
    ensures
        r == spec_safe_oneline(v@),
{
    let mut i: usize = 0;
    while i < v.len()
        invariant
            i <= v.len(),
            forall|j: int| 0 <= j < i ==> !line_breaking(v@[j]),
        decreases v.len() - i,
    {
        let c = v[i];
        if c == '\n' || c == '\r' || c == ';' || c == '"' || c == '\'' || c == '{' || c == '}'
            || c == '<' || c == '>' || c == '\0' {
            return false;
        }
        i += 1;
    }
    true
}

/// One-line fields (such as the index files): no line breaks, `;`, quotes,
/// braces, angle brackets or NUL.
pub fn is_safe_oneline_value(s: &str) -> (r: bool)
    ensures
        r == spec_safe_oneline(s@),
{
    let v = chars_of(s);
    all_oneline(&v)
}

/// Path-like fields: the same characters as one-line fields are refused.
pub fn is_safe_path_like(s: &str) -> (r: bool)
    ensures
        r == spec_safe_oneline(s@),
{
    let v = chars_of(s);
    all_oneline(&v)
}

fn count_char_exec(v: &[char], c: char) -> (r: usize)
    ensures
        r == count_char(v@, c),
{
    let mut n: usize = 0;
    let mut i: usize = 0;
    while i < v.len()
        invariant
            i <= v.len(),
            n == count_char(v@.take(i as int), c),
            n <= i,
        decreases v.len() - i,
    {
        assert(v@.take(i + 1).drop_last() == v@.take(i as int));
        if v[i] == c {
            n += 1;
        }
        i += 1;
    }
    assert(v@.take(v.len() as int) == v@);
    n
}

fn skip_ws_exec(l: &[char], j: usize) -> (r: usize)
    requires
        j <= l.len(),
    ensures
        r as int == skip_ws_from(l@, j as int),
        r <= l.len(),
{
    let mut k = j;
    while k < l.len() && crate::text::is_ws_char(l[k])
        invariant
            j <= k <= l.len(),
            skip_ws_from(l@, j as int) == skip_ws_from(l@, k as int),
        decreases l.len() - k,
    {
        k += 1;
    }
    k
}

fn opens_block_at_exec(l: &[char], i: usize, kw: &[char]) -> (r: bool)
    requires
        i <= l.len(),
    ensures
        r == opens_block_at(l@, i as int, kw@),
{
    if kw.len() > l.len() - i {
        return false;
    }
    let w = crate::text::slice_of(l, i, i + kw.len());
    if !crate::text::eq(&w, kw) {
        return false;
    }
    if i > 0 && (is_ascii_alnum_exec(l[i - 1]) || l[i - 1] == '_') {
        return false;
    }
    let j = skip_ws_exec(l, i + kw.len());
    j < l.len() && l[j] == '{'
}

fn opens_anywhere(l: &[char], kw: &[char]) -> (r: bool)
    ensures
        r == exists|i: int| opens_block_at(l@, i, kw@),
{
    let mut i: usize = 0;
    while i <= l.len()
        invariant
            i <= l.len() + 1,
            forall|k: int| 0 <= k < i ==> !opens_block_at(l@, k, kw@),
        decreases l.len() + 1 - i,
    {
        if opens_block_at_exec(l, i, kw) {
            return true;
        }
        if i == l.len() {
            assert forall|k: int| #![trigger opens_block_at(l@, k, kw@)] !opens_block_at(l@, k, kw@) by {
                if 0 <= k <= l.len() {
                } else {
                }
            }
            return false;
        }
        i += 1;
    }
    false
}

/// Custom Nginx directives: multi-line is allowed, but the braces must
/// pair up and the text may not open a `server` or `http` block.
pub fn is_safe_custom_directives(s: &str) -> (r: bool)
    ensures
        r == spec_safe_custom_directives(s@),
{
    let v = chars_of(s);
    let mut i: usize = 0;
    while i < v.len()
        invariant
            i <= v.len(),
            v@ == s@,
            forall|j: int| 0 <= j < i ==> v@[j] != '\0',
        decreases v.len() - i,
    {
        if v[i] == '\0' {
            assert(v@[i as int] == '\0');
            return false;
        }
        i += 1;
    }
    let mut d: usize = 0;
    let mut k: usize = 0;
    assert(v@.take(0) =~= Seq::<char>::empty());
    while k < v.len()
        invariant
            k <= v.len(),
            v@ == s@,
            d <= k,
            d as int == brace_depth(v@.take(k as int)),
            forall|m: int| 0 <= m <= k ==> brace_depth(#[trigger] v@.take(m)) >= 0,
        decreases v.len() - k,
    {
        assert(v@.take(k + 1).drop_last() =~= v@.take(k as int));
        assert(v@.take(k + 1).last() == v@[k as int]);
        if v[k] == '{' {
            d = d + 1;
        } else if v[k] == '}' {
            if d == 0 {
                assert(brace_depth(v@.take(k + 1)) < 0);
                return false;
            }
            d = d - 1;
        }
        k += 1;
    }
    assert(v@.take(v.len() as int) =~= v@);
    if d != 0 {
        return false;
    }
    let lc = lower_of(&v);
    let a = opens_anywhere(&lc, &chars_of("server"));
    let b = opens_anywhere(&lc, &chars_of("http"));
    if a || b {
        return false;
    }
    true
}

// ------------------------------------------------------------------
// File names
// ------------------------------------------------------------------

/// `char::is_control`: general category Cc.
pub open spec fn is_control(c: char) -> bool {
    (c as u32) <= 0x1F || (0x7F <= (c as u32) && (c as u32) <= 0x9F)
}

pub open spec fn filename_forbidden(c: char) -> bool {
    c == '/' || c == '\\' || c == ':' || c == '*' || c == '?' || c == '"' || c == '<' || c == '>'
        || c == '|' || c == '\0' || is_control(c)
}

pub open spec fn clean_char(c: char) -> char {
    if filename_forbidden(c) {
        '_'
    } else {
        c
    }
}

pub open spec fn dot_or_space(c: char) -> bool {
    c == '.' || c == ' '
}

/// `trim_matches(|c| c == '.' || c == ' ')`, from the front.
pub open spec fn trim_dots_start(s: Seq<char>) -> Seq<char>
    decreases s.len(),
{
    if s.len() > 0 && dot_or_space(s[0]) {
        trim_dots_start(s.drop_first())
    } else {
        s
    }
}

/// `trim_matches(|c| c == '.' || c == ' ')`, from the back.
pub open spec fn trim_dots_end(s: Seq<char>) -> Seq<char>
    decreases s.len(),
{
    if s.len() > 0 && dot_or_space(s.last()) {
        trim_dots_end(s.drop_last())
    } else {
        s
    }
}

/// `str::replace("..", "__")`: left to right, non-overlapping.
pub open spec fn replace_dotdot(s: Seq<char>) -> Seq<char>
    decreases s.len(),
{
    if s.len() >= 2 && s[0] == '.' && s[1] == '.' {
        seq!['_', '_'] + replace_dotdot(s.skip(2))
    } else if s.len() == 0 {
        s
    } else {
        seq![s[0]] + replace_dotdot(s.drop_first())
    }
}

/// The file-name form of `s`: characters that Windows refuses in a file
/// name (and control characters) become `_`, leading and trailing dots and
/// spaces go, and every `".."` becomes `"__"`.
pub open spec fn spec_sanitize_filename(s: Seq<char>) -> Seq<char> {
    replace_dotdot(trim_dots_start(trim_dots_end(s.map_values(|c: char| clean_char(c)))))
}

fn clean_char_exec(c: char) -> (r: char)
    ensures
        r == clean_char(c),
{
    let u = c as u32;
    if c == '/' || c == '\\' || c == ':' || c == '*' || c == '?' || c == '"' || c == '<' || c
        == '>' || c == '|' || c == '\0' || u <= 0x1F || (0x7F <= u && u <= 0x9F) {
        '_'
    } else {
        c
    }
}

proof fn lemma_trim_dots_start_skip(s: Seq<char>, i: int)
    requires
        0 <= i <= s.len(),
        forall|j: int| 0 <= j < i ==> dot_or_space(s[j]),
    ensures
        trim_dots_start(s) == trim_dots_start(s.skip(i)),
    decreases i,
{
    if i > 0 {
        lemma_trim_dots_start_skip(s.drop_first(), i - 1);
        assert(s.drop_first().skip(i - 1) == s.skip(i));
    } else {
        assert(s.skip(0) == s);
    }
}

proof fn lemma_trim_dots_end_take(s: Seq<char>, i: int)
    requires
        0 <= i <= s.len(),
        forall|j: int| i <= j < s.len() ==> dot_or_space(s[j]),
    ensures
        trim_dots_end(s) == trim_dots_end(s.take(i)),
    decreases s.len() - i,
{
    if i < s.len() {
        lemma_trim_dots_end_take(s.drop_last(), i);
        assert(s.drop_last().take(i) == s.take(i));
    } else {
        assert(s.take(i) == s);
    }
}

fn replace_dotdot_exec(v: &[char]) -> (r: Vec<char>)
    ensures
        r@ == replace_dotdot(v@),
{
    let mut out: Vec<char> = Vec::new();
    let mut i: usize = 0;
    assert(v@.skip(0) == v@);
    while i < v.len()
        invariant
            i <= v.len(),
            out@ + replace_dotdot(v@.skip(i as int)) == replace_dotdot(v@),
        decreases v.len() - i,
    {
        let ghost rest = v@.skip(i as int);
        let ghost o = out@;
        if i + 1 < v.len() && v[i] == '.' && v[i + 1] == '.' {
            assert(rest[0] == '.' && rest[1] == '.');
            assert(rest.skip(2) == v@.skip(i + 2));
            out.push('_');
            out.push('_');
            assert(out@ == o + seq!['_', '_']);
            assert(o + (seq!['_', '_'] + replace_dotdot(rest.skip(2))) == out@ + replace_dotdot(
                v@.skip(i + 2),
            ));
            i += 2;
        } else {
            assert(rest[0] == v@[i as int]);
            assert(rest.drop_first() == v@.skip(i + 1));
            out.push(v[i]);
            assert(o + (seq![v@[i as int]] + replace_dotdot(rest.drop_first())) == out@
                + replace_dotdot(v@.skip(i + 1)));
            i += 1;
        }
    }
    assert(replace_dotdot(v@.skip(i as int)) == Seq::<char>::empty());
    assert(out@ + Seq::<char>::empty() == out@);
    out
}

fn sanitize_chars(s: &[char]) -> (r: Vec<char>)
    ensures
        r@ == spec_sanitize_filename(s@),
{
    let mut cleaned: Vec<char> = Vec::new();
    let mut i: usize = 0;
    while i < s.len()
        invariant
            i <= s.len(),
            cleaned@ == s@.take(i as int).map_values(|c: char| clean_char(c)),
        decreases s.len() - i,
    {
        cleaned.push(clean_char_exec(s[i]));
        i += 1;
        assert(s@.take(i as int).map_values(|c: char| clean_char(c)) =~= s@.take(
            (i - 1) as int,
        ).map_values(|c: char| clean_char(c)).push(clean_char(s@[i - 1])));
    }
    assert(s@.take(s.len() as int) == s@);
    let ghost cl = cleaned@;
    // trim the end
    let mut hi: usize = cleaned.len();
    while hi > 0 && (cleaned[hi - 1] == '.' || cleaned[hi - 1] == ' ')
        invariant
            hi <= cleaned.len(),
            cleaned@ == cl,
            forall|j: int| hi <= j < cl.len() ==> dot_or_space(cl[j]),
        decreases hi,
    {
        hi -= 1;
    }
    proof {
        lemma_trim_dots_end_take(cl, hi as int);
        if hi > 0 {
            assert(cl.take(hi as int).last() == cl[hi - 1]);
        }
    }
    let ghost e = cl.take(hi as int);
    assert(trim_dots_end(cl) == e);
    let mut lo: usize = 0;
    while lo < hi && (cleaned[lo] == '.' || cleaned[lo] == ' ')
        invariant
            lo <= hi,
            hi <= cleaned.len(),
            cleaned@ == cl,
            e == cl.take(hi as int),
            forall|j: int| 0 <= j < lo ==> dot_or_space(e[j]),
        decreases hi - lo,
    {
        lo += 1;
    }
    proof {
        lemma_trim_dots_start_skip(e, lo as int);
        if lo < hi {
            assert(e.skip(lo as int)[0] == cl[lo as int]);
        }
    }
    let trimmed = slice_of(&cleaned, lo, hi);
    assert(trimmed@ == e.skip(lo as int));
    replace_dotdot_exec(&trimmed)
}

/// File-name normalisation: characters that cannot appear in a Windows
/// file name become `_`, leading/trailing dots and spaces are removed, and
/// `".."` becomes `"__"`.
pub fn sanitize_filename(s: &str) -> (r: String)
    ensures
        r@ == spec_sanitize_filename(s@),
{
    let v = chars_of(s);
    let r = sanitize_chars(&v);
    string_of(&r)
}

/// The name of the per-vhost configuration file.
pub open spec fn spec_config_filename(server_name: Seq<char>, port: u16) -> Seq<char> {
    spec_sanitize_filename(server_name) + seq!['_'] + decimal(port as nat) + ".conf"@
}

/// The message for the first alias that is not a safe host name, if any.
pub open spec fn spec_first_bad_alias(aliases: Seq<Seq<char>>) -> Option<Seq<char>>
    decreases aliases.len(),
{
    if aliases.len() == 0 {
        None
    } else if aliases[0].len() > 0 && !spec_safe_hostname(aliases[0]) {
        Some(aliases[0])
    } else {
        spec_first_bad_alias(aliases.drop_first())
    }
}

pub open spec fn opt_view(o: Option<String>) -> Option<Seq<char>> {
    match o {
        Some(s) => Some(s@),
        None => None,
    }
}

pub open spec fn spec_validate(
    server_name: Seq<char>,
    aliases: Seq<Seq<char>>,
    index_files: Seq<char>,
    access_log: Option<Seq<char>>,
    custom: Option<Seq<char>>,
) -> Result<(), Seq<char>> {
    if !spec_safe_hostname(server_name) {
        Err("域名格式不合法："@ + server_name)
    } else if spec_first_bad_alias(aliases) is Some {
        Err("域名别名格式不合法："@ + spec_first_bad_alias(aliases)->0)
    } else if !spec_safe_oneline(index_files) {
        Err("默认首页字段含非法字符"@)
    } else if access_log is Some && !spec_safe_oneline(access_log->0) {
        Err("日志路径含非法字符"@)
    } else if custom is Some && !spec_safe_custom_directives(custom->0) {
        Err("自定义指令含不平衡的花括号或受限关键字"@)
    } else {
        Ok(())
    }
}

pub open spec fn result_view(r: Result<(), String>) -> Result<(), Seq<char>> {
    match r {
        Ok(()) => Ok(()),
        Err(s) => Err(s@),
    }
}

fn concat_msg(prefix: &str, s: &str) -> (r: String)
    ensures
        r@ == prefix@ + s@,
{
    let mut v = chars_of(prefix);
    append_str(&mut v, s);
    string_of(&v)
}

impl VirtualHost {
    /// The vhost's configuration file name: `<sanitized server name>_<port>.conf`.
    pub fn config_filename(&self) -> (r: String)
        ensures
            r@ == spec_config_filename(self.server_name@, self.listen_port),
    {
        let v = chars_of(self.server_name.as_str());
        let mut out = sanitize_chars(&v);
        out.push('_');
        let d = decimal_chars(self.listen_port as u64);
        append(&mut out, &d);
        append_str(&mut out, ".conf");
        string_of(&out)
    }

    /// Checks every user-entered field; the error names the first failure.
    pub fn validate(&self) -> (r: Result<(), String>)
        ensures
            result_view(r) == spec_validate(
                self.server_name@,
                strs(self.aliases@),
                self.index_files@,
                opt_view(self.access_log),
                opt_view(self.custom_directives),
            ),
    {
        if !is_safe_hostname(self.server_name.as_str()) {
            return Err(concat_msg("域名格式不合法：", self.server_name.as_str()));
        }
        let mut i: usize = 0;
        assert(strs(self.aliases@).skip(0) == strs(self.aliases@));
        while i < self.aliases.len()
            invariant
                i <= self.aliases.len(),
                spec_safe_hostname(self.server_name@),
                spec_first_bad_alias(strs(self.aliases@)) == spec_first_bad_alias(
                    strs(self.aliases@).skip(i as int),
                ),
            decreases self.aliases.len() - i,
        {
            let ghost rest = strs(self.aliases@).skip(i as int);
            assert(rest[0] == self.aliases@[i as int]@);
            assert(rest.drop_first() == strs(self.aliases@).skip(i + 1));
            let a = &self.aliases[i];
            if a.as_str().unicode_len() != 0 && !is_safe_hostname(a.as_str()) {
                return Err(concat_msg("域名别名格式不合法：", a.as_str()));
            }
            i += 1;
        }
        assert(strs(self.aliases@).skip(i as int).len() == 0);
        if !is_safe_oneline_value(self.index_files.as_str()) {
            return Err(String::from_str("默认首页字段含非法字符"));
        }
        match &self.access_log {
            Some(log) => {
                if !is_safe_path_like(log.as_str()) {
                    return Err(String::from_str("日志路径含非法字符"));
                }
            },
            None => {},
        }
        match &self.custom_directives {
            Some(custom) => {
                if !is_safe_custom_directives(custom.as_str()) {
                    return Err(String::from_str("自定义指令含不平衡的花括号或受限关键字"));
                }
            },
            None => {},
        }
        Ok(())
    }
}

} // verus!

verus! {

/// A host name as the original accepts it: 1 to 253 characters, each an
/// ASCII letter or digit, `.`, `-`, `_` or `*`, and no `..`.
pub open spec fn host_name_shape(s: Seq<char>) -> bool {
    &&& 0 < s.len() <= 253
    &&& forall|i: int|
        0 <= i < s.len() ==> {
            let c = #[trigger] s[i];
            ('0' <= c && c <= '9') || ('a' <= c && c <= 'z') || ('A' <= c && c <= 'Z') || c == '.' || c == '-'
                || c == '_' || c == '*'
        }
    &&& forall|i: int| 0 <= i < s.len() - 1 ==> !(#[trigger] s[i] == '.' && s[i + 1] == '.')
}

/// Exactly the host names of that shape pass the host-name check; a name
/// of another shape is refused with its own text in the message, and for
/// a name of that shape validation goes on as for any other such name.
pub proof fn law_host_names(
    name: Seq<char>,
    other: Seq<char>,
    aliases: Seq<Seq<char>>,
    index_files: Seq<char>,
    access_log: Option<Seq<char>>,
    custom: Option<Seq<char>>,
)
    ensures
        spec_safe_hostname(name) <==> host_name_shape(name),
        !host_name_shape(name) ==> spec_validate(name, aliases, index_files, access_log, custom) == Err::<(), Seq<char>>(
            "域名格式不合法："@ + name,
        ),
        host_name_shape(name) && host_name_shape(other) ==> spec_validate(name, aliases, index_files, access_log, custom)
            == spec_validate(other, aliases, index_files, access_log, custom),
{
    lemma_host_shape(name);
    lemma_host_shape(other);
}

proof fn lemma_host_shape(s: Seq<char>)
    ensures
        spec_safe_hostname(s) <==> host_name_shape(s),
{
    if contains(s, seq!['.', '.']) {
        let i = choose|i: int| crate::text::occurs_at(s, seq!['.', '.'], i);
        assert(s.subrange(i, i + 2)[0] == s[i]);
        assert(s.subrange(i, i + 2)[1] == s[i + 1]);
        assert(s[i] == '.' && s[i + 1] == '.');
    }
    if exists|i: int| 0 <= i < s.len() - 1 && #[trigger] s[i] == '.' && s[i + 1] == '.' {
        let i = choose|i: int| 0 <= i < s.len() - 1 && #[trigger] s[i] == '.' && s[i + 1] == '.';
        assert(s.subrange(i, i + 2) =~= seq!['.', '.']);
        assert(crate::text::occurs_at(s, seq!['.', '.'], i));
    }
    assert(host_name_shape(s) ==> forall|i: int| 0 <= i < s.len() ==> hostname_char(s[i]));
    assert((forall|i: int| 0 <= i < s.len() ==> hostname_char(s[i])) ==> forall|i: int|
        0 <= i < s.len() ==> {
            let c = #[trigger] s[i];
            ('0' <= c && c <= '9') || ('a' <= c && c <= 'z') || ('A' <= c && c <= 'Z') || c == '.' || c == '-'
                || c == '_' || c == '*'
        });
}

} // verus!
