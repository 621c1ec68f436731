//! The package versions offered by the upstream sources: the project's
//! GitHub mirror manifest and the official Windows PHP release list,
//! turned into catalog versions.

use vstd::prelude::*;
use crate::text::{chars_of, string_of, append_str, starts_with};
use crate::installer::PackageVersion;
use crate::ssl_cert::string_views;
use crate::vhost::opt_view;
use crate::versions::{desc_from, Order3};

verus! {

/// One version in the mirror manifest.
pub struct MirrorEntry {
    pub version: String,
    pub variant: Option<String>,
    pub size_bytes: Option<u64>,
    pub sha256: Option<String>,
    pub exe_rel: String,
    pub download_urls: Vec<String>,
}

/// `v` is the catalog version made from the mirror entry `e`: its first
/// mirror is its URL, all mirrors are tried, the size is in whole MiB.
pub open spec fn from_mirror(e: MirrorEntry, v: PackageVersion) -> bool {
    &&& v.version@ == e.version@
    &&& v.url@ == e.download_urls@[0]@
    &&& string_views(v.download_urls@) == string_views(e.download_urls@)
    &&& opt_view(v.sha256) == opt_view(e.sha256)
    &&& v.size_mb == (match e.size_bytes { Some(b) => Some((b / 1024 / 1024) as u32), None => None })
    &&& v.exe_rel@ == e.exe_rel@
    &&& opt_view(v.variant) == opt_view(e.variant)
}

/// The entries with at least one mirror, in order.
pub open spec fn with_mirrors(es: Seq<MirrorEntry>) -> Seq<MirrorEntry>
    decreases es.len(),
{
    if es.len() == 0 {
        Seq::empty()
    } else {
        let prev = with_mirrors(es.drop_last());
        if es.last().download_urls@.len() > 0 { prev.push(es.last()) } else { prev }
    }
}

/// The catalog versions of one package in the mirror manifest: entries
/// without mirrors are left out, the others kept in order.
pub fn mirror_versions(entries: Vec<MirrorEntry>) -> (r: Vec<PackageVersion>)
    ensures
        r@.len() == with_mirrors(entries@).len(),
        forall|i: int| 0 <= i < r@.len() ==> from_mirror(with_mirrors(entries@)[i], #[trigger] r@[i]),
{
    let ghost e0 = entries@;
    let mut rest = entries;
    let mut out: Vec<PackageVersion> = Vec::new();
    let mut k: usize = 0;
    let n = rest.len();
    assert(e0.skip(0) =~= e0);
    while rest.len() > 0
        invariant
            k <= e0.len(),
            n == e0.len(),
            rest@ == e0.skip(k as int),
            out@.len() == with_mirrors(e0.take(k as int)).len(),
            forall|i: int| 0 <= i < out@.len() ==> from_mirror(with_mirrors(e0.take(k as int))[i], #[trigger] out@[i]),
        decreases rest.len(),
    {
        let e = rest.remove(0);
        assert(e == e0[k as int]);
        assert(e0.take(k + 1).drop_last() =~= e0.take(k as int));
        if e.download_urls.len() > 0 {
            let ghost before = out@;
            let url = e.download_urls[0].clone();
            let size_mb = match e.size_bytes {
                Some(b) => Some((b / 1024 / 1024) as u32),
                None => None,
            };
            let ghost eg = e;
            let v = PackageVersion {
                version: e.version,
                url,
                download_urls: e.download_urls,
                sha256: e.sha256,
                size_mb,
                exe_rel: e.exe_rel,
                variant: e.variant,
            };
            assert(from_mirror(eg, v));
            out.push(v);
            assert forall|i: int| 0 <= i < out@.len() implies from_mirror(with_mirrors(e0.take(k + 1))[i], #[trigger] out@[i]) by {
                if i < before.len() {
                    assert(out@[i] == before[i]);
                }
            }
        }
        k += 1;
        assert(rest@ =~= e0.skip(k as int));
    }
    assert(e0.take(e0.len() as int) =~= e0);
    out
}

// ------------------------------------------------------------------
// The official Windows PHP releases
// ------------------------------------------------------------------

/// The archive of one build.
pub struct ZipInfo {
    pub path: String,
    /// The size in whole MB, as read from the listed size text.
    pub size_mb: Option<u32>,
    pub sha256: Option<String>,
}

/// One branch of the release list (`8.4`, `8.3`, …) with its NTS x64 builds.
pub struct PhpBranch {
    pub key: String,
    pub version: Option<String>,
    pub nts_vs17_x64: Option<Option<ZipInfo>>,
    pub nts_vs16_x64: Option<Option<ZipInfo>>,
    pub nts_vc15_x64: Option<Option<ZipInfo>>,
}

/// Where release archives are downloaded from.
pub open spec fn release_base() -> Seq<char> {
    "https://windows.php.net/downloads/releases/"@
}

/// The build a branch offers: the newest compiler present (vs17, then
/// vs16, then vc15), with its archive when listed.
pub open spec fn chosen_build(b: PhpBranch) -> Option<(Seq<char>, Option<ZipInfo>)> {
    match b.nts_vs17_x64 {
        Some(z) => Some(("vs17"@, z)),
        None => match b.nts_vs16_x64 {
            Some(z) => Some(("vs16"@, z)),
            None => match b.nts_vc15_x64 {
                Some(z) => Some(("vc15"@, z)),
                None => None,
            },
        },
    }
}

/// The catalog version a branch offers: none when its key does not start
/// with a digit, it names no version, no build is listed, or the chosen
/// build has no archive.
pub open spec fn spec_branch_version(b: PhpBranch) -> Option<(Seq<char>, Seq<char>, Option<Seq<char>>, Option<u32>, Seq<char>)> {
    if !(b.key@.len() > 0 && '0' <= b.key@[0] && b.key@[0] <= '9') || b.version is None {
        None
    } else {
        match chosen_build(b) {
            Some((compiler, Some(z))) => Some((
                b.version->0@,
                release_base() + z.path@,
                opt_view(z.sha256),
                z.size_mb,
                "x64-NTS · "@ + compiler,
            )),
            _ => None,
        }
    }
}

/// The view of a catalog version made from a branch.
pub open spec fn branch_view(v: PackageVersion) -> (Seq<char>, Seq<char>, Option<Seq<char>>, Option<u32>, Seq<char>) {
    (v.version@, v.url@, opt_view(v.sha256), v.size_mb, match v.variant { Some(w) => w@, None => Seq::empty() })
}

/// The catalog version a branch of the release list offers, if any: the
/// branch's version, the chosen build's archive and digest, the PHP-CGI
/// executable, no mirrors.
pub fn branch_version(b: PhpBranch) -> (r: Option<PackageVersion>)
    ensures
        match spec_branch_version(b) {
            None => r is None,
            Some(x) => r matches Some(v) && branch_view(v) == x && v.variant is Some
                && v.download_urls@.len() == 0 && v.exe_rel@ == "php-cgi.exe"@,
        },
{
    let ghost bg = b;
    let key = chars_of(b.key.as_str());
    if !(key.len() > 0 && '0' <= key[0] && key[0] <= '9') {
        return None;
    }
    let version = match b.version {
        Some(v) => v,
        None => return None,
    };
    let (compiler, zip): (&str, Option<ZipInfo>) = match b.nts_vs17_x64 {
        Some(z) => ("vs17", z),
        None => match b.nts_vs16_x64 {
            Some(z) => ("vs16", z),
            None => match b.nts_vc15_x64 {
                Some(z) => ("vc15", z),
                None => return None,
            },
        },
    };
    proof {
        reveal_strlit("vs17");
        reveal_strlit("vs16");
        reveal_strlit("vc15");
        reveal_strlit("php-cgi.exe");
    }
    let z = match zip {
        Some(z) => z,
        None => return None,
    };
    let mut url = chars_of("https://windows.php.net/downloads/releases/");
    append_str(&mut url, z.path.as_str());
    let mut variant = chars_of("x64-NTS · ");
    append_str(&mut variant, compiler);
    Some(PackageVersion {
        version,
        url: string_of(&url),
        download_urls: Vec::new(),
        sha256: z.sha256,
        size_mb: z.size_mb,
        exe_rel: string_of(&chars_of("php-cgi.exe")),
        variant: Some(string_of(&variant)),
    })
}

/// The versions offered by the branches, in list order.
pub open spec fn offered(bs: Seq<PhpBranch>) -> Seq<(Seq<char>, Seq<char>, Option<Seq<char>>, Option<u32>, Seq<char>)>
    decreases bs.len(),
{
    if bs.len() == 0 {
        Seq::empty()
    } else {
        let prev = offered(bs.drop_last());
        match spec_branch_version(bs.last()) {
            Some(x) => prev.push(x),
            None => prev,
        }
    }
}

/// Where a stable sort puts `x` after the sorted `s` (newest first, by
/// `desc_from` on the versions).
pub open spec fn release_pos(
    s: Seq<(Seq<char>, Seq<char>, Option<Seq<char>>, Option<u32>, Seq<char>)>,
    x: (Seq<char>, Seq<char>, Option<Seq<char>>, Option<u32>, Seq<char>),
) -> int
    decreases s.len(),
{
    if s.len() == 0 {
        0
    } else if desc_from(s[0].0, x.0, 0) == Order3::Greater {
        0
    } else {
        1 + release_pos(s.drop_first(), x)
    }
}

/// `vs` sorted newest first, stably.
pub open spec fn sorted_releases(
    vs: Seq<(Seq<char>, Seq<char>, Option<Seq<char>>, Option<u32>, Seq<char>)>,
) -> Seq<(Seq<char>, Seq<char>, Option<Seq<char>>, Option<u32>, Seq<char>)>
    decreases vs.len(),
{
    if vs.len() == 0 {
        Seq::empty()
    } else {
        let r = sorted_releases(vs.drop_last());
        r.insert(release_pos(r, vs.last()), vs.last())
    }
}

/// The views of catalog versions made from branches.
pub open spec fn branch_views(v: Seq<PackageVersion>) -> Seq<(Seq<char>, Seq<char>, Option<Seq<char>>, Option<u32>, Seq<char>)> {
    v.map_values(|x: PackageVersion| branch_view(x))
}

proof fn lemma_release_pos_bounds(
    s: Seq<(Seq<char>, Seq<char>, Option<Seq<char>>, Option<u32>, Seq<char>)>,
    x: (Seq<char>, Seq<char>, Option<Seq<char>>, Option<u32>, Seq<char>),
)
    ensures
        0 <= release_pos(s, x) <= s.len(),
    decreases s.len(),
{
    if s.len() > 0 {
        lemma_release_pos_bounds(s.drop_first(), x);
    }
}

fn release_pos_exec(r: &Vec<PackageVersion>, x: &PackageVersion) -> (p: usize)
    ensures
        p == release_pos(branch_views(r@), branch_view(*x)),
{
    let ghost rv = branch_views(r@);
    let mut p: usize = 0;
    assert(rv.skip(0) =~= rv);
    while p < r.len()
        invariant
            p <= r.len(),
            rv == branch_views(r@),
            release_pos(rv, branch_view(*x)) == p + release_pos(rv.skip(p as int), branch_view(*x)),
        decreases r.len() - p,
    {
        let o = crate::versions::desc_order(r[p].version.as_str(), x.version.as_str());
        assert(rv.skip(p as int)[0] == branch_view(r@[p as int]));
        if o == Order3::Greater {
            return p;
        }
        assert(rv.skip(p as int).drop_first() =~= rv.skip(p + 1));
        p += 1;
    }
    p
}

/// The versions the official release list offers, newest first (equal
/// versions in list order).
pub fn release_versions(branches: Vec<PhpBranch>) -> (r: Vec<PackageVersion>)
    ensures
        branch_views(r@) == sorted_releases(offered(branches@)),
{
    let ghost b0 = branches@;
    let mut rest = branches;
    let mut sorted: Vec<PackageVersion> = Vec::new();
    let mut k: usize = 0;
    let n = rest.len();
    assert(b0.skip(0) =~= b0);
    while rest.len() > 0
        invariant
            k <= b0.len(),
            n == b0.len(),
            rest@ == b0.skip(k as int),
            branch_views(sorted@) == sorted_releases(offered(b0.take(k as int))),
        decreases rest.len(),
    {
        let b = rest.remove(0);
        assert(b == b0[k as int]);
        assert(b0.take(k + 1).drop_last() =~= b0.take(k as int));
        assert(b0.take(k + 1).last() == b0[k as int]);
        let ghost spec_v = spec_branch_version(b);
        match branch_version(b) {
            Some(v) => {
                let p = release_pos_exec(&sorted, &v);
                proof {
                    lemma_release_pos_bounds(branch_views(sorted@), branch_view(v));
                }
                let ghost s0 = sorted@;
                sorted.insert(p, v);
                assert(branch_views(sorted@) =~= branch_views(s0).insert(p as int, branch_view(v)));
                assert(offered(b0.take(k + 1)) == offered(b0.take(k as int)).push(branch_view(v)));
                assert(offered(b0.take(k as int)).push(branch_view(v)).drop_last() =~= offered(b0.take(k as int)));
            },
            None => {
                assert(offered(b0.take(k + 1)) == offered(b0.take(k as int)));
            },
        }
        k += 1;
        assert(rest@ =~= b0.skip(k as int));
    }
    assert(b0.take(b0.len() as int) =~= b0);
    sorted
}

} // verus!
