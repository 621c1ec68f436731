//! The decisions of installing a package from the store, as a step
//! function: the caller carries out each action (look at the disk, remove
//! a directory, download, read the archive, unpack) and reports what it
//! saw; the step says what comes next, until the install has succeeded or
//! failed.

use vstd::prelude::*;
use crate::text::{chars_of, string_of, append, append_str};
use crate::paths::{phpstudy_style_dir_name, spec_phpstudy_dir_name, win_join, win_join_exec};
use crate::installer::{
    AttemptOutcome, PackageVersion, all_failed_message, attempt_error, eq_ignore_ascii_case,
    hex_lower, no_url_message, sha256_mismatch_message, sha256_of, spec_candidate_urls,
    verify_sha256,
};
use crate::ssl_cert::string_views;

verus! {

/// Where an install stands.
#[derive(Clone, Copy, PartialEq, Eq, Structural, Debug)]
pub enum InstallPhase {
    /// Nothing done yet.
    Begin,
    /// The installed executable was looked for.
    Check,
    /// The target directory was looked for.
    Probe,
    /// The incomplete target directory is being removed.
    Clear,
    /// The staging directory is being prepared.
    Stage,
    /// The archive is being fetched from the candidate URL of this index.
    Fetch { attempt: usize },
    /// The fetched archive is being read for its checksum.
    Verify,
    /// The archive is being unpacked into place.
    Finalize,
    /// The install is over.
    Done,
}

/// What the caller saw after carrying out the last action.
pub enum InstallStepEvent {
    /// The install is asked for.
    Start,
    /// Whether the package's executable exists in the target directory.
    ExePresent(bool),
    /// Whether the target directory exists.
    DirPresent(bool),
    /// The removal of the target directory: done, or its error.
    Removed(Result<(), String>),
    /// The staging directory: ready, or the error creating it.
    Staged(Result<(), String>),
    /// How the download from the current URL went.
    Fetched(AttemptOutcome),
    /// The bytes of the fetched archive.
    Archive(Vec<u8>),
    /// The unpacking: done, or why it failed.
    Finalized(Result<(), String>),
}

/// What the caller does next.
pub enum InstallAction {
    /// Look whether this file exists.
    CheckExe(String),
    /// Look whether this directory exists.
    ProbeDir(String),
    /// Remove this directory and all it holds.
    RemoveDir(String),
    /// Create the staging directory and clear what a failed run left there.
    PrepareStaging,
    /// Download the archive from the candidate URL of this index and check
    /// that it opens as a zip.
    Download(usize),
    /// Read the fetched archive.
    ReadArchive,
    /// Unpack the archive into the target directory.
    Finalize,
    /// The package is installed in this directory.
    Succeed(String),
    /// The install failed with this message.
    Fail(String),
}

/// The package's directory under the packages root.
pub open spec fn install_dir(root: Seq<char>, name: Seq<char>, v: PackageVersion) -> Seq<char> {
    win_join(root, spec_phpstudy_dir_name(name, v.version@))
}

/// The candidate URLs of a version, in the order they are tried.
pub open spec fn candidates(v: PackageVersion) -> Seq<Seq<char>> {
    spec_candidate_urls(v.url@, string_views(v.download_urls@))
}

/// Whether `ev` answers the action of `phase`, and a fetch names a
/// candidate URL.
pub open spec fn install_event_fits(v: PackageVersion, phase: InstallPhase, ev: InstallStepEvent) -> bool {
    match phase {
        InstallPhase::Begin => ev is Start,
        InstallPhase::Check => ev is ExePresent,
        InstallPhase::Probe => ev is DirPresent,
        InstallPhase::Clear => ev is Removed,
        InstallPhase::Stage => ev is Staged,
        InstallPhase::Fetch { attempt } => ev is Fetched && attempt < candidates(v).len(),
        InstallPhase::Verify => ev is Archive && v.sha256 is Some,
        InstallPhase::Finalize => ev is Finalized,
        InstallPhase::Done => false,
    }
}

/// The message when an incomplete target directory cannot be removed.
pub open spec fn stuck_dir_message(dir: Seq<char>, e: Seq<char>) -> Seq<char> {
    "目标目录已存在且无法删除（可能服务正在运行）: "@ + dir + " ("@ + e + ")"@
}

/// One step of an install. An executable already in place makes the
/// install a success at once; an incomplete target directory is removed
/// first; the candidate URLs are tried in order until one gives a zip;
/// the archive's SHA-256 is checked when the version names one; then the
/// archive is unpacked into place.
pub fn install_step(
    root: &str,
    name: &str,
    v: &PackageVersion,
    phase: InstallPhase,
    ev: InstallStepEvent,
) -> (r: (InstallPhase, InstallAction))
    requires
        install_event_fits(*v, phase, ev),
    ensures
        ({
            let dir = install_dir(root@, name@, *v);
            match (phase, ev) {
                (InstallPhase::Begin, _) => r.0 == InstallPhase::Check && (r.1 matches InstallAction::CheckExe(p)
                    && p@ == win_join(dir, v.exe_rel@)),
                (InstallPhase::Check, InstallStepEvent::ExePresent(b)) => if b {
                    r.0 == InstallPhase::Done && (r.1 matches InstallAction::Succeed(d) && d@ == dir)
                } else {
                    r.0 == InstallPhase::Probe && (r.1 matches InstallAction::ProbeDir(d) && d@ == dir)
                },
                (InstallPhase::Probe, InstallStepEvent::DirPresent(b)) => if b {
                    r.0 == InstallPhase::Clear && (r.1 matches InstallAction::RemoveDir(d) && d@ == dir)
                } else {
                    r.0 == InstallPhase::Stage && r.1 is PrepareStaging
                },
                (InstallPhase::Clear, InstallStepEvent::Removed(res)) => match res {
                    Ok(()) => r.0 == InstallPhase::Stage && r.1 is PrepareStaging,
                    Err(e) => r.0 == InstallPhase::Done && (r.1 matches InstallAction::Fail(m) && m@
                        == stuck_dir_message(dir, e@)),
                },
                (InstallPhase::Stage, InstallStepEvent::Staged(res)) => match res {
                    Err(e) => r.0 == InstallPhase::Done && (r.1 matches InstallAction::Fail(m) && m@
                        == "创建 staging 目录失败: "@ + e@),
                    Ok(()) => if candidates(*v).len() == 0 {
                        r.0 == InstallPhase::Done && (r.1 matches InstallAction::Fail(m) && m@ == no_url_message())
                    } else {
                        r.0 == (InstallPhase::Fetch { attempt: 0 }) && r.1 == InstallAction::Download(0)
                    },
                },
                (InstallPhase::Fetch { attempt }, InstallStepEvent::Fetched(o)) => if o is Downloaded {
                    if v.sha256 is Some {
                        r.0 == InstallPhase::Verify && r.1 is ReadArchive
                    } else {
                        r.0 == InstallPhase::Finalize && r.1 is Finalize
                    }
                } else if attempt + 1 < candidates(*v).len() {
                    r.0 == (InstallPhase::Fetch { attempt: (attempt + 1) as usize }) && r.1
                        == InstallAction::Download((attempt + 1) as usize)
                } else {
                    r.0 == InstallPhase::Done && (r.1 matches InstallAction::Fail(m) && m@ == all_failed_message(
                        attempt_error(o, candidates(*v)[attempt as int]),
                    ))
                },
                (InstallPhase::Verify, InstallStepEvent::Archive(data)) => {
                    let digest = hex_lower(sha256_of(data@));
                    let expected = v.sha256->0@;
                    if eq_ignore_ascii_case(digest, expected) {
                        r.0 == InstallPhase::Finalize && r.1 is Finalize
                    } else {
                        r.0 == InstallPhase::Done && (r.1 matches InstallAction::Fail(m) && m@
                            == sha256_mismatch_message(expected, digest))
                    }
                },
                (InstallPhase::Finalize, InstallStepEvent::Finalized(res)) => match res {
                    Ok(()) => r.0 == InstallPhase::Done && (r.1 matches InstallAction::Succeed(d) && d@ == dir),
                    Err(e) => r.0 == InstallPhase::Done && (r.1 matches InstallAction::Fail(m) && m@ == e@),
                },
                _ => false,
            }
        }),
{
    let dname = phpstudy_style_dir_name(name, v.version.as_str());
    let dir = win_join_exec(&chars_of(root), &chars_of(dname.as_str()));
    match phase {
        InstallPhase::Begin => {
            let exe = win_join_exec(&dir, &chars_of(v.exe_rel.as_str()));
            (InstallPhase::Check, InstallAction::CheckExe(string_of(&exe)))
        },
        InstallPhase::Check => match ev {
            InstallStepEvent::ExePresent(true) => (InstallPhase::Done, InstallAction::Succeed(string_of(&dir))),
            _ => (InstallPhase::Probe, InstallAction::ProbeDir(string_of(&dir))),
        },
        InstallPhase::Probe => match ev {
            InstallStepEvent::DirPresent(true) => (InstallPhase::Clear, InstallAction::RemoveDir(string_of(&dir))),
            _ => (InstallPhase::Stage, InstallAction::PrepareStaging),
        },
        InstallPhase::Clear => match ev {
            InstallStepEvent::Removed(Err(e)) => {
                let mut m = chars_of("目标目录已存在且无法删除（可能服务正在运行）: ");
                append(&mut m, &dir);
                append_str(&mut m, " (");
                append_str(&mut m, e.as_str());
                append_str(&mut m, ")");
                (InstallPhase::Done, InstallAction::Fail(string_of(&m)))
            },
            _ => (InstallPhase::Stage, InstallAction::PrepareStaging),
        },
        InstallPhase::Stage => match ev {
            InstallStepEvent::Staged(Err(e)) => {
                let mut m = chars_of("创建 staging 目录失败: ");
                append_str(&mut m, e.as_str());
                (InstallPhase::Done, InstallAction::Fail(string_of(&m)))
            },
            _ => {
                let urls = v.candidate_urls();
                if urls.len() == 0 {
                    (InstallPhase::Done, InstallAction::Fail(string_of(&chars_of("没有可用的下载 URL"))))
                } else {
                    (InstallPhase::Fetch { attempt: 0 }, InstallAction::Download(0))
                }
            },
        },
        InstallPhase::Fetch { attempt } => match ev {
            InstallStepEvent::Fetched(o) => {
                let urls = v.candidate_urls();
                match o {
                    AttemptOutcome::Downloaded => {
                        if v.sha256.is_some() {
                            (InstallPhase::Verify, InstallAction::ReadArchive)
                        } else {
                            (InstallPhase::Finalize, InstallAction::Finalize)
                        }
                    },
                    _ => {
                        assert(string_views(urls@).len() == urls@.len());
                        if attempt < urls.len() - 1 {
                            (InstallPhase::Fetch { attempt: attempt + 1 }, InstallAction::Download(attempt + 1))
                        } else {
                            let url = &urls[attempt];
                            let mut m = chars_of("所有下载源均失败，最后一次错误: ");
                            match o {
                                AttemptOutcome::InvalidZip(e) => {
                                    append_str(&mut m, e.as_str());
                                    append_str(&mut m, "（");
                                    append_str(&mut m, url.as_str());
                                    append_str(&mut m, "）");
                                },
                                AttemptOutcome::Failed(e) => {
                                    append_str(&mut m, e.as_str());
                                },
                                AttemptOutcome::Downloaded => {},
                            }
                            (InstallPhase::Done, InstallAction::Fail(string_of(&m)))
                        }
                    },
                }
            },
            _ => (InstallPhase::Done, InstallAction::Finalize),
        },
        InstallPhase::Verify => match ev {
            InstallStepEvent::Archive(data) => {
                let expected = match &v.sha256 {
                    Some(x) => x.as_str(),
                    None => "",
                };
                match verify_sha256(data.as_slice(), expected) {
                    Ok(()) => (InstallPhase::Finalize, InstallAction::Finalize),
                    Err(m) => (InstallPhase::Done, InstallAction::Fail(m)),
                }
            },
            _ => (InstallPhase::Finalize, InstallAction::Finalize),
        },
        InstallPhase::Finalize => match ev {
            InstallStepEvent::Finalized(Err(e)) => (InstallPhase::Done, InstallAction::Fail(e)),
            _ => (InstallPhase::Done, InstallAction::Succeed(string_of(&dir))),
        },
        InstallPhase::Done => (InstallPhase::Done, InstallAction::Finalize),
    }
}

} // verus!
