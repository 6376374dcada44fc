//! The checkable modules, the two system roots, and the per-module pipeline
//! from a resolved symlink target to a pair of version strings.
//!
//! Reading a symlink is the caller's job; it reports what it found as a
//! `LinkTarget`. From there everything is decided here: normalizing the
//! target into a store path (truncating the kernel's target to its package
//! directory), taking the final path segment, and extracting the version
//! that follows the module's marker in that segment. Every failure carries
//! the module and the system root it arose for.

use vstd::prelude::*;

use crate::text::find_from;
use crate::text::lemma_split_first_match;
use crate::text::lemma_split_len;
use crate::text::lemma_split_no_match;
use crate::text::split_on;
use crate::text::split_on_str;

verus! {

/// The closed set of subsystems whose versions are checked.
#[derive(Clone, Copy, PartialEq, Eq, Structural, Debug)]
pub enum ModuleType {
    LinuxKernel,
    Systemd,
}

/// One generation of the system configuration: the one booted into, or the
/// newly built one pending activation.
#[derive(Clone, Copy, PartialEq, Eq, Structural, Debug)]
pub enum SystemRoot {
    Booted,
    Pending,
}

/// What reading a module's symlink under a system root yielded: its target,
/// a read failure (carrying the I/O failure's description), or a target
/// that is not valid text.
#[derive(Debug)]
pub enum LinkTarget {
    Resolved(String),
    ReadFailed(String),
    NotText,
}

/// Why a check failed, without the context of which module and root.
#[derive(Debug)]
pub enum ErrorKind {
    /// The module's symlink was missing, broken or unreadable.
    SymlinkRead { detail: String },
    /// The symlink's target is not valid text.
    Encoding,
    /// The target has fewer path segments than a store path needs.
    PathShape { target: String },
    /// The store path's file name lacks the module's version marker.
    VersionNotFound { store_path: String },
}

/// A failed check: which module, under which system root, and why. Any such
/// failure aborts the whole check; no partial reason list survives it.
#[derive(Debug)]
pub struct CheckError {
    pub module: ModuleType,
    pub root: SystemRoot,
    pub kind: ErrorKind,
}

/// Mathematical image of `ErrorKind`.
pub enum FailureKind {
    SymlinkRead { detail: Seq<char> },
    Encoding,
    PathShape { target: Seq<char> },
    VersionNotFound { store_path: Seq<char> },
}

/// Mathematical image of `CheckError`.
pub struct Failure {
    pub module: ModuleType,
    pub root: SystemRoot,
    pub kind: FailureKind,
}

impl View for ErrorKind {
    type V = FailureKind;

    open spec fn view(&self) -> FailureKind {
        match self {
            ErrorKind::SymlinkRead { detail } => FailureKind::SymlinkRead { detail: detail@ },
            ErrorKind::Encoding => FailureKind::Encoding,
            ErrorKind::PathShape { target } => FailureKind::PathShape { target: target@ },
            ErrorKind::VersionNotFound { store_path } => FailureKind::VersionNotFound {
                store_path: store_path@,
            },
        }
    }
}

impl View for CheckError {
    type V = Failure;

    open spec fn view(&self) -> Failure {
        Failure { module: self.module, root: self.root, kind: self.kind@ }
    }
}

impl SystemRoot {
    /// The directory this root stands for.
    pub open spec fn spec_dir(self) -> Seq<char> {
        match self {
            SystemRoot::Booted => "/run/booted-system"@,
            SystemRoot::Pending => "/nix/var/nix/profiles/system"@,
        }
    }

    /// The directory this root stands for.
    pub fn dir(&self) -> (s: &'static str)
        ensures
            s@ == self.spec_dir(),
    {
        match self {
            SystemRoot::Booted => "/run/booted-system",
            SystemRoot::Pending => "/nix/var/nix/profiles/system",
        }
    }
}

/// The store path a resolved symlink target stands for: the target itself,
/// or, where truncation applies, exactly its first three `/`-separated
/// segments rebuilt into `/<root>/<store>/<hash-package>`; nothing where the
/// target has too few segments for that.
pub open spec fn spec_store_path(target: Seq<char>, truncate: bool) -> Option<Seq<char>> {
    if !truncate {
        Some(target)
    } else {
        let parts = split_on(target, "/"@);
        if parts.len() >= 4 {
            Some("/"@ + parts[1] + "/"@ + parts[2] + "/"@ + parts[3])
        } else {
            None
        }
    }
}

/// Truncates a symlink target to its store package directory, keeping
/// exactly the first three `/`-separated segments.
pub fn truncate_store_path(target: &str) -> (r: Option<String>)
    ensures
        r is Some <==> spec_store_path(target@, true) is Some,
        r matches Some(p) ==> spec_store_path(target@, true) == Some(p@),
{
    proof {
        reveal_strlit("/");
    }
    let parts = split_on_str(target, "/");
    if parts.len() >= 4 {
        let mut p = String::new();
        p.append("/");
        p.append(parts[1].as_str());
        p.append("/");
        p.append(parts[2].as_str());
        p.append("/");
        p.append(parts[3].as_str());
        Some(p)
    } else {
        None
    }
}

/// The final `/`-separated segment of a path.
pub open spec fn spec_file_name(path: Seq<char>) -> Seq<char> {
    split_on(path, "/"@).last()
}

/// The final `/`-separated segment of a path.
pub fn file_name(path: &str) -> (r: String)
    ensures
        r@ == spec_file_name(path@),
{
    proof {
        reveal_strlit("/");
        lemma_split_len(path@, "/"@);
    }
    let parts = split_on_str(path, "/");
    let idx: usize = parts.len() - 1;
    parts[idx].clone()
}

/// The version a systemd store path's file name carries: everything after
/// the first occurrence of `-systemd-`; nothing where the marker is absent.
pub open spec fn spec_systemd_version(name: Seq<char>) -> Option<Seq<char>> {
    let parts = split_on(name, "-systemd-"@);
    if parts.len() >= 2 {
        Some(name.skip(parts[0].len() + "-systemd-"@.len() as int))
    } else {
        None
    }
}

/// The version a kernel store path's file name carries: what follows the
/// marker `-linux-` where splitting on it yields exactly two parts; nothing
/// otherwise.
pub open spec fn spec_kernel_version(name: Seq<char>) -> Option<Seq<char>> {
    let parts = split_on(name, "-linux-"@);
    if parts.len() == 2 {
        Some(parts[1])
    } else {
        None
    }
}

impl ModuleType {
    /// The name of this module's symlink under a system root.
    pub open spec fn spec_link_name(self) -> Seq<char> {
        match self {
            ModuleType::LinuxKernel => "kernel"@,
            ModuleType::Systemd => "systemd"@,
        }
    }

    /// The name of this module's symlink under a system root.
    pub fn link_name(&self) -> (s: &'static str)
        ensures
            s@ == self.spec_link_name(),
    {
        match self {
            ModuleType::LinuxKernel => "kernel",
            ModuleType::Systemd => "systemd",
        }
    }

    /// Whether this module's symlink target points inside the package's
    /// output tree and must be truncated to the package directory.
    pub open spec fn truncates(self) -> bool {
        self is LinuxKernel
    }

    /// Whether this module's symlink target must be truncated to the
    /// package directory.
    pub fn requires_truncation(&self) -> (b: bool)
        ensures
            b == self.truncates(),
    {
        match self {
            ModuleType::LinuxKernel => true,
            ModuleType::Systemd => false,
        }
    }

    /// The module's name as reported in upgrade reasons.
    pub open spec fn spec_display_name(self) -> Seq<char> {
        match self {
            ModuleType::LinuxKernel => "Linux Kernel"@,
            ModuleType::Systemd => "Systemd"@,
        }
    }

    /// The module's name as reported in upgrade reasons.
    pub fn display_name(&self) -> (s: &'static str)
        ensures
            s@ == self.spec_display_name(),
    {
        match self {
            ModuleType::LinuxKernel => "Linux Kernel",
            ModuleType::Systemd => "Systemd",
        }
    }

    /// Where this module's symlink sits under the given system root.
    pub fn link_location(&self, root: SystemRoot) -> (p: String)
        ensures
            p@ == root.spec_dir() + "/"@ + self.spec_link_name(),
    {
        let mut p = root.dir().to_owned();
        p.append("/");
        p.append(self.link_name());
        p
    }

    /// Extracts the systemd version from a store path, splitting the final
    /// path segment on the first occurrence of the marker `-systemd-`.
    pub fn extract_systemd_version(path: &str) -> (r: Option<String>)
        ensures
            r is Some <==> spec_systemd_version(spec_file_name(path@)) is Some,
            r matches Some(v) ==> spec_systemd_version(spec_file_name(path@)) == Some(v@),
    {
        let name = file_name(path);
        proof {
            reveal_strlit("-systemd-");
        }
        let mlen: usize = "-systemd-".unicode_len();
        let nlen: usize = name.as_str().unicode_len();
        match find_from(name.as_str(), "-systemd-", 0) {
            Some(i) => {
                proof {
                    lemma_split_first_match(name@, "-systemd-"@, i as int);
                    lemma_split_len(name@.skip(i + mlen), "-systemd-"@);
                    assert(split_on(name@, "-systemd-"@)[0] == name@.subrange(0, i as int));
                }
                let v = name.as_str().substring_char(i + mlen, nlen);
                proof {
                    assert(v@ =~= name@.skip(i + mlen));
                }
                Some(v.to_owned())
            },
            None => {
                proof {
                    lemma_split_no_match(name@, "-systemd-"@);
                }
                None
            },
        }
    }

    /// Extracts the kernel version from a store path: the final path
    /// segment must split on the marker `-linux-` into exactly two parts.
    pub fn extract_kernel_version(path: &str) -> (r: Option<String>)
        ensures
            r is Some <==> spec_kernel_version(spec_file_name(path@)) is Some,
            r matches Some(v) ==> spec_kernel_version(spec_file_name(path@)) == Some(v@),
    {
        let name = file_name(path);
        proof {
            reveal_strlit("-linux-");
        }
        let parts = split_on_str(name.as_str(), "-linux-");
        if parts.len() == 2 {
            Some(parts[1].clone())
        } else {
            None
        }
    }
}

/// The store path a module's link target resolves to under one root, or the
/// failure that stops the check there.
pub open spec fn spec_resolve(module: ModuleType, root: SystemRoot, t: LinkTarget) -> Result<
    Seq<char>,
    Failure,
> {
    match t {
        LinkTarget::ReadFailed(d) => Err(
            Failure { module, root, kind: FailureKind::SymlinkRead { detail: d@ } },
        ),
        LinkTarget::NotText => Err(Failure { module, root, kind: FailureKind::Encoding }),
        LinkTarget::Resolved(s) => match spec_store_path(s@, module.truncates()) {
            Some(p) => Ok(p),
            None => Err(Failure { module, root, kind: FailureKind::PathShape { target: s@ } }),
        },
    }
}

/// The version a module's store path carries under one root, or the failure
/// that stops the check there.
pub open spec fn spec_extract(module: ModuleType, root: SystemRoot, store_path: Seq<char>) -> Result<
    Seq<char>,
    Failure,
> {
    let v = match module {
        ModuleType::LinuxKernel => spec_kernel_version(spec_file_name(store_path)),
        ModuleType::Systemd => spec_systemd_version(spec_file_name(store_path)),
    };
    match v {
        Some(ver) => Ok(ver),
        None => Err(Failure { module, root, kind: FailureKind::VersionNotFound { store_path } }),
    }
}

/// A module's old and new version, from its two link targets: both targets
/// are resolved to store paths first (old, then new), then both versions
/// are extracted (old, then new); the first failure is the module's.
pub open spec fn spec_module_versions(
    module: ModuleType,
    old_t: LinkTarget,
    new_t: LinkTarget,
) -> Result<(Seq<char>, Seq<char>), Failure> {
    match spec_resolve(module, SystemRoot::Booted, old_t) {
        Err(f) => Err(f),
        Ok(po) => match spec_resolve(module, SystemRoot::Pending, new_t) {
            Err(f) => Err(f),
            Ok(pn) => match spec_extract(module, SystemRoot::Booted, po) {
                Err(f) => Err(f),
                Ok(vo) => match spec_extract(module, SystemRoot::Pending, pn) {
                    Err(f) => Err(f),
                    Ok(vn) => Ok((vo, vn)),
                },
            },
        },
    }
}

impl ModuleType {
    /// The store path a link target stands for, for this module under the
    /// given root; truncated to the package directory where this module
    /// requires it.
    pub fn resolve_target(&self, root: SystemRoot, t: &LinkTarget) -> (r: Result<
        String,
        CheckError,
    >)
        ensures
            r matches Ok(p) ==> spec_resolve(*self, root, *t) == Ok::<Seq<char>, Failure>(p@),
            r matches Err(e) ==> spec_resolve(*self, root, *t) == Err::<Seq<char>, Failure>(e@),
    {
        match t {
            LinkTarget::ReadFailed(d) => Err(
                CheckError {
                    module: *self,
                    root,
                    kind: ErrorKind::SymlinkRead { detail: d.clone() },
                },
            ),
            LinkTarget::NotText => Err(
                CheckError { module: *self, root, kind: ErrorKind::Encoding },
            ),
            LinkTarget::Resolved(s) => {
                if self.requires_truncation() {
                    match truncate_store_path(s.as_str()) {
                        Some(p) => Ok(p),
                        None => Err(
                            CheckError {
                                module: *self,
                                root,
                                kind: ErrorKind::PathShape { target: s.clone() },
                            },
                        ),
                    }
                } else {
                    Ok(s.clone())
                }
            },
        }
    }

    /// This module's old and new version, read out of its two link targets.
    pub fn get_version(&self, old_target: &LinkTarget, new_target: &LinkTarget) -> (r: Result<
        (String, String),
        CheckError,
    >)
        ensures
            r matches Ok(v) ==> spec_module_versions(*self, *old_target, *new_target) == Ok::<
                _,
                Failure,
            >((v.0@, v.1@)),
            r matches Err(e) ==> spec_module_versions(*self, *old_target, *new_target) == Err::<
                (Seq<char>, Seq<char>),
                Failure,
            >(e@),
    {
        let old_path = match self.resolve_target(SystemRoot::Booted, old_target) {
            Ok(p) => p,
            Err(e) => {
                return Err(e);
            },
        };
        let new_path = match self.resolve_target(SystemRoot::Pending, new_target) {
            Ok(p) => p,
            Err(e) => {
                return Err(e);
            },
        };
        let old_version = match self.extract_version(old_path.as_str()) {
            Some(v) => v,
            None => {
                return Err(
                    CheckError {
                        module: *self,
                        root: SystemRoot::Booted,
                        kind: ErrorKind::VersionNotFound { store_path: old_path },
                    },
                );
            },
        };
        let new_version = match self.extract_version(new_path.as_str()) {
            Some(v) => v,
            None => {
                return Err(
                    CheckError {
                        module: *self,
                        root: SystemRoot::Pending,
                        kind: ErrorKind::VersionNotFound { store_path: new_path },
                    },
                );
            },
        };
        Ok((old_version, new_version))
    }

    /// Extracts this module's version from a store path, by the module's
    /// own marker convention.
    fn extract_version(&self, path: &str) -> (r: Option<String>)
        ensures
            ({
                let v = match *self {
                    ModuleType::LinuxKernel => spec_kernel_version(spec_file_name(path@)),
                    ModuleType::Systemd => spec_systemd_version(spec_file_name(path@)),
                };
                &&& r is Some <==> v is Some
                &&& r matches Some(x) ==> v == Some(x@)
            }),
    {
        match self {
            ModuleType::LinuxKernel => Self::extract_kernel_version(path),
            ModuleType::Systemd => Self::extract_systemd_version(path),
        }
    }
}

} // verus!
