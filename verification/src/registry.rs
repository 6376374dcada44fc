//! The module registry: drives resolution, extraction and comparison for
//! every checkable module, in enumeration order (kernel first, then
//! systemd), and aggregates the upgrade reasons.
//!
//! The whole check is all-or-nothing: the first failure of any module's
//! resolution or extraction is returned and no reason list survives it.

use vstd::prelude::*;

use crate::compare::is_upgrade;
use crate::compare::normalized_pair;
use crate::compare::upgrade_count;
use crate::modules::CheckError;
use crate::modules::Failure;
use crate::modules::FailureKind;
use crate::modules::LinkTarget;
use crate::modules::SystemRoot;
use crate::modules::ModuleType;
use crate::modules::spec_module_versions;

verus! {

/// The reason text reported for one triggering module:
/// `<Name> (<old> -> <new>)` and a line break, over the normalized versions.
pub open spec fn spec_reason_line(
    module: ModuleType,
    old_n: Seq<char>,
    new_n: Seq<char>,
) -> Seq<char> {
    module.spec_display_name() + " ("@ + old_n + " -> "@ + new_n + ")\n"@
}

/// Builds the reason text for one module over its normalized versions.
pub fn reason_line(module: ModuleType, old_n: &str, new_n: &str) -> (r: String)
    ensures
        r@ == spec_reason_line(module, old_n@, new_n@),
{
    let mut r = module.display_name().to_owned();
    r.append(" (");
    r.append(old_n);
    r.append(" -> ");
    r.append(new_n);
    r.append(")\n");
    r
}

/// The reasons one module contributes: none where the raw versions are
/// equal; otherwise one identical reason line per segment pair of the
/// normalized versions that reports an upgrade.
pub open spec fn spec_module_reasons(
    module: ModuleType,
    old_v: Seq<char>,
    new_v: Seq<char>,
) -> Seq<Seq<char>> {
    if old_v == new_v {
        Seq::empty()
    } else {
        let pair = normalized_pair(old_v, new_v);
        Seq::new(
            upgrade_count(pair.0, pair.1) as nat,
            |i: int| spec_reason_line(module, pair.0, pair.1),
        )
    }
}

/// What the whole check yields from the four resolved link targets: the
/// kernel's reasons followed by systemd's, or the first failure in
/// processing order (kernel before systemd; per module, old target before
/// new, resolution before extraction).
pub open spec fn check_outcome(
    kernel_old: LinkTarget,
    kernel_new: LinkTarget,
    systemd_old: LinkTarget,
    systemd_new: LinkTarget,
) -> Result<Seq<Seq<char>>, Failure> {
    match spec_module_versions(ModuleType::LinuxKernel, kernel_old, kernel_new) {
        Err(f) => Err(f),
        Ok(kv) => match spec_module_versions(ModuleType::Systemd, systemd_old, systemd_new) {
            Err(f) => Err(f),
            Ok(sv) => Ok(
                spec_module_reasons(ModuleType::LinuxKernel, kv.0, kv.1) + spec_module_reasons(
                    ModuleType::Systemd,
                    sv.0,
                    sv.1,
                ),
            ),
        },
    }
}

/// Checks one module and appends its reasons.
fn check_module(
    module: ModuleType,
    old_t: &LinkTarget,
    new_t: &LinkTarget,
    reasons: &mut Vec<String>,
) -> (r: Result<(), CheckError>)
    ensures
        r matches Ok(u) ==> ({
            &&& spec_module_versions(module, *old_t, *new_t) matches Ok(v)
            &&& final(reasons)@.map_values(|s: String| s@) == old(reasons)@.map_values(
                |s: String| s@,
            ) + spec_module_reasons(
                module,
                spec_module_versions(module, *old_t, *new_t)->Ok_0.0,
                spec_module_versions(module, *old_t, *new_t)->Ok_0.1,
            )
        }),
        r matches Err(e) ==> spec_module_versions(module, *old_t, *new_t) == Err::<
            (Seq<char>, Seq<char>),
            Failure,
        >(e@) && *final(reasons) == *old(reasons),
{
    let versions = match module.get_version(old_t, new_t) {
        Ok(p) => p,
        Err(e) => {
            return Err(e);
        },
    };
    let (old_v, new_v) = versions;
    if old_v == new_v {
        proof {
            assert(spec_module_reasons(module, old_v@, new_v@) =~= Seq::<Seq<char>>::empty());
            assert(reasons@.map_values(|s: String| s@) + Seq::<Seq<char>>::empty()
                =~= reasons@.map_values(|s: String| s@));
        }
        return Ok(());
    }
    let cmp = is_upgrade(old_v.as_str(), new_v.as_str());
    let (count, old_n, new_n) = cmp;
    let line = reason_line(module, old_n.as_str(), new_n.as_str());
    let ghost base = reasons@.map_values(|s: String| s@);
    let ghost pair = normalized_pair(old_v@, new_v@);
    let mut k: usize = 0;
    while k < count
        invariant
            k <= count,
            line@ == spec_reason_line(module, pair.0, pair.1),
            reasons@.map_values(|s: String| s@) == base + Seq::new(
                k as nat,
                |i: int| spec_reason_line(module, pair.0, pair.1),
            ),
        decreases count - k,
    {
        proof {
            assert(reasons@.push(line).map_values(|s: String| s@) =~= reasons@.map_values(
                |s: String| s@,
            ).push(line@));
            assert(reasons@.map_values(|s: String| s@).push(line@) =~= base + Seq::new(
                (k + 1) as nat,
                |i: int| spec_reason_line(module, pair.0, pair.1),
            ));
        }
        reasons.push(line.clone());
        k = k + 1;
    }
    proof {
        assert(Seq::new(count as nat, |i: int| spec_reason_line(module, pair.0, pair.1))
            =~= spec_module_reasons(module, old_v@, new_v@));
    }
    Ok(())
}

/// Runs the whole check over the four resolved link targets: every module's
/// old and new version is resolved, extracted and compared, and each
/// triggering segment comparison contributes one reason line, kernel's
/// reasons before systemd's. The first failure aborts the check: no partial
/// reason list is returned.
pub fn upgrades_available(
    kernel_old: &LinkTarget,
    kernel_new: &LinkTarget,
    systemd_old: &LinkTarget,
    systemd_new: &LinkTarget,
) -> (r: Result<Vec<String>, CheckError>)
    ensures
        r matches Ok(v) ==> check_outcome(*kernel_old, *kernel_new, *systemd_old, *systemd_new)
            == Ok::<Seq<Seq<char>>, Failure>(v@.map_values(|s: String| s@)),
        r matches Err(e) ==> check_outcome(*kernel_old, *kernel_new, *systemd_old, *systemd_new)
            == Err::<Seq<Seq<char>>, Failure>(e@),
{
    let mut reasons: Vec<String> = Vec::new();
    proof {
        assert(Seq::<Seq<char>>::empty() + reasons@.map_values(|s: String| s@)
            =~= reasons@.map_values(|s: String| s@));
    }
    match check_module(ModuleType::LinuxKernel, kernel_old, kernel_new, &mut reasons) {
        Ok(u) => {},
        Err(e) => {
            return Err(e);
        },
    }
    match check_module(ModuleType::Systemd, systemd_old, systemd_new, &mut reasons) {
        Ok(u) => {},
        Err(e) => {
            return Err(e);
        },
    }
    proof {
        assert(Seq::<Seq<char>>::empty() + (spec_module_reasons(
            ModuleType::LinuxKernel,
            spec_module_versions(ModuleType::LinuxKernel, *kernel_old, *kernel_new)->Ok_0.0,
            spec_module_versions(ModuleType::LinuxKernel, *kernel_old, *kernel_new)->Ok_0.1,
        )) =~= spec_module_reasons(
            ModuleType::LinuxKernel,
            spec_module_versions(ModuleType::LinuxKernel, *kernel_old, *kernel_new)->Ok_0.0,
            spec_module_versions(ModuleType::LinuxKernel, *kernel_old, *kernel_new)->Ok_0.1,
        ));
    }
    Ok(reasons)
}

/// A failure to read the booted kernel link decides the whole check before
/// any version is extracted: the outcome is exactly that resolver failure,
/// whatever the other three targets hold — no partial reason list survives.
pub proof fn lemma_resolver_failure_aborts(
    kernel_old: LinkTarget,
    kernel_new: LinkTarget,
    systemd_old: LinkTarget,
    systemd_new: LinkTarget,
)
    requires
        kernel_old matches LinkTarget::ReadFailed(d),
    ensures
        ({
            let r = check_outcome(kernel_old, kernel_new, systemd_old, systemd_new);
            &&& r matches Err(f)
            &&& f == Failure {
                module: ModuleType::LinuxKernel,
                root: SystemRoot::Booted,
                kind: FailureKind::SymlinkRead { detail: kernel_old->ReadFailed_0@ },
            }
        }),
{
}

/// The check's outcome is a function of the four resolved link targets
/// alone: two runs over the same targets yield the same reason list, in the
/// same order, or the same failure.
pub proof fn lemma_check_deterministic(
    kernel_old: LinkTarget,
    kernel_new: LinkTarget,
    systemd_old: LinkTarget,
    systemd_new: LinkTarget,
    r1: Result<Seq<Seq<char>>, Failure>,
    r2: Result<Seq<Seq<char>>, Failure>,
)
    requires
        r1 == check_outcome(kernel_old, kernel_new, systemd_old, systemd_new),
        r2 == check_outcome(kernel_old, kernel_new, systemd_old, systemd_new),
    ensures
        r1 == r2,
{
}

} // verus!
