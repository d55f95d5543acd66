//! Choosing which installed builds an uninstall removes.
use vstd::prelude::*;

use crate::common::{Architecture, Flavour, GdError};
use crate::gd_semver::{range_accepts, MaybeVersionOrVersionReq, Version, VersionModel};
use crate::gdman::GodotVersionInfo;
use crate::text::same_text;

verus! {

/// What to uninstall: builds matching a version request (narrowed by
/// architecture and flavour), or with `unused` every build but the active one.
/// Without `force` at most one build may match.
#[derive(Clone, Debug)]
pub struct UninstallVersionsCommand {
    pub version: Option<MaybeVersionOrVersionReq>,
    pub architecture: Option<Architecture>,
    pub flavour: Option<Flavour>,
    pub force: bool,
    pub unused: bool,
}

/// The outcome of planning an uninstall.
pub enum UninstallOutcome {
    /// Neither a version nor `unused` was given.
    NoFilter,
    /// Several builds match and neither `force` nor `unused` was given.
    Ambiguous,
    /// The indices of the builds to remove, and whether the active build was
    /// among the matches (and so is kept).
    Plan(Seq<int>, bool),
}

/// A request matches a version: exactly where it is an exact version,
/// through its requirement otherwise.
pub open spec fn request_matches(req: MaybeVersionOrVersionReq, v: VersionModel) -> bool {
    match req.version_exact {
        Some(e) => e@ == v,
        None => range_accepts(req.version_like@, v.major, v.minor, v.patch, v.pre),
    }
}

/// The build is the active one.
pub open spec fn is_active(current: Option<Seq<char>>, v: GodotVersionInfo) -> bool {
    current == Some(v.name_parts.version_name@)
}

pub open spec fn is_candidate(cmd: UninstallVersionsCommand, current: Option<Seq<char>>, v: GodotVersionInfo) -> bool {
    if cmd.unused {
        !is_active(current, v)
    } else {
        match cmd.version {
            None => false,
            Some(req) => {
                &&& request_matches(req, v.name_parts.version@)
                &&& (cmd.architecture is Some ==> cmd.architecture->0 == v.name_parts.architecture)
                &&& (cmd.flavour is Some ==> cmd.flavour->0 == v.name_parts.flavour)
            },
        }
    }
}

/// The indices of the matching builds among the first `n` (with
/// `skip_active`, of those that are not active).
pub open spec fn candidates(
    cmd: UninstallVersionsCommand,
    current: Option<Seq<char>>,
    installed: Seq<GodotVersionInfo>,
    n: int,
    skip_active: bool,
) -> Seq<int>
    decreases n,
{
    if n <= 0 {
        Seq::empty()
    } else {
        let prev = candidates(cmd, current, installed, n - 1, skip_active);
        let v = installed[n - 1];
        if is_candidate(cmd, current, v) && !(skip_active && is_active(current, v)) {
            prev.push(n - 1)
        } else {
            prev
        }
    }
}

/// What an uninstall does, given the installed builds and the active one.
pub open spec fn uninstall_outcome(
    cmd: UninstallVersionsCommand,
    installed: Seq<GodotVersionInfo>,
    current: Option<Seq<char>>,
) -> UninstallOutcome {
    let all = candidates(cmd, current, installed, installed.len() as int, false);
    if !cmd.unused && cmd.version is None {
        UninstallOutcome::NoFilter
    } else if all.len() > 1 && !cmd.force && !cmd.unused {
        UninstallOutcome::Ambiguous
    } else {
        UninstallOutcome::Plan(
            candidates(cmd, current, installed, installed.len() as int, true),
            exists|k: int| 0 <= k < all.len() && is_active(current, installed[#[trigger] all[k]]),
        )
    }
}

/// The builds to remove, by index into the list of installed builds, in
/// order; `blocked_active` names the active build where it matched too. The
/// caller removes each directory and then fails with `CannotRemoveActive`
/// where `blocked_active` is set.
#[derive(Clone, Debug)]
pub struct UninstallPlan {
    pub remove: Vec<usize>,
    pub blocked_active: Option<String>,
}

pub open spec fn current_name(current: Option<GodotVersionInfo>) -> Option<Seq<char>> {
    match current {
        Some(c) => Some(c.name_parts.version_name@),
        None => None,
    }
}

fn request_matches_exec(req: &MaybeVersionOrVersionReq, v: &Version) -> (r: bool)
    ensures
        r == request_matches(*req, v@),
{
    match &req.version_exact {
        Some(e) => e.same(v),
        None => req.version_like.matches(v),
    }
}

fn is_active_exec(current: &Option<GodotVersionInfo>, v: &GodotVersionInfo) -> (r: bool)
    ensures
        r == is_active(current_name(*current), *v),
{
    match current {
        Some(c) => same_text(c.name_parts.version_name.as_str(), v.name_parts.version_name.as_str()),
        None => false,
    }
}

fn is_candidate_exec(cmd: &UninstallVersionsCommand, current: &Option<GodotVersionInfo>, v: &GodotVersionInfo) -> (r: bool)
    ensures
        r == is_candidate(*cmd, current_name(*current), *v),
{
    if cmd.unused {
        return !is_active_exec(current, v);
    }
    match &cmd.version {
        None => false,
        Some(req) => {
            if !request_matches_exec(req, &v.name_parts.version) {
                return false;
            }
            match cmd.architecture {
                Some(a) => {
                    if a != v.name_parts.architecture {
                        return false;
                    }
                },
                None => {},
            }
            match cmd.flavour {
                Some(f) => {
                    if f != v.name_parts.flavour {
                        return false;
                    }
                },
                None => {},
            }
            true
        },
    }
}

impl UninstallVersionsCommand {
    /// Plans the uninstall (see `uninstall_outcome`): fails with
    /// `NoFilterSpecified` or `AmbiguousUninstall`, or names the builds to
    /// remove and the active build that matched, if one did.
    pub fn plan(&self, installed: &Vec<GodotVersionInfo>, current: &Option<GodotVersionInfo>) -> (r: Result<UninstallPlan, GdError>)
        ensures
            match uninstall_outcome(*self, installed@, current_name(*current)) {
                UninstallOutcome::NoFilter => r is Err && r->Err_0 is NoFilterSpecified,
                UninstallOutcome::Ambiguous => r is Err && r->Err_0 is AmbiguousUninstall,
                UninstallOutcome::Plan(remove, blocked) => {
                    &&& r is Ok
                    &&& r->Ok_0.remove@.len() == remove.len()
                    &&& forall|k: int| 0 <= k < remove.len() ==> r->Ok_0.remove@[k] as int == #[trigger] remove[k]
                    &&& (r->Ok_0.blocked_active is Some <==> blocked)
                    &&& r->Ok_0.blocked_active is Some ==> Some(r->Ok_0.blocked_active->0@) == current_name(*current)
                },
            },
    {
        if !self.unused && self.version.is_none() {
            return Err(GdError::NoFilterSpecified);
        }
        let ghost cur = current_name(*current);
        let mut count: usize = 0;
        let mut remove: Vec<usize> = Vec::new();
        let mut blocked: Option<String> = None;
        let mut i: usize = 0;
        while i < installed.len()
            invariant
                cur == current_name(*current),
                i <= installed@.len(),
                count <= i,
                count as int == candidates(*self, cur, installed@, i as int, false).len(),
                remove@.len() == candidates(*self, cur, installed@, i as int, true).len(),
                forall|k: int| 0 <= k < remove@.len() ==> remove@[k] as int == #[trigger] candidates(*self, cur, installed@, i as int, true)[k],
                blocked is Some <==> exists|k: int| 0 <= k < candidates(*self, cur, installed@, i as int, false).len()
                    && is_active(cur, installed@[#[trigger] candidates(*self, cur, installed@, i as int, false)[k]]),
                blocked is Some ==> Some(blocked->0@) == cur,
            decreases installed@.len() - i,
        {
            let v = &installed[i];
            let ghost prev = candidates(*self, cur, installed@, i as int, false);
            let ghost next = candidates(*self, cur, installed@, i + 1, false);
            if is_candidate_exec(self, current, v) {
                assert(next == prev.push(i as int));
                count = count + 1;
                if is_active_exec(current, v) {
                    match current {
                        Some(c) => {
                            blocked = Some(c.name_parts.version_name.clone());
                        },
                        None => {},
                    }
                    assert(is_active(cur, installed@[next[prev.len() as int]]));
                } else {
                    remove.push(i);
                    assert forall|k: int| 0 <= k < next.len() && is_active(cur, installed@[#[trigger] next[k]]) implies
                        blocked is Some by {
                        if k < prev.len() {
                            assert(next[k] == prev[k]);
                        }
                    }
                }
                assert(blocked is Some ==> exists|k: int| 0 <= k < next.len() && is_active(cur, installed@[#[trigger] next[k]])) by {
                    if blocked is Some && !(is_candidate(*self, cur, installed@[i as int]) && is_active(cur, installed@[i as int])) {
                        let k = choose|k: int| 0 <= k < prev.len() && is_active(cur, installed@[#[trigger] prev[k]]);
                        assert(next[k] == prev[k]);
                    }
                }
            }
            i = i + 1;
        }
        if count > 1 && !self.force && !self.unused {
            return Err(GdError::AmbiguousUninstall);
        }
        Ok(UninstallPlan { remove, blocked_active: blocked })
    }
}

/// Where no matching build is active, skipping the active build changes
/// nothing.
proof fn lemma_no_active_candidate(
    cmd: UninstallVersionsCommand,
    current: Option<Seq<char>>,
    installed: Seq<GodotVersionInfo>,
    n: int,
)
    requires
        0 <= n <= installed.len(),
        forall|k: int| 0 <= k < candidates(cmd, current, installed, n, false).len() ==> !is_active(
            current,
            installed[#[trigger] candidates(cmd, current, installed, n, false)[k]],
        ),
    ensures
        candidates(cmd, current, installed, n, true) == candidates(cmd, current, installed, n, false),
    decreases n,
{
    if n > 0 {
        let prev = candidates(cmd, current, installed, n - 1, false);
        let all = candidates(cmd, current, installed, n, false);
        assert forall|k: int| 0 <= k < prev.len() implies !is_active(current, installed[#[trigger] prev[k]]) by {
            assert(all[k] == prev[k]);
        }
        lemma_no_active_candidate(cmd, current, installed, n - 1);
        if is_candidate(cmd, current, installed[n - 1]) {
            assert(all[prev.len() as int] == n - 1);
        }
    }
}

/// With a version request that exactly two installed builds match, and
/// without `unused`: uninstalling fails as ambiguous unless `force` is given;
/// with `force`, where neither build is active, both are removed and nothing
/// is reported as kept.
pub proof fn lemma_two_matches_need_force(
    cmd: UninstallVersionsCommand,
    installed: Seq<GodotVersionInfo>,
    current: Option<Seq<char>>,
)
    requires
        cmd.version is Some,
        !cmd.unused,
        candidates(cmd, current, installed, installed.len() as int, false).len() == 2,
    ensures
        !cmd.force ==> uninstall_outcome(cmd, installed, current) is Ambiguous,
        ({
            let all = candidates(cmd, current, installed, installed.len() as int, false);
            (cmd.force && !is_active(current, installed[all[0]]) && !is_active(current, installed[all[1]]))
                ==> uninstall_outcome(cmd, installed, current) == UninstallOutcome::Plan(all, false)
        }),
{
    let all = candidates(cmd, current, installed, installed.len() as int, false);
    if cmd.force && !is_active(current, installed[all[0]]) && !is_active(current, installed[all[1]]) {
        assert forall|k: int| 0 <= k < all.len() implies !is_active(current, installed[#[trigger] all[k]]) by {
            if k == 0 {
            } else {
                assert(k == 1);
            }
        }
        lemma_no_active_candidate(cmd, current, installed, installed.len() as int);
    }
}

} // verus!
