//! Write scopes: which files a worker or a planning phase may write.
use vstd::prelude::*;
use crate::paths::{
    is_absolute, join_path, path_is_absolute, path_join, path_starts_with, path_starts_with_call,
    path_strip_prefix, path_strip_prefix_call,
};
use crate::text::{contains_sub, str_contains, string_from, string_views};

verus! {

/// The result of `glob_match::glob_match`: whether `path` matches the glob
/// pattern `glob`.
pub uninterp spec fn glob_matches(glob: Seq<char>, path: Seq<char>) -> bool;

/// Calls `glob_match::glob_match`, a pure function of its two arguments;
/// claims that the result is the named result of the pattern and path.
#[verifier::external_body]
fn glob_match_call(glob: &str, path: &str) -> (r: bool)
    ensures
        r == glob_matches(glob@, path@),
{
    glob_match::glob_match(glob, path)
}

/// The path, relative to the workspace, that the scope patterns are
/// matched against: none when the path holds `..`, when the workspace or
/// the target could not be resolved, or when the resolved target lies
/// outside the resolved workspace. An absolute path is taken relative to
/// the workspace; a relative path is taken as it is.
pub open spec fn spec_scope_relative(
    workspace: Seq<char>,
    path: Seq<char>,
    canonical_workspace: Option<Seq<char>>,
    canonical_target: Option<Seq<char>>,
) -> Option<Seq<char>> {
    if contains_sub(path, ".."@) {
        None
    } else {
        match (canonical_workspace, canonical_target) {
            (Some(w), Some(t)) => if !path_starts_with(t, w) {
                None
            } else if is_absolute(path) {
                path_strip_prefix(path, workspace)
            } else {
                Some(path)
            },
            _ => None,
        }
    }
}

/// The view of an optional string slice.
pub open spec fn str_opt_view(o: Option<&str>) -> Option<Seq<char>> {
    match o {
        Some(s) => Some(s@),
        None => None,
    }
}

/// Some pattern of `patterns` matches `rel`.
pub open spec fn any_glob_matches(patterns: Seq<Seq<char>>, rel: Seq<char>) -> bool {
    exists|i: int| 0 <= i < patterns.len() && glob_matches(#[trigger] patterns[i], rel)
}

/// Validates that a file path is within the allowed write scope.
pub struct WriteScopeValidator {
    patterns: Vec<String>,
    workspace: String,
}

impl WriteScopeValidator {
    /// The glob patterns.
    pub closed spec fn spec_patterns(&self) -> Seq<Seq<char>> {
        string_views(self.patterns@)
    }

    /// The workspace the relative paths are resolved against.
    pub closed spec fn spec_workspace(&self) -> Seq<char> {
        self.workspace@
    }

    /// A validator for `patterns`, rooted at `workspace`.
    pub fn with_workspace(patterns: &[&str], workspace: &str) -> (r: Self)
        ensures
            r.spec_patterns() == patterns@.map_values(|s: &str| s@),
            r.spec_workspace() == workspace@,
    {
        let mut ps: Vec<String> = Vec::new();
        let mut k: usize = 0;
        while k < patterns.len()
            invariant
                k <= patterns.len(),
                string_views(ps@) == patterns@.subrange(0, k as int).map_values(|s: &str| s@),
            decreases patterns.len() - k,
        {
            let s = string_from(patterns[k]);
            let ghost before = ps@;
            ps.push(s);
            proof {
                assert(string_views(ps@) =~= string_views(before).push(s@));
                assert(patterns@.subrange(0, k + 1).map_values(|s: &str| s@) =~= patterns@.subrange(
                    0,
                    k as int,
                ).map_values(|s: &str| s@).push(patterns@[k as int]@));
            }
            k += 1;
        }
        assert(patterns@.subrange(0, patterns@.len() as int) =~= patterns@);
        WriteScopeValidator { patterns: ps, workspace: string_from(workspace) }
    }

    /// A validator for owned `patterns`, rooted at `workspace`.
    pub fn with_workspace_strings(patterns: &[String], workspace: &str) -> (r: Self)
        ensures
            r.spec_patterns() == string_views(patterns@),
            r.spec_workspace() == workspace@,
    {
        let mut ps: Vec<String> = Vec::new();
        let mut k: usize = 0;
        while k < patterns.len()
            invariant
                k <= patterns.len(),
                string_views(ps@) == string_views(patterns@.subrange(0, k as int)),
            decreases patterns.len() - k,
        {
            let s = string_from(patterns[k].as_str());
            let ghost before = ps@;
            ps.push(s);
            proof {
                assert(string_views(ps@) =~= string_views(before).push(s@));
                assert(string_views(patterns@.subrange(0, k + 1)) =~= string_views(
                    patterns@.subrange(0, k as int),
                ).push(patterns@[k as int]@));
            }
            k += 1;
        }
        assert(patterns@.subrange(0, patterns@.len() as int) =~= patterns@);
        WriteScopeValidator { patterns: ps, workspace: string_from(workspace) }
    }

    /// The configured glob patterns.
    pub fn patterns(&self) -> (r: &[String])
        ensures
            string_views(r@) == self.spec_patterns(),
    {
        self.patterns.as_slice()
    }

    /// The workspace.
    pub fn workspace(&self) -> (r: &str)
        ensures
            r@ == self.spec_workspace(),
    {
        self.workspace.as_str()
    }

    /// Where `path` leads before symbolic links are resolved: the path
    /// itself when absolute, else the path under the workspace. This is
    /// what is handed to the filesystem to resolve.
    pub fn full_path(&self, path: &str) -> (r: String)
        ensures
            r@ == path_join(self.spec_workspace(), path@),
    {
        join_path(self.workspace.as_str(), path)
    }

    /// The path the patterns are matched against, given what the
    /// filesystem resolved the workspace and the target to.
    pub fn scope_relative(
        &self,
        path: &str,
        canonical_workspace: Option<&str>,
        canonical_target: Option<&str>,
    ) -> (r: Option<String>)
        ensures
            match spec_scope_relative(
                self.spec_workspace(),
                path@,
                str_opt_view(canonical_workspace),
                str_opt_view(canonical_target),
            ) {
                Some(rel) => r matches Some(s) && s@ == rel,
                None => r is None,
            },
    {
        if str_contains(path, "..") {
            return None;
        }
        let w = match canonical_workspace {
            Some(w) => w,
            None => return None,
        };
        let t = match canonical_target {
            Some(t) => t,
            None => return None,
        };
        if !path_starts_with_call(t, w) {
            return None;
        }
        if path_is_absolute(path) {
            path_strip_prefix_call(path, self.workspace.as_str())
        } else {
            Some(string_from(path))
        }
    }

    /// Whether `path` may be written, given what the filesystem resolved
    /// the workspace and the target to: an empty scope allows nothing;
    /// otherwise the path must pass `scope_relative` and match some
    /// pattern. Paths with `..` and targets that resolve outside the
    /// workspace (through a symbolic link, say) are refused.
    pub fn is_allowed_resolved(
        &self,
        path: &str,
        canonical_workspace: Option<&str>,
        canonical_target: Option<&str>,
    ) -> (r: bool)
        ensures
            r == (self.spec_patterns().len() > 0 && match spec_scope_relative(
                self.spec_workspace(),
                path@,
                str_opt_view(canonical_workspace),
                str_opt_view(canonical_target),
            ) {
                Some(rel) => any_glob_matches(self.spec_patterns(), rel),
                None => false,
            }),
    {
        if self.patterns.len() == 0 {
            return false;
        }
        let rel = match self.scope_relative(path, canonical_workspace, canonical_target) {
            Some(rel) => rel,
            None => return false,
        };
        let ghost rel_spec = spec_scope_relative(
            self.spec_workspace(),
            path@,
            str_opt_view(canonical_workspace),
            str_opt_view(canonical_target),
        );
        assert(rel_spec == Some(rel@));
        let mut k: usize = 0;
        while k < self.patterns.len()
            invariant
                k <= self.patterns.len(),
                self.patterns.len() > 0,
                rel_spec == Some(rel@),
                rel_spec == spec_scope_relative(
                    self.spec_workspace(),
                    path@,
                    str_opt_view(canonical_workspace),
                    str_opt_view(canonical_target),
                ),
                forall|m: int| 0 <= m < k ==> !glob_matches(#[trigger] self.spec_patterns()[m], rel@),
            decreases self.patterns.len() - k,
        {
            if glob_match_call(self.patterns[k].as_str(), rel.as_str()) {
                assert(self.spec_patterns().len() == self.patterns@.len());
                assert(glob_matches(self.spec_patterns()[k as int], rel@));
                assert(any_glob_matches(self.spec_patterns(), rel@));
                return true;
            }
            k += 1;
        }
        false
    }
}

// ───────────────────────────── laws ─────────────────────────────

/// A path that holds `..` is never allowed, whatever the patterns and
/// whatever the filesystem resolved.
pub proof fn lemma_traversal_never_allowed(
    patterns: Seq<Seq<char>>,
    workspace: Seq<char>,
    path: Seq<char>,
    canonical_workspace: Option<Seq<char>>,
    canonical_target: Option<Seq<char>>,
)
    requires
        contains_sub(path, ".."@),
    ensures
        spec_scope_relative(workspace, path, canonical_workspace, canonical_target) is None,
{
}

/// A target that the filesystem resolves outside the resolved workspace
/// is never allowed.
pub proof fn lemma_escape_never_allowed(
    workspace: Seq<char>,
    path: Seq<char>,
    canonical_workspace: Seq<char>,
    canonical_target: Seq<char>,
)
    requires
        !path_starts_with(canonical_target, canonical_workspace),
    ensures
        spec_scope_relative(workspace, path, Some(canonical_workspace), Some(canonical_target)) is None,
{
}

} // verus!
