//! Picking "the session for this directory" out of the catalog.
//!
//! The policy is tiered and short-circuiting: an exact project-path match
//! wins; failing that, sessions whose path basename equals the target's are
//! compared by version-control remote identity; failing that, the basename
//! match alone decides.  Within a tier the session with the greatest
//! modification time wins, the earlier catalog entry breaking ties.
//!
//! Remote identities are handed in by the caller — obtaining them is a
//! version-control query — and are compared after normalization: a trailing
//! `.git` is dropped, the `https://`, `http://` and `git@host:` spellings
//! collapse to `host/owner/repo`, and the comparison ignores case.  The
//! matcher itself is a pure function of the catalog, the target path and
//! the handed-in remotes.

use vstd::prelude::*;
use crate::session::Session;
use crate::shims::{lower_of, lowercase};
use crate::text::{chars_of, has_prefix, has_suffix, str_eq, string_from_chars, tail_from};

verus! {

/// The last path component: everything after the final separator.
pub open spec fn spec_basename(p: Seq<char>) -> Seq<char>
    decreases p.len(),
{
    if p.len() == 0 {
        p
    } else if p.last() == '/' {
        Seq::empty()
    } else {
        spec_basename(p.drop_last()).push(p.last())
    }
}

proof fn lemma_basename_no_slash(p: Seq<char>)
    requires
        forall|j: int| 0 <= j < p.len() ==> p[j] != '/',
    ensures
        spec_basename(p) == p,
    decreases p.len(),
{
    if p.len() > 0 {
        lemma_basename_no_slash(p.drop_last());
        assert(spec_basename(p) =~= p);
    }
}

proof fn lemma_basename_split(p: Seq<char>, k: int)
    requires
        0 <= k < p.len(),
        p[k] == '/',
        forall|j: int| k < j < p.len() ==> p[j] != '/',
    ensures
        spec_basename(p) == p.skip(k + 1),
    decreases p.len(),
{
    if k == p.len() - 1 {
        assert(spec_basename(p) =~= p.skip(k + 1));
    } else {
        lemma_basename_split(p.drop_last(), k);
        assert(p.drop_last().skip(k + 1) =~= p.skip(k + 1).drop_last());
        assert(spec_basename(p) =~= p.skip(k + 1));
    }
}

/// The last path component of `p`.
pub fn basename(p: &str) -> (r: String)
    ensures
        r@ == spec_basename(p@),
{
    let cs = chars_of(p);
    let n = cs.len();
    let mut start: usize = 0;
    let mut found: bool = false;
    let mut j: usize = n;
    while j > 0
        invariant
            j <= n,
            n == cs@.len(),
            cs@ == p@,
            !found ==> start == 0 && forall|t: int| j <= t < n ==> p@[t] != '/',
            found ==> 1 <= start <= n && p@[start - 1] == '/' && forall|t: int|
                start <= t < n ==> p@[t] != '/',
        decreases j,
    {
        if !found && cs[j - 1] == '/' {
            start = j;
            found = true;
        }
        j = j - 1;
    }
    proof {
        if found {
            lemma_basename_split(p@, start - 1);
        } else {
            lemma_basename_no_slash(p@);
            assert(p@.skip(0) =~= p@);
        }
    }
    let mut out: Vec<char> = Vec::new();
    let mut i: usize = start;
    while i < n
        invariant
            start <= i <= n,
            n == cs@.len(),
            cs@ == p@,
            out@ == p@.subrange(start as int, i as int),
        decreases n - i,
    {
        out.push(cs[i]);
        proof {
            assert(out@ =~= p@.subrange(start as int, i + 1 as int));
        }
        i = i + 1;
    }
    proof {
        assert(out@ =~= p@.skip(start as int));
    }
    string_from_chars(&out)
}

/// A remote URL without one trailing `.git`.
pub open spec fn spec_strip_git_suffix(u: Seq<char>) -> Seq<char> {
    if u.len() >= 4 && u.skip(u.len() - 4) == ".git"@ {
        u.take(u.len() - 4)
    } else {
        u
    }
}

/// The SSH shorthand's host/path divider turned into a separator: the first
/// colon becomes a slash.
pub open spec fn spec_colon_to_slash(u: Seq<char>) -> Seq<char>
    decreases u.len(),
{
    if u.len() == 0 {
        u
    } else if u[0] == ':' {
        seq!['/'] + u.drop_first()
    } else {
        seq![u[0]] + spec_colon_to_slash(u.drop_first())
    }
}

/// A remote URL with its spelling collapsed: `https://` and `http://` are
/// dropped, and the `git@host:owner/repo` shorthand becomes
/// `host/owner/repo`.
pub open spec fn spec_strip_scheme(u: Seq<char>) -> Seq<char> {
    if u.len() >= 8 && u.take(8) == "https://"@ {
        u.skip(8)
    } else if u.len() >= 7 && u.take(7) == "http://"@ {
        u.skip(7)
    } else if u.len() >= 4 && u.take(4) == "git@"@ {
        spec_colon_to_slash(u.skip(4))
    } else {
        u
    }
}

/// The canonical form of a remote URL, compared case-insensitively.
pub open spec fn spec_normalize_remote(u: Seq<char>) -> Seq<char> {
    lower_of(spec_strip_scheme(spec_strip_git_suffix(u)))
}

/// `v` with its first colon turned into a slash.
fn colon_to_slash(v: &Vec<char>) -> (r: Vec<char>)
    ensures
        r@ == spec_colon_to_slash(v@),
{
    let n = v.len();
    let mut out: Vec<char> = Vec::new();
    let mut done: bool = false;
    let mut i: usize = 0;
    proof {
        assert(v@.skip(0) =~= v@);
    }
    while i < n
        invariant
            i <= n,
            n == v@.len(),
            !done ==> spec_colon_to_slash(v@) == out@ + spec_colon_to_slash(v@.skip(i as int)),
            done ==> spec_colon_to_slash(v@) == out@ + v@.skip(i as int),
        decreases n - i,
    {
        proof {
            assert(v@.skip(i as int)[0] == v@[i as int]);
            assert(v@.skip(i as int).drop_first() =~= v@.skip(i + 1 as int));
        }
        let c = v[i];
        if !done && c == ':' {
            out.push('/');
            done = true;
        } else {
            out.push(c);
        }
        proof {
            if done {
                assert(spec_colon_to_slash(v@) =~= out@ + v@.skip(i + 1 as int));
            } else {
                assert(spec_colon_to_slash(v@) =~= out@ + spec_colon_to_slash(
                    v@.skip(i + 1 as int),
                ));
            }
        }
        i = i + 1;
    }
    proof {
        if !done {
            assert(spec_colon_to_slash(v@.skip(n as int)) =~= Seq::<char>::empty());
        }
        assert(out@ =~= spec_colon_to_slash(v@));
    }
    out
}

/// The canonical form of a remote URL.
pub fn normalize_remote(url: &str) -> (r: String)
    ensures
        r@ == spec_normalize_remote(url@),
{
    proof {
        reveal_strlit(".git");
        reveal_strlit("https://");
        reveal_strlit("http://");
        reveal_strlit("git@");
    }
    let mut cs = chars_of(url);
    let dotgit = chars_of(".git");
    if has_suffix(&cs, &dotgit) {
        let keep = cs.len() - 4;
        cs.truncate(keep);
    }
    let ghost stripped = cs@;
    proof {
        assert(stripped == spec_strip_git_suffix(url@));
    }
    let https = chars_of("https://");
    let http = chars_of("http://");
    let gitat = chars_of("git@");
    let collapsed: Vec<char> = if has_prefix(&cs, &https) {
        tail_from(&cs, 8)
    } else if has_prefix(&cs, &http) {
        tail_from(&cs, 7)
    } else if has_prefix(&cs, &gitat) {
        let t = tail_from(&cs, 4);
        colon_to_slash(&t)
    } else {
        tail_from(&cs, 0)
    };
    proof {
        assert(cs@.skip(0) =~= cs@);
        assert(collapsed@ == spec_strip_scheme(stripped));
    }
    let s = string_from_chars(&collapsed);
    lowercase(s.as_str())
}

/// One tier of the matching policy, as a predicate over catalog positions.
pub ghost enum MatchRule {
    /// The session's project path equals the target path.
    ExactPath(Seq<char>),
    /// The session's path basename equals the target's, and its normalized
    /// remote equals the normalized target remote.
    BasenameAndRemote(Seq<char>, Seq<char>),
    /// The session's path basename equals the target's.
    BasenameOnly(Seq<char>),
}

/// Whether position `i` of the catalog satisfies the rule.
pub open spec fn rule_holds(
    rule: MatchRule,
    c: Seq<Session>,
    remotes: Seq<Option<Seq<char>>>,
    i: int,
) -> bool {
    match rule {
        MatchRule::ExactPath(t) => c[i].project_path@ == t,
        MatchRule::BasenameAndRemote(bn, tn) => spec_basename(c[i].project_path@) == bn && (
        remotes[i] matches Some(sr) && spec_normalize_remote(sr) == tn),
        MatchRule::BasenameOnly(bn) => spec_basename(c[i].project_path@) == bn,
    }
}

/// The position, among the first `n`, of the rule-satisfying session with
/// the greatest modification time; the earliest such position on ties.
pub open spec fn spec_best_idx(
    c: Seq<Session>,
    remotes: Seq<Option<Seq<char>>>,
    rule: MatchRule,
    n: int,
) -> Option<int>
    decreases n,
{
    if n <= 0 {
        None
    } else {
        let rest = spec_best_idx(c, remotes, rule, n - 1);
        if rule_holds(rule, c, remotes, n - 1) {
            match rest {
                None => Some(n - 1),
                Some(k) => if c[n - 1].last_modified > c[k].last_modified {
                    Some(n - 1)
                } else {
                    Some(k)
                },
            }
        } else {
            rest
        }
    }
}

/// What [`spec_best_idx`] picks: nothing exactly when no position
/// satisfies the rule, else a satisfying position of maximal modification
/// time.
pub proof fn lemma_best_idx_props(
    c: Seq<Session>,
    remotes: Seq<Option<Seq<char>>>,
    rule: MatchRule,
    n: int,
)
    requires
        0 <= n,
    ensures
        spec_best_idx(c, remotes, rule, n) is None ==> forall|i: int|
            0 <= i < n ==> !rule_holds(rule, c, remotes, i),
        spec_best_idx(c, remotes, rule, n) matches Some(j) ==> 0 <= j < n && rule_holds(
            rule,
            c,
            remotes,
            j,
        ) && forall|i: int|
            0 <= i < n && #[trigger] rule_holds(rule, c, remotes, i)
                ==> c[i].last_modified <= c[j].last_modified,
    decreases n,
{
    if n > 0 {
        lemma_best_idx_props(c, remotes, rule, n - 1);
    }
}

/// The tiered pick for a target path: the exact tier, then basename plus
/// remote identity, then basename alone.
pub open spec fn spec_best_match(
    c: Seq<Session>,
    target: Seq<char>,
    target_remote: Option<Seq<char>>,
    remotes: Seq<Option<Seq<char>>>,
) -> Option<int> {
    let n = c.len() as int;
    let exact = spec_best_idx(c, remotes, MatchRule::ExactPath(target), n);
    if exact is Some {
        exact
    } else {
        let bn = spec_basename(target);
        let tiered = match target_remote {
            Some(tr) => spec_best_idx(
                c,
                remotes,
                MatchRule::BasenameAndRemote(bn, spec_normalize_remote(tr)),
                n,
            ),
            None => None,
        };
        if tiered is Some {
            tiered
        } else {
            spec_best_idx(c, remotes, MatchRule::BasenameOnly(bn), n)
        }
    }
}

/// The view of an optional position.
pub open spec fn opt_idx_view(r: Option<usize>) -> Option<int> {
    match r {
        Some(i) => Some(i as int),
        None => None,
    }
}

fn best_exact(catalog: &Vec<Session>, remotes: &Vec<Option<String>>, target: &str) -> (r: Option<
    usize,
>)
    ensures
        opt_idx_view(r) == spec_best_idx(
            catalog@,
            remotes.deep_view(),
            MatchRule::ExactPath(target@),
            catalog@.len() as int,
        ),
{
    let n = catalog.len();
    let mut best: Option<usize> = None;
    let mut i: usize = 0;
    while i < n
        invariant
            i <= n,
            n == catalog@.len(),
            best matches Some(b) ==> b < i,
            opt_idx_view(best) == spec_best_idx(
                catalog@,
                remotes.deep_view(),
                MatchRule::ExactPath(target@),
                i as int,
            ),
        decreases n - i,
    {
        let hit = str_eq(catalog[i].project_path.as_str(), target);
        proof {
            assert(hit == rule_holds(
                MatchRule::ExactPath(target@),
                catalog@,
                remotes.deep_view(),
                i as int,
            ));
        }
        if hit {
            best = match best {
                None => Some(i),
                Some(b) => if catalog[i].last_modified > catalog[b].last_modified {
                    Some(i)
                } else {
                    Some(b)
                },
            };
        }
        i = i + 1;
    }
    best
}

fn best_basename(catalog: &Vec<Session>, remotes: &Vec<Option<String>>, bn: &str) -> (r: Option<
    usize,
>)
    ensures
        opt_idx_view(r) == spec_best_idx(
            catalog@,
            remotes.deep_view(),
            MatchRule::BasenameOnly(bn@),
            catalog@.len() as int,
        ),
{
    let n = catalog.len();
    let mut best: Option<usize> = None;
    let mut i: usize = 0;
    while i < n
        invariant
            i <= n,
            n == catalog@.len(),
            best matches Some(b) ==> b < i,
            opt_idx_view(best) == spec_best_idx(
                catalog@,
                remotes.deep_view(),
                MatchRule::BasenameOnly(bn@),
                i as int,
            ),
        decreases n - i,
    {
        let cbn = basename(catalog[i].project_path.as_str());
        let hit = str_eq(cbn.as_str(), bn);
        proof {
            assert(hit == rule_holds(
                MatchRule::BasenameOnly(bn@),
                catalog@,
                remotes.deep_view(),
                i as int,
            ));
        }
        if hit {
            best = match best {
                None => Some(i),
                Some(b) => if catalog[i].last_modified > catalog[b].last_modified {
                    Some(i)
                } else {
                    Some(b)
                },
            };
        }
        i = i + 1;
    }
    best
}

fn best_basename_remote(
    catalog: &Vec<Session>,
    remotes: &Vec<Option<String>>,
    bn: &str,
    tn: &str,
) -> (r: Option<usize>)
    requires
        catalog@.len() == remotes@.len(),
    ensures
        opt_idx_view(r) == spec_best_idx(
            catalog@,
            remotes.deep_view(),
            MatchRule::BasenameAndRemote(bn@, tn@),
            catalog@.len() as int,
        ),
{
    let n = catalog.len();
    let mut best: Option<usize> = None;
    let mut i: usize = 0;
    while i < n
        invariant
            i <= n,
            n == catalog@.len() == remotes@.len(),
            best matches Some(b) ==> b < i,
            opt_idx_view(best) == spec_best_idx(
                catalog@,
                remotes.deep_view(),
                MatchRule::BasenameAndRemote(bn@, tn@),
                i as int,
            ),
        decreases n - i,
    {
        let cbn = basename(catalog[i].project_path.as_str());
        let bn_hit = str_eq(cbn.as_str(), bn);
        let remote_hit: bool = match &remotes[i] {
            Some(sr) => {
                let nsr = normalize_remote(sr.as_str());
                str_eq(nsr.as_str(), tn)
            },
            None => false,
        };
        let hit = bn_hit && remote_hit;
        proof {
            assert(remotes.deep_view()[i as int] == match remotes@[i as int] {
                Some(s) => Some(s@),
                None => None::<Seq<char>>,
            });
            assert(hit == rule_holds(
                MatchRule::BasenameAndRemote(bn@, tn@),
                catalog@,
                remotes.deep_view(),
                i as int,
            ));
        }
        if hit {
            best = match best {
                None => Some(i),
                Some(b) => if catalog[i].last_modified > catalog[b].last_modified {
                    Some(i)
                } else {
                    Some(b)
                },
            };
        }
        i = i + 1;
    }
    best
}

/// The best-matching session for a target path, by the tiered policy.
///
/// `remotes` holds, position by position, the raw remote URL the caller
/// obtained for each session's original project path, and `target_remote`
/// the one for the target path; either may be absent.  The result is a
/// position into the catalog, and a pure function of the arguments.
pub fn find_best_match(
    catalog: &Vec<Session>,
    remotes: &Vec<Option<String>>,
    target: &str,
    target_remote: &Option<String>,
) -> (r: Option<usize>)
    requires
        catalog@.len() == remotes@.len(),
    ensures
        opt_idx_view(r) == spec_best_match(
            catalog@,
            target@,
            match *target_remote {
                Some(ref t) => Some(t@),
                None => None,
            },
            remotes.deep_view(),
        ),
        r matches Some(i) ==> i < catalog@.len(),
{
    let exact = best_exact(catalog, remotes, target);
    proof {
        if exact is Some {
            lemma_best_idx_props(
                catalog@,
                remotes.deep_view(),
                MatchRule::ExactPath(target@),
                catalog@.len() as int,
            );
        }
    }
    if exact.is_some() {
        return exact;
    }
    let bn = basename(target);
    let tiered: Option<usize> = match target_remote {
        Some(tr) => {
            let tn = normalize_remote(tr.as_str());
            best_basename_remote(catalog, remotes, bn.as_str(), tn.as_str())
        },
        None => None,
    };
    proof {
        if tiered is Some {
            match *target_remote {
                Some(ref tr) => lemma_best_idx_props(
                    catalog@,
                    remotes.deep_view(),
                    MatchRule::BasenameAndRemote(spec_basename(target@), spec_normalize_remote(tr@)),
                    catalog@.len() as int,
                ),
                None => (),
            }
        }
    }
    if tiered.is_some() {
        return tiered;
    }
    let fallback = best_basename(catalog, remotes, bn.as_str());
    proof {
        lemma_best_idx_props(
            catalog@,
            remotes.deep_view(),
            MatchRule::BasenameOnly(spec_basename(target@)),
            catalog@.len() as int,
        );
    }
    fallback
}

/// An exact-path match, when one exists, always wins: the matcher hands
/// back an exact match of maximal modification time and never falls
/// through to the basename tiers.
pub proof fn lemma_exact_match_wins(
    c: Seq<Session>,
    target: Seq<char>,
    target_remote: Option<Seq<char>>,
    remotes: Seq<Option<Seq<char>>>,
)
    requires
        exists|i: int| 0 <= i < c.len() && (#[trigger] c[i].project_path@) == target,
    ensures
        spec_best_match(c, target, target_remote, remotes) matches Some(j) && c[
            j
        ].project_path@ == target && forall|i: int|
            0 <= i < c.len() && (#[trigger] c[i].project_path@) == target
                ==> c[i].last_modified <= c[j].last_modified,
{
    let n = c.len() as int;
    lemma_best_idx_props(c, remotes, MatchRule::ExactPath(target), n);
    let w = choose|i: int| 0 <= i < c.len() && (#[trigger] c[i].project_path@) == target;
    assert(rule_holds(MatchRule::ExactPath(target), c, remotes, w));
    assert(spec_best_idx(c, remotes, MatchRule::ExactPath(target), n) is Some);
    let j = spec_best_idx(c, remotes, MatchRule::ExactPath(target), n)->0;
    assert forall|i: int|
        0 <= i < c.len() && (#[trigger] c[i].project_path@) == target implies c[i].last_modified
        <= c[j].last_modified by {
        assert(rule_holds(MatchRule::ExactPath(target), c, remotes, i));
    }
}

/// With no exact-path match and no target remote, the matcher falls back
/// to the basename tier: among the sessions whose basename equals the
/// target's, one of maximal modification time is picked.
pub proof fn lemma_basename_fallback(
    c: Seq<Session>,
    target: Seq<char>,
    remotes: Seq<Option<Seq<char>>>,
)
    requires
        forall|i: int| 0 <= i < c.len() ==> (#[trigger] c[i].project_path@) != target,
        exists|i: int|
            0 <= i < c.len() && spec_basename(#[trigger] c[i].project_path@) == spec_basename(
                target,
            ),
    ensures
        spec_best_match(c, target, None, remotes) matches Some(j) && spec_basename(
            c[j].project_path@,
        ) == spec_basename(target) && forall|i: int|
            0 <= i < c.len() && spec_basename(#[trigger] c[i].project_path@) == spec_basename(
                target,
            ) ==> c[i].last_modified <= c[j].last_modified,
{
    let n = c.len() as int;
    let bn = spec_basename(target);
    lemma_best_idx_props(c, remotes, MatchRule::ExactPath(target), n);
    if spec_best_idx(c, remotes, MatchRule::ExactPath(target), n) is Some {
        let e = spec_best_idx(c, remotes, MatchRule::ExactPath(target), n)->0;
        assert(rule_holds(MatchRule::ExactPath(target), c, remotes, e));
        assert(false);
    }
    lemma_best_idx_props(c, remotes, MatchRule::BasenameOnly(bn), n);
    let w = choose|i: int|
        0 <= i < c.len() && spec_basename(#[trigger] c[i].project_path@) == spec_basename(target);
    assert(rule_holds(MatchRule::BasenameOnly(bn), c, remotes, w));
    assert(spec_best_idx(c, remotes, MatchRule::BasenameOnly(bn), n) is Some);
    let j = spec_best_idx(c, remotes, MatchRule::BasenameOnly(bn), n)->0;
    assert forall|i: int|
        0 <= i < c.len() && spec_basename(#[trigger] c[i].project_path@) == spec_basename(target)
        implies c[i].last_modified <= c[j].last_modified by {
        assert(rule_holds(MatchRule::BasenameOnly(bn), c, remotes, i));
    }
}

} // verus!
