//! Worktree bookkeeping: where a worktree directory lives, what it is
//! called, the identifier derived from its path, and reading an issue number
//! back out of a directory name.
//!
//! Paths are modelled textually: the parent of a path is everything before
//! its last separator, its file name everything after, and joining appends a
//! separator and the new leaf.

use vstd::prelude::*;
use vstd::utf8::encode_utf8;
use vstd::string::StrSliceExecFns;
use vstd::string::StringExecFns;
use vstd::string::StringSliceAdditionalSpecFns;

use crate::digest::{hex_of, sha256, sha256_of, to_hex};
use crate::models::worktree::{Worktree, WorktreeStatus};
use crate::git::WorktreeInfo;
use crate::strutil::{
    char_alphanumeric, find_char, i32_to_string, int_dec_chars, is_alphanumeric,
    is_prefix_of, is_suffix_of, lower_of, push_char, rfind_char, spec_parse_i32, starts_with,
    str_eq, substring, parse_i32, to_lowercase, ends_with,
};

verus! {

/// The file name of a textual path: everything after the last separator, or
/// the whole path when it has none.
pub open spec fn file_name_of(s: Seq<char>) -> Seq<char> {
    match s.index_of_last('/') {
        Some(i) => s.skip(i + 1),
        None => s,
    }
}

/// The parent of a textual path: everything before the last separator, or
/// nothing when it has none.
pub open spec fn parent_of(s: Seq<char>) -> Option<Seq<char>> {
    match s.index_of_last('/') {
        Some(i) => Some(s.take(i)),
        None => None,
    }
}

/// Joining a path and a leaf.
pub open spec fn join_of(base: Seq<char>, leaf: Seq<char>) -> Seq<char> {
    base + "/"@ + leaf
}

proof fn lemma_last_index_agrees(s: Seq<char>, c: char, i: int)
    requires
        0 <= i < s.len(),
        s[i] == c,
        forall|j: int| i < j < s.len() ==> s[j] != c,
    ensures
        s.index_of_last(c) == Some(i),
{
    s.index_of_last_ensures(c);
    match s.index_of_last(c) {
        Some(k) => {
            if k < i {
                assert(s[i] != c);
            } else if k > i {
                assert(s[k] != c);
            }
        },
        None => {
            assert(!s.contains(c));
            assert(s.contains(c)) by {
                assert(s[i] == c);
            }
        },
    }
}

proof fn lemma_no_last_index(s: Seq<char>, c: char)
    requires
        forall|j: int| 0 <= j < s.len() ==> s[j] != c,
    ensures
        s.index_of_last(c) is None,
{
    s.index_of_last_ensures(c);
    match s.index_of_last(c) {
        Some(k) => {
            assert(s[k] != c);
        },
        None => {},
    }
}

/// The file name of a path, exactly as [`file_name_of`] says.
pub fn path_file_name(s: &str) -> (r: String)
    ensures
        r@ == file_name_of(s@),
{
    let len = s.unicode_len();
    match rfind_char(s, '/') {
        Some(i) => {
            proof {
                lemma_last_index_agrees(s@, '/', i as int);
            }
            substring(s, i + 1, len)
        },
        None => {
            proof {
                lemma_no_last_index(s@, '/');
            }
            s.to_owned()
        },
    }
}

/// The parent of a path, exactly as [`parent_of`] says.
pub fn path_parent(s: &str) -> (r: Option<String>)
    ensures
        (r is Some) == (parent_of(s@) is Some),
        r matches Some(p) ==> parent_of(s@) == Some(p@),
{
    match rfind_char(s, '/') {
        Some(i) => {
            proof {
                lemma_last_index_agrees(s@, '/', i as int);
            }
            Some(substring(s, 0, i))
        },
        None => {
            proof {
                lemma_no_last_index(s@, '/');
            }
            None
        },
    }
}

/// Joins a path and a leaf with a separator, exactly as [`join_of`] says.
pub fn path_join(base: &str, leaf: &str) -> (r: String)
    ensures
        r@ == join_of(base@, leaf@),
{
    base.to_owned().concat("/").concat(leaf)
}

/// Removes a suffix: the shortened text when `suffix` really ends `s`,
/// nothing otherwise.
pub fn strip_suffix_str(s: &str, suffix: &str) -> (r: Option<String>)
    ensures
        (r is Some) == is_suffix_of(suffix@, s@),
        r matches Some(p) ==> p@ == s@.take(s@.len() - suffix@.len()),
{
    if ends_with(s, suffix) {
        Some(substring(s, 0, s.unicode_len() - suffix.unicode_len()))
    } else {
        None
    }
}

/// Finds the main repository a worktree belongs to, by the naming
/// convention: the worktree lives in `<parent>/<repo>-worktrees/<name>`, so
/// the repository is `<parent>/<repo>`. Whether that directory exists on
/// disk is for the caller to check.
pub fn find_main_repo_from_worktree(worktree_path: &str) -> (r: Result<String, String>)
    ensures
        match r {
            Ok(p) => ({
                &&& parent_of(worktree_path@) is Some
                &&& is_suffix_of(
                    "-worktrees"@,
                    file_name_of(parent_of(worktree_path@)->Some_0),
                )
                &&& parent_of(parent_of(worktree_path@)->Some_0) is Some
                &&& p@ == ({
                    let wd = parent_of(worktree_path@)->Some_0;
                    let name = file_name_of(wd);
                    join_of(
                        parent_of(wd)->Some_0,
                        name.take(name.len() - "-worktrees"@.len()),
                    )
                })
            }),
            Err(m) => ({
                if parent_of(worktree_path@) is None {
                    m@ == "Cannot determine parent directory of worktree"@
                } else {
                    let wd = parent_of(worktree_path@)->Some_0;
                    if !is_suffix_of("-worktrees"@, file_name_of(wd)) {
                        m@ == "Worktrees directory does not follow expected naming convention: "@
                            + file_name_of(wd)
                    } else {
                        &&& parent_of(wd) is None
                        &&& m@ == "Cannot determine parent directory of worktrees directory"@
                    }
                }
            }),
        },
{
    let wd = match path_parent(worktree_path) {
        Some(p) => p,
        None => {
            return Err("Cannot determine parent directory of worktree".to_owned());
        },
    };
    let name = path_file_name(wd.as_str());
    let repo_name = match strip_suffix_str(name.as_str(), "-worktrees") {
        Some(stem) => stem,
        None => {
            return Err(
                "Worktrees directory does not follow expected naming convention: ".to_owned()
                    .concat(name.as_str()),
            );
        },
    };
    let parent_dir = match path_parent(wd.as_str()) {
        Some(p) => p,
        None => {
            return Err("Cannot determine parent directory of worktrees directory".to_owned());
        },
    };
    Ok(path_join(parent_dir.as_str(), repo_name.as_str()))
}

/// A branch-name character that survives sanitisation unchanged.
pub open spec fn sanitized_char(c: char) -> char {
    if char_alphanumeric(c) || c == '-' || c == '_' {
        c
    } else {
        '-'
    }
}

/// A branch name with every character outside letters, digits, `-` and `_`
/// replaced by a dash.
pub open spec fn sanitized(s: Seq<char>) -> Seq<char> {
    s.map_values(|c: char| sanitized_char(c))
}

/// Makes a branch name safe for a directory name: every character that is
/// not alphanumeric, `-` or `_` becomes a dash, and the whole is lowered.
pub fn sanitize_branch_name(name: &str) -> (r: String)
    ensures
        r@ == lower_of(sanitized(name@)),
{
    let n = name.unicode_len();
    let mut buf = String::new();
    let mut i: usize = 0;
    while i < n
        invariant
            n == name@.len(),
            i <= n,
            buf@.len() == i,
            forall|j: int| 0 <= j < i ==> buf@[j] == sanitized_char(name@[j]),
        decreases n - i,
    {
        let c = name.get_char(i);
        let keep = is_alphanumeric(c) || c == '-' || c == '_';
        push_char(
            &mut buf,
            if keep {
                c
            } else {
                '-'
            },
        );
        i = i + 1;
    }
    proof {
        assert(buf@ =~= sanitized(name@));
    }
    to_lowercase(buf.as_str())
}

/// The digits that name an issue inside a worktree directory name: what
/// stands between `issue-` and the next dash (or the end).
pub open spec fn issue_digits(name: Seq<char>) -> Seq<char> {
    let rest = name.skip("issue-"@.len() as int);
    match rest.index_of_first('-') {
        Some(i) => rest.take(i),
        None => rest,
    }
}

/// The issue number a worktree directory name encodes, if its file name
/// follows the `issue-<number>-<branch>` scheme.
pub open spec fn spec_extract_issue_number(path: Seq<char>) -> Option<i32> {
    let name = file_name_of(path);
    if is_prefix_of("issue-"@, name) {
        spec_parse_i32(issue_digits(name))
    } else {
        None
    }
}

/// Reads the issue number back out of a worktree path, exactly as
/// [`spec_extract_issue_number`] says.
pub fn extract_issue_number(path: &str) -> (r: Option<i32>)
    ensures
        r == spec_extract_issue_number(path@),
{
    let name = path_file_name(path);
    if !starts_with(name.as_str(), "issue-") {
        return None;
    }
    proof {
        reveal_strlit("issue-");
    }
    let nlen = name.as_str().unicode_len();
    let rest = substring(name.as_str(), 6, nlen);
    let ghost restv = rest@;
    let numpart = match find_char(rest.as_str(), '-') {
        Some(i) => {
            proof {
                restv.index_of_first_ensures('-');
                match restv.index_of_first('-') {
                    Some(k) => {
                        if k < i as int {
                            assert(restv[k] != '-');
                        } else if k > i as int {
                            assert(restv[i as int] != '-');
                        }
                    },
                    None => {
                        assert(restv[i as int] != '-');
                    },
                }
                assert(restv.index_of_first('-') == Some(i as int));
            }
            substring(rest.as_str(), 0, i)
        },
        None => {
            proof {
                restv.index_of_first_ensures('-');
                match restv.index_of_first('-') {
                    Some(k) => {
                        assert(restv[k] != '-');
                    },
                    None => {},
                }
            }
            rest
        },
    };
    parse_i32(numpart.as_str())
}

/// The worktree identifier for a path: the first sixteen bytes of the
/// path's SHA-256 digest, rendered as 32 lower-case hexadecimal characters.
pub fn generate_worktree_id(path: &str) -> (r: String)
    ensures
        r@ == hex_of(sha256_of(path.spec_bytes()).take(16)),
        r@.len() == 32,
{
    let digest = sha256(path.as_bytes());
    let head = vstd::slice::slice_subrange(digest.as_slice(), 0, 16);
    to_hex(head)
}

/// The directory name a worktree gets: `issue-`, the issue number, a dash,
/// and the sanitised branch name.
pub fn worktree_dir_name(issue_number: i32, branch_name: &str) -> (r: String)
    ensures
        r@ == "issue-"@ + int_dec_chars(issue_number as int) + "-"@ + lower_of(
            sanitized(branch_name@),
        ),
{
    "issue-".to_owned().concat(i32_to_string(issue_number).as_str()).concat("-").concat(
        sanitize_branch_name(branch_name).as_str(),
    )
}

/// The directory that holds a repository's worktrees: a sibling of the
/// repository named after it, with `-worktrees` appended. Nothing when the
/// repository path has no parent.
pub open spec fn worktrees_dir_of(repo: Seq<char>) -> Option<Seq<char>> {
    match parent_of(repo) {
        Some(p) => Some(join_of(p, file_name_of(repo) + "-worktrees"@)),
        None => None,
    }
}

/// Everything `create` must know before touching the file system: where the
/// worktrees directory lives and where the new worktree goes.
#[derive(Debug)]
pub struct WorktreePlan {
    pub worktrees_dir: String,
    pub dir_name: String,
    pub worktree_path: String,
}

/// Lays out the paths for a new worktree. Fails exactly when the repository
/// path has no parent directory to put the worktrees directory in.
pub fn plan_worktree_paths(repo_path: &str, issue_number: i32, branch_name: &str) -> (r: Result<
    WorktreePlan,
    String,
>)
    ensures
        (r is Ok) == (parent_of(repo_path@) is Some),
        r matches Ok(plan) ==> {
            &&& worktrees_dir_of(repo_path@) == Some(plan.worktrees_dir@)
            &&& plan.dir_name@ == "issue-"@ + int_dec_chars(issue_number as int) + "-"@
                + lower_of(sanitized(branch_name@))
            &&& plan.worktree_path@ == join_of(plan.worktrees_dir@, plan.dir_name@)
        },
        r matches Err(m) ==> m@ == "Cannot determine parent directory"@,
{
    let parent = match path_parent(repo_path) {
        Some(p) => p,
        None => {
            return Err("Cannot determine parent directory".to_owned());
        },
    };
    let repo_name = path_file_name(repo_path);
    let worktrees_dir = path_join(parent.as_str(), repo_name.concat("-worktrees").as_str());
    let dir_name = worktree_dir_name(issue_number, branch_name);
    let worktree_path = path_join(worktrees_dir.as_str(), dir_name.as_str());
    Ok(WorktreePlan { worktrees_dir, dir_name, worktree_path })
}

/// The finished record for a freshly created worktree: identified by the
/// digest of its path, tied to its repository, ready for work.
pub fn make_worktree_record(
    repo_path: &str,
    issue_number: i32,
    branch_name: String,
    worktree_path: &str,
    now: &str,
) -> (r: Worktree)
    ensures
        r.id@ == hex_of(sha256_of(worktree_path.spec_bytes()).take(16)),
        r.repository_id@ == repo_path@,
        r.issue_number == Some(issue_number),
        r.branch_name == branch_name,
        r.path@ == worktree_path@,
        r.status is Ready,
        r.created_at@ == now@,
        r.updated_at@ == now@,
{
    Worktree {
        id: generate_worktree_id(worktree_path),
        repository_id: repo_path.to_owned(),
        issue_number: Some(issue_number),
        branch_name,
        path: worktree_path.to_owned(),
        status: WorktreeStatus::Ready,
        created_at: now.to_owned(),
        updated_at: now.to_owned(),
    }
}

/// Whether `p` lies under the directory `d` (or is `d` itself), read off the
/// path text.
pub open spec fn is_path_prefix(d: Seq<char>, p: Seq<char>) -> bool {
    p == d || is_prefix_of(d + "/"@, p)
}

/// A porcelain record that the listing keeps: a real (non-bare) worktree
/// that lives under the repository's worktrees directory.
pub open spec fn info_kept(info: WorktreeInfo, dir: Option<Seq<char>>) -> bool {
    match dir {
        Some(d) => !info.is_bare && is_path_prefix(d, info.path@),
        None => false,
    }
}

/// The records the listing keeps, in their original order.
pub open spec fn kept_infos(infos: Seq<WorktreeInfo>, dir: Option<Seq<char>>) -> Seq<WorktreeInfo>
    decreases infos.len(),
{
    if infos.len() == 0 {
        Seq::empty()
    } else {
        let rest = kept_infos(infos.drop_last(), dir);
        if info_kept(infos.last(), dir) {
            rest.push(infos.last())
        } else {
            rest
        }
    }
}

impl Worktree {
    /// This record presents the given porcelain worktree: identifier from
    /// the path's digest, issue number from the directory name, the branch
    /// as listed (or empty), ready, with both timestamps at `now`.
    pub open spec fn presents(self, info: WorktreeInfo, repo: Seq<char>, now: Seq<char>) -> bool {
        &&& self.id@ == hex_of(sha256_of(encode_utf8(info.path@)).take(16))
        &&& self.repository_id@ == repo
        &&& self.issue_number == spec_extract_issue_number(info.path@)
        &&& self.branch_name@ == match info.branch {
            Some(b) => b@,
            None => Seq::<char>::empty(),
        }
        &&& self.path@ == info.path@
        &&& self.status is Ready
        &&& self.created_at@ == now
        &&& self.updated_at@ == now
    }
}

/// Turns git's porcelain records into worktree records: bare worktrees and
/// directories outside the repository's worktrees directory are dropped, the
/// rest are presented in listing order.
pub fn worktrees_from_list(infos: &Vec<WorktreeInfo>, repo_path: &str, now: &str) -> (r: Vec<
    Worktree,
>)
    ensures
        ({
            let kept = kept_infos(infos@, worktrees_dir_of(repo_path@));
            &&& r@.len() == kept.len()
            &&& forall|k: int|
                0 <= k < kept.len() ==> (#[trigger] r@[k]).presents(kept[k], repo_path@, now@)
        }),
{
    let dir: Option<String> = match path_parent(repo_path) {
        Some(p) => {
            let repo_name = path_file_name(repo_path);
            Some(path_join(p.as_str(), repo_name.concat("-worktrees").as_str()))
        },
        None => None,
    };
    let mut out: Vec<Worktree> = Vec::new();
    let n = infos.len();
    let mut i: usize = 0;
    while i < n
        invariant
            n == infos@.len(),
            i <= n,
            match dir {
                Some(d) => worktrees_dir_of(repo_path@) == Some(d@),
                None => worktrees_dir_of(repo_path@) is None,
            },
            ({
                let kept = kept_infos(infos@.take(i as int), worktrees_dir_of(repo_path@));
                &&& out@.len() == kept.len()
                &&& forall|k: int|
                    0 <= k < kept.len() ==> (#[trigger] out@[k]).presents(
                        kept[k],
                        repo_path@,
                        now@,
                    )
            }),
        decreases n - i,
    {
        let info = &infos[i];
        let keep = match &dir {
            Some(d) => {
                if info.is_bare {
                    false
                } else {
                    let with_sep = d.clone().concat("/");
                    str_eq(info.path.as_str(), d.as_str()) || starts_with(
                        info.path.as_str(),
                        with_sep.as_str(),
                    )
                }
            },
            None => false,
        };
        proof {
            assert(infos@.take(i as int + 1).drop_last() =~= infos@.take(i as int));
            assert(infos@.take(i as int + 1).last() == infos@[i as int]);
            assert(keep == info_kept(infos@[i as int], worktrees_dir_of(repo_path@)));
        }
        if keep {
            let branch = match &info.branch {
                Some(b) => b.clone(),
                None => String::new(),
            };
            let record = Worktree {
                id: generate_worktree_id(info.path.as_str()),
                repository_id: repo_path.to_owned(),
                issue_number: extract_issue_number(info.path.as_str()),
                branch_name: branch,
                path: info.path.clone(),
                status: WorktreeStatus::Ready,
                created_at: now.to_owned(),
                updated_at: now.to_owned(),
            };
            out.push(record);
        }
        i = i + 1;
    }
    proof {
        assert(infos@.take(n as int) =~= infos@);
    }
    out
}

} // verus!
