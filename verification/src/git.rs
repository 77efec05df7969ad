//! What the library makes of git's answers. Running git is the host's
//! business; the text git prints, and the decisions built on it, are parsed
//! and taken here, with exact contracts.

use vstd::prelude::*;
use vstd::string::StrSliceExecFns;

use crate::strutil::{
    is_prefix_of, spec_lines, split_lines, starts_with, str_eq, strip_all_prefix,
    strip_prefix_repeatedly, substring, trim, trim_of,
};

verus! {

/// One worktree as git's porcelain listing describes it.
#[derive(Debug)]
pub struct WorktreeInfo {
    pub path: String,
    pub branch: Option<String>,
    pub head: String,
    pub is_bare: bool,
}

/// The mathematical view of a porcelain worktree record.
pub ghost struct WorktreeInfoModel {
    pub path: Seq<char>,
    pub branch: Option<Seq<char>>,
    pub head: Seq<char>,
    pub is_bare: bool,
}

impl WorktreeInfo {
    pub open spec fn model(self) -> WorktreeInfoModel {
        WorktreeInfoModel {
            path: self.path@,
            branch: match self.branch {
                Some(b) => Some(b@),
                None => None,
            },
            head: self.head@,
            is_bare: self.is_bare,
        }
    }
}

/// The record the porcelain reader is in the middle of: the fields seen
/// since the last `worktree` line.
pub ghost struct PorcelainState {
    pub path: Option<Seq<char>>,
    pub head: Option<Seq<char>>,
    pub branch: Option<Seq<char>>,
    pub bare: bool,
}

/// Before any line has been read.
pub open spec fn porcelain_start() -> PorcelainState {
    PorcelainState { path: None, head: None, branch: None, bare: false }
}

/// Finishes the record in progress, if a `worktree` line opened one: its
/// head defaults to empty when the listing named none.
pub open spec fn flushed(
    acc: Seq<WorktreeInfoModel>,
    st: PorcelainState,
) -> Seq<WorktreeInfoModel> {
    match st.path {
        Some(p) => acc.push(
            WorktreeInfoModel {
                path: p,
                branch: st.branch,
                head: match st.head {
                    Some(h) => h,
                    None => Seq::empty(),
                },
                is_bare: st.bare,
            },
        ),
        None => acc,
    }
}

/// Reads porcelain lines in order: a `worktree` line finishes the previous
/// record and opens a new one, `HEAD` and `branch refs/heads/` lines fill
/// in the record's fields, a `bare` line marks it bare, anything else is
/// ignored; the last record is finished at the end of input.
pub open spec fn parse_porcelain_rec(
    lines: Seq<Seq<char>>,
    st: PorcelainState,
    acc: Seq<WorktreeInfoModel>,
) -> Seq<WorktreeInfoModel>
    decreases lines.len(),
{
    if lines.len() == 0 {
        flushed(acc, st)
    } else {
        let l = lines[0];
        let rest = lines.drop_first();
        if is_prefix_of("worktree "@, l) {
            let opened = l.skip("worktree "@.len() as int);
            if st.path is Some {
                parse_porcelain_rec(
                    rest,
                    PorcelainState { path: Some(opened), head: None, branch: None, bare: false },
                    flushed(acc, st),
                )
            } else {
                parse_porcelain_rec(rest, PorcelainState { path: Some(opened), ..st }, acc)
            }
        } else if is_prefix_of("HEAD "@, l) {
            parse_porcelain_rec(
                rest,
                PorcelainState { head: Some(l.skip("HEAD "@.len() as int)), ..st },
                acc,
            )
        } else if is_prefix_of("branch refs/heads/"@, l) {
            parse_porcelain_rec(
                rest,
                PorcelainState { branch: Some(l.skip("branch refs/heads/"@.len() as int)), ..st },
                acc,
            )
        } else if l == "bare"@ {
            parse_porcelain_rec(rest, PorcelainState { bare: true, ..st }, acc)
        } else {
            parse_porcelain_rec(rest, st, acc)
        }
    }
}

/// The worktree records a porcelain listing describes.
pub open spec fn spec_parse_worktree_list(text: Seq<char>) -> Seq<WorktreeInfoModel> {
    parse_porcelain_rec(spec_lines(text), porcelain_start(), Seq::empty())
}

/// The paths a porcelain listing names: the remainder of every line that
/// starts with `worktree `, in listing order.
pub open spec fn worktree_paths_rec(lines: Seq<Seq<char>>) -> Seq<Seq<char>>
    decreases lines.len(),
{
    if lines.len() == 0 {
        Seq::empty()
    } else if is_prefix_of("worktree "@, lines[0]) {
        seq![lines[0].skip("worktree "@.len() as int)] + worktree_paths_rec(lines.drop_first())
    } else {
        worktree_paths_rec(lines.drop_first())
    }
}

/// The operations on a repository's worktrees that are decided here:
/// parsing git's porcelain output and choosing branches and diff bases. The
/// calls into git itself stay with the host, which hands their text back.
pub struct GitService;

impl GitService {
    /// Reads a porcelain worktree listing into records, exactly as
    /// [`spec_parse_worktree_list`] says.
    pub fn parse_worktree_list_detailed(text: &str) -> (r: Vec<WorktreeInfo>)
        ensures
            r@.map_values(|w: WorktreeInfo| w.model()) == spec_parse_worktree_list(text@),
    {
        let lines = split_lines(text);
        let ghost lviews = lines@.map_values(|l: String| l@);
        let mut out: Vec<WorktreeInfo> = Vec::new();
        let mut path: Option<String> = None;
        let mut head: Option<String> = None;
        let mut branch: Option<String> = None;
        let mut bare: bool = false;
        let n = lines.len();
        let mut i: usize = 0;
        proof {
            assert(lviews.skip(0) =~= lviews);
            assert(out@.map_values(|w: WorktreeInfo| w.model()) =~= Seq::<
                WorktreeInfoModel,
            >::empty());
            reveal_strlit("worktree ");
            reveal_strlit("HEAD ");
            reveal_strlit("branch refs/heads/");
        }
        while i < n
            invariant
                n == lines@.len(),
                i <= n,
                lviews == lines@.map_values(|l: String| l@),
                spec_parse_worktree_list(text@) == parse_porcelain_rec(
                    lviews.skip(i as int),
                    PorcelainState {
                        path: match path {
                            Some(p) => Some(p@),
                            None => None,
                        },
                        head: match head {
                            Some(h) => Some(h@),
                            None => None,
                        },
                        branch: match branch {
                            Some(b) => Some(b@),
                            None => None,
                        },
                        bare: bare,
                    },
                    out@.map_values(|w: WorktreeInfo| w.model()),
                ),
                "worktree "@.len() == 9,
                "HEAD "@.len() == 5,
                "branch refs/heads/"@.len() == 18,
            decreases n - i,
        {
            let l = &lines[i];
            let llen = l.as_str().unicode_len();
            proof {
                assert(lviews.skip(i as int)[0] == lviews[i as int]);
                assert(lviews.skip(i as int).drop_first() =~= lviews.skip(i as int + 1));
            }
            if starts_with(l.as_str(), "worktree ") {
                let opened = substring(l.as_str(), 9, llen);
                let prev = path;
                match prev {
                    Some(p) => {
                        let b = branch;
                        branch = None;
                        let h = head;
                        head = None;
                        let head_text = match h {
                            Some(x) => x,
                            None => String::new(),
                        };
                        let record = WorktreeInfo {
                            path: p,
                            branch: b,
                            head: head_text,
                            is_bare: bare,
                        };
                        proof {
                            assert(out@.push(record).map_values(|w: WorktreeInfo| w.model())
                                =~= out@.map_values(|w: WorktreeInfo| w.model()).push(
                                record.model(),
                            ));
                        }
                        out.push(record);
                        bare = false;
                    },
                    None => {},
                }
                path = Some(opened);
            } else if starts_with(l.as_str(), "HEAD ") {
                head = Some(substring(l.as_str(), 5, llen));
            } else if starts_with(l.as_str(), "branch refs/heads/") {
                branch = Some(substring(l.as_str(), 18, llen));
            } else if str_eq(l.as_str(), "bare") {
                bare = true;
            }
            i = i + 1;
        }
        proof {
            assert(lviews.skip(n as int) =~= Seq::<Seq<char>>::empty());
        }
        let prev = path;
        match prev {
            Some(p) => {
                let head_text = match head {
                    Some(x) => x,
                    None => String::new(),
                };
                let record = WorktreeInfo { path: p, branch, head: head_text, is_bare: bare };
                proof {
                    assert(out@.push(record).map_values(|w: WorktreeInfo| w.model())
                        =~= out@.map_values(|w: WorktreeInfo| w.model()).push(record.model()));
                }
                out.push(record);
            },
            None => {},
        }
        out
    }

    /// Reads the worktree paths out of a porcelain listing, exactly as
    /// [`worktree_paths_rec`] over the listing's lines says.
    pub fn parse_worktree_list(text: &str) -> (r: Vec<String>)
        ensures
            r@.map_values(|p: String| p@) == worktree_paths_rec(spec_lines(text@)),
    {
        let lines = split_lines(text);
        let ghost lviews = lines@.map_values(|l: String| l@);
        let mut out: Vec<String> = Vec::new();
        let n = lines.len();
        let mut i: usize = 0;
        proof {
            assert(lviews.skip(0) =~= lviews);
            assert(out@.map_values(|p: String| p@) =~= Seq::<Seq<char>>::empty());
            reveal_strlit("worktree ");
        }
        while i < n
            invariant
                n == lines@.len(),
                i <= n,
                lviews == lines@.map_values(|l: String| l@),
                worktree_paths_rec(lviews) == out@.map_values(|p: String| p@)
                    + worktree_paths_rec(lviews.skip(i as int)),
                "worktree "@.len() == 9,
            decreases n - i,
        {
            let l = &lines[i];
            proof {
                assert(lviews.skip(i as int)[0] == lviews[i as int]);
                assert(lviews.skip(i as int).drop_first() =~= lviews.skip(i as int + 1));
            }
            if starts_with(l.as_str(), "worktree ") {
                let p = substring(l.as_str(), 9, l.as_str().unicode_len());
                proof {
                    assert(out@.push(p).map_values(|q: String| q@) =~= out@.map_values(
                        |q: String| q@,
                    ).push(p@));
                    assert(out@.map_values(|q: String| q@).push(lviews[i as int].skip(9))
                        + worktree_paths_rec(lviews.skip(i as int + 1)) =~= out@.map_values(
                        |q: String| q@,
                    ) + (seq![lviews[i as int].skip(9)] + worktree_paths_rec(
                        lviews.skip(i as int + 1),
                    )));
                }
                out.push(p);
            }
            i = i + 1;
        }
        proof {
            assert(lviews.skip(n as int) =~= Seq::<Seq<char>>::empty());
            assert(out@.map_values(|p: String| p@) + Seq::<Seq<char>>::empty() =~= out@.map_values(
                |p: String| p@,
            ));
        }
        out
    }

    /// Chooses the repository's default branch from what git answered: the
    /// symbolic reference of the remote head when that lookup succeeded
    /// (trimmed, with every leading `origin/` removed), else `main` if it
    /// exists, else `master` if it exists, else an error.
    pub fn choose_default_branch(
        sym_ok: bool,
        sym_stdout: &str,
        main_exists: bool,
        master_exists: bool,
    ) -> (r: Result<String, String>)
        ensures
            match r {
                Ok(b) => {
                    if sym_ok {
                        b@ == strip_all_prefix(trim_of(sym_stdout@), "origin/"@)
                    } else if main_exists {
                        b@ == "main"@
                    } else {
                        master_exists && b@ == "master"@
                    }
                },
                Err(m) => !sym_ok && !main_exists && !master_exists && m@
                    == "Cannot determine default branch: neither 'main' nor 'master' exists"@,
            },
    {
        if sym_ok {
            let trimmed = trim(sym_stdout);
            return Ok(strip_prefix_repeatedly(trimmed.as_str(), "origin/"));
        }
        if main_exists {
            return Ok("main".to_owned());
        }
        if master_exists {
            return Ok("master".to_owned());
        }
        Err("Cannot determine default branch: neither 'main' nor 'master' exists".to_owned())
    }

    /// Chooses what to diff against: the merge base git reported (trimmed)
    /// when the lookup succeeded, else the base branch name itself.
    pub fn pick_diff_base(mb_ok: bool, mb_stdout: &str, base_branch: &str) -> (r: String)
        ensures
            mb_ok ==> r@ == trim_of(mb_stdout@),
            !mb_ok ==> r@ == base_branch@,
    {
        if mb_ok {
            trim(mb_stdout)
        } else {
            base_branch.to_owned()
        }
    }
}

} // verus!
