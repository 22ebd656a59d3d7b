//! The selection engine: turns the invocation's target specifier into
//! the working set of entries, and detects the one situation in which a
//! new stub entry is declared instead (an unknown name under `add`).

use vstd::prelude::*;
use crate::error::GitStuError;
use crate::model::EntryView;
use crate::model::GitRemote;
use crate::model::GitStuConfig;
use crate::model::SubtreeConfig;
use crate::registry::first_named;
use crate::registry::has_name;
use crate::registry::lemma_first_named_at;

verus! {

/// What one invocation is aimed at: a single named subtree, every
/// registered subtree, or every subtree declared for a given branch.
pub enum TargetSpec {
    Named(String),
    All,
    AllFilteredByBranch(String),
}

/// The subcommands that operate on selected entries.
#[derive(Clone, Copy, Debug, PartialEq, Eq, Structural)]
pub enum Subcommand {
    Add,
    Pull,
    Push,
}

/// A successful selection: either existing entries to work on, or the
/// signal that an unknown name under `add` calls for a new stub entry.
pub enum Selection {
    Existing(Vec<SubtreeConfig>),
    NewEntryNeeded,
}

/// Does this entry declare exactly the branch `b`?  Entries with no
/// branch set match nothing.
pub open spec fn entry_has_branch(e: EntryView, b: Seq<char>) -> bool {
    e.branch == Some(b)
}

/// The entries of `s` declared for branch `b`, in their original order.
pub open spec fn filter_branch(s: Seq<EntryView>, b: Seq<char>) -> Seq<EntryView>
    decreases s.len(),
{
    if s.len() == 0 {
        s
    } else {
        let rest = filter_branch(s.drop_last(), b);
        if entry_has_branch(s.last(), b) {
            rest.push(s.last())
        } else {
            rest
        }
    }
}

/// An entry is selected by the branch filter exactly when it occurs in
/// the input and declares the filtered branch.
pub proof fn lemma_filter_branch_selects(s: Seq<EntryView>, b: Seq<char>)
    ensures
        forall|e: EntryView|
            #[trigger] filter_branch(s, b).contains(e) == (s.contains(e) && entry_has_branch(
                e,
                b,
            )),
    decreases s.len(),
{
    if s.len() > 0 {
        let front = s.drop_last();
        lemma_filter_branch_selects(front, b);
        assert forall|e: EntryView| true implies #[trigger] s.contains(e) == (front.contains(e)
            || e == s.last()) by {
            if front.contains(e) {
                let i = choose|i: int| 0 <= i < front.len() && front[i] == e;
                assert(s[i] == e);
            }
            if s.contains(e) {
                let i = choose|i: int| 0 <= i < s.len() && s[i] == e;
                if i < front.len() {
                    assert(front[i] == e);
                }
            }
            if e == s.last() {
                assert(s[s.len() - 1] == e);
            }
        }
        let rest = filter_branch(front, b);
        if entry_has_branch(s.last(), b) {
            assert forall|e: EntryView| true implies #[trigger] rest.push(s.last()).contains(e)
                == (rest.contains(e) || e == s.last()) by {
                if rest.contains(e) {
                    let i = choose|i: int| 0 <= i < rest.len() && rest[i] == e;
                    assert(rest.push(s.last())[i] == e);
                }
                if e == s.last() {
                    assert(rest.push(s.last())[rest.len() as int] == e);
                }
                if rest.push(s.last()).contains(e) {
                    let i = choose|i: int|
                        0 <= i < rest.push(s.last()).len() && rest.push(s.last())[i] == e;
                    if i < rest.len() {
                        assert(rest[i] == e);
                    }
                }
            }
        }
    }
}

/// Returns copies of the entries of `v` declared for branch `b`.
pub fn entries_with_branch(v: &Vec<SubtreeConfig>, b: &String) -> (r: Vec<SubtreeConfig>)
    ensures
        r.deep_view() == filter_branch(v.deep_view(), b@),
{
    let ghost dv = v.deep_view();
    let mut out: Vec<SubtreeConfig> = Vec::new();
    let mut i: usize = 0;
    proof {
        assert(dv.take(0) =~= Seq::<EntryView>::empty());
        assert(out.deep_view() =~= filter_branch(dv.take(0), b@));
    }
    while i < v.len()
        invariant
            i <= v@.len(),
            dv == v.deep_view(),
            dv.len() == v@.len(),
            out.deep_view() == filter_branch(dv.take(i as int), b@),
        decreases v@.len() - i,
    {
        let ghost out_pre = out.deep_view();
        proof {
            assert(dv.take(i + 1).drop_last() =~= dv.take(i as int));
            assert(dv.take(i + 1).last() == dv[i as int]);
            assert(dv[i as int] == v@[i as int]@);
        }
        let matched = match &v[i].branch {
            Some(x) => *x == *b,
            None => false,
        };
        proof {
            assert(matched == entry_has_branch(dv[i as int], b@));
        }
        if matched {
            let copy = v[i].clone();
            out.push(copy);
            proof {
                assert(out.deep_view() =~= out_pre.push(dv[i as int]));
            }
        }
        i = i + 1;
    }
    proof {
        assert(dv.take(i as int) =~= dv);
    }
    out
}

/// Index of the first entry named `name`, if any.
pub fn find_entry(v: &Vec<SubtreeConfig>, name: &String) -> (r: Option<usize>)
    ensures
        (match r {
            Some(i) => i < v@.len() && v@[i as int].name@ == name@ && (forall|j: int|
                0 <= j < i ==> #[trigger] v@[j].name@ != name@),
            None => !has_name(v@, name@),
        }),
{
    let mut i: usize = 0;
    while i < v.len()
        invariant
            i <= v@.len(),
            forall|j: int| 0 <= j < i ==> #[trigger] v@[j].name@ != name@,
        decreases v@.len() - i,
    {
        if v[i].name == *name {
            return Some(i);
        }
        i = i + 1;
    }
    None
}

/// Selects the working set for one invocation.
///
/// `All` selects every entry; `AllFilteredByBranch(b)` exactly those
/// declared for `b`; `Named(n)` the first entry named `n`.  An unknown
/// name is an error — except under `add`, where it instead calls for a
/// new stub entry.  The registry itself is never changed here.
pub fn select_entries(config: &GitStuConfig, target: &TargetSpec, cmd: Subcommand) -> (r: Result<
    Selection,
    GitStuError,
>)
    ensures
        (match target {
            TargetSpec::All => (match r {
                Ok(Selection::Existing(v)) => v.deep_view() == config.subtrees.deep_view(),
                _ => false,
            }),
            TargetSpec::AllFilteredByBranch(b) => (match r {
                Ok(Selection::Existing(v)) => v.deep_view() == filter_branch(
                    config.subtrees.deep_view(),
                    b@,
                ),
                _ => false,
            }),
            TargetSpec::Named(n) => (if has_name(config.subtrees@, n@) {
                match r {
                    Ok(Selection::Existing(v)) => v@.len() == 1 && v@[0]@ == first_named(
                        config.subtrees@,
                        n@,
                    )@,
                    _ => false,
                }
            } else if cmd == Subcommand::Add {
                r matches Ok(Selection::NewEntryNeeded)
            } else {
                match r {
                    Err(GitStuError::SubtreeNotRegistered(m)) => m@ == n@,
                    _ => false,
                }
            }),
        }),
{
    match target {
        TargetSpec::All => {
            let ghost dv = config.subtrees.deep_view();
            let copy = config.subtrees.clone();
            proof {
                assert(copy.deep_view() =~= config.subtrees.deep_view());
            }
            Ok(Selection::Existing(copy))
        },
        TargetSpec::AllFilteredByBranch(b) => Ok(
            Selection::Existing(entries_with_branch(&config.subtrees, b)),
        ),
        TargetSpec::Named(n) => match find_entry(&config.subtrees, n) {
            Some(i) => {
                proof {
                    lemma_first_named_at(config.subtrees@, n@, i as int);
                }
                let mut v: Vec<SubtreeConfig> = Vec::new();
                v.push(config.subtrees[i].clone());
                Ok(Selection::Existing(v))
            },
            None => {
                if matches!(cmd, Subcommand::Add) {
                    Ok(Selection::NewEntryNeeded)
                } else {
                    Err(GitStuError::SubtreeNotRegistered(n.clone()))
                }
            },
        },
    }
}

/// A freshly resolved stub entry, carrying exactly the resolved values.
pub fn make_entry(name: String, prefix: String, branch: String, remote: GitRemote) -> (r:
    SubtreeConfig)
    ensures
        r.name == name,
        r.prefix == prefix,
        r.branch == Some(branch),
        r.remote == Some(remote),
{
    SubtreeConfig { name, prefix, branch: Some(branch), remote: Some(remote) }
}

/// Declares a new entry: it is appended at the end of the registry's
/// entry list, which is otherwise untouched, as are the options.
pub fn register_new_entry(config: GitStuConfig, entry: SubtreeConfig) -> (r: GitStuConfig)
    ensures
        r.subtrees@ == config.subtrees@.push(entry),
        r.mode == config.mode,
        r.squash == config.squash,
{
    let GitStuConfig { squash, mode, subtrees } = config;
    let mut subtrees = subtrees;
    subtrees.push(entry);
    GitStuConfig { squash, mode, subtrees }
}

} // verus!
