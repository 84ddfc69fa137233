//! What is handed to the two sources and to the external viewer: the base
//! reference, the arguments of a diff and the viewer's command line.

use vstd::prelude::*;
use vstd::string::*;
use crate::model::{text_view, FileItem, ViewMode};
use crate::parse::{shell_quote, shell_quoted};
use crate::text::{trim_text, trimmed};

verus! {

/// The base reference that is used when probe number `i` is the first to
/// succeed, in the order in which the conventional names are probed.
pub open spec fn base_candidate(i: int) -> Seq<char> {
    if i == 0 {
        "trunk()"@
    } else if i == 1 {
        "main@origin"@
    } else if i == 2 {
        "master@origin"@
    } else if i == 3 {
        "main"@
    } else if i == 4 {
        "master"@
    } else {
        "root()"@
    }
}

/// The number of conventional names that are probed.
pub const BASE_CANDIDATES: usize = 5;

/// The index of the first probe at or after `from` that succeeded, or the
/// number of candidates when none did.
pub open spec fn first_found(found: Seq<bool>, from: int) -> int
    decreases BASE_CANDIDATES - from,
{
    if from < 0 || from >= BASE_CANDIDATES as int {
        BASE_CANDIDATES as int
    } else if from < found.len() && found[from] {
        from
    } else {
        first_found(found, from + 1)
    }
}

/// The conventional name with index `i`, or the root sentinel for an index
/// beyond the last name.
pub fn base_name(i: usize) -> (out: String)
    ensures
        out@ == base_candidate(i as int),
{
    if i == 0 {
        String::from_str("trunk()")
    } else if i == 1 {
        String::from_str("main@origin")
    } else if i == 2 {
        String::from_str("master@origin")
    } else if i == 3 {
        String::from_str("main")
    } else if i == 4 {
        String::from_str("master")
    } else {
        String::from_str("root()")
    }
}

/// The default base reference: the first conventional name whose probe
/// succeeded (`found[i]` for name `i`), or the root sentinel when none did.
pub fn resolve_default_base(found: &Vec<bool>) -> (out: String)
    ensures
        out@ == base_candidate(first_found(found@, 0)),
{
    let mut i: usize = 0;
    while i < BASE_CANDIDATES
        invariant
            i <= BASE_CANDIDATES,
            first_found(found@, 0) == first_found(found@, i as int),
        decreases BASE_CANDIDATES - i,
    {
        if i < found.len() && found[i] {
            return base_name(i);
        }
        i += 1;
    }
    base_name(BASE_CANDIDATES)
}

/// The identifier of the empty tree, against which a commit without a
/// parent is compared.
pub open spec fn empty_tree() -> Seq<char> {
    "4b825dc642cb6eb9a060e54bf8d69288fbee4904"@
}

/// The revision that a queue commit is compared with: what the lookup of
/// its parent printed, without surrounding white space, or the empty tree
/// when the lookup failed or printed nothing.
pub fn queue_parent(lookup: Result<String, String>) -> (out: String)
    ensures
        out@ == match lookup {
            Ok(printed) => if trimmed(printed@).len() > 0 {
                trimmed(printed@)
            } else {
                empty_tree()
            },
            Err(_) => empty_tree(),
        },
{
    match lookup {
        Ok(printed) => {
            let parent = trim_text(printed.as_str());
            if parent.as_str().unicode_len() > 0 {
                parent
            } else {
                String::from_str("4b825dc642cb6eb9a060e54bf8d69288fbee4904")
            }
        },
        Err(_) => String::from_str("4b825dc642cb6eb9a060e54bf8d69288fbee4904"),
    }
}

/// The arguments with which the stack source lists the files of
/// `commit_id`.
pub fn load_stack_files(commit_id: &str) -> (args: Vec<String>)
    ensures
        text_view(args@) == seq![
            "diff"@,
            "-r"@,
            commit_id@,
            "--name-status"@,
            "--color"@,
            "never"@,
        ],
{
    let mut args: Vec<String> = Vec::new();
    args.push(String::from_str("diff"));
    args.push(String::from_str("-r"));
    args.push(String::from_str(commit_id));
    args.push(String::from_str("--name-status"));
    args.push(String::from_str("--color"));
    args.push(String::from_str("never"));
    proof {
        assert(text_view(args@) =~= seq![
            "diff"@,
            "-r"@,
            commit_id@,
            "--name-status"@,
            "--color"@,
            "never"@,
        ]);
    }
    args
}

/// The arguments with which the queue source lists the files of
/// `commit_id`, renames detected and a root commit compared with nothing.
pub fn load_queue_files(commit_id: &str) -> (args: Vec<String>)
    ensures
        text_view(args@) == seq![
            "diff-tree"@,
            "--root"@,
            "--no-commit-id"@,
            "--name-status"@,
            "-r"@,
            "-M"@,
            commit_id@,
        ],
{
    let mut args: Vec<String> = Vec::new();
    args.push(String::from_str("diff-tree"));
    args.push(String::from_str("--root"));
    args.push(String::from_str("--no-commit-id"));
    args.push(String::from_str("--name-status"));
    args.push(String::from_str("-r"));
    args.push(String::from_str("-M"));
    args.push(String::from_str(commit_id));
    proof {
        assert(text_view(args@) =~= seq![
            "diff-tree"@,
            "--root"@,
            "--no-commit-id"@,
            "--name-status"@,
            "-r"@,
            "-M"@,
            commit_id@,
        ]);
    }
    args
}

/// The path restriction at the end of a diff's arguments.
pub open spec fn path_args(file: Option<&FileItem>) -> Seq<Seq<char>> {
    match file {
        Some(f) => seq!["--"@, f.path@],
        None => Seq::<Seq<char>>::empty(),
    }
}

/// The arguments of the stack source's diff of `commit_id`, restricted to
/// `file` if one is given.
pub fn load_stack_diff(commit_id: &str, file: Option<&FileItem>) -> (args: Vec<String>)
    ensures
        text_view(args@) == seq!["diff"@, "-r"@, commit_id@, "--color"@, "never"@] + path_args(file),
{
    let mut args: Vec<String> = Vec::new();
    args.push(String::from_str("diff"));
    args.push(String::from_str("-r"));
    args.push(String::from_str(commit_id));
    args.push(String::from_str("--color"));
    args.push(String::from_str("never"));
    match file {
        Some(f) => {
            args.push(String::from_str("--"));
            args.push(f.path.clone());
        },
        None => {},
    }
    proof {
        assert(text_view(args@) =~= seq!["diff"@, "-r"@, commit_id@, "--color"@, "never"@]
            + path_args(file));
    }
    args
}

/// The arguments of the queue source's diff of `commit_id` against
/// `parent`, restricted to `file` if one is given.
pub fn load_queue_diff(parent: &str, commit_id: &str, file: Option<&FileItem>) -> (args: Vec<String>)
    ensures
        text_view(args@) == seq!["diff"@, parent@, commit_id@, "--color"@, "never"@] + path_args(
            file,
        ),
{
    let mut args: Vec<String> = Vec::new();
    args.push(String::from_str("diff"));
    args.push(String::from_str(parent));
    args.push(String::from_str(commit_id));
    args.push(String::from_str("--color"));
    args.push(String::from_str("never"));
    match file {
        Some(f) => {
            args.push(String::from_str("--"));
            args.push(f.path.clone());
        },
        None => {},
    }
    proof {
        assert(text_view(args@) =~= seq!["diff"@, parent@, commit_id@, "--color"@, "never"@]
            + path_args(file));
    }
    args
}

/// The end of the viewer's diff command: the quoted path, if a file is
/// given.
pub open spec fn viewer_path(file: Option<&FileItem>) -> Seq<char> {
    match file {
        Some(f) => " -- "@ + shell_quoted(f.path@),
        None => Seq::<char>::empty(),
    }
}

/// The diff command of the source, before the path and the pager.
pub open spec fn source_command(mode: ViewMode, commit_id: Seq<char>, parent: Seq<char>) -> Seq<char> {
    match mode {
        ViewMode::Stack => "jj diff -r "@ + commit_id + " --color always"@,
        ViewMode::Queue => "git diff --color=always "@ + parent + " "@ + commit_id,
    }
}

/// The shell pipeline that shows a diff in the external viewer: the diff
/// command of the source, in colour, restricted to the file if one is
/// given, piped into `pager`.
pub open spec fn viewer_pipeline(
    mode: ViewMode,
    commit_id: Seq<char>,
    file: Option<&FileItem>,
    parent: Seq<char>,
    pager: Seq<char>,
) -> Seq<char> {
    source_command(mode, commit_id, parent) + viewer_path(file) + " | "@ + pager
}

/// Builds the shell pipeline that shows the diff of `commit_id`, restricted
/// to `file` if one is given, in the external viewer. `parent` is read in
/// queue mode only.
pub fn viewer_command(
    mode: ViewMode,
    commit_id: &str,
    file: Option<&FileItem>,
    parent: &str,
    pager: &str,
) -> (out: String)
    ensures
        out@ == viewer_pipeline(mode, commit_id@, file, parent@, pager@),
{
    let mut out = String::new();
    match mode {
        ViewMode::Stack => {
            out.append("jj diff -r ");
            out.append(commit_id);
            out.append(" --color always");
            proof {
                assert(out@ =~= "jj diff -r "@ + commit_id@ + " --color always"@);
            }
        },
        ViewMode::Queue => {
            out.append("git diff --color=always ");
            out.append(parent);
            out.append(" ");
            out.append(commit_id);
            proof {
                assert(out@ =~= "git diff --color=always "@ + parent@ + " "@ + commit_id@);
            }
        },
    }
    match file {
        Some(f) => {
            out.append(" -- ");
            let quoted = shell_quote(f.path.as_str());
            out.append(quoted.as_str());
            proof {
                assert(out@ =~= source_command(mode, commit_id@, parent@) + viewer_path(file));
            }
        },
        None => {
            proof {
                assert(out@ =~= source_command(mode, commit_id@, parent@) + viewer_path(file));
            }
        },
    }
    out.append(" | ");
    out.append(pager);
    out
}

} // verus!
