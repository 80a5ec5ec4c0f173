//! Paths inside the workspace, and the self-update of the installed binaries:
//! the install command and the Python script that reinstalls and relaunches.
use vstd::prelude::*;

use crate::path_text::{
    file_name_start, root_len, root_length, forward_slashes, join, join_path, strip_path_prefix, strip_prefix,
    to_forward_slashes, final_component_start,
};
use crate::text::{chars_of, decimal_text, push_decimal, string_of_chars};

verus! {

/// `path` resolved against the workspace `root`: an absolute path is kept,
/// a relative one is joined onto the root.
pub fn workspace_path(root: &str, path: &str) -> (p: String)
    ensures
        p@ == join_path(root@, path@),
        crate::path_text::is_absolute_path(path@) ==> p@ == path@,
{
    join(root, path)
}

/// The cache directory of the workspace (`<root>/cache`).
pub fn workspace_cache_root(root: &str) -> (p: String)
    ensures
        p@ == join_path(root@, "cache"@),
{
    workspace_path(root, "cache")
}

/// The log directory of the workspace (`<root>/log`).
pub fn workspace_log_root(root: &str) -> (p: String)
    ensures
        p@ == join_path(root@, "log"@),
{
    workspace_path(root, "log")
}

/// How a path is shown to the user: relative to the workspace root when it
/// lies inside it, with forward slashes.
pub open spec fn relative_display_path(root: Seq<char>, path: Seq<char>) -> Seq<char> {
    forward_slashes(
        match strip_path_prefix(path, root) {
            Some(rel) => rel,
            None => path,
        },
    )
}

/// Shows `path` relative to the workspace root, as `relative_display_path`
/// says.
pub fn workspace_relative_display_path(root: &str, path: &str) -> (s: String)
    ensures
        s@ == relative_display_path(root@, path@),
{
    match strip_prefix(path, root) {
        Some(rel) => to_forward_slashes(rel.as_str()),
        None => to_forward_slashes(path),
    }
}

/// The parent of a path: `None` for the empty path and for a root alone;
/// the root for a path whose one component follows its root; the empty path
/// for a single relative component.
pub open spec fn parent_path(p: Seq<char>) -> Option<Seq<char>> {
    let root = root_len(p);
    if p.len() == 0 || p.len() == root {
        None
    } else {
        let start = file_name_start(p);
        if start == 0 {
            Some(Seq::empty())
        } else if start <= root {
            Some(p.take(root))
        } else {
            Some(p.take(start - 1))
        }
    }
}

/// The parent of `path`, as `parent_path` says.
pub fn parent(path: &str) -> (r: Option<String>)
    ensures
        match parent_path(path@) {
            Some(q) => r matches Some(s) && s@ == q,
            None => r is None,
        },
{
    let v = chars_of(path);
    let root = root_length(&v);
    if v.len() == 0 || v.len() == root {
        return None;
    }
    let start = final_component_start(&v);
    proof {
        crate::path_text::lemma_file_name_start_bounds(v@);
    }
    if start == 0 {
        Some(String::new())
    } else if start <= root {
        let mut out: Vec<char> = Vec::new();
        let mut k: usize = 0;
        while k < root
            invariant
                root <= v.len(),
                k <= root,
                out@ == v@.take(k as int),
            decreases root - k,
        {
            out.push(v[k]);
            assert(v@.take(k + 1) =~= v@.take(k as int).push(v@[k as int]));
            k = k + 1;
        }
        Some(string_of_chars(&out))
    } else {
        let mut out: Vec<char> = Vec::new();
        let mut k: usize = 0;
        while k < start - 1
            invariant
                1 < start <= v.len(),
                k <= start - 1,
                out@ == v@.take(k as int),
            decreases start - 1 - k,
        {
            out.push(v[k]);
            assert(v@.take(k + 1) =~= v@.take(k as int).push(v@[k as int]));
            k = k + 1;
        }
        Some(string_of_chars(&out))
    }
}

/// The root used when no workspace is found from the environment, the
/// current directory or the executable: two levels above the crate's
/// manifest directory, or the manifest directory itself.
pub open spec fn fallback_root(manifest_dir: Seq<char>) -> Seq<char> {
    match parent_path(manifest_dir) {
        Some(p1) => match parent_path(p1) {
            Some(p2) => p2,
            None => manifest_dir,
        },
        None => manifest_dir,
    }
}

/// The fallback workspace root, as `fallback_root` says.
pub fn fallback_workspace_root(manifest_dir: &str) -> (r: String)
    ensures
        r@ == fallback_root(manifest_dir@),
{
    match parent(manifest_dir) {
        Some(p1) => match parent(p1.as_str()) {
            Some(p2) => p2,
            None => String::from_str(manifest_dir),
        },
        None => String::from_str(manifest_dir),
    }
}

/// The first of the candidate roots that was found, else the fallback: the
/// environment's choice wins over the current directory, which wins over the
/// executable's directory.
pub open spec fn chosen_root(
    from_env: Option<Seq<char>>,
    from_current_dir: Option<Seq<char>>,
    from_current_exe: Option<Seq<char>>,
    fallback: Seq<char>,
) -> Seq<char> {
    match from_env {
        Some(r) => r,
        None => match from_current_dir {
            Some(r) => r,
            None => match from_current_exe {
                Some(r) => r,
                None => fallback,
            },
        },
    }
}

/// The view of an optional string.
pub open spec fn opt_view(o: Option<String>) -> Option<Seq<char>> {
    match o {
        Some(s) => Some(s@),
        None => None,
    }
}

/// Picks the workspace root among the candidates found, as `chosen_root`
/// says.
pub fn workspace_root(
    from_env: Option<String>,
    from_current_dir: Option<String>,
    from_current_exe: Option<String>,
    fallback: String,
) -> (r: String)
    ensures
        r@ == chosen_root(
            opt_view(from_env),
            opt_view(from_current_dir),
            opt_view(from_current_exe),
            fallback@,
        ),
{
    match from_env {
        Some(r) => r,
        None => match from_current_dir {
            Some(r) => r,
            None => match from_current_exe {
                Some(r) => r,
                None => fallback,
            },
        },
    }
}

/// A path followed by each of its ancestors, nearest first.
pub open spec fn ancestors_of(p: Seq<char>) -> Seq<Seq<char>>
    decreases p.len(),
{
    match parent_path(p) {
        Some(q) => if q.len() < p.len() {
            seq![p] + ancestors_of(q)
        } else {
            seq![p]
        },
        None => seq![p],
    }
}

proof fn lemma_parent_shorter(p: Seq<char>)
    ensures
        parent_path(p) matches Some(q) ==> q.len() < p.len(),
{
    if parent_path(p) is Some {
        crate::path_text::lemma_file_name_start_bounds(p);
    }
}

/// `path` and its ancestors, nearest first: the directories searched for the
/// workspace.
pub fn path_ancestors(path: &str) -> (r: Vec<String>)
    ensures
        r@.map_values(|s: String| s@) == ancestors_of(path@),
{
    let mut r: Vec<String> = Vec::new();
    let mut current = String::from_str(path);
    let ghost mut done: Seq<Seq<char>> = Seq::empty();
    loop
        invariant
            r@.map_values(|s: String| s@) == done,
            done + ancestors_of(current@) == ancestors_of(path@),
        decreases current@.len(),
    {
        proof {
            lemma_parent_shorter(current@);
        }
        let next = parent(current.as_str());
        let ghost cur = current@;
        r.push(current);
        proof {
            done = done.push(cur);
            assert(r@.map_values(|s: String| s@) =~= done);
        }
        match next {
            Some(n) => {
                assert(ancestors_of(cur) == seq![cur] + ancestors_of(n@));
                assert(done + ancestors_of(n@) =~= (done.drop_last() + ancestors_of(cur)));
                current = n;
            },
            None => {
                assert(ancestors_of(cur) == seq![cur]);
                assert(done =~= done.drop_last() + ancestors_of(cur));
                return r;
            },
        }
    }
}

/// The repository the binaries are installed from.
pub open spec fn update_git_url() -> Seq<char> {
    "https://github.com/cat2151/mascot-render-server"@
}

/// The command that reinstalls the workspace binaries by hand.
pub open spec fn install_command() -> Seq<char> {
    "cargo install --force --git "@ + update_git_url() + " "@ + "mascot-render-server psd-viewer-tui"@
}

/// The command that reinstalls the workspace binaries by hand.
pub fn workspace_install_command() -> (s: String)
    ensures
        s@ == install_command(),
{
    let mut s = String::from_str("cargo install --force --git ");
    s.append("https://github.com/cat2151/mascot-render-server");
    s.append(" ");
    s.append("mascot-render-server psd-viewer-tui");
    s
}

/// The owner of the repository the workspace is updated from.
pub open spec fn update_repo_owner() -> Seq<char> {
    "cat2151"@
}

/// The repository the workspace is updated from.
pub open spec fn update_repo_name() -> Seq<char> {
    "mascot-render-server"@
}

/// The binaries a workspace update reinstalls.
pub fn update_targets() -> (v: Vec<String>)
    ensures
        v@.map_values(|s: String| s@) == seq!["mascot-render-server"@, "psd-viewer-tui"@],
{
    let mut v: Vec<String> = Vec::new();
    v.push(String::from_str("mascot-render-server"));
    v.push(String::from_str("psd-viewer-tui"));
    assert(v@.map_values(|s: String| s@) =~= seq!["mascot-render-server"@, "psd-viewer-tui"@]);
    v
}

/// Why a workspace update failed.
#[derive(Debug, Clone, PartialEq, Eq)]
pub struct WorkspaceUpdateError {
    /// What the updater reported.
    pub detail: String,
}

/// The full text of an update failure: the manual reinstall command, then
/// the updater's report.
pub open spec fn update_failure_text(detail: Seq<char>) -> Seq<char> {
    "manual reinstall command: "@ + install_command() + ": failed to update workspace: "@ + detail
}

impl WorkspaceUpdateError {
    /// The full text of this failure, as `update_failure_text` says.
    pub fn message(&self) -> (s: String)
        ensures
            s@ == update_failure_text(self.detail@),
    {
        let mut s = String::from_str("manual reinstall command: ");
        let cmd = workspace_install_command();
        s.append(cmd.as_str());
        s.append(": failed to update workspace: ");
        s.append(self.detail.as_str());
        s
    }
}

/// What an update attempt returns, given what the updater reported: success,
/// or the report wrapped as a `WorkspaceUpdateError`.
pub fn run_workspace_update(updater_result: Result<(), String>) -> (r: Result<
    (),
    WorkspaceUpdateError,
>)
    ensures
        match updater_result {
            Ok(()) => r is Ok,
            Err(detail) => r matches Err(e) && e.detail == detail,
        },
{
    match updater_result {
        Ok(()) => Ok(()),
        Err(detail) => Err(WorkspaceUpdateError { detail }),
    }
}

/// `c` escaped for a single-quoted Python string.
pub open spec fn escape_py_char(c: char) -> Seq<char> {
    if c == '\\' {
        seq!['\\', '\\']
    } else if c == '\'' {
        seq!['\\', '\'']
    } else {
        seq![c]
    }
}

/// `s` escaped for a single-quoted Python string: backslashes and single
/// quotes get a backslash before them.
pub open spec fn escape_py(s: Seq<char>) -> Seq<char>
    decreases s.len(),
{
    if s.len() == 0 {
        Seq::empty()
    } else {
        escape_py(s.drop_last()) + escape_py_char(s.last())
    }
}

/// Escapes `input` for a single-quoted Python string.
pub fn escape_py_single_quoted(input: &str) -> (s: String)
    ensures
        s@ == escape_py(input@),
{
    let v = chars_of(input);
    let mut out = String::new();
    let mut i: usize = 0;
    while i < v.len()
        invariant
            i <= v.len(),
            out@ == escape_py(v@.take(i as int)),
        decreases v.len() - i,
    {
        let ch = v[i];
        if ch == '\\' {
            out.push('\\');
            out.push('\\');
        } else if ch == '\'' {
            out.push('\\');
            out.push('\'');
        } else {
            out.push(ch);
        }
        assert(v@.take(i + 1).drop_last() =~= v@.take(i as int));
        assert(out@ =~= escape_py(v@.take(i as int)) + escape_py_char(ch));
        i = i + 1;
    }
    assert(v@.take(v.len() as int) =~= v@);
    out
}

/// `'<escaped s>'`.
pub open spec fn py_quoted(s: Seq<char>) -> Seq<char> {
    seq!['\''] + escape_py(s) + seq!['\'']
}

/// The quoted items of a Python list, separated by `, `.
pub open spec fn py_items(parts: Seq<Seq<char>>) -> Seq<char>
    decreases parts.len(),
{
    if parts.len() == 0 {
        Seq::empty()
    } else if parts.len() == 1 {
        py_quoted(parts[0])
    } else {
        py_items(parts.drop_last()) + ", "@ + py_quoted(parts.last())
    }
}

/// A Python list literal of the given strings.
pub open spec fn py_list(parts: Seq<Seq<char>>) -> Seq<char> {
    seq!['['] + py_items(parts) + seq![']']
}

/// The views of a list of strings.
pub open spec fn strings_view(v: Seq<String>) -> Seq<Seq<char>> {
    v.map_values(|s: String| s@)
}

/// A Python list literal of `parts`, each single-quoted and escaped.
pub fn python_list_literal(parts: &Vec<String>) -> (s: String)
    ensures
        s@ == py_list(strings_view(parts@)),
{
    let ghost pv = strings_view(parts@);
    let mut items = String::new();
    let mut i: usize = 0;
    while i < parts.len()
        invariant
            i <= parts.len(),
            pv == strings_view(parts@),
            items@ == py_items(pv.take(i as int)),
        decreases parts.len() - i,
    {
        if i > 0 {
            items.append(", ");
        }
        items.push('\'');
        let escaped = escape_py_single_quoted(parts[i].as_str());
        items.append(escaped.as_str());
        items.push('\'');
        proof {
            let t = pv.take(i + 1);
            assert(t.drop_last() =~= pv.take(i as int));
            assert(t.last() == parts@[i as int]@);
            if i == 0 {
                assert(t.len() == 1);
                assert(items@ =~= py_quoted(t[0]));
            } else {
                assert(items@ =~= py_items(t.drop_last()) + ", "@ + py_quoted(t.last()));
            }
        }
        i = i + 1;
    }
    assert(pv.take(parts.len() as int) =~= pv);
    let mut s = String::new();
    s.push('[');
    s.append(items.as_str());
    s.push(']');
    assert(s@ =~= py_list(pv));
    s
}

/// One launch statement of the update script.
pub open spec fn launch_line(name: Seq<char>) -> Seq<char> {
    "    launch(['"@ + escape_py(name) + "'])\n"@
}

/// The launch statements for the given names, one per line, in order.
pub open spec fn launch_lines(names: Seq<Seq<char>>) -> Seq<char>
    decreases names.len(),
{
    if names.len() == 0 {
        Seq::empty()
    } else {
        launch_lines(names.drop_last()) + launch_line(names.last())
    }
}

fn push_launch_line(s: &mut String, name: &str)
    ensures
        final(s)@ == old(s)@ + launch_line(name@),
{
    s.append("    launch(['");
    let escaped = escape_py_single_quoted(name);
    s.append(escaped.as_str());
    s.append("'])\n");
    assert(final(s)@ =~= old(s)@ + launch_line(name@));
}

/// The opening of the update script, up to the parent process id.
pub open spec fn script_head() -> Seq<char> {
    "import os\nimport shlex\nimport subprocess\nimport sys\nimport traceback\n\nPARENT_PID = "@
}

/// The text between the parent process id and the install command.
pub open spec fn script_install_prefix() -> Seq<char> {
    "\nINSTALL_PARTS = "@
}

/// The helpers and the start of the main block, up to the launch statements.
pub open spec fn script_body() -> Seq<char> {
    "\n"@ + script_helpers()
}

/// The helper functions and the start of the main block.
pub open spec fn script_helpers() -> Seq<char> {
    "\ndef log(message):\n    print(message, flush=True)\n\ndef format_command(parts):\n    if sys.platform == 'win32':\n        return subprocess.list2cmdline(parts)\n    return shlex.join(parts)\n\ndef wait_for_parent_exit():\n    if sys.platform != 'win32':\n        return\n\n    import ctypes\n\n    synchronize = 0x00100000\n    infinite = 0xFFFFFFFF\n    kernel32 = ctypes.windll.kernel32\n    handle = kernel32.OpenProcess(synchronize, False, PARENT_PID)\n    if not handle:\n        return\n\n    try:\n        kernel32.WaitForSingleObject(handle, infinite)\n    finally:\n        kernel32.CloseHandle(handle)\n\ndef launch(parts):\n    log(f\"起動しています: {format_command(parts)}\")\n    subprocess.Popen(parts)\n\ndef wait_for_user_acknowledgement():\n    if sys.platform != 'win32':\n        return\n\n    log(\"Enterキーを押すと閉じます\")\n    try:\n        input()\n    except EOFError:\n        pass\n\ntry:\n    log(\"現在のプロセスの終了を待っています\")\n    wait_for_parent_exit()\n    log(\"cargo installを起動しています\")\n    log(f\"$ {format_command(INSTALL_PARTS)}\")\n    subprocess.run(INSTALL_PARTS, check=True)\n    log(\"cargo install が完了しました\")\n"@
}

/// The error handling and cleanup that close the update script.
pub open spec fn script_tail() -> Seq<char> {
    "except subprocess.CalledProcessError as err:\n    log(f\"cargo install が失敗しました。終了コード: {err.returncode}\")\n    wait_for_user_acknowledgement()\n    sys.exit(err.returncode)\nexcept Exception as err:\n    log(f\"更新処理に失敗しました: {err}\")\n    traceback.print_exc()\n    wait_for_user_acknowledgement()\n    sys.exit(1)\nfinally:\n    try:\n        os.remove(__file__)\n    except OSError:\n        pass\n"@
}

/// The repository URL for an owner and repository name.
pub open spec fn repo_url(owner: Seq<char>, repo: Seq<char>) -> Seq<char> {
    "https://github.com/"@ + owner + "/"@ + repo
}

/// The install command run by the script: `cargo install --force --git
/// <repo url>` followed by the binaries.
pub open spec fn install_parts(owner: Seq<char>, repo: Seq<char>, bins: Seq<Seq<char>>) -> Seq<
    Seq<char>,
> {
    seq!["cargo"@, "install"@, "--force"@, "--git"@, repo_url(owner, repo)] + bins
}

/// The update script: it waits for the parent process to exit, reinstalls
/// the binaries with cargo, then launches each binary (or the repository
/// name when no binary is given), and deletes itself.
pub open spec fn update_script(
    owner: Seq<char>,
    repo: Seq<char>,
    bins: Seq<Seq<char>>,
    parent_pid: nat,
) -> Seq<char> {
    script_head() + decimal_text(parent_pid) + script_install_prefix() + py_list(
        install_parts(owner, repo, bins),
    ) + script_body() + (if bins.len() == 0 {
        launch_line(repo)
    } else {
        launch_lines(bins)
    }) + script_tail()
}

/// The two lines of the update script that set the parent process id and
/// the install command.
pub open spec fn install_line(
    owner: Seq<char>,
    repo: Seq<char>,
    bins: Seq<Seq<char>>,
    parent_pid: nat,
) -> Seq<char> {
    "PARENT_PID = "@ + decimal_text(parent_pid) + "\nINSTALL_PARTS = "@ + py_list(
        install_parts(owner, repo, bins),
    ) + "\n"@
}

/// The end of the update script: the launch statements (one per binary, in
/// order, or one for the repository when no binary is given), then the
/// closing error handling.
pub open spec fn launch_block(repo: Seq<char>, bins: Seq<Seq<char>>) -> Seq<char> {
    (if bins.len() == 0 {
        launch_line(repo)
    } else {
        launch_lines(bins)
    }) + script_tail()
}

/// The update script holds the line that sets the parent process id, then
/// the line that sets the install command, and ends with the launch
/// statements (one per binary, in order, or one for the repository when no
/// binary is given) followed by the closing error handling.
pub proof fn lemma_update_script_lines(
    owner: Seq<char>,
    repo: Seq<char>,
    bins: Seq<Seq<char>>,
    parent_pid: nat,
)
    ensures
        exists|i: int|
            0 <= i && i + install_line(owner, repo, bins, parent_pid).len() <= update_script(
                owner,
                repo,
                bins,
                parent_pid,
            ).len() && #[trigger] update_script(owner, repo, bins, parent_pid).subrange(
                i,
                i + install_line(owner, repo, bins, parent_pid).len(),
            ) == install_line(owner, repo, bins, parent_pid),
        update_script(owner, repo, bins, parent_pid).len() >= launch_block(repo, bins).len(),
        update_script(owner, repo, bins, parent_pid).skip(
            update_script(owner, repo, bins, parent_pid).len() - launch_block(repo, bins).len(),
        ) == launch_block(repo, bins),
{
    reveal_strlit("import os\nimport shlex\nimport subprocess\nimport sys\nimport traceback\n\nPARENT_PID = ");
    reveal_strlit("import os\nimport shlex\nimport subprocess\nimport sys\nimport traceback\n\n");
    reveal_strlit("PARENT_PID = ");
    reveal_strlit("\n");
    let head_pre = "import os\nimport shlex\nimport subprocess\nimport sys\nimport traceback\n\n"@;
    assert(script_head() =~= head_pre + "PARENT_PID = "@);
    let body = script_body();
    assert(body.skip(1) =~= script_helpers());
    let launches = if bins.len() == 0 {
        launch_line(repo)
    } else {
        launch_lines(bins)
    };
    let whole = update_script(owner, repo, bins, parent_pid);
    let line = install_line(owner, repo, bins, parent_pid);
    let rest = script_helpers() + launches + script_tail();
    assert(whole =~= head_pre + line + rest);
    let i = head_pre.len() as int;
    assert(whole.subrange(i, i + line.len()) =~= line);
    let block = launch_block(repo, bins);
    assert(whole =~= (script_head() + decimal_text(parent_pid) + script_install_prefix() + py_list(
        install_parts(owner, repo, bins),
    ) + body) + block);
    assert(whole.skip(whole.len() - block.len()) =~= block);
}

/// Writes the update script, as `update_script` says.
pub fn generate_update_script(owner: &str, repo: &str, bins: &Vec<String>, parent_pid: u32) -> (s:
    String)
    ensures
        s@ == update_script(owner@, repo@, strings_view(bins@), parent_pid as nat),
{
    let ghost bv = strings_view(bins@);
    let mut url = String::from_str("https://github.com/");
    url.append(owner);
    url.append("/");
    url.append(repo);
    let mut parts: Vec<String> = Vec::new();
    parts.push(String::from_str("cargo"));
    parts.push(String::from_str("install"));
    parts.push(String::from_str("--force"));
    parts.push(String::from_str("--git"));
    parts.push(url);
    let mut i: usize = 0;
    while i < bins.len()
        invariant
            i <= bins.len(),
            bv == strings_view(bins@),
            strings_view(parts@) == seq!["cargo"@, "install"@, "--force"@, "--git"@, repo_url(owner@, repo@)]
                + bv.take(i as int),
        decreases bins.len() - i,
    {
        let ghost before = strings_view(parts@);
        let b = bins[i].clone();
        parts.push(b);
        assert(strings_view(parts@) =~= before.push(bins@[i as int]@));
        assert(bv.take(i + 1) =~= bv.take(i as int).push(bv[i as int]));
        assert(strings_view(parts@) =~= seq!["cargo"@, "install"@, "--force"@, "--git"@, repo_url(owner@, repo@)]
            + bv.take(i + 1));
        i = i + 1;
    }
    assert(bv.take(bins.len() as int) =~= bv);
    let install = python_list_literal(&parts);
    let mut launch = String::new();
    if bins.len() == 0 {
        push_launch_line(&mut launch, repo);
        assert(launch@ =~= launch_line(repo@));
    } else {
        let mut j: usize = 0;
        while j < bins.len()
            invariant
                j <= bins.len(),
                bv == strings_view(bins@),
                launch@ == launch_lines(bv.take(j as int)),
            decreases bins.len() - j,
        {
            push_launch_line(&mut launch, bins[j].as_str());
            assert(bv.take(j + 1).drop_last() =~= bv.take(j as int));
            j = j + 1;
        }
        assert(bv.take(bins.len() as int) =~= bv);
    }
    let mut s = String::from_str(
        "import os\nimport shlex\nimport subprocess\nimport sys\nimport traceback\n\nPARENT_PID = ",
    );
    push_decimal(&mut s, parent_pid as u128);
    s.append("\nINSTALL_PARTS = ");
    s.append(install.as_str());
    s.append("\n");
    s.append(
        "\ndef log(message):\n    print(message, flush=True)\n\ndef format_command(parts):\n    if sys.platform == 'win32':\n        return subprocess.list2cmdline(parts)\n    return shlex.join(parts)\n\ndef wait_for_parent_exit():\n    if sys.platform != 'win32':\n        return\n\n    import ctypes\n\n    synchronize = 0x00100000\n    infinite = 0xFFFFFFFF\n    kernel32 = ctypes.windll.kernel32\n    handle = kernel32.OpenProcess(synchronize, False, PARENT_PID)\n    if not handle:\n        return\n\n    try:\n        kernel32.WaitForSingleObject(handle, infinite)\n    finally:\n        kernel32.CloseHandle(handle)\n\ndef launch(parts):\n    log(f\"起動しています: {format_command(parts)}\")\n    subprocess.Popen(parts)\n\ndef wait_for_user_acknowledgement():\n    if sys.platform != 'win32':\n        return\n\n    log(\"Enterキーを押すと閉じます\")\n    try:\n        input()\n    except EOFError:\n        pass\n\ntry:\n    log(\"現在のプロセスの終了を待っています\")\n    wait_for_parent_exit()\n    log(\"cargo installを起動しています\")\n    log(f\"$ {format_command(INSTALL_PARTS)}\")\n    subprocess.run(INSTALL_PARTS, check=True)\n    log(\"cargo install が完了しました\")\n",
    );
    s.append(launch.as_str());
    s.append(
        "except subprocess.CalledProcessError as err:\n    log(f\"cargo install が失敗しました。終了コード: {err.returncode}\")\n    wait_for_user_acknowledgement()\n    sys.exit(err.returncode)\nexcept Exception as err:\n    log(f\"更新処理に失敗しました: {err}\")\n    traceback.print_exc()\n    wait_for_user_acknowledgement()\n    sys.exit(1)\nfinally:\n    try:\n        os.remove(__file__)\n    except OSError:\n        pass\n",
    );
    s
}

/// The self-update script of this workspace for the process `parent_pid`:
/// it reinstalls the update targets from this project's repository.
pub fn workspace_update_script(parent_pid: u32) -> (s: String)
    ensures
        s@ == update_script(
            update_repo_owner(),
            update_repo_name(),
            seq!["mascot-render-server"@, "psd-viewer-tui"@],
            parent_pid as nat,
        ),
{
    let targets = update_targets();
    generate_update_script("cat2151", "mascot-render-server", &targets, parent_pid)
}

/// The file name of a temporary update script for a process and time.
pub open spec fn update_script_file_name_text(pid: nat, timestamp_nanos: nat) -> Seq<char> {
    "mascot_render_update_"@ + decimal_text(pid) + "_"@ + decimal_text(timestamp_nanos) + ".py"@
}

/// The file name of a temporary update script:
/// `mascot_render_update_<pid>_<nanos>.py`.
pub fn update_script_file_name(pid: u32, timestamp_nanos: u128) -> (s: String)
    ensures
        s@ == update_script_file_name_text(pid as nat, timestamp_nanos as nat),
{
    let mut s = String::from_str("mascot_render_update_");
    push_decimal(&mut s, pid as u128);
    s.append("_");
    push_decimal(&mut s, timestamp_nanos);
    s.append(".py");
    s
}

/// The interpreters tried, in order, to run the update script. On Windows
/// only `python` (started in a console of its own); elsewhere the one named
/// by the `PYTHON` variable when it is set, then `python3`, then `python`.
pub fn python_candidates(python_env: Option<String>, windows: bool) -> (r: Vec<String>)
    ensures
        strings_view(r@) == if windows {
            seq!["python"@]
        } else {
            match python_env {
                Some(p) => seq![p@, "python3"@, "python"@],
                None => seq!["python3"@, "python"@],
            }
        },
{
    let mut r: Vec<String> = Vec::new();
    if windows {
        r.push(String::from_str("python"));
        assert(strings_view(r@) =~= seq!["python"@]);
        return r;
    }
    let ghost env = match &python_env {
        Some(p) => Some(p@),
        None => None::<Seq<char>>,
    };
    match python_env {
        Some(p) => r.push(p),
        None => {},
    }
    r.push(String::from_str("python3"));
    r.push(String::from_str("python"));
    assert(strings_view(r@) =~= match env {
        Some(p) => seq![p, "python3"@, "python"@],
        None => seq!["python3"@, "python"@],
    });
    r
}

/// Texts joined with `, `.
pub open spec fn comma_joined(parts: Seq<Seq<char>>) -> Seq<char>
    decreases parts.len(),
{
    if parts.len() == 0 {
        Seq::empty()
    } else if parts.len() == 1 {
        parts[0]
    } else {
        comma_joined(parts.drop_last()) + ", "@ + parts.last()
    }
}

/// The error when no interpreter could be found: the candidates tried,
/// joined with `, `.
pub fn no_python_message(candidates: &Vec<String>) -> (s: String)
    ensures
        s@ == "no Python interpreter found; tried "@ + comma_joined(strings_view(candidates@)),
{
    let ghost cv = strings_view(candidates@);
    let mut joined = String::new();
    let mut i: usize = 0;
    assert(cv.take(0) =~= Seq::<Seq<char>>::empty());
    while i < candidates.len()
        invariant
            i <= candidates.len(),
            cv == strings_view(candidates@),
            joined@ == comma_joined(cv.take(i as int)),
        decreases candidates.len() - i,
    {
        assert(cv.take(i + 1).drop_last() =~= cv.take(i as int));
        if i > 0 {
            joined.append(", ");
        }
        joined.append(candidates[i].as_str());
        proof {
            if i == 0 {
                assert(cv.take(1).len() == 1);
            }
        }
        assert(joined@ =~= comma_joined(cv.take(i + 1)));
        i = i + 1;
    }
    assert(cv.take(candidates.len() as int) =~= cv);
    let mut s = String::from_str("no Python interpreter found; tried ");
    s.append(joined.as_str());
    s
}

/// The error when an interpreter was found but could not be started.
pub fn python_launch_error_message(candidate: &str, error: &str) -> (s: String)
    ensures
        s@ == "failed to launch Python interpreter "@ + candidate@ + ": "@ + error@,
{
    let mut s = String::from_str("failed to launch Python interpreter ");
    s.append(candidate);
    s.append(": ");
    s.append(error);
    s
}

/// How one attempt to start an interpreter ended.
#[derive(Debug, Clone, Copy, PartialEq, Eq, Structural)]
pub enum SpawnOutcome {
    /// The interpreter started.
    Started,
    /// No such program.
    NotFound,
    /// The program exists but could not be started.
    Failed,
}

/// What to do after the attempts made so far, candidates taken in order.
#[derive(Debug, Clone, Copy, PartialEq, Eq, Structural)]
pub enum PythonLaunchStep {
    /// Try the candidate at this index next.
    Try(usize),
    /// An interpreter started: the update is under way.
    Started,
    /// The candidate at this index exists but failed to start: report its
    /// error and stop.
    LaunchFailed(usize),
    /// Every candidate was missing: report the error of the last one, at
    /// this index.
    NotFound(usize),
    /// There was no candidate to try.
    NoCandidates,
}

/// The index of the first attempt that did not end in `NotFound`, or the
/// number of attempts when all did.
pub open spec fn first_found(outcomes: Seq<SpawnOutcome>) -> int
    decreases outcomes.len(),
{
    if outcomes.len() == 0 {
        0
    } else if !(outcomes[0] is NotFound) {
        0
    } else {
        1 + first_found(outcomes.skip(1))
    }
}

/// The step after `outcomes`: the first attempt that found its program
/// decides (started, or failed to start); while every attempt found
/// nothing, the next candidate is tried, and once none is left the last
/// "not found" is reported.
pub open spec fn python_launch_step_of(candidate_count: nat, outcomes: Seq<SpawnOutcome>) -> PythonLaunchStep {
    let f = first_found(outcomes);
    if f < outcomes.len() {
        if outcomes[f] is Started {
            PythonLaunchStep::Started
        } else {
            PythonLaunchStep::LaunchFailed(f as usize)
        }
    } else if outcomes.len() < candidate_count {
        PythonLaunchStep::Try(outcomes.len() as usize)
    } else if outcomes.len() == 0 {
        PythonLaunchStep::NoCandidates
    } else {
        PythonLaunchStep::NotFound((outcomes.len() - 1) as usize)
    }
}

proof fn lemma_first_found_bounds(outcomes: Seq<SpawnOutcome>)
    ensures
        0 <= first_found(outcomes) <= outcomes.len(),
        forall|j: int| 0 <= j < first_found(outcomes) ==> (#[trigger] outcomes[j]) is NotFound,
        first_found(outcomes) < outcomes.len() ==> !(outcomes[first_found(outcomes)] is NotFound),
    decreases outcomes.len(),
{
    if outcomes.len() > 0 && outcomes[0] is NotFound {
        let rest = outcomes.skip(1);
        lemma_first_found_bounds(rest);
        assert forall|j: int| 0 <= j < first_found(outcomes) implies (
        #[trigger] outcomes[j]) is NotFound by {
            if j > 0 {
                assert(outcomes[j] == rest[j - 1]);
            }
        }
        if first_found(outcomes) < outcomes.len() {
            assert(outcomes[first_found(outcomes)] == rest[first_found(rest)]);
        }
    }
}

/// Decides the next step of starting the update script's interpreter, as
/// `python_launch_step_of` says.
pub fn python_launch_step(candidate_count: usize, outcomes: &Vec<SpawnOutcome>) -> (r:
    PythonLaunchStep)
    ensures
        r == python_launch_step_of(candidate_count as nat, outcomes@),
{
    proof {
        lemma_first_found_bounds(outcomes@);
    }
    let mut i: usize = 0;
    while i < outcomes.len()
        invariant
            i <= outcomes.len(),
            forall|j: int| 0 <= j < i ==> (#[trigger] outcomes@[j]) is NotFound,
            0 <= first_found(outcomes@) <= outcomes@.len(),
            forall|j: int| 0 <= j < first_found(outcomes@) ==> (#[trigger] outcomes@[j]) is NotFound,
            first_found(outcomes@) < outcomes@.len() ==> !(outcomes@[first_found(outcomes@)] is NotFound),
        decreases outcomes.len() - i,
    {
        match outcomes[i] {
            SpawnOutcome::NotFound => {},
            SpawnOutcome::Started => {
                assert(first_found(outcomes@) == i);
                return PythonLaunchStep::Started;
            },
            SpawnOutcome::Failed => {
                assert(first_found(outcomes@) == i);
                return PythonLaunchStep::LaunchFailed(i);
            },
        }
        i = i + 1;
    }
    assert(first_found(outcomes@) == outcomes.len()) by {
        if first_found(outcomes@) < outcomes@.len() {
            assert(outcomes@[first_found(outcomes@)] is NotFound);
        }
    }
    if outcomes.len() < candidate_count {
        PythonLaunchStep::Try(outcomes.len())
    } else if outcomes.len() == 0 {
        PythonLaunchStep::NoCandidates
    } else {
        PythonLaunchStep::NotFound(outcomes.len() - 1)
    }
}

} // verus!
