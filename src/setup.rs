use vstd::prelude::*;
use vstd::slice::{slice_subrange, slice_to_vec};

use crate::text::{
    chars_of, is_digit, is_ws, is_ws_char, lemma_pieces_nonempty, lower_of, lowercase, parse_u32, parse_u32_chars, piece_bounds,
    pieces, text_range,
};

verus! {

/// What is known of one tool the workspace needs.
#[derive(Clone, Debug)]
pub struct DependencyInfo {
    pub name: String,
    pub installed: bool,
    pub version: Option<String>,
    pub path: Option<String>,
    pub install_url: String,
    pub install_instructions: String,
}

/// The state of the whole setup.
#[derive(Clone, Debug)]
pub struct SetupStatus {
    pub ready: bool,
    pub dependencies: Vec<DependencyInfo>,
    pub workspace_exists: bool,
    pub workspace_path: Option<String>,
    pub missing_count: usize,
    pub voice_guidance: String,
}

/// The outcome of an installation step.
#[derive(Clone, Debug)]
pub struct InstallResult {
    pub success: bool,
    pub message: String,
    pub next_step: Option<String>,
    pub voice_response: String,
}

/// The outcome of one run of the `gt` command.
#[derive(Clone, Debug)]
pub struct GtCommandResult {
    pub success: bool,
    pub stdout: String,
    pub stderr: String,
    pub exit_code: i32,
}

/// The numbers of a dotted version, keeping the pieces that parse as `u32`.
pub open spec fn parsed_parts(ps: Seq<Seq<char>>) -> Seq<u32>
    decreases ps.len(),
{
    if ps.len() == 0 {
        Seq::<u32>::empty()
    } else {
        let r = parsed_parts(ps.drop_last());
        match parse_u32(ps.last()) {
            Some(v) => r.push(v),
            None => r,
        }
    }
}

pub open spec fn version_parts(s: Seq<char>) -> Seq<u32> {
    parsed_parts(pieces(s, '.'))
}

/// Part `i` of a version, zero past its end.
pub open spec fn part_at(a: Seq<u32>, i: int) -> u32 {
    if 0 <= i < a.len() {
        a[i]
    } else {
        0
    }
}

/// Compares two versions part by part from `i` on, the shorter padded with zeros:
/// -1, 0 or 1.
pub open spec fn compare_from(a: Seq<u32>, b: Seq<u32>, i: nat) -> int
    decreases (if a.len() > b.len() {
        a.len()
    } else {
        b.len()
    }) - i,
{
    if i >= a.len() && i >= b.len() {
        0
    } else if part_at(a, i as int) < part_at(b, i as int) {
        -1
    } else if part_at(a, i as int) > part_at(b, i as int) {
        1
    } else {
        compare_from(a, b, i + 1)
    }
}

fn version_parts_of(s: &[char]) -> (r: Vec<u32>)
    ensures
        r@ == version_parts(s@),
{
    let mut r: Vec<u32> = Vec::new();
    let mut start: usize = 0;
    let mut i: usize = 0;
    while i < s.len()
        invariant
            start <= i <= s@.len(),
            ({
                let p = pieces(s@.subrange(0, i as int), '.');
                &&& r@ == parsed_parts(p.drop_last())
                &&& p.len() >= 1
                &&& p.last() == s@.subrange(start as int, i as int)
            }),
        decreases s@.len() - i,
    {
        let ghost pre = s@.subrange(0, i as int + 1);
        assert(pre.drop_last() =~= s@.subrange(0, i as int));
        if s[i] == '.' {
            let piece = slice_subrange(s, start, i);
            match parse_u32_chars(piece) {
                Some(v) => r.push(v),
                None => {},
            }
            start = i + 1;
            proof {
                let p = pieces(pre, '.');
                assert(p.drop_last() =~= pieces(s@.subrange(0, i as int), '.'));
                assert(s@.subrange(start as int, i as int + 1).len() == 0);
                assert(p.last() =~= s@.subrange(start as int, i as int + 1));
            }
        } else {
            proof {
                let q = pieces(s@.subrange(0, i as int), '.');
                let p = pieces(pre, '.');
                assert(p.drop_last() =~= q.drop_last());
                assert(p.last() =~= s@.subrange(start as int, i as int + 1));
            }
        }
        i = i + 1;
    }
    let piece = slice_subrange(s, start, i);
    match parse_u32_chars(piece) {
        Some(v) => r.push(v),
        None => {},
    }
    proof {
        let p = pieces(s@.subrange(0, i as int), '.');
        assert(s@.subrange(0, i as int) =~= s@);
        assert(p.drop_last().push(p.last()) =~= p);
    }
    r
}

fn compare_parts(a: &Vec<u32>, b: &Vec<u32>) -> (r: i32)
    ensures
        r == compare_from(a@, b@, 0),
{
    let n: usize = if a.len() > b.len() {
        a.len()
    } else {
        b.len()
    };
    let mut i: usize = 0;
    while i < n
        invariant
            n == (if a@.len() > b@.len() {
                a@.len()
            } else {
                b@.len()
            }),
            i <= n,
            compare_from(a@, b@, 0) == compare_from(a@, b@, i as nat),
        decreases n - i,
    {
        let x: u32 = if i < a.len() {
            a[i]
        } else {
            0
        };
        let y: u32 = if i < b.len() {
            b[i]
        } else {
            0
        };
        if x < y {
            return -1;
        }
        if x > y {
            return 1;
        }
        i = i + 1;
    }
    0
}

/// Compares two dotted versions numerically, part by part, treating missing parts as
/// zero and skipping pieces that are not numbers: -1, 0 or 1.
pub fn compare_versions(v1: &str, v2: &str) -> (r: i32)
    ensures
        r == compare_from(version_parts(v1@), version_parts(v2@), 0),
{
    let a = chars_of(v1);
    let b = chars_of(v2);
    let pa = version_parts_of(a.as_slice());
    let pb = version_parts_of(b.as_slice());
    compare_parts(&pa, &pb)
}

/// The description of a tool whose check is a plain lookup.
fn plain_dependency(
    name: &str,
    installed: bool,
    version: Option<String>,
    path: Option<String>,
    install_url: &str,
    install_instructions: &str,
) -> (r: DependencyInfo)
    ensures
        r.name@ == name@,
        r.installed == installed,
        r.version == version,
        r.path == path,
        r.install_url@ == install_url@,
        r.install_instructions@ == install_instructions@,
{
    DependencyInfo {
        name: String::from_str(name),
        installed,
        version,
        path,
        install_url: String::from_str(install_url),
        install_instructions: String::from_str(install_instructions),
    }
}

/// Go, from the lookup of the `go` command: whether it was found, its version line
/// and its path.
pub fn check_go(installed: bool, version: Option<String>, path: Option<String>) -> (r: DependencyInfo)
    ensures
        r.name@ == "Go"@,
        r.installed == installed,
        r.version == version,
        r.path == path,
        r.install_url@ == "https://go.dev/dl/"@,
        r.install_instructions@ == "Download and install Go from go.dev. On macOS: `brew install go`"@,
{
    plain_dependency(
        "Go",
        installed,
        version,
        path,
        "https://go.dev/dl/",
        "Download and install Go from go.dev. On macOS: `brew install go`",
    )
}

/// Git, from the lookup of the `git` command.
pub fn check_git(installed: bool, version: Option<String>, path: Option<String>) -> (r: DependencyInfo)
    ensures
        r.name@ == "Git"@,
        r.installed == installed,
        r.version == version,
        r.path == path,
        r.install_url@ == "https://git-scm.com/downloads"@,
        r.install_instructions@ == "Install Git from git-scm.com. On macOS: `xcode-select --install`"@,
{
    plain_dependency(
        "Git",
        installed,
        version,
        path,
        "https://git-scm.com/downloads",
        "Install Git from git-scm.com. On macOS: `xcode-select --install`",
    )
}

/// tmux, from the lookup of the `tmux` command.
pub fn check_tmux(installed: bool, version: Option<String>, path: Option<String>) -> (r: DependencyInfo)
    ensures
        r.name@ == "tmux"@,
        r.installed == installed,
        r.version == version,
        r.path == path,
        r.install_url@ == "https://github.com/tmux/tmux"@,
        r.install_instructions@ == "Install tmux: `brew install tmux` (macOS) or `apt install tmux` (Linux)"@,
{
    plain_dependency(
        "tmux",
        installed,
        version,
        path,
        "https://github.com/tmux/tmux",
        "Install tmux: `brew install tmux` (macOS) or `apt install tmux` (Linux)",
    )
}

/// A whitespace-separated word of `s` starts at `i`.
pub open spec fn word_start(s: Seq<char>, i: int) -> bool {
    0 <= i < s.len() && !is_ws(s[i]) && (i == 0 || is_ws(s[i - 1]))
}

/// Where the word running through `i` ends: the next whitespace, or the end of `s`.
pub open spec fn word_end(s: Seq<char>, i: int) -> int
    decreases s.len() - i,
{
    if i >= s.len() {
        s.len() as int
    } else if is_ws(s[i]) {
        i
    } else {
        word_end(s, i + 1)
    }
}

/// The first word of `s`, from position `i` on, that starts with an ASCII digit.
pub open spec fn digit_word_from(s: Seq<char>, i: int) -> Option<Seq<char>>
    decreases s.len() - i,
{
    if i >= s.len() || i < 0 {
        None
    } else if word_start(s, i) && is_digit(s[i]) {
        Some(s.subrange(i, word_end(s, i)))
    } else {
        digit_word_from(s, i + 1)
    }
}

/// The version number in a version line such as `gt version 0.1.0`: its first word
/// that starts with a digit, or `0.0.0` when there is none.
pub open spec fn version_word(line: Seq<char>) -> Seq<char> {
    match digit_word_from(line, 0) {
        Some(w) => w,
        None => "0.0.0"@,
    }
}

/// The reported version meets `minimum`; a tool with no version line does not.
pub open spec fn meets_minimum(version: Option<String>, minimum: Seq<char>) -> bool {
    match version {
        Some(v) => compare_from(version_parts(version_word(v@)), version_parts(minimum), 0) >= 0,
        None => false,
    }
}

proof fn lemma_word_end_bounds(s: Seq<char>, i: int)
    requires
        0 <= i <= s.len(),
    ensures
        i <= word_end(s, i) <= s.len(),
    decreases s.len() - i,
{
    if i < s.len() && !is_ws(s[i]) {
        lemma_word_end_bounds(s, i + 1);
    }
}

fn find_word_end(s: &[char], i: usize) -> (r: usize)
    requires
        i <= s@.len(),
    ensures
        r == word_end(s@, i as int),
{
    let mut j = i;
    while j < s.len() && !is_ws_char(s[j])
        invariant
            i <= j <= s@.len(),
            word_end(s@, i as int) == word_end(s@, j as int),
        decreases s@.len() - j,
    {
        j = j + 1;
    }
    j
}

fn version_word_of(line: &[char]) -> (r: Vec<char>)
    ensures
        r@ == version_word(line@),
{
    let mut i: usize = 0;
    while i < line.len()
        invariant
            i <= line@.len(),
            digit_word_from(line@, 0) == digit_word_from(line@, i as int),
        decreases line@.len() - i,
    {
        let c = line[i];
        if !is_ws_char(c) && (i == 0 || is_ws_char(line[i - 1])) && '0' <= c && c <= '9' {
            let end = find_word_end(line, i);
            proof {
                lemma_word_end_bounds(line@, i as int);
            }
            let word = slice_subrange(line, i, end);
            return slice_to_vec(word);
        }
        i = i + 1;
    }
    proof {
        reveal_strlit("0.0.0");
    }
    let fallback = chars_of("0.0.0");
    fallback
}

fn version_at_least(version: &Option<String>, minimum: &str) -> (r: bool)
    ensures
        r == meets_minimum(*version, minimum@),
{
    match version {
        Some(v) => {
            let line = chars_of(v.as_str());
            let word = version_word_of(line.as_slice());
            let parts = version_parts_of(word.as_slice());
            let min_chars = chars_of(minimum);
            let min_parts = version_parts_of(min_chars.as_slice());
            compare_parts(&parts, &min_parts) >= 0
        },
        None => false,
    }
}

/// The gt CLI, from the lookup of the `gt` command. It counts as installed only when
/// its version is at least `0.1.0`; an outdated one is told to update.
pub fn check_gt(installed: bool, version: Option<String>, path: Option<String>) -> (r: DependencyInfo)
    ensures
        r.name@ == "gt (Gas Town CLI)"@,
        r.installed == (installed && meets_minimum(version, "0.1.0"@)),
        r.version == version,
        r.path == path,
        r.install_url@ == "https://github.com/txgsync/gastown"@,
        installed && !meets_minimum(version, "0.1.0"@) ==> r.install_instructions@
            == "Update gt: `go install github.com/txgsync/gastown/cmd/gt@latest` (current version outdated, need >= 0.1.0)"@,
        !(installed && !meets_minimum(version, "0.1.0"@)) ==> r.install_instructions@
            == "Install gt: `go install github.com/txgsync/gastown/cmd/gt@latest`"@,
{
    let version_ok = version_at_least(&version, "0.1.0");
    let instructions = if installed && !version_ok {
        "Update gt: `go install github.com/txgsync/gastown/cmd/gt@latest` (current version outdated, need >= 0.1.0)"
    } else {
        "Install gt: `go install github.com/txgsync/gastown/cmd/gt@latest`"
    };
    plain_dependency(
        "gt (Gas Town CLI)",
        installed && version_ok,
        version,
        path,
        "https://github.com/txgsync/gastown",
        instructions,
    )
}

/// The bd CLI, from the lookup of the `bd` command. It counts as installed only when
/// its version is at least `0.43.0`; an outdated one is told to update.
pub fn check_bd(installed: bool, version: Option<String>, path: Option<String>) -> (r: DependencyInfo)
    ensures
        r.name@ == "bd (Beads CLI)"@,
        r.installed == (installed && meets_minimum(version, "0.43.0"@)),
        r.version == version,
        r.path == path,
        r.install_url@ == "https://github.com/mbarnson/beads"@,
        installed && !meets_minimum(version, "0.43.0"@) ==> r.install_instructions@
            == "Update bd: `go install github.com/mbarnson/beads/cmd/bd@latest` (current version outdated, need >= 0.43.0)"@,
        !(installed && !meets_minimum(version, "0.43.0"@)) ==> r.install_instructions@
            == "Install bd: `go install github.com/mbarnson/beads/cmd/bd@latest`"@,
{
    let version_ok = version_at_least(&version, "0.43.0");
    let instructions = if installed && !version_ok {
        "Update bd: `go install github.com/mbarnson/beads/cmd/bd@latest` (current version outdated, need >= 0.43.0)"
    } else {
        "Install bd: `go install github.com/mbarnson/beads/cmd/bd@latest`"
    };
    plain_dependency(
        "bd (Beads CLI)",
        installed && version_ok,
        version,
        path,
        "https://github.com/mbarnson/beads",
        instructions,
    )
}

/// The names of the tools that are not installed, in order.
pub open spec fn missing_names(deps: Seq<DependencyInfo>) -> Seq<Seq<char>>
    decreases deps.len(),
{
    if deps.len() == 0 {
        Seq::<Seq<char>>::empty()
    } else {
        let m = missing_names(deps.drop_last());
        if deps.last().installed {
            m
        } else {
            m.push(deps.last().name@)
        }
    }
}

/// The names joined with `, `.
pub open spec fn comma_joined(names: Seq<Seq<char>>) -> Seq<char>
    decreases names.len(),
{
    if names.len() == 0 {
        Seq::<char>::empty()
    } else if names.len() == 1 {
        names[0]
    } else {
        comma_joined(names.drop_last()) + ", "@ + names.last()
    }
}

/// The sentence that lists the missing tools.
pub open spec fn missing_sentence(m: Seq<Seq<char>>) -> Seq<char> {
    if m.len() == 1 {
        "You're missing "@ + m[0] + "."@
    } else if m.len() == 2 {
        "You're missing "@ + m[0] + " and "@ + m[1] + "."@
    } else {
        "You're missing "@ + comma_joined(m.drop_last()) + ", and "@ + m.last() + "."@
    }
}

/// What the voice assistant says about the setup.
pub open spec fn guidance_text(deps: Seq<DependencyInfo>, workspace_exists: bool) -> Seq<char> {
    let m = missing_names(deps);
    if m.len() == 0 && workspace_exists {
        "All set! Gas Town is ready to roll. You've got all the tools and a workspace. Let's make some chaos."@
    } else if m.len() == 0 {
        "Tools are installed, but you don't have a workspace yet. Want me to help you create one? Just say 'create workspace'."@
    } else if m.contains("Go"@) {
        missing_sentence(m) + " Go is the foundation - you'll need that first. Want me to walk you through the installation?"@
    } else if m.contains("gt (Gas Town CLI)"@) || m.contains("bd (Beads CLI)"@) {
        missing_sentence(m) + " The Gas Town tools need Go installed first, which you have. Say 'install gt' or 'install bd' to continue."@
    } else {
        missing_sentence(m) + " Let me know which one you want to install first."@
    }
}

fn names_missing(deps: &[DependencyInfo]) -> (r: Vec<String>)
    ensures
        r@.len() == missing_names(deps@).len(),
        forall|i: int| 0 <= i < r@.len() ==> (#[trigger] r@[i])@ == missing_names(deps@)[i],
{
    let mut r: Vec<String> = Vec::new();
    let mut i: usize = 0;
    while i < deps.len()
        invariant
            i <= deps@.len(),
            r@.len() == missing_names(deps@.subrange(0, i as int)).len(),
            forall|k: int| 0 <= k < r@.len() ==> (#[trigger] r@[k])@ == missing_names(
                deps@.subrange(0, i as int),
            )[k],
        decreases deps@.len() - i,
    {
        assert(deps@.subrange(0, i as int + 1).drop_last() =~= deps@.subrange(0, i as int));
        if !deps[i].installed {
            r.push(deps[i].name.clone());
        }
        i = i + 1;
    }
    assert(deps@.subrange(0, i as int) =~= deps@);
    r
}

fn has_name(names: &Vec<String>, name: &str, m: Ghost<Seq<Seq<char>>>) -> (r: bool)
    requires
        names@.len() == m@.len(),
        forall|i: int| 0 <= i < names@.len() ==> (#[trigger] names@[i])@ == m@[i],
    ensures
        r == m@.contains(name@),
{
    let target = String::from_str(name);
    let mut i: usize = 0;
    while i < names.len()
        invariant
            target@ == name@,
            i <= names@.len(),
            names@.len() == m@.len(),
            forall|k: int| 0 <= k < names@.len() ==> (#[trigger] names@[k])@ == m@[k],
            forall|k: int| 0 <= k < i ==> m@[k] != name@,
        decreases names@.len() - i,
    {
        if names[i] == target {
            assert(m@[i as int] == name@);
            return true;
        }
        i = i + 1;
    }
    false
}

fn push_joined(s: &mut String, names: &Vec<String>, n: usize, m: Ghost<Seq<Seq<char>>>)
    requires
        n <= names@.len(),
        names@.len() == m@.len(),
        forall|i: int| 0 <= i < names@.len() ==> (#[trigger] names@[i])@ == m@[i],
    ensures
        final(s)@ == old(s)@ + comma_joined(m@.subrange(0, n as int)),
{
    let mut i: usize = 0;
    while i < n
        invariant
            i <= n <= names@.len(),
            names@.len() == m@.len(),
            forall|k: int| 0 <= k < names@.len() ==> (#[trigger] names@[k])@ == m@[k],
            s@ == old(s)@ + comma_joined(m@.subrange(0, i as int)),
        decreases n - i,
    {
        let ghost before = s@;
        if i > 0 {
            s.append(", ");
        }
        s.append(names[i].as_str());
        proof {
            let pre = m@.subrange(0, i as int + 1);
            assert(pre.drop_last() =~= m@.subrange(0, i as int));
            if i == 0 {
                assert(comma_joined(m@.subrange(0, 0)) == Seq::<char>::empty());
                assert(s@ =~= old(s)@ + comma_joined(pre));
            } else {
                assert(s@ =~= old(s)@ + comma_joined(pre));
            }
        }
        i = i + 1;
    }
}

/// What the voice assistant says about the setup: all set, a workspace to create, or
/// which tools are missing and which to install first.
pub fn generate_voice_guidance(deps: &[DependencyInfo], workspace_exists: bool) -> (r: String)
    ensures
        r@ == guidance_text(deps@, workspace_exists),
{
    let names = names_missing(deps);
    let ghost m = missing_names(deps@);
    if names.len() == 0 {
        if workspace_exists {
            return String::from_str(
                "All set! Gas Town is ready to roll. You've got all the tools and a workspace. Let's make some chaos.",
            );
        }
        return String::from_str(
            "Tools are installed, but you don't have a workspace yet. Want me to help you create one? Just say 'create workspace'.",
        );
    }
    let mut s = String::from_str("You're missing ");
    let n = names.len();
    if n == 1 {
        s.append(names[0].as_str());
    } else if n == 2 {
        s.append(names[0].as_str());
        s.append(" and ");
        s.append(names[1].as_str());
    } else {
        push_joined(&mut s, &names, n - 1, Ghost(m));
        s.append(", and ");
        s.append(names[n - 1].as_str());
        assert(m.subrange(0, n - 1) =~= m.drop_last());
    }
    s.append(".");
    assert(s@ =~= missing_sentence(m));
    if has_name(&names, "Go", Ghost(m)) {
        s.append(" Go is the foundation - you'll need that first. Want me to walk you through the installation?");
    } else if has_name(&names, "gt (Gas Town CLI)", Ghost(m)) || has_name(&names, "bd (Beads CLI)", Ghost(m)) {
        s.append(" The Gas Town tools need Go installed first, which you have. Say 'install gt' or 'install bd' to continue.");
    } else {
        s.append(" Let me know which one you want to install first.");
    }
    s
}

/// The setup status from the checked tools and the workspace lookup: the setup is ready
/// when no tool is missing and the workspace exists.
pub fn setup_status(
    dependencies: Vec<DependencyInfo>,
    workspace_exists: bool,
    workspace_path: Option<String>,
) -> (r: SetupStatus)
    ensures
        r.missing_count == missing_names(dependencies@).len(),
        r.ready == (missing_names(dependencies@).len() == 0 && workspace_exists),
        r.dependencies@ == dependencies@,
        r.workspace_exists == workspace_exists,
        r.workspace_path == workspace_path,
        r.voice_guidance@ == guidance_text(dependencies@, workspace_exists),
{
    let missing_count = names_missing(dependencies.as_slice()).len();
    let voice_guidance = generate_voice_guidance(dependencies.as_slice(), workspace_exists);
    SetupStatus {
        ready: missing_count == 0 && workspace_exists,
        dependencies,
        workspace_exists,
        workspace_path,
        missing_count,
        voice_guidance,
    }
}

/// How a tool named in an install request gets installed.
#[derive(Clone, Copy, Debug, PartialEq, Eq, Structural)]
pub enum InstallRoute {
    /// Go: only by hand.
    GuideGo,
    /// gt: `go install`.
    GoInstallGt,
    /// bd: `go install`.
    GoInstallBd,
    /// Git: only by hand.
    GuideGit,
    /// tmux: Homebrew where there is one, else by hand.
    Tmux,
    /// A tool this setup does not know.
    Unknown,
}

/// The route for a lower-cased tool name.
pub open spec fn route_of(lower: Seq<char>) -> InstallRoute {
    if lower == "go"@ {
        InstallRoute::GuideGo
    } else if lower == "gt"@ || lower == "gastown"@ {
        InstallRoute::GoInstallGt
    } else if lower == "bd"@ || lower == "beads"@ {
        InstallRoute::GoInstallBd
    } else if lower == "git"@ {
        InstallRoute::GuideGit
    } else if lower == "tmux"@ {
        InstallRoute::Tmux
    } else {
        InstallRoute::Unknown
    }
}

/// Picks the route for an install request, ignoring the case of the name.
pub fn install_route(name: &str) -> (r: InstallRoute)
    ensures
        r == route_of(lower_of(name@)),
{
    let l = lowercase(name);
    if l == String::from_str("go") {
        InstallRoute::GuideGo
    } else if l == String::from_str("gt") || l == String::from_str("gastown") {
        InstallRoute::GoInstallGt
    } else if l == String::from_str("bd") || l == String::from_str("beads") {
        InstallRoute::GoInstallBd
    } else if l == String::from_str("git") {
        InstallRoute::GuideGit
    } else if l == String::from_str("tmux") {
        InstallRoute::Tmux
    } else {
        InstallRoute::Unknown
    }
}

pub open spec fn is_install_result(
    r: InstallResult,
    success: bool,
    message: Seq<char>,
    next_step: Option<Seq<char>>,
    voice: Seq<char>,
) -> bool {
    &&& r.success == success
    &&& r.message@ == message
    &&& match (r.next_step, next_step) {
        (Some(a), Some(b)) => a@ == b,
        (None, None) => true,
        _ => false,
    }
    &&& r.voice_response@ == voice
}

fn install_result(success: bool, message: String, next_step: Option<&str>, voice: String) -> (r: InstallResult)
    ensures
        r.success == success,
        r.message == message,
        r.voice_response == voice,
        next_step is None ==> r.next_step is None,
        next_step matches Some(n) ==> (r.next_step matches Some(x) && x@ == n@),
{
    InstallResult {
        success,
        message,
        next_step: match next_step {
            Some(n) => Some(String::from_str(n)),
            None => None,
        },
        voice_response: voice,
    }
}

/// The answer to a request for a tool that is installed by hand, or that is unknown;
/// `name` is the tool as it was asked for.
pub fn manual_install_result(route: InstallRoute, name: &str) -> (r: InstallResult)
    ensures
        route == InstallRoute::GuideGo ==> is_install_result(r, false, "Go requires manual installation"@,
            Some("https://go.dev/dl/"@),
            "Go needs to be installed manually. I'm opening the download page. Grab the installer for your system, run it, then come back and say 'check setup'."@),
        route == InstallRoute::GuideGit ==> is_install_result(r, false, "Git requires manual installation"@,
            Some("https://git-scm.com/downloads"@),
            "Git needs to be installed from your system's package manager or git-scm.com. On Mac, you can run 'xcode-select --install' in Terminal."@),
        route == InstallRoute::Tmux ==> is_install_result(r, false, "tmux requires manual installation"@, None,
            "Install tmux using your package manager. On Mac: 'brew install tmux'. On Linux: 'apt install tmux' or 'yum install tmux'."@),
        route != InstallRoute::GuideGo && route != InstallRoute::GuideGit && route != InstallRoute::Tmux
            ==> is_install_result(r, false, "Unknown dependency: "@ + name@, None,
            "I don't know how to install '"@ + name@ + "'. Check the setup screen for available options."@),
{
    match route {
        InstallRoute::GuideGo => install_result(
            false,
            String::from_str("Go requires manual installation"),
            Some("https://go.dev/dl/"),
            String::from_str("Go needs to be installed manually. I'm opening the download page. Grab the installer for your system, run it, then come back and say 'check setup'."),
        ),
        InstallRoute::GuideGit => install_result(
            false,
            String::from_str("Git requires manual installation"),
            Some("https://git-scm.com/downloads"),
            String::from_str("Git needs to be installed from your system's package manager or git-scm.com. On Mac, you can run 'xcode-select --install' in Terminal."),
        ),
        InstallRoute::Tmux => install_result(
            false,
            String::from_str("tmux requires manual installation"),
            None,
            String::from_str("Install tmux using your package manager. On Mac: 'brew install tmux'. On Linux: 'apt install tmux' or 'yum install tmux'."),
        ),
        _ => {
            let mut message = String::from_str("Unknown dependency: ");
            message.append(name);
            let mut voice = String::from_str("I don't know how to install '");
            voice.append(name);
            voice.append("'. Check the setup screen for available options.");
            install_result(false, message, None, voice)
        },
    }
}

/// The answer when Homebrew installed tmux.
pub fn brew_tmux_result() -> (r: InstallResult)
    ensures
        is_install_result(r, true, "tmux installed via Homebrew"@, None,
            "tmux is now installed. Terminal multiplexing unlocked!"@),
{
    install_result(
        true,
        String::from_str("tmux installed via Homebrew"),
        None,
        String::from_str("tmux is now installed. Terminal multiplexing unlocked!"),
    )
}

/// The first line of a command's error output (`str::lines`), or `unknown error` when
/// there is none.
pub open spec fn first_line_or_unknown(s: Seq<char>) -> Seq<char> {
    if s.len() == 0 {
        "unknown error"@
    } else {
        let p = pieces(s, '\n');
        if p.len() > 1 && p[0].len() > 0 && p[0].last() == '\r' {
            p[0].drop_last()
        } else {
            p[0]
        }
    }
}

fn first_line(s: &str) -> (r: String)
    ensures
        r@ == first_line_or_unknown(s@),
{
    let c = chars_of(s);
    if c.len() == 0 {
        return String::from_str("unknown error");
    }
    let b = piece_bounds(c.as_slice(), '\n');
    proof {
        lemma_pieces_nonempty(s@, '\n');
    }
    let (x, y) = b[0];
    if b.len() > 1 && y > x && c[y - 1] == '\r' {
        assert(c@.subrange(x as int, y - 1) =~= c@.subrange(x as int, y as int).drop_last());
        text_range(s, x, y - 1)
    } else {
        text_range(s, x, y)
    }
}

/// The answer after `go install` of gt or bd ran: `success` is its exit status, `stderr`
/// its error output, and `path_warning` the advice given when Go's bin directory is not
/// on the PATH (looked at only after bd installed).
pub fn go_install_result(bd: bool, success: bool, stderr: &str, path_warning: Option<&str>) -> (r: InstallResult)
    ensures
        !bd && success ==> is_install_result(r, true, "gt installed successfully"@, Some("install bd"@),
            "Got it! gt is now installed. You'll also need bd for issue tracking. Say 'install bd' to continue."@),
        !bd && !success ==> is_install_result(r, false, "gt installation failed: "@ + stderr@, None,
            "Hmm, gt installation failed. Error: "@ + first_line_or_unknown(stderr@)
            + ". Make sure Go is properly installed and your GOPATH is set."@),
        bd && success ==> is_install_result(r, true, "bd installed successfully"@, Some("create workspace"@),
            match path_warning {
                Some(w) => "bd is installed, but you may need to add Go's bin directory to your PATH. "@ + w@
                    + ". Then say 'check setup' to verify."@,
                None => "Nice! bd is installed. Now you need a Gas Town workspace. Say 'create workspace' to set one up."@,
            }),
        bd && !success ==> is_install_result(r, false, "bd installation failed: "@ + stderr@, None,
            "bd installation hit a snag: "@ + first_line_or_unknown(stderr@)
            + ". Check that Go is working correctly."@),
{
    if success {
        if !bd {
            return install_result(
                true,
                String::from_str("gt installed successfully"),
                Some("install bd"),
                String::from_str("Got it! gt is now installed. You'll also need bd for issue tracking. Say 'install bd' to continue."),
            );
        }
        let voice = match path_warning {
            Some(w) => {
                let mut v = String::from_str("bd is installed, but you may need to add Go's bin directory to your PATH. ");
                v.append(w);
                v.append(". Then say 'check setup' to verify.");
                v
            },
            None => String::from_str("Nice! bd is installed. Now you need a Gas Town workspace. Say 'create workspace' to set one up."),
        };
        return install_result(true, String::from_str("bd installed successfully"), Some("create workspace"), voice);
    }
    let line = first_line(stderr);
    if !bd {
        let mut message = String::from_str("gt installation failed: ");
        message.append(stderr);
        let mut voice = String::from_str("Hmm, gt installation failed. Error: ");
        voice.append(line.as_str());
        voice.append(". Make sure Go is properly installed and your GOPATH is set.");
        install_result(false, message, None, voice)
    } else {
        let mut message = String::from_str("bd installation failed: ");
        message.append(stderr);
        let mut voice = String::from_str("bd installation hit a snag: ");
        voice.append(line.as_str());
        voice.append(". Check that Go is working correctly.");
        install_result(false, message, None, voice)
    }
}

} // verus!
