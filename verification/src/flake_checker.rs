//! Checking a flake for updates: reading `nixos-rebuild dry-build` output, git
//! metadata, and the texts shown for the updates found.
use vstd::prelude::*;
use vstd::string::*;

use crate::dry_build::{
    deduplicated, keeps_longest, lemma_keeps_longest_permuted, lemma_scan_keeps_longest,
    listed_names, lemma_scan_deduplicated, lemma_scan_hashes, lemma_scan_in_list, scan_lines,
    scan_readable,
    DryBuildScan, ScanModel,
};
use crate::flake_update::{base_name_of, display_of, update_views, FlakeUpdate, UpdateView};
use crate::installed::InstalledPackages;
use crate::ordering_keys::{
    key_le, lemma_sorted_by_lower_name_ordered, lemma_sorted_by_lower_name_permutes, lowercase,
    sorted_by_lower_name,
};
use crate::store_path::is_internal;
use crate::text::{
    byte_len, chars_of, decimal, decimal_string, lit_eq, lit_prefix, line_bounds, split_lines,
    string_from_chars, trim, trim_bounds,
};

verus! {

/// Why a check for updates failed.
#[derive(Debug, Clone, PartialEq, Eq)]
pub enum FlakeCheckError {
    PathNotFound(String),
    /// A command could not be run; holds the text of the I/O error.
    CommandFailed(String),
    NixError(String),
    NotGitRepo(String),
}

/// The message of an error.
pub open spec fn error_message(e: FlakeCheckError) -> Seq<char> {
    match e {
        FlakeCheckError::PathNotFound(p) => "Flake path does not exist: "@ + p@,
        FlakeCheckError::CommandFailed(m) => "Failed to run nix command: "@ + m@,
        FlakeCheckError::NixError(m) => "Nix command returned error: "@ + m@,
        FlakeCheckError::NotGitRepo(p) => "Not a git repository: "@ + p@,
    }
}

impl FlakeCheckError {
    /// The message of the error (its `Display` text).
    pub fn message(&self) -> (s: String)
        ensures
            s@ == error_message(*self),
    {
        match self {
            FlakeCheckError::PathNotFound(p) => String::from_str("Flake path does not exist: ").concat(
                p.as_str(),
            ),
            FlakeCheckError::CommandFailed(m) => String::from_str(
                "Failed to run nix command: ",
            ).concat(m.as_str()),
            FlakeCheckError::NixError(m) => String::from_str("Nix command returned error: ").concat(
                m.as_str(),
            ),
            FlakeCheckError::NotGitRepo(p) => String::from_str("Not a git repository: ").concat(
                p.as_str(),
            ),
        }
    }
}

/// Result of a dry-build parse: updates + optional download/unpacked sizes
#[derive(Debug, Clone)]
pub struct CheckResult {
    pub updates: Vec<FlakeUpdate>,
    /// e.g. "1174.94 MiB" from "these 42 paths will be fetched (1174.94 MiB download, 4811.63 MiB unpacked):"
    pub download_size: String,
    /// e.g. "4811.63 MiB"
    pub unpacked_size: String,
}

/// What the dry-build output reports: the scan of its lines, with the updates ordered
/// by lowercase package name.
pub open spec fn dry_build_report(
    output: Seq<char>,
    installed: Map<Seq<char>, (Seq<char>, Seq<char>)>,
) -> ScanModel {
    let st = scan_lines(split_lines(output), installed);
    ScanModel { updates: sorted_by_lower_name(st.updates), ..st }
}

/// Parse the output of `nixos-rebuild dry-build` to extract packages
pub fn parse_dry_build_output(output: &str, current_packages: &InstalledPackages) -> (r: Result<
    CheckResult,
    FlakeCheckError,
>)
    requires
        scan_readable(split_lines(output@)),
    ensures
        r matches Ok(c) && ({
            let rep = dry_build_report(output@, current_packages@);
            &&& update_views(c.updates@) == rep.updates
            &&& c.download_size@ == rep.download_size
            &&& c.unpacked_size@ == rep.unpacked_size
        }),
{
    let cs = chars_of(output);
    let bounds = line_bounds(cs.as_slice());
    let ghost lines = split_lines(output@);
    let mut scan = DryBuildScan::new();
    let mut i: usize = 0;
    while i < bounds.len()
        invariant
            0 <= i <= bounds@.len(),
            bounds@.len() == lines.len(),
            cs@ == output@,
            lines == split_lines(output@),
            scan_readable(lines),
            forall|j: int|
                #![trigger bounds@[j]]
                0 <= j < bounds@.len() ==> {
                    &&& bounds@[j].0 <= bounds@[j].1 <= cs@.len()
                    &&& cs@.subrange(bounds@[j].0 as int, bounds@[j].1 as int) == lines[j]
                },
            scan@ == scan_lines(lines.take(i as int), current_packages@),
        decreases bounds@.len() - i,
    {
        let (lo, hi) = bounds[i];
        let line = string_from_chars(vstd::slice::slice_subrange(cs.as_slice(), lo, hi));
        assert(line@ == lines[i as int]);
        proof {
            lemma_scan_in_list(lines.take(i as int), current_packages@);
        }
        assert(lines.take(i + 1).drop_last() =~= lines.take(i as int));
        scan.read_line(line.as_str(), current_packages);
        i = i + 1;
    }
    assert(lines.take(i as int) =~= lines);
    let (updates, download_size, unpacked_size) = scan.finish();
    Ok(CheckResult { updates, download_size, unpacked_size })
}

/// The commit message for a list of updates.
pub open spec fn commit_message(us: Seq<UpdateView>) -> Seq<char> {
    if us.len() == 0 {
        "Update flake inputs"@
    } else if us.len() == 1 {
        "Update "@ + us[0].package_name
    } else {
        "Update "@ + decimal(us.len()) + " packages"@
    }
}

/// Generate a commit message from the list of updates
pub fn generate_commit_message(updates: &[FlakeUpdate]) -> (s: String)
    ensures
        s@ == commit_message(update_views(updates@)),
{
    if updates.len() == 0 {
        return String::from_str("Update flake inputs");
    }
    if updates.len() == 1 {
        return String::from_str("Update ").concat(updates[0].package_name.as_str());
    }
    let n = decimal_string(updates.len());
    String::from_str("Update ").concat(n.as_str()).concat(" packages")
}

/// The parts joined, with `sep` between neighbours.
pub open spec fn join(parts: Seq<Seq<char>>, sep: Seq<char>) -> Seq<char>
    decreases parts.len(),
{
    if parts.len() == 0 {
        Seq::empty()
    } else if parts.len() == 1 {
        parts[0]
    } else {
        join(parts.drop_last(), sep) + sep + parts.last()
    }
}

/// How many updates the tooltip lists by name.
pub open spec fn shown_updates() -> nat {
    10
}

/// The size note of the tooltip header.
pub open spec fn size_note(download: Seq<char>, unpacked: Seq<char>) -> Seq<char> {
    if download.len() > 0 && unpacked.len() > 0 {
        " ("@ + download + " download, "@ + unpacked + " unpacked)"@
    } else if download.len() > 0 {
        " ("@ + download + " download)"@
    } else {
        Seq::empty()
    }
}

/// The display lines of the first `n` updates.
pub open spec fn displays(us: Seq<UpdateView>, n: int) -> Seq<Seq<char>> {
    us.take(n).map_values(|u: UpdateView| display_of(u))
}

/// The tooltip text for the updates found: a header with their number and sizes, then
/// the first ten of them one per line, and how many more there are.
pub open spec fn updates_tooltip(us: Seq<UpdateView>, download: Seq<char>, unpacked: Seq<char>) -> Seq<
    char,
> {
    if us.len() == 0 {
        "No updates available"@
    } else {
        let header = if us.len() == 1 {
            "1 package to update"@ + size_note(download, unpacked) + ":"@
        } else {
            decimal(us.len()) + " packages to update"@ + size_note(download, unpacked) + ":"@
        };
        if us.len() > shown_updates() {
            let details = join(displays(us, shown_updates() as int), "\n  "@);
            header + "\n"@ + details + "  ...and "@ + decimal((us.len() - shown_updates()) as nat)
                + " more"@
        } else {
            header + "\n  "@ + join(displays(us, us.len() as int), "\n  "@)
        }
    }
}

/// Joins the display lines of the first `n` updates with "\n  ".
fn join_displays(updates: &[FlakeUpdate], n: usize) -> (s: String)
    requires
        n <= updates@.len(),
    ensures
        s@ == join(displays(update_views(updates@), n as int), "\n  "@),
{
    let ghost us = update_views(updates@);
    let mut s = String::new();
    let mut i: usize = 0;
    while i < n
        invariant
            0 <= i <= n <= updates@.len(),
            us == update_views(updates@),
            s@ == join(displays(us, i as int), "\n  "@),
        decreases n - i,
    {
        let d = updates[i].display();
        assert(displays(us, i + 1) =~= displays(us, i as int).push(display_of(us[i as int])));
        if i == 0 {
            s = d;
            assert(displays(us, 1).len() == 1);
        } else {
            s = s.concat("\n  ").concat(d.as_str());
            assert(displays(us, i + 1).drop_last() =~= displays(us, i as int));
        }
        i = i + 1;
    }
    s
}

/// Format updates for tooltip display
pub fn format_updates_tooltip(updates: &[FlakeUpdate], download_size: &str, unpacked_size: &str) -> (s: String)
    ensures
        s@ == updates_tooltip(update_views(updates@), download_size@, unpacked_size@),
{
    if updates.len() == 0 {
        return String::from_str("No updates available");
    }
    let size_info = if !download_size.is_empty() && !unpacked_size.is_empty() {
        String::from_str(" (").concat(download_size).concat(" download, ").concat(
            unpacked_size,
        ).concat(" unpacked)")
    } else if !download_size.is_empty() {
        String::from_str(" (").concat(download_size).concat(" download)")
    } else {
        String::new()
    };
    let header = if updates.len() == 1 {
        String::from_str("1 package to update").concat(size_info.as_str()).concat(":")
    } else {
        decimal_string(updates.len()).concat(" packages to update").concat(
            size_info.as_str(),
        ).concat(":")
    };
    let max_show: usize = 10;
    if updates.len() > max_show {
        let details = join_displays(updates, max_show);
        let more = decimal_string(updates.len() - max_show);
        header.concat("\n").concat(details.as_str()).concat("  ...and ").concat(
            more.as_str(),
        ).concat(" more")
    } else {
        let details = join_displays(updates, updates.len());
        header.concat("\n  ").concat(details.as_str())
    }
}


/// Reading `.git/config` line by line: whether the `[remote "origin"]` section is open,
/// and the url found in it, once found.
pub open spec fn origin_scan(lines: Seq<Seq<char>>) -> (bool, Option<Seq<char>>)
    decreases lines.len(),
{
    if lines.len() == 0 {
        (false, None)
    } else {
        let (in_origin, found) = origin_scan(lines.drop_last());
        if found is Some {
            (in_origin, found)
        } else {
            let t = trim(lines.last());
            if t == "[remote \"origin\"]"@ {
                (true, None)
            } else if "["@.is_prefix_of(t) {
                (false, None)
            } else if in_origin && "url = "@.is_prefix_of(t) {
                (in_origin, Some(t.skip(6)))
            } else {
                (in_origin, None)
            }
        }
    }
}

/// The url of the `origin` remote in the text of a `.git/config` file: the first
/// `url = ...` line in the `[remote "origin"]` section.
pub open spec fn origin_url(config: Seq<char>) -> Option<Seq<char>> {
    origin_scan(split_lines(config)).1
}

/// Finds the url of the `origin` remote in the text of a `.git/config` file.
pub fn parse_git_origin_url(config: &str) -> (r: Result<String, FlakeCheckError>)
    ensures
        r matches Ok(url) ==> origin_url(config@) == Some(url@),
        r matches Err(e) ==> origin_url(config@) is None && (e matches FlakeCheckError::NixError(
            m,
        ) && m@ == "No origin remote found"@),
{
    let cs = chars_of(config);
    let bounds = line_bounds(cs.as_slice());
    let ghost lines = split_lines(config@);
    let mut in_origin = false;
    let mut i: usize = 0;
    proof {
        reveal_strlit("url = ");
    }
    while i < bounds.len()
        invariant
            0 <= i <= bounds@.len(),
            bounds@.len() == lines.len(),
            cs@ == config@,
            lines == split_lines(config@),
            forall|j: int|
                #![trigger bounds@[j]]
                0 <= j < bounds@.len() ==> {
                    &&& bounds@[j].0 <= bounds@[j].1 <= cs@.len()
                    &&& cs@.subrange(bounds@[j].0 as int, bounds@[j].1 as int) == lines[j]
                },
            origin_scan(lines.take(i as int)) == (in_origin, None::<Seq<char>>),
        decreases bounds@.len() - i,
    {
        let (lo, hi) = bounds[i];
        let line = vstd::slice::slice_subrange(cs.as_slice(), lo, hi);
        assert(line@ == lines[i as int]);
        assert(lines.take(i + 1).drop_last() =~= lines.take(i as int));
        let (a, b) = trim_bounds(line);
        let t = vstd::slice::slice_subrange(line, a, b);
        if lit_eq(t, "[remote \"origin\"]") {
            in_origin = true;
        } else if lit_prefix(t, "[") {
            in_origin = false;
        } else if in_origin && lit_prefix(t, "url = ") {
            proof {
                reveal_strlit("url = ");
            }
            let url = vstd::slice::slice_subrange(t, 6, t.len());
            assert(url@ =~= t@.skip(6));
            proof {
                lemma_origin_scan_found(lines, i as int);
            }
            return Ok(string_from_chars(url));
        }
        i = i + 1;
    }
    assert(lines.take(i as int) =~= lines);
    Err(FlakeCheckError::NixError(String::from_str("No origin remote found")))
}

/// Once found, the url stays found.
proof fn lemma_origin_scan_found(lines: Seq<Seq<char>>, i: int)
    requires
        0 <= i < lines.len(),
        origin_scan(lines.take(i + 1)).1 is Some,
    ensures
        origin_scan(lines).1 == origin_scan(lines.take(i + 1)).1,
    decreases lines.len(),
{
    if lines.len() == i + 1 {
        assert(lines.take(i + 1) =~= lines);
    } else {
        assert(lines.drop_last().take(i + 1) =~= lines.take(i + 1));
        lemma_origin_scan_found(lines.drop_last(), i);
    }
}

/// The branch that a `.git/HEAD` file names: what follows `ref: refs/heads/` in the
/// trimmed text; `main` for a detached HEAD.
pub open spec fn head_branch(head: Seq<char>) -> Seq<char> {
    let t = trim(head);
    if "ref: refs/heads/"@.is_prefix_of(t) {
        t.skip(16)
    } else {
        "main"@
    }
}

/// Reads the current branch from the text of a `.git/HEAD` file.
pub fn parse_git_head_branch(head: &str) -> (r: String)
    ensures
        r@ == head_branch(head@),
{
    let cs = chars_of(head);
    let (a, b) = trim_bounds(cs.as_slice());
    let t = vstd::slice::slice_subrange(cs.as_slice(), a, b);
    if lit_prefix(t, "ref: refs/heads/") {
        proof {
            reveal_strlit("ref: refs/heads/");
        }
        let branch = vstd::slice::slice_subrange(t, 16, t.len());
        assert(branch@ =~= t@.skip(16));
        string_from_chars(branch)
    } else {
        String::from_str("main")
    }
}

/// `s` without its leading `_` characters.
pub open spec fn trim_start_underscores(s: Seq<char>) -> Seq<char>
    decreases s.len(),
{
    if s.len() > 0 && s[0] == '_' {
        trim_start_underscores(s.drop_first())
    } else {
        s
    }
}

/// The directory name under which a flake's repository is cached: its path with
/// `/` and `\\` replaced by `_`, without leading `_`.
pub open spec fn cache_dir_name_of(path: Seq<char>) -> Seq<char> {
    trim_start_underscores(
        path.map_values(|c: char| if c == '/' || c == '\\' { '_' } else { c }),
    )
}

/// The directory name under which a flake's repository is cached.
pub fn cache_dir_name(flake_path: &str) -> (r: String)
    ensures
        r@ == cache_dir_name_of(flake_path@),
{
    let cs = chars_of(flake_path);
    let ghost mapped = flake_path@.map_values(|c: char| if c == '/' || c == '\\' { '_' } else { c });
    let mut out: Vec<char> = Vec::new();
    let mut i: usize = 0;
    assert(mapped.skip(0) =~= mapped);
    // skip the characters that become leading underscores
    while i < cs.len() && (cs[i] == '/' || cs[i] == '\\' || cs[i] == '_')
        invariant
            0 <= i <= cs@.len(),
            cs@ == flake_path@,
            mapped == flake_path@.map_values(|c: char| if c == '/' || c == '\\' { '_' } else { c }),
            trim_start_underscores(mapped) == trim_start_underscores(mapped.skip(i as int)),
        decreases cs@.len() - i,
    {
        assert(mapped.skip(i as int).drop_first() =~= mapped.skip(i + 1));
        assert(mapped.skip(i as int)[0] == '_');
        i = i + 1;
    }
    assert(mapped.skip(i as int).len() == 0 || mapped.skip(i as int)[0] != '_');
    let start = i;
    while i < cs.len()
        invariant
            start <= i <= cs@.len(),
            cs@ == flake_path@,
            mapped == flake_path@.map_values(|c: char| if c == '/' || c == '\\' { '_' } else { c }),
            out@ == mapped.subrange(start as int, i as int),
        decreases cs@.len() - i,
    {
        let c = cs[i];
        out.push(if c == '/' || c == '\\' { '_' } else { c });
        assert(out@ =~= mapped.subrange(start as int, i + 1));
        i = i + 1;
    }
    assert(out@ =~= mapped.skip(start as int));
    string_from_chars(out.as_slice())
}

/// `p` without one trailing carriage return.
pub open spec fn strip_cr(p: Seq<char>) -> Seq<char> {
    if p.len() > 0 && p.last() == '\r' {
        p.drop_last()
    } else {
        p
    }
}

/// Rust's `str::lines`: the pieces between line feeds, without a `\r` before a line
/// feed, and without an empty piece after a final line feed.
pub open spec fn text_lines(s: Seq<char>) -> Seq<Seq<char>> {
    let p = split_lines(s);
    let body = p.drop_last().map_values(|l: Seq<char>| strip_cr(l));
    if p.last().len() == 0 {
        body
    } else {
        body.push(p.last())
    }
}

/// The message for a failed `nixos-rebuild dry-build`: the first five lines of its
/// standard error.
pub open spec fn dry_build_failure_message(stderr: Seq<char>) -> Seq<char> {
    let ls = text_lines(stderr);
    let n = if ls.len() < 5 {
        ls.len() as int
    } else {
        5
    };
    "nixos-rebuild dry-build failed: "@ + join(ls.take(n), "\n"@)
}

/// The error for a failed `nixos-rebuild dry-build`, given its standard error.
pub fn dry_build_failure(stderr: &str) -> (e: FlakeCheckError)
    ensures
        e matches FlakeCheckError::NixError(m) && m@ == dry_build_failure_message(stderr@),
{
    let cs = chars_of(stderr);
    let bounds = line_bounds(cs.as_slice());
    let ghost p = split_lines(stderr@);
    let ghost ls = text_lines(stderr@);
    let count = bounds.len();
    // number of lines that `lines()` yields
    let (llo, lhi) = bounds[count - 1];
    let nlines = if llo == lhi {
        count - 1
    } else {
        count
    };
    assert(ls.len() == nlines);
    let n = if nlines < 5 {
        nlines
    } else {
        5
    };
    let mut msg = String::new();
    let mut i: usize = 0;
    while i < n
        invariant
            0 <= i <= n <= nlines <= count,
            n <= 5,
            count == bounds@.len(),
            bounds@.len() == p.len(),
            p == split_lines(stderr@),
            ls == text_lines(stderr@),
            ls.len() == nlines,
            cs@ == stderr@,
            forall|j: int|
                #![trigger bounds@[j]]
                0 <= j < bounds@.len() ==> {
                    &&& bounds@[j].0 <= bounds@[j].1 <= cs@.len()
                    &&& cs@.subrange(bounds@[j].0 as int, bounds@[j].1 as int) == p[j]
                },
            msg@ == join(ls.take(i as int), "\n"@),
        decreases n - i,
    {
        let (lo, hi) = bounds[i];
        let piece = vstd::slice::slice_subrange(cs.as_slice(), lo, hi);
        assert(piece@ == p[i as int]);
        let line = if i + 1 < count && piece.len() > 0 && piece[piece.len() - 1] == '\r' {
            vstd::slice::slice_subrange(piece, 0, piece.len() - 1)
        } else {
            piece
        };
        assert(line@ == ls[i as int]) by {
            if i + 1 < count {
                assert(ls[i as int] == strip_cr(p[i as int]));
                if piece@.len() > 0 && piece@.last() == '\r' {
                    assert(line@ =~= piece@.drop_last());
                }
            } else {
                assert(ls[i as int] == p.last());
            }
        }
        let text = string_from_chars(line);
        assert(ls.take(i + 1).drop_last() =~= ls.take(i as int));
        if i == 0 {
            msg = text;
        } else {
            msg = msg.concat("\n").concat(text.as_str());
        }
        i = i + 1;
    }
    FlakeCheckError::NixError(String::from_str("nixos-rebuild dry-build failed: ").concat(msg.as_str()))
}


/// Rearranging a deduplicated update list keeps it deduplicated.
proof fn lemma_permutation_deduplicated(a: Seq<UpdateView>, b: Seq<UpdateView>)
    requires
        a.to_multiset() == b.to_multiset(),
        deduplicated(a),
    ensures
        deduplicated(b),
{
    broadcast use vstd::seq_lib::group_to_multiset_ensures;

    assert(a.no_duplicates()) by {
        assert forall|i: int, j: int| 0 <= i < a.len() && 0 <= j < a.len() && i != j implies a[i]
            != a[j] by {
            assert(a[i].package_name != a[j].package_name);
        }
    }
    a.lemma_multiset_has_no_duplicates();
    b.lemma_multiset_has_no_duplicates_conv();
    assert forall|i: int| 0 <= i < b.len() implies exists|k: int|
        0 <= k < a.len() && a[k] == #[trigger] b[i] by {
        assert(b.to_multiset().count(b[i]) > 0);
        assert(a.contains(b[i]));
    }
    assert forall|i: int, j: int| 0 <= i < b.len() && 0 <= j < b.len() && i != j implies (
    #[trigger] b[i]).package_name != (#[trigger] b[j]).package_name by {
        let ki = choose|k: int| 0 <= k < a.len() && a[k] == b[i];
        let kj = choose|k: int| 0 <= k < a.len() && a[k] == b[j];
        assert(b[i] != b[j]);
    }
    assert forall|i: int, j: int|
        0 <= i < b.len() && 0 <= j < b.len() && base_name_of((#[trigger] b[i]).package_name)
            == base_name_of((#[trigger] b[j]).package_name) implies byte_len(b[i].package_name)
        == byte_len(b[j].package_name) by {
        let ki = choose|k: int| 0 <= k < a.len() && a[k] == b[i];
        let kj = choose|k: int| 0 <= k < a.len() && a[k] == b[j];
    }
    assert forall|i: int| 0 <= i < b.len() implies !is_internal((#[trigger] b[i]).package_name) by {
        let ki = choose|k: int| 0 <= k < a.len() && a[k] == b[i];
    }
}

/// The updates that a dry-build report lists are ordered by the lowercase form of their
/// names; no two have the same name; those with the same base name have names of the
/// same byte length (a versioned name is preferred to a shorter unversioned one); and
/// none is an internal package.
pub proof fn lemma_report_updates(
    output: Seq<char>,
    installed: Map<Seq<char>, (Seq<char>, Seq<char>)>,
)
    ensures
        ({
            let us = dry_build_report(output, installed).updates;
            &&& deduplicated(us)
            &&& forall|i: int, j: int|
                0 <= i < j < us.len() ==> key_le(
                    lowercase((#[trigger] us[i]).package_name),
                    lowercase((#[trigger] us[j]).package_name),
                )
        }),
{
    let scanned = scan_lines(split_lines(output), installed).updates;
    lemma_scan_deduplicated(split_lines(output), installed);
    lemma_sorted_by_lower_name_permutes(scanned);
    lemma_sorted_by_lower_name_ordered(scanned);
    lemma_permutation_deduplicated(scanned, sorted_by_lower_name(scanned));
}


/// Every update that a dry-build report lists has a short hash of 8 bytes (the start of
/// its nix store hash), when the output's store paths can be read.
pub proof fn lemma_report_hashes(
    output: Seq<char>,
    installed: Map<Seq<char>, (Seq<char>, Seq<char>)>,
)
    requires
        scan_readable(split_lines(output)),
    ensures
        forall|i: int|
            0 <= i < dry_build_report(output, installed).updates.len() ==> byte_len(
                (#[trigger] dry_build_report(output, installed).updates[i]).hash_short,
            ) == 8,
{
    broadcast use vstd::seq_lib::group_to_multiset_ensures;

    let scanned = scan_lines(split_lines(output), installed).updates;
    lemma_scan_hashes(split_lines(output), installed);
    lemma_sorted_by_lower_name_permutes(scanned);
    let r = sorted_by_lower_name(scanned);
    assert forall|i: int| 0 <= i < r.len() implies byte_len((#[trigger] r[i]).hash_short) == 8 by {
        assert(r.to_multiset().count(r[i]) > 0);
        assert(scanned.contains(r[i]));
    }
}

/// Which listed packages a dry-build report keeps, whatever order the store paths come
/// in ([`keeps_longest`]): every reported update is one of the packages listed for
/// building; every listed package has a reported update with its base name and a name
/// at least as long (a versioned name replaces a shorter unversioned one, whichever is
/// listed first); and every listed package whose name is the longest of its base name
/// is reported. With [`lemma_report_updates`] (updates with one base name have names of
/// one length), the report holds, for each base name, exactly the longest listed names.
pub proof fn lemma_report_keeps_longest(
    output: Seq<char>,
    installed: Map<Seq<char>, (Seq<char>, Seq<char>)>,
)
    ensures
        keeps_longest(dry_build_report(output, installed).updates, listed_names(split_lines(output))),
{
    let lines = split_lines(output);
    let scanned = scan_lines(lines, installed).updates;
    lemma_scan_keeps_longest(lines, installed);
    lemma_sorted_by_lower_name_permutes(scanned);
    lemma_keeps_longest_permuted(scanned, sorted_by_lower_name(scanned), listed_names(lines));
}

/// No update in a dry-build report is for one of the system entries that nixos-rebuild
/// lists beside packages: none is named `system-path`, `user-units`, `dbus-1`, `unit` or
/// `etc`, none starts with `X-Restart-Triggers`, `unit-`, `etc-`, `system-units`,
/// `nixos-system-` or `user-environment`, and none ends with `.service`, `.socket`,
/// `.timer`, `.target` or `.mount`.
pub proof fn lemma_report_hides_system_entries(
    output: Seq<char>,
    installed: Map<Seq<char>, (Seq<char>, Seq<char>)>,
)
    ensures
        forall|i: int|
            0 <= i < dry_build_report(output, installed).updates.len() ==> {
                let name = (#[trigger] dry_build_report(output, installed).updates[i]).package_name;
                &&& name != "system-path"@ && name != "user-units"@ && name != "dbus-1"@
                &&& name != "unit"@ && name != "etc"@
                &&& !"X-Restart-Triggers"@.is_prefix_of(name) && !"unit-"@.is_prefix_of(name)
                &&& !"etc-"@.is_prefix_of(name) && !"system-units"@.is_prefix_of(name)
                &&& !"nixos-system-"@.is_prefix_of(name) && !"user-environment"@.is_prefix_of(
                    name,
                )
                &&& !".service"@.is_suffix_of(name) && !".socket"@.is_suffix_of(name)
                &&& !".timer"@.is_suffix_of(name) && !".target"@.is_suffix_of(name)
                &&& !".mount"@.is_suffix_of(name)
            },
{
    lemma_report_updates(output, installed);
}

} // verus!
