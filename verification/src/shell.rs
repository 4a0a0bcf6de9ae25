//! Desktop-shell helpers: the file-manager invocations that reveal a file,
//! the chart-file filter, the external encoder-binary pick, the worker
//! subcommand, and the resource-pack listing order.

use vstd::prelude::*;

use crate::text::str_eq;
use vstd::multiset::Multiset;

verus! {

/// The host operating system, where a command's spelling depends on it.
#[derive(Clone, Copy, Debug, PartialEq, Eq, Structural)]
pub enum HostOs {
    /// Windows.
    Windows,
    /// Linux.
    Linux,
    /// macOS.
    MacOs,
}

/// A program and its arguments, ready to be spawned.
pub struct ShellCommand {
    /// The program to run.
    pub program: String,
    /// Its arguments, in order.
    pub args: Vec<String>,
}

/// The file-manager invocation that reveals a file: per system, the
/// command and argument spelling differ. On Linux the path must already be
/// canonical, since the file manager is addressed over the session bus by
/// URI.
pub open spec fn spec_show_in_folder(os: HostOs, path: Seq<char>) -> (Seq<char>, Seq<
    Seq<char>,
>) {
    match os {
        HostOs::Windows => ("explorer"@, seq!["/select,"@, path]),
        HostOs::Linux => ("gdbus"@, seq!["call"@, "--session"@, "--dest"@,
            "org.freedesktop.FileManager1"@, "--object-path"@,
            "/org/freedesktop/FileManager1"@, "--method"@,
            "org.freedesktop.FileManager1.ShowItems"@, "['file://"@ + path + "']"@,
            ""@]),
        HostOs::MacOs => ("open"@, seq!["-R"@, path]),
    }
}

/// Builds the file-manager invocation that reveals a file.
pub fn show_in_folder_command(os: HostOs, path: &str) -> (r: ShellCommand)
    ensures
        r.program@ == spec_show_in_folder(os, path@).0,
        r.args.deep_view() == spec_show_in_folder(os, path@).1,
{
    match os {
        HostOs::Windows => {
            let mut args: Vec<String> = Vec::new();
            args.push(String::from_str("/select,"));
            args.push(String::from_str(path));
            let r = ShellCommand { program: String::from_str("explorer"), args };
            proof {
                assert(r.args.deep_view() =~= spec_show_in_folder(os, path@).1);
            }
            r
        },
        HostOs::Linux => {
            let mut args: Vec<String> = Vec::new();
            args.push(String::from_str("call"));
            args.push(String::from_str("--session"));
            args.push(String::from_str("--dest"));
            args.push(String::from_str("org.freedesktop.FileManager1"));
            args.push(String::from_str("--object-path"));
            args.push(String::from_str("/org/freedesktop/FileManager1"));
            args.push(String::from_str("--method"));
            args.push(String::from_str("org.freedesktop.FileManager1.ShowItems"));
            let uri = String::from_str("['file://");
            let uri = uri.concat(path);
            let uri = uri.concat("']");
            args.push(uri);
            args.push(String::new());
            let r = ShellCommand { program: String::from_str("gdbus"), args };
            proof {
                assert(r.args.deep_view().len() == 10);
                assert(r.args.deep_view()[0] == "call"@);
                assert(r.args.deep_view()[1] == "--session"@);
                assert(r.args.deep_view()[2] == "--dest"@);
                assert(r.args.deep_view()[3] == "org.freedesktop.FileManager1"@);
                assert(r.args.deep_view()[4] == "--object-path"@);
                assert(r.args.deep_view()[5] == "/org/freedesktop/FileManager1"@);
                assert(r.args.deep_view()[6] == "--method"@);
                assert(r.args.deep_view()[7] == "org.freedesktop.FileManager1.ShowItems"@);
                assert(r.args.deep_view()[8] == "['file://"@ + path@ + "']"@);
                reveal_strlit("");
                assert(r.args.deep_view()[9] == ""@);
                assert(r.args.deep_view() =~= spec_show_in_folder(os, path@).1);
            }
            r
        },
        HostOs::MacOs => {
            let mut args: Vec<String> = Vec::new();
            args.push(String::from_str("-R"));
            args.push(String::from_str(path));
            let r = ShellCommand { program: String::from_str("open"), args };
            proof {
                assert(r.args.deep_view() =~= spec_show_in_folder(os, path@).1);
            }
            r
        },
    }
}

/// Whether one string ends with another.
pub open spec fn ends_with(s: Seq<char>, suffix: Seq<char>) -> bool {
    s.len() >= suffix.len() && s.subrange(s.len() - suffix.len(), s.len() as int) == suffix
}

/// Checks whether one string ends with another.
pub fn str_ends_with(s: &str, suffix: &str) -> (r: bool)
    ensures
        r == ends_with(s@, suffix@),
{
    let n = s.unicode_len();
    let m = suffix.unicode_len();
    if n < m {
        return false;
    }
    let tail = s.substring_char(n - m, n);
    str_eq(tail, suffix)
}

/// A chart file is a ZIP bundle, a bare chart description, or an editor
/// project file.
pub open spec fn spec_is_chart_file(name: Seq<char>) -> bool {
    ends_with(name, ".zip"@) || ends_with(name, ".json"@) || ends_with(name, ".pek"@)
}

/// Whether a directory entry's name is one of the chart file kinds worth
/// listing.
pub fn is_chart_file(name: &str) -> (r: bool)
    ensures
        r == spec_is_chart_file(name@),
{
    str_ends_with(name, ".zip") || str_ends_with(name, ".json") || str_ends_with(name, ".pek")
}

/// The first candidate whose probe succeeded: the bundled encoder binary
/// is tried first, then each directory of the search path, in order.
pub open spec fn spec_first_working(candidates: Seq<(String, bool)>) -> Option<int> {
    spec_first_working_from(candidates, 0)
}

/// The first working candidate at or after position `k`.
pub open spec fn spec_first_working_from(candidates: Seq<(String, bool)>, k: int) -> Option<
    int,
>
    decreases candidates.len() - k,
{
    if k < 0 || k >= candidates.len() {
        Option::None
    } else if candidates[k].1 {
        Option::Some(k)
    } else {
        spec_first_working_from(candidates, k + 1)
    }
}

/// Picks the external encoder binary: the first probed candidate that
/// responded, in probe order; none responding means no encoder is
/// available.
pub fn select_ffmpeg(candidates: &Vec<(String, bool)>) -> (r: Option<String>)
    ensures
        match spec_first_working(candidates@) {
            Option::Some(i) => r is Some && r->0@ == candidates@[i].0@,
            Option::None => r is None,
        },
{
    for i in 0..candidates.len()
        invariant
            forall|j: int| 0 <= j < i ==> !(#[trigger] candidates@[j]).1,
    {
        if candidates[i].1 {
            proof {
                lemma_first_working_prefix(candidates@, i as int);
            }
            return Some(candidates[i].0.clone());
        }
    }
    proof {
        lemma_first_working_prefix(candidates@, candidates@.len() as int);
    }
    None
}

/// When no candidate before position `i` works, the first working
/// candidate overall is the first at or after `i`.
proof fn lemma_first_working_prefix(candidates: Seq<(String, bool)>, i: int)
    requires
        0 <= i <= candidates.len(),
        forall|j: int| 0 <= j < i ==> !(#[trigger] candidates[j]).1,
    ensures
        spec_first_working_from(candidates, 0) == spec_first_working_from(candidates, i),
    decreases i,
{
    if i > 0 {
        lemma_first_working_prefix(candidates, i - 1);
    }
}

/// The process's work mode: the orchestrating desktop shell, or one of the
/// two worker modes it spawns.
#[derive(Clone, Copy, Debug, PartialEq, Eq, Structural)]
pub enum Subcommand {
    /// Render a chart to a media file.
    Render,
    /// Preview a chart in a window.
    Preview,
}

/// The worker mode an argument selects, if any.
pub open spec fn spec_parse_subcommand(arg: Seq<char>) -> Option<Subcommand> {
    if arg == "render"@ {
        Option::Some(Subcommand::Render)
    } else if arg == "preview"@ {
        Option::Some(Subcommand::Preview)
    } else {
        Option::None
    }
}

/// Parses the worker-mode argument.
pub fn parse_subcommand(arg: &str) -> (r: Option<Subcommand>)
    ensures
        r == spec_parse_subcommand(arg@),
{
    if str_eq(arg, "render") {
        Some(Subcommand::Render)
    } else if str_eq(arg, "preview") {
        Some(Subcommand::Preview)
    } else {
        None
    }
}

/// One resource pack found on disk.
pub struct RespackInfo {
    /// The pack's file name.
    pub name: String,
    /// The pack's canonical path.
    pub path: String,
}

/// Lexicographic order on character sequences, by code point.
pub open spec fn lex_le(a: Seq<char>, b: Seq<char>) -> bool
    decreases a.len(),
{
    if a.len() == 0 {
        true
    } else if b.len() == 0 {
        false
    } else if a[0] != b[0] {
        a[0] < b[0]
    } else {
        lex_le(a.subrange(1, a.len() as int), b.subrange(1, b.len() as int))
    }
}

/// The lexicographic order is total.
pub proof fn lemma_lex_total(a: Seq<char>, b: Seq<char>)
    ensures
        lex_le(a, b) || lex_le(b, a),
    decreases a.len(),
{
    if a.len() > 0 && b.len() > 0 && a[0] == b[0] {
        lemma_lex_total(a.subrange(1, a.len() as int), b.subrange(1, b.len() as int));
    }
}

/// The lexicographic order is transitive.
pub proof fn lemma_lex_trans(a: Seq<char>, b: Seq<char>, c: Seq<char>)
    requires
        lex_le(a, b),
        lex_le(b, c),
    ensures
        lex_le(a, c),
    decreases a.len(),
{
    if a.len() > 0 && b.len() > 0 && c.len() > 0 && a[0] == b[0] && b[0] == c[0] {
        lemma_lex_trans(a.subrange(1, a.len() as int), b.subrange(1, b.len() as int),
            c.subrange(1, c.len() as int));
    }
}

/// Compares two strings lexicographically by code point; on UTF-8 encoded
/// names this is the same order as a byte-wise comparison.
pub fn str_le(a: &str, b: &str) -> (r: bool)
    ensures
        r == lex_le(a@, b@),
    decreases a@.len(),
{
    let la = a.unicode_len();
    let lb = b.unicode_len();
    if la == 0 {
        return true;
    }
    if lb == 0 {
        return false;
    }
    let ca = a.get_char(0);
    let cb = b.get_char(0);
    if ca != cb {
        return ca < cb;
    }
    str_le(a.substring_char(1, la), b.substring_char(1, lb))
}

/// The packs stand in name order.
pub open spec fn sorted_by_name(s: Seq<RespackInfo>) -> bool {
    forall|i: int, j: int|
        0 <= i < j < s.len() ==> lex_le((#[trigger] s[i]).name@, (#[trigger] s[j]).name@)
}

/// Sorts the resource packs by name: the result holds the same packs, in
/// lexicographic name order.
pub fn sort_respacks(items: Vec<RespackInfo>) -> (r: Vec<RespackInfo>)
    ensures
        sorted_by_name(r@),
        r@.to_multiset() == items@.to_multiset(),
{
    broadcast use vstd::seq_lib::group_to_multiset_ensures;
    broadcast use vstd::multiset::group_multiset_axioms;

    let mut work = items;
    let mut out: Vec<RespackInfo> = Vec::new();
    let ghost all = work@.to_multiset();
    proof {
        assert(out@.to_multiset().add(work@.to_multiset()) =~= all);
    }
    while work.len() > 0
        invariant
            sorted_by_name(out@),
            out@.to_multiset().add(work@.to_multiset()) == all,
            forall|i: int, j: int|
                0 <= i < out@.len() && 0 <= j < work@.len() ==> lex_le(
                    (#[trigger] out@[i]).name@,
                    (#[trigger] work@[j]).name@,
                ),
        decreases work@.len(),
    {
        let mut m: usize = 0;
        proof {
            lemma_lex_total(work@[0].name@, work@[0].name@);
        }
        for k in 1..work.len()
            invariant
                m < work@.len(),
                work@.len() > 0,
                forall|j: int| 0 <= j < k ==> lex_le(work@[m as int].name@, (
                #[trigger] work@[j]).name@),
        {
            if str_le(work[k].name.as_str(), work[m].name.as_str()) {
                proof {
                    assert forall|j: int|
                        0 <= j < k + 1 implies lex_le(work@[k as int].name@, (
                    #[trigger] work@[j]).name@) by {
                        lemma_lex_total(work@[k as int].name@, work@[k as int].name@);
                        if j < k {
                            lemma_lex_trans(work@[k as int].name@, work@[m as int].name@,
                                work@[j].name@);
                        }
                    }
                }
                m = k;
            } else {
                proof {
                    lemma_lex_total(work@[k as int].name@, work@[m as int].name@);
                }
            }
        }
        let ghost pre_work = work@;
        let ghost pre_out = out@;
        let x = work.remove(m);
        out.push(x);
        proof {
            broadcast use vstd::seq_lib::group_to_multiset_ensures;
            broadcast use vstd::multiset::group_multiset_axioms;

            assert(pre_work.remove(m as int).to_multiset() =~= pre_work.to_multiset().remove(
                pre_work[m as int]));
            assert(out@.to_multiset() =~= pre_out.to_multiset().insert(x));
            assert(out@.to_multiset().add(work@.to_multiset()) =~= all);
            assert(pre_work.to_multiset().contains(x));
            assert forall|i: int, j: int|
                0 <= i < out@.len() && 0 <= j < work@.len() implies lex_le(
                (#[trigger] out@[i]).name@,
                (#[trigger] work@[j]).name@,
            ) by {
                if i < out@.len() - 1 {
                    assert(out@[i] == pre_out[i]);
                }
                if j < m {
                    assert(work@[j] == pre_work[j]);
                } else {
                    assert(work@[j] == pre_work[j + 1]);
                }
            }
        }
    }
    proof {
        broadcast use vstd::seq_lib::group_to_multiset_ensures;
        broadcast use vstd::multiset::group_multiset_axioms;

        assert(work@.to_multiset() =~= Multiset::empty());
        assert(out@.to_multiset() =~= all);
    }
    out
}

} // verus!
