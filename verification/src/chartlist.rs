//! The external editor's chart library.
//!
//! Chart folders are described by key–value text files: `Name:`, `Path:`,
//! `Chart:`, `Picture:` and `Charter:` lines fill one pending entry, and a
//! line holding `#` commits it — an entry is emitted only when every field
//! of it was seen, consuming the fields in a fixed order. Folder names
//! made of digits mark chart folders when no list file exists, and the
//! committed entries are shown newest first.

use vstd::prelude::*;

use vstd::multiset::Multiset;

use crate::config::RPEChartInfo;
use crate::ipc::is_digit;
use crate::text::str_eq;

verus! {

/// A whitespace character a line is trimmed of.
pub open spec fn is_space(c: char) -> bool {
    c == ' ' || c == '\t' || c == '\r' || c == '\n'
}

/// A string with leading and trailing whitespace removed.
pub open spec fn trim_spec(s: Seq<char>) -> Seq<char>
    decreases s.len(),
{
    if s.len() == 0 {
        s
    } else if is_space(s[0]) {
        trim_spec(s.subrange(1, s.len() as int))
    } else if is_space(s[s.len() - 1]) {
        trim_spec(s.subrange(0, s.len() - 1))
    } else {
        s
    }
}

/// Removes leading and trailing whitespace.
pub fn trim_str(s: &str) -> (r: String)
    ensures
        r@ == trim_spec(s@),
    decreases s@.len(),
{
    let len = s.unicode_len();
    if len == 0 {
        return String::from_str(s);
    }
    let c0 = s.get_char(0);
    if c0 == ' ' || c0 == '\t' || c0 == '\r' || c0 == '\n' {
        return trim_str(s.substring_char(1, len));
    }
    let cl = s.get_char(len - 1);
    if cl == ' ' || cl == '\t' || cl == '\r' || cl == '\n' {
        return trim_str(s.substring_char(0, len - 1));
    }
    String::from_str(s)
}

/// The position of the first occurrence of `c` at or after `k`.
pub open spec fn first_char_from(s: Seq<char>, c: char, k: int) -> Option<int>
    decreases s.len() - k,
{
    if k < 0 || k >= s.len() {
        Option::None
    } else if s[k] == c {
        Option::Some(k)
    } else {
        first_char_from(s, c, k + 1)
    }
}

/// When `c` does not occur before position `i`, its first occurrence
/// overall is its first occurrence at or after `i`.
proof fn lemma_first_char_prefix(s: Seq<char>, c: char, i: int)
    requires
        0 <= i <= s.len(),
        forall|k: int| 0 <= k < i ==> s[k] != c,
    ensures
        first_char_from(s, c, 0) == first_char_from(s, c, i),
    decreases i,
{
    if i > 0 {
        lemma_first_char_prefix(s, c, i - 1);
    }
}

/// A found first occurrence lies inside the string and holds the
/// character.
pub proof fn lemma_first_char_bounds(s: Seq<char>, c: char, k: int)
    requires
        first_char_from(s, c, k) is Some,
    ensures
        k <= first_char_from(s, c, k)->0 < s.len(),
        s[first_char_from(s, c, k)->0] == c,
    decreases s.len() - k,
{
    if !(k < 0 || k >= s.len()) && s[k] != c {
        lemma_first_char_bounds(s, c, k + 1);
    }
}

/// Finds the first occurrence of a character.
pub fn find_char(s: &str, c: char) -> (r: Option<usize>)
    ensures
        match r {
            Option::Some(i) => first_char_from(s@, c, 0) == Option::Some(i as int),
            Option::None => first_char_from(s@, c, 0) is None,
        },
{
    let len = s.unicode_len();
    for i in 0..len
        invariant
            len == s@.len(),
            forall|k: int| 0 <= k < i ==> s@[k] != c,
    {
        if s.get_char(i) == c {
            proof {
                lemma_first_char_prefix(s@, c, i as int);
            }
            return Some(i);
        }
    }
    proof {
        lemma_first_char_prefix(s@, c, len as int);
    }
    None
}

/// The five fields of one pending chart entry, each once seen.
pub struct PendingChart {
    /// The chart's display name.
    pub name: Option<String>,
    /// The chart's folder name.
    pub id: Option<String>,
    /// The chart file's name.
    pub chart: Option<String>,
    /// The illustration file's name.
    pub illustration: Option<String>,
    /// The charter's name.
    pub charter: Option<String>,
}

/// The view of a pending entry: its fields as character sequences.
pub struct PendingView {
    /// The chart's display name.
    pub name: Option<Seq<char>>,
    /// The chart's folder name.
    pub id: Option<Seq<char>>,
    /// The chart file's name.
    pub chart: Option<Seq<char>>,
    /// The illustration file's name.
    pub illustration: Option<Seq<char>>,
    /// The charter's name.
    pub charter: Option<Seq<char>>,
}

impl View for PendingChart {
    type V = PendingView;

    open spec fn view(&self) -> PendingView {
        PendingView {
            name: match self.name {
                Option::Some(s) => Option::Some(s@),
                Option::None => Option::None,
            },
            id: match self.id {
                Option::Some(s) => Option::Some(s@),
                Option::None => Option::None,
            },
            chart: match self.chart {
                Option::Some(s) => Option::Some(s@),
                Option::None => Option::None,
            },
            illustration: match self.illustration {
                Option::Some(s) => Option::Some(s@),
                Option::None => Option::None,
            },
            charter: match self.charter {
                Option::Some(s) => Option::Some(s@),
                Option::None => Option::None,
            },
        }
    }
}

/// The view of one committed entry: its fields as character sequences.
pub struct RpeRecordView {
    /// The chart's display name.
    pub name: Seq<char>,
    /// The chart's identifier.
    pub id: Seq<char>,
    /// Path of the chart's folder.
    pub path: Seq<char>,
    /// Path of the chart's illustration.
    pub illustration: Seq<char>,
    /// The charter's name.
    pub charter: Seq<char>,
    /// Last modification time, in milliseconds since the epoch.
    pub modified: u64,
}

impl View for RPEChartInfo {
    type V = RpeRecordView;

    open spec fn view(&self) -> RpeRecordView {
        RpeRecordView {
            name: self.name@,
            id: self.id@,
            path: self.path@,
            illustration: self.illustration@,
            charter: self.charter@,
            modified: self.modified,
        }
    }
}

impl DeepView for RPEChartInfo {
    type V = RpeRecordView;

    open spec fn deep_view(&self) -> RpeRecordView {
        self.view()
    }
}

/// The empty pending entry.
pub open spec fn empty_pending() -> PendingView {
    PendingView {
        name: Option::None,
        id: Option::None,
        chart: Option::None,
        illustration: Option::None,
        charter: Option::None,
    }
}

/// A commit consumes the fields in the order identifier, chart file, name,
/// illustration, charter, stopping at the first absent one; only when all
/// five were seen is an entry emitted, with its paths assembled under the
/// library directory. The modification time is not known here and starts
/// at zero.
pub open spec fn commit_spec(dir: Seq<char>, st: PendingView) -> (PendingView, Option<
    RpeRecordView,
>) {
    if st.id is None {
        (st, Option::None)
    } else if st.chart is None {
        (PendingView { id: Option::None, ..st }, Option::None)
    } else if st.name is None {
        (PendingView { id: Option::None, chart: Option::None, ..st }, Option::None)
    } else if st.illustration is None {
        (PendingView { id: Option::None, chart: Option::None, name: Option::None, ..st },
            Option::None)
    } else if st.charter is None {
        (PendingView {
            id: Option::None,
            chart: Option::None,
            name: Option::None,
            illustration: Option::None,
            ..st
        }, Option::None)
    } else {
        let path = dir + "/Resources/"@ + st.id->0;
        (empty_pending(), Option::Some(RpeRecordView {
            name: st.name->0,
            id: st.id->0,
            path: path,
            illustration: path + "/"@ + st.illustration->0,
            charter: st.charter->0,
            modified: 0,
        }))
    }
}

/// The pending entry after reading one line: blank lines change nothing, a
/// `#` line commits, a known `key: value` line stores the trimmed value,
/// and anything else is skipped.
pub open spec fn line_step(dir: Seq<char>, st: PendingView, line: Seq<char>) -> (PendingView,
    Option<RpeRecordView>) {
    let t = trim_spec(line);
    if t.len() == 0 {
        (st, Option::None)
    } else if t == "#"@ {
        commit_spec(dir, st)
    } else {
        match first_char_from(t, ':', 0) {
            Option::Some(i) => {
                let key = t.subrange(0, i);
                let value = trim_spec(t.subrange(i + 1, t.len() as int));
                if key == "Name"@ {
                    (PendingView { name: Option::Some(value), ..st }, Option::None)
                } else if key == "Path"@ {
                    (PendingView { id: Option::Some(value), ..st }, Option::None)
                } else if key == "Chart"@ {
                    (PendingView { chart: Option::Some(value), ..st }, Option::None)
                } else if key == "Picture"@ {
                    (PendingView { illustration: Option::Some(value), ..st }, Option::None)
                } else if key == "Charter"@ {
                    (PendingView { charter: Option::Some(value), ..st }, Option::None)
                } else {
                    (st, Option::None)
                }
            },
            Option::None => (st, Option::None),
        }
    }
}

/// The pending entry and the committed entries after reading the lines at
/// and after position `k`, with one final commit at the end of the input.
pub open spec fn lines_run(
    dir: Seq<char>,
    lines: Seq<Seq<char>>,
    k: int,
    st: PendingView,
    acc: Seq<RpeRecordView>,
) -> Seq<RpeRecordView>
    decreases lines.len() - k,
{
    if k < 0 || k >= lines.len() {
        let (_, committed) = commit_spec(dir, st);
        match committed {
            Option::Some(r) => acc.push(r),
            Option::None => acc,
        }
    } else {
        let (st2, committed) = line_step(dir, st, lines[k]);
        let acc2 = match committed {
            Option::Some(r) => acc.push(r),
            Option::None => acc,
        };
        lines_run(dir, lines, k + 1, st2, acc2)
    }
}

/// Applies one line to the pending entry; a committed entry is returned.
fn apply_line(dir: &str, st: &mut PendingChart, line: &str) -> (committed: Option<
    RPEChartInfo,
>)
    ensures
        (final(st)@, match committed {
            Option::Some(r) => Option::Some(r@),
            Option::None => Option::<RpeRecordView>::None,
        }) == line_step(dir@, old(st)@, line@),
{
    let t = trim_str(line);
    if t.as_str().unicode_len() == 0 {
        return None;
    }
    if str_eq(t.as_str(), "#") {
        return commit_entry(dir, st);
    }
    let pos = match find_char(t.as_str(), ':') {
        Some(i) => i,
        None => {
            return None;
        },
    };
    let tl = t.as_str().unicode_len();
    proof {
        lemma_first_char_bounds(t@, ':', 0);
    }
    let key = t.as_str().substring_char(0, pos);
    let value = trim_str(t.as_str().substring_char(pos + 1, tl));
    if str_eq(key, "Name") {
        st.name = Some(value);
    } else if str_eq(key, "Path") {
        st.id = Some(value);
    } else if str_eq(key, "Chart") {
        st.chart = Some(value);
    } else if str_eq(key, "Picture") {
        st.illustration = Some(value);
    } else if str_eq(key, "Charter") {
        st.charter = Some(value);
    }
    None
}

/// Commits the pending entry.
fn commit_entry(dir: &str, st: &mut PendingChart) -> (committed: Option<RPEChartInfo>)
    ensures
        (final(st)@, match committed {
            Option::Some(r) => Option::Some(r@),
            Option::None => Option::<RpeRecordView>::None,
        }) == commit_spec(dir@, old(st)@),
{
    if st.id.is_none() {
        return None;
    }
    let id = st.id.take().unwrap();
    if st.chart.is_none() {
        return None;
    }
    let _chart = st.chart.take().unwrap();
    if st.name.is_none() {
        return None;
    }
    let name = st.name.take().unwrap();
    if st.illustration.is_none() {
        return None;
    }
    let illustration = st.illustration.take().unwrap();
    if st.charter.is_none() {
        return None;
    }
    let charter = st.charter.take().unwrap();
    let path = String::from_str(dir);
    let path = path.concat("/Resources/");
    let path = path.concat(id.as_str());
    let illustration_path = path.clone();
    let illustration_path = illustration_path.concat("/");
    let illustration_path = illustration_path.concat(illustration.as_str());
    Some(RPEChartInfo { name, id, path, illustration: illustration_path, charter, modified: 0 })
}

/// Reads a chart list: every line is applied to a pending entry and a
/// final commit closes the input. Returns the committed entries in file
/// order.
pub fn parse_chart_lines(dir: &str, lines: &Vec<String>) -> (r: Vec<RPEChartInfo>)
    ensures
        r.deep_view() == lines_run(dir@, lines.deep_view(), 0, empty_pending(), Seq::empty()),
{
    let mut st = PendingChart { name: None, id: None, chart: None, illustration: None,
        charter: None };
    let mut r: Vec<RPEChartInfo> = Vec::new();
    proof {
        assert(st@ == empty_pending());
        assert(r.deep_view() =~= Seq::<RpeRecordView>::empty());
    }
    for i in 0..lines.len()
        invariant
            lines_run(dir@, lines.deep_view(), 0, empty_pending(), Seq::empty()) == lines_run(
                dir@,
                lines.deep_view(),
                i as int,
                st@,
                r.deep_view(),
            ),
    {
        let ghost pre_acc = r.deep_view();
        let ghost pre_st = st@;
        let committed = apply_line(dir, &mut st, lines[i].as_str());
        match committed {
            Some(rec) => {
                r.push(rec);
                proof {
                    assert(r.deep_view() =~= pre_acc.push(rec@));
                }
            },
            None => {},
        }
        proof {
            assert(lines.deep_view()[i as int] == lines@[i as int]@);
        }
    }
    let last = commit_entry(dir, &mut st);
    let ghost pre_acc = r.deep_view();
    match last {
        Some(rec) => {
            r.push(rec);
            proof {
                assert(r.deep_view() =~= pre_acc.push(rec@));
            }
        },
        None => {},
    }
    r
}

/// A folder name made of digits alone marks a chart folder.
pub open spec fn spec_all_digits(s: Seq<char>) -> bool {
    s.len() >= 1 && forall|i: int| 0 <= i < s.len() ==> is_digit(#[trigger] s[i])
}

/// Whether a folder name consists of one or more digits and nothing else.
pub fn is_numeric_name(s: &str) -> (r: bool)
    ensures
        r == spec_all_digits(s@),
{
    let len = s.unicode_len();
    if len == 0 {
        return false;
    }
    for i in 0..len
        invariant
            len == s@.len(),
            forall|k: int| 0 <= k < i ==> is_digit(#[trigger] s@[k]),
    {
        let c = s.get_char(i);
        if !('0' <= c && c <= '9') {
            return false;
        }
    }
    true
}

/// The entries stand newest first.
pub open spec fn sorted_newest_first(s: Seq<RpeRecordView>) -> bool {
    forall|i: int, j: int|
        0 <= i < j < s.len() ==> (#[trigger] s[i]).modified >= (#[trigger] s[j]).modified
}

/// Orders the chart entries newest first: the result holds the same
/// entries, by descending modification time.
pub fn sort_charts_newest_first(items: Vec<RPEChartInfo>) -> (r: Vec<RPEChartInfo>)
    ensures
        sorted_newest_first(r.deep_view()),
        r@.to_multiset() == items@.to_multiset(),
{
    let mut work = items;
    let mut out: Vec<RPEChartInfo> = Vec::new();
    let ghost all = work@.to_multiset();
    proof {
        broadcast use vstd::seq_lib::group_to_multiset_ensures;
        broadcast use vstd::multiset::group_multiset_axioms;

        assert(out@.to_multiset().add(work@.to_multiset()) =~= all);
    }
    while work.len() > 0
        invariant
            forall|i: int, j: int|
                0 <= i < j < out@.len() ==> (#[trigger] out@[i])@.modified >= (
                #[trigger] out@[j])@.modified,
            out@.to_multiset().add(work@.to_multiset()) == all,
            forall|i: int, j: int|
                0 <= i < out@.len() && 0 <= j < work@.len() ==> (
                #[trigger] out@[i])@.modified >= (#[trigger] work@[j])@.modified,
        decreases work@.len(),
    {
        let mut m: usize = 0;
        for k in 1..work.len()
            invariant
                m < work@.len(),
                work@.len() > 0,
                forall|j: int| 0 <= j < k ==> (#[trigger] work@[j])@.modified
                    <= work@[m as int]@.modified,
        {
            if work[k].modified > work[m].modified {
                m = k;
            }
        }
        let ghost pre_work = work@;
        let ghost pre_out = out@;
        let x = work.remove(m);
        out.push(x);
        proof {
            broadcast use vstd::seq_lib::group_to_multiset_ensures;
            broadcast use vstd::multiset::group_multiset_axioms;

            assert(pre_work.remove(m as int).to_multiset() == pre_work.to_multiset().remove(
                pre_work[m as int]));
            assert(out@.to_multiset() == pre_out.to_multiset().insert(x));
            assert(out@.to_multiset().add(work@.to_multiset()) =~= all);
            assert forall|i: int, j: int|
                0 <= i < out@.len() && 0 <= j < work@.len() implies (
            #[trigger] out@[i])@.modified >= (#[trigger] work@[j])@.modified by {
                if i < out@.len() - 1 {
                    assert(out@[i] == pre_out[i]);
                }
                if j < m {
                    assert(work@[j] == pre_work[j]);
                } else {
                    assert(work@[j] == pre_work[j + 1]);
                }
            }
            assert forall|i: int, j: int|
                0 <= i < j < out@.len() implies (#[trigger] out@[i])@.modified >= (
            #[trigger] out@[j])@.modified by {
                if j == out@.len() - 1 {
                    assert(out@[j] == x);
                    assert(out@[i] == pre_out[i]);
                    assert(pre_out[i]@.modified >= pre_work[m as int]@.modified);
                } else {
                    assert(out@[i] == pre_out[i] && out@[j] == pre_out[j]);
                }
            }
        }
    }
    proof {
        broadcast use vstd::seq_lib::group_to_multiset_ensures;
        broadcast use vstd::multiset::group_multiset_axioms;

        assert(work@.to_multiset() =~= Multiset::empty());
        assert(out@.to_multiset() =~= all);
        assert forall|i: int, j: int|
            0 <= i < j < out.deep_view().len() implies (
        #[trigger] out.deep_view()[i]).modified >= (#[trigger] out.deep_view()[j]).modified by {
            assert(out.deep_view()[i] == out@[i]@);
            assert(out.deep_view()[j] == out@[j]@);
        }
    }
    out
}

} // verus!
