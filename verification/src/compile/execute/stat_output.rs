//! Reading what a measured build prints: directives of the fake compiler and
//! the CSV lines of `perf stat`.
use crate::text::{
    lines, split_char, split_lines, split_on_char, str_ends_with, str_eq, str_starts_with,
    str_strip_prefix, string_views, trim, trim_str,
};
use vstd::prelude::*;

verus! {

/// One line of a build's output, classified.
#[derive(Debug, PartialEq, Eq)]
pub enum StatLine {
    /// `!self-profile-dir:<dir>`
    SelfProfileDir(String),
    /// `!self-profile-crate:<crate>`
    SelfProfileCrate(String),
    /// `!counters-file:<file>`
    CountersFile(String),
    /// `!wall-time:<seconds>`
    WallTime(String),
    /// Another line, where `perf stat` lines are not read.
    Skipped,
    /// A `perf stat` line with fewer than five fields.
    Unhandled,
    /// A counter that was not supported or not counted.
    NotCounted,
    /// A counter that was active for less than the whole run.
    PartiallyActive { name: String, pct: String },
    /// A counter `name` with the value `count`.
    Counter { name: String, count: String },
}

pub enum StatLineView {
    SelfProfileDir(Seq<char>),
    SelfProfileCrate(Seq<char>),
    CountersFile(Seq<char>),
    WallTime(Seq<char>),
    Skipped,
    Unhandled,
    NotCounted,
    PartiallyActive { name: Seq<char>, pct: Seq<char> },
    Counter { name: Seq<char>, count: Seq<char> },
}

impl View for StatLine {
    type V = StatLineView;

    open spec fn view(&self) -> StatLineView {
        match self {
            StatLine::SelfProfileDir(s) => StatLineView::SelfProfileDir(s@),
            StatLine::SelfProfileCrate(s) => StatLineView::SelfProfileCrate(s@),
            StatLine::CountersFile(s) => StatLineView::CountersFile(s@),
            StatLine::WallTime(s) => StatLineView::WallTime(s@),
            StatLine::Skipped => StatLineView::Skipped,
            StatLine::Unhandled => StatLineView::Unhandled,
            StatLine::NotCounted => StatLineView::NotCounted,
            StatLine::PartiallyActive { name, pct } => StatLineView::PartiallyActive {
                name: name@,
                pct: pct@,
            },
            StatLine::Counter { name, count } => StatLineView::Counter {
                name: name@,
                count: count@,
            },
        }
    }
}

/// The counter name that `perf` gives performance-core instructions is read
/// as the plain instruction counter.
pub open spec fn counter_name(name: Seq<char>) -> Seq<char> {
    if name == "cpu_core/instructions:u/"@ {
        "instructions:u"@
    } else {
        name
    }
}

/// How a line of output is read. Directive lines carry what follows their
/// prefix. Other lines are `perf stat` CSV lines (`count;unit;name;time;pct`,
/// fields trimmed) when `perf_lines` holds, and skipped otherwise.
pub open spec fn classify_spec(line: Seq<char>, perf_lines: bool) -> StatLineView {
    if "!self-profile-dir:"@.is_prefix_of(line) {
        StatLineView::SelfProfileDir(line.skip("!self-profile-dir:"@.len() as int))
    } else if "!self-profile-crate:"@.is_prefix_of(line) {
        StatLineView::SelfProfileCrate(line.skip("!self-profile-crate:"@.len() as int))
    } else if "!counters-file:"@.is_prefix_of(line) {
        StatLineView::CountersFile(line.skip("!counters-file:"@.len() as int))
    } else if "!wall-time:"@.is_prefix_of(line) {
        StatLineView::WallTime(line.skip("!wall-time:"@.len() as int))
    } else if !perf_lines {
        StatLineView::Skipped
    } else {
        let parts = split_char(line, ';');
        if parts.len() < 5 {
            StatLineView::Unhandled
        } else {
            let cnt = trim(parts[0]);
            let name = counter_name(trim(parts[2]));
            let pct = trim(parts[4]);
            if cnt == "<not supported>"@ || cnt == "<not counted>"@ || cnt.len() == 0 {
                StatLineView::NotCounted
            } else if !"100."@.is_prefix_of(pct) {
                StatLineView::PartiallyActive { name, pct }
            } else {
                StatLineView::Counter { name, count: cnt }
            }
        }
    }
}

/// Reads one line of a build's output.
pub fn classify_stat_line(line: &str, perf_lines: bool) -> (r: StatLine)
    ensures
        r@ == classify_spec(line@, perf_lines),
{
    if let Some(rest) = str_strip_prefix(line, "!self-profile-dir:") {
        return StatLine::SelfProfileDir(rest);
    }
    if let Some(rest) = str_strip_prefix(line, "!self-profile-crate:") {
        return StatLine::SelfProfileCrate(rest);
    }
    if let Some(rest) = str_strip_prefix(line, "!counters-file:") {
        return StatLine::CountersFile(rest);
    }
    if let Some(rest) = str_strip_prefix(line, "!wall-time:") {
        return StatLine::WallTime(rest);
    }
    if !perf_lines {
        return StatLine::Skipped;
    }
    let parts = split_on_char(line, ';');
    assert(string_views(parts@) == split_char(line@, ';'));
    if parts.len() < 5 {
        return StatLine::Unhandled;
    }
    assert(parts@[0]@ == split_char(line@, ';')[0]);
    assert(parts@[2]@ == split_char(line@, ';')[2]);
    assert(parts@[4]@ == split_char(line@, ';')[4]);
    let cnt = trim_str(parts[0].as_str());
    let raw_name = trim_str(parts[2].as_str());
    let name = if str_eq(raw_name.as_str(), "cpu_core/instructions:u/") {
        "instructions:u".to_owned()
    } else {
        raw_name
    };
    let pct = trim_str(parts[4].as_str());
    if str_eq(cnt.as_str(), "<not supported>") || str_eq(cnt.as_str(), "<not counted>")
        || cnt.as_str().is_empty() {
        return StatLine::NotCounted;
    }
    if !str_starts_with(pct.as_str(), "100.") {
        return StatLine::PartiallyActive { name, pct };
    }
    StatLine::Counter { name, count: cnt }
}

pub open spec fn stat_lines_view(v: Seq<StatLine>) -> Seq<StatLineView> {
    v.map_values(|l: StatLine| l@)
}

/// Reads every line of a build's output, in order.
pub fn parse_stat_output(stdout: &str, perf_lines: bool) -> (r: Vec<StatLine>)
    ensures
        stat_lines_view(r@) == lines(stdout@).map_values(
            |l: Seq<char>| classify_spec(l, perf_lines),
        ),
{
    let ls = split_lines(stdout);
    let mut out: Vec<StatLine> = Vec::new();
    let mut i: usize = 0;
    while i < ls.len()
        invariant
            i <= ls.len(),
            string_views(ls@) == lines(stdout@),
            stat_lines_view(out@) == string_views(ls@.take(i as int)).map_values(
                |l: Seq<char>| classify_spec(l, perf_lines),
            ),
        decreases ls.len() - i,
    {
        let c = classify_stat_line(ls[i].as_str(), perf_lines);
        let ghost before = stat_lines_view(out@);
        out.push(c);
        i = i + 1;
        assert(string_views(ls@.take(i as int)).map_values(
            |l: Seq<char>| classify_spec(l, perf_lines),
        ) =~= before.push(classify_spec(ls@[i - 1]@, perf_lines)));
        assert(stat_lines_view(out@) =~= before.push(classify_spec(ls@[i - 1]@, perf_lines)));
    }
    assert(ls@.take(ls@.len() as int) =~= ls@);
    out
}

/// The directory named by the last `!self-profile-dir:` line.
pub open spec fn last_profile_dir(lines: Seq<StatLineView>) -> Option<Seq<char>>
    decreases lines.len(),
{
    if lines.len() == 0 {
        None
    } else {
        match lines.last() {
            StatLineView::SelfProfileDir(d) => Some(d),
            _ => last_profile_dir(lines.drop_last()),
        }
    }
}

/// The crate named by the last `!self-profile-crate:` line.
pub open spec fn last_profile_crate(lines: Seq<StatLineView>) -> Option<Seq<char>>
    decreases lines.len(),
{
    if lines.len() == 0 {
        None
    } else {
        match lines.last() {
            StatLineView::SelfProfileCrate(c) => Some(c),
            _ => last_profile_crate(lines.drop_last()),
        }
    }
}

pub open spec fn opt_text_view(o: Option<String>) -> Option<Seq<char>> {
    match o {
        Some(s) => Some(s@),
        None => None,
    }
}

/// Where the self-profile data of a build is: the directory and the crate
/// of the last lines that name them (a later line overrides an earlier one).
pub fn self_profile_source(lines: &[StatLine]) -> (r: (Option<String>, Option<String>))
    ensures
        opt_text_view(r.0) == last_profile_dir(stat_lines_view(lines@)),
        opt_text_view(r.1) == last_profile_crate(stat_lines_view(lines@)),
{
    let mut dir: Option<String> = None;
    let mut krate: Option<String> = None;
    let mut i: usize = 0;
    while i < lines.len()
        invariant
            i <= lines.len(),
            opt_text_view(dir) == last_profile_dir(stat_lines_view(lines@.take(i as int))),
            opt_text_view(krate) == last_profile_crate(stat_lines_view(lines@.take(i as int))),
        decreases lines.len() - i,
    {
        let ghost before = stat_lines_view(lines@.take(i as int));
        let ghost now = stat_lines_view(lines@.take(i + 1));
        assert(now =~= before.push(lines@[i as int]@));
        assert(now.drop_last() =~= before);
        assert(now.last() == lines@[i as int]@);
        match &lines[i] {
            StatLine::SelfProfileDir(d) => {
                dir = Some(d.clone());
            },
            StatLine::SelfProfileCrate(c) => {
                krate = Some(c.clone());
            },
            _ => {},
        }
        i = i + 1;
    }
    assert(lines@.take(lines@.len() as int) =~= lines@);
    (dir, krate)
}

/// A line that gives a statistic: a counter, the wall time, or a file of
/// counters.
pub open spec fn gives_stat(line: StatLineView) -> bool {
    line is Counter || line is WallTime || line is CountersFile
}

/// Whether some line gives a statistic; output with none holds no
/// measurement.
pub fn yields_stats(lines: &[StatLine]) -> (r: bool)
    ensures
        r == exists|i: int| 0 <= i < lines@.len() && gives_stat(#[trigger] lines@[i]@),
{
    let mut i: usize = 0;
    while i < lines.len()
        invariant
            i <= lines.len(),
            forall|k: int| 0 <= k < i ==> !gives_stat(#[trigger] lines@[k]@),
        decreases lines.len() - i,
    {
        match &lines[i] {
            StatLine::Counter { .. } | StatLine::WallTime(_) | StatLine::CountersFile(_) => {
                assert(gives_stat(lines@[i as int]@));
                return true;
            },
            _ => {},
        }
        i = i + 1;
    }
    false
}

/// Whether a file of a self-profile directory holds the profile of
/// `crate_name`: its name starts with the crate's name and ends with
/// `mm_profdata`.
pub fn is_self_profile_file(file_name: &str, crate_name: &str) -> (r: bool)
    ensures
        r == (crate_name@.is_prefix_of(file_name@) && "mm_profdata"@.is_suffix_of(file_name@)),
{
    str_starts_with(file_name, crate_name) && str_ends_with(file_name, "mm_profdata")
}

} // verus!
