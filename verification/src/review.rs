//! Diff review data: files, lines, totals, and the unified-diff parser that
//! turns a `turn/diff/updated` payload into review files.

use vstd::prelude::*;

use crate::paths::{
    byte_len, display_spec, resolve_review_path, resolve_spec, review_display_path,
    split_directory_and_name, split_index, splits_on_char_boundary,
};
use crate::text::{
    chars_of, find, find_in, str_eq, lead_ws, opt_chars, opt_string, skip_ws, skip_word, starts_with,
    string_from, strip_all_prefix, sub_vec, to_owned_string, trim_start, vec_starts_with,
    word_len, ws_tokens, lemma_lead_ws, lemma_word_len, lemma_find_from_found,
};

verus! {

#[derive(Clone, Copy, Debug, PartialEq, Eq, Structural)]
pub enum DiffLineKind {
    Context,
    Added,
    Deleted,
}

#[derive(Clone, Debug, PartialEq, Eq)]
pub struct DiffLinePresentation {
    pub old_line: Option<u32>,
    pub new_line: Option<u32>,
    pub content: String,
    pub kind: DiffLineKind,
}

/// A diff line with its text as characters.
pub struct DiffLineView {
    pub old_line: Option<u32>,
    pub new_line: Option<u32>,
    pub content: Seq<char>,
    pub kind: DiffLineKind,
}

impl View for DiffLinePresentation {
    type V = DiffLineView;

    open spec fn view(&self) -> DiffLineView {
        DiffLineView {
            old_line: self.old_line,
            new_line: self.new_line,
            content: self.content@,
            kind: self.kind,
        }
    }
}

pub open spec fn added_line(new_line: u32, content: Seq<char>) -> DiffLineView {
    DiffLineView { old_line: None, new_line: Some(new_line), content, kind: DiffLineKind::Added }
}

pub open spec fn deleted_line(old_line: u32, content: Seq<char>) -> DiffLineView {
    DiffLineView {
        old_line: Some(old_line),
        new_line: None,
        content,
        kind: DiffLineKind::Deleted,
    }
}

pub open spec fn context_line(old_line: u32, new_line: u32, content: Seq<char>) -> DiffLineView {
    DiffLineView {
        old_line: Some(old_line),
        new_line: Some(new_line),
        content,
        kind: DiffLineKind::Context,
    }
}

impl DiffLinePresentation {
    pub fn added(new_line: u32, content: &str) -> (l: Self)
        ensures
            l@ == added_line(new_line, content@),
    {
        DiffLinePresentation {
            old_line: None,
            new_line: Some(new_line),
            content: to_owned_string(content),
            kind: DiffLineKind::Added,
        }
    }

    pub fn deleted(old_line: u32, content: &str) -> (l: Self)
        ensures
            l@ == deleted_line(old_line, content@),
    {
        DiffLinePresentation {
            old_line: Some(old_line),
            new_line: None,
            content: to_owned_string(content),
            kind: DiffLineKind::Deleted,
        }
    }

    pub fn context(old_line: u32, new_line: u32, content: &str) -> (l: Self)
        ensures
            l@ == context_line(old_line, new_line, content@),
    {
        DiffLinePresentation {
            old_line: Some(old_line),
            new_line: Some(new_line),
            content: to_owned_string(content),
            kind: DiffLineKind::Context,
        }
    }
}

#[derive(Clone, Copy, Debug, Default, PartialEq, Eq, Structural)]
pub enum DiffFileVisualState {
    Collapsed,
    #[default]
    Expanded,
    HeaderHovered,
}

impl DiffFileVisualState {
    pub fn is_expanded(self) -> (b: bool)
        ensures
            b == !(self is Collapsed),
    {
        !matches!(self, DiffFileVisualState::Collapsed)
    }

    pub fn header_hovered(self) -> (b: bool)
        ensures
            b == (self is HeaderHovered),
    {
        matches!(self, DiffFileVisualState::HeaderHovered)
    }
}

#[derive(Clone, Debug, PartialEq, Eq)]
pub struct DiffFilePresentation {
    pub path: String,
    /// Canonical filesystem target used by native Open/Reveal actions. The
    /// display path can remain relative exactly as emitted by the review UI.
    pub resolved_path: Option<String>,
    pub additions: u32,
    pub deletions: u32,
    pub lines: Vec<DiffLinePresentation>,
    pub visual_state: DiffFileVisualState,
}

pub struct DiffFileView {
    pub path: Seq<char>,
    pub resolved_path: Option<Seq<char>>,
    pub additions: u32,
    pub deletions: u32,
    pub lines: Seq<DiffLineView>,
    pub visual_state: DiffFileVisualState,
}

pub open spec fn lines_view(lines: Seq<DiffLinePresentation>) -> Seq<DiffLineView> {
    lines.map_values(|l: DiffLinePresentation| l@)
}

impl View for DiffFilePresentation {
    type V = DiffFileView;

    open spec fn view(&self) -> DiffFileView {
        DiffFileView {
            path: self.path@,
            resolved_path: opt_string(self.resolved_path),
            additions: self.additions,
            deletions: self.deletions,
            lines: lines_view(self.lines@),
            visual_state: self.visual_state,
        }
    }
}

pub open spec fn files_view(files: Seq<DiffFilePresentation>) -> Seq<DiffFileView> {
    files.map_values(|f: DiffFilePresentation| f@)
}

/// Sum of the additions of `files`.
pub open spec fn sum_additions(files: Seq<DiffFileView>) -> nat
    decreases files.len(),
{
    if files.len() == 0 {
        0
    } else {
        sum_additions(files.drop_last()) + files.last().additions as nat
    }
}

/// Sum of the deletions of `files`.
pub open spec fn sum_deletions(files: Seq<DiffFileView>) -> nat
    decreases files.len(),
{
    if files.len() == 0 {
        0
    } else {
        sum_deletions(files.drop_last()) + files.last().deletions as nat
    }
}

/// The lines a file's diff shows: its lines, or for a file without any one
/// placeholder added line, blank when the file has a name and empty when
/// it has none.
pub open spec fn shown_lines_spec(f: DiffFileView) -> Seq<DiffLineView> {
    if f.lines.len() == 0 {
        seq![
            added_line(
                1,
                if split_index(f.path) == f.path.len() {
                    ""@
                } else {
                    " "@
                },
            ),
        ]
    } else {
        f.lines
    }
}

fn copy_lines(lines: &Vec<DiffLinePresentation>) -> (r: Vec<DiffLinePresentation>)
    ensures
        lines_view(r@) == lines_view(lines@),
{
    let mut out: Vec<DiffLinePresentation> = Vec::new();
    let mut i: usize = 0;
    while i < lines.len()
        invariant
            i <= lines.len(),
            lines_view(out@) == lines_view(lines@).take(i as int),
        decreases lines.len() - i,
    {
        let l = &lines[i];
        let ghost before = out@;
        out.push(
            DiffLinePresentation {
                old_line: l.old_line,
                new_line: l.new_line,
                content: l.content.clone(),
                kind: l.kind,
            },
        );
        proof {
            assert(lines_view(out@) =~= lines_view(before).push(lines@[i as int]@));
            assert(lines_view(lines@).take(i + 1) =~= lines_view(lines@).take(i as int).push(
                lines@[i as int]@,
            ));
        }
        i += 1;
    }
    proof {
        assert(lines_view(lines@).take(i as int) =~= lines_view(lines@));
    }
    out
}

fn copy_opt(s: &Option<String>) -> (r: Option<String>)
    ensures
        opt_string(r) == opt_string(*s),
{
    match s {
        Some(x) => Some(x.clone()),
        None => None,
    }
}

impl DiffFilePresentation {
    /// A copy of the file.
    pub fn copy(&self) -> (c: Self)
        ensures
            c@ == self@,
    {
        DiffFilePresentation {
            path: self.path.clone(),
            resolved_path: copy_opt(&self.resolved_path),
            additions: self.additions,
            deletions: self.deletions,
            lines: copy_lines(&self.lines),
            visual_state: self.visual_state,
        }
    }
}

/// Copies of `files`, appended to `out`.
pub fn append_file_copies(out: &mut Vec<DiffFilePresentation>, files: &Vec<DiffFilePresentation>)
    ensures
        files_view(final(out)@) == files_view(old(out)@) + files_view(files@),
{
    let ghost start = files_view(out@);
    let mut i: usize = 0;
    while i < files.len()
        invariant
            i <= files.len(),
            files_view(out@) == start + files_view(files@).take(i as int),
        decreases files.len() - i,
    {
        let ghost before = out@;
        out.push(files[i].copy());
        proof {
            assert(files_view(out@) =~= files_view(before).push(files@[i as int]@));
            assert(files_view(files@).take(i + 1) =~= files_view(files@).take(i as int).push(
                files@[i as int]@,
            ));
        }
        i += 1;
    }
    proof {
        assert(files_view(files@).take(i as int) =~= files_view(files@));
    }
}

impl DiffReviewPresentation {
    /// A copy of the review.
    pub fn copy(&self) -> (c: Self)
        ensures
            c@ == self@,
    {
        let mut files: Vec<DiffFilePresentation> = Vec::new();
        append_file_copies(&mut files, &self.files);
        proof {
            assert(files_view(files@) =~= files_view(self.files@));
        }
        DiffReviewPresentation {
            review_id: self.review_id.clone(),
            turn_label: self.turn_label.clone(),
            files,
            show_summary: self.show_summary,
            show_file_tree: self.show_file_tree,
            raw_diff: copy_opt(&self.raw_diff),
        }
    }
}

impl DiffFilePresentation {
    /// The lines the file's diff shows (see `shown_lines_spec`).
    pub fn shown_lines(&self) -> (r: Vec<DiffLinePresentation>)
        requires
            splits_on_char_boundary(self.path@),
            byte_len(self.path@) <= usize::MAX,
        ensures
            lines_view(r@) == shown_lines_spec(self@),
    {
        let mut out: Vec<DiffLinePresentation> = Vec::new();
        if self.lines.len() == 0 {
            let (_, name) = split_directory_and_name(self.path.as_str());
            let blank = name.unicode_len() == 0;
            out.push(DiffLinePresentation::added(1, if blank { "" } else { " " }));
            proof {
                assert(lines_view(out@) =~= shown_lines_spec(self@));
            }
            return out;
        }
        copy_lines(&self.lines)
    }
}

#[derive(Clone, Debug, PartialEq, Eq)]
pub struct DiffReviewPresentation {
    pub review_id: String,
    pub turn_label: String,
    pub files: Vec<DiffFilePresentation>,
    pub show_summary: bool,
    pub show_file_tree: bool,
    /// The patch the review was read from, kept as it came.
    pub raw_diff: Option<String>,
}

pub struct DiffReviewView {
    pub review_id: Seq<char>,
    pub turn_label: Seq<char>,
    pub files: Seq<DiffFileView>,
    pub show_summary: bool,
    pub show_file_tree: bool,
    pub raw_diff: Option<Seq<char>>,
}

impl View for DiffReviewPresentation {
    type V = DiffReviewView;

    open spec fn view(&self) -> DiffReviewView {
        DiffReviewView {
            review_id: self.review_id@,
            turn_label: self.turn_label@,
            files: files_view(self.files@),
            show_summary: self.show_summary,
            show_file_tree: self.show_file_tree,
            raw_diff: opt_string(self.raw_diff),
        }
    }
}

/// Number of lines of kind `k`.
pub open spec fn count_kind(lines: Seq<DiffLineView>, k: DiffLineKind) -> nat
    decreases lines.len(),
{
    if lines.len() == 0 {
        0
    } else {
        count_kind(lines.drop_last(), k) + (if lines.last().kind == k {
            1nat
        } else {
            0nat
        })
    }
}

/// A file freshly opened by the parser.
pub open spec fn new_file(path: Seq<char>, resolved: Option<Seq<char>>) -> DiffFileView {
    DiffFileView {
        path,
        resolved_path: resolved,
        additions: 0,
        deletions: 0,
        lines: seq![],
        visual_state: DiffFileVisualState::Expanded,
    }
}

/// A finished file: its totals are the numbers of added and deleted lines.
pub open spec fn with_counts(f: DiffFileView) -> DiffFileView {
    DiffFileView {
        additions: count_kind(f.lines, DiffLineKind::Added) as u32,
        deletions: count_kind(f.lines, DiffLineKind::Deleted) as u32,
        ..f
    }
}

pub open spec fn is_digit(c: char) -> bool {
    48 <= c as u32 <= 57
}

pub open spec fn digits_value(s: Seq<char>) -> nat
    decreases s.len(),
{
    if s.len() == 0 {
        0
    } else {
        digits_value(s.drop_last()) * 10 + ((s.last() as u32 - 48) as nat)
    }
}

pub open spec fn all_digits(d: Seq<char>) -> bool {
    forall|i: int| 0 <= i < d.len() ==> is_digit(#[trigger] d[i])
}

/// One or more decimal digits whose value fits in `u32`.
pub open spec fn parse_digits_spec(d: Seq<char>) -> Option<u32> {
    if d.len() == 0 || !all_digits(d) || digits_value(d) > u32::MAX {
        None
    } else {
        Some(digits_value(d) as u32)
    }
}

/// `str::parse::<u32>`: an optional `+`, then one or more decimal digits
/// whose value fits in `u32`.
pub open spec fn parse_u32_spec(s: Seq<char>) -> Option<u32> {
    if s.len() > 0 && s[0] == '+' {
        parse_digits_spec(s.drop_first())
    } else {
        parse_digits_spec(s)
    }
}

/// Length of the text before the first occurrence of `c`.
pub open spec fn run_before(s: Seq<char>, c: char) -> nat
    decreases s.len(),
{
    if s.len() == 0 || s[0] == c {
        0
    } else {
        1 + run_before(s.drop_first(), c)
    }
}

/// The start of a hunk range `start[,count]`.
pub open spec fn range_start(r: Seq<char>) -> Option<u32> {
    parse_u32_spec(r.subrange(0, run_before(r, ',') as int))
}

/// The old and new start lines of a `@@ -a[,b] +c[,d] @@` hunk header.
pub open spec fn hunk_spec(line: Seq<char>) -> Option<(u32, u32)> {
    if !starts_with(line, "@@ -"@) {
        None
    } else {
        let header = line.subrange("@@ -"@.len() as int, line.len() as int);
        match find(header, " +"@) {
            None => None,
            Some(i) => {
                let old = header.subrange(0, i);
                let remainder = header.subrange(i + " +"@.len(), header.len() as int);
                match find(remainder, " @@"@) {
                    None => None,
                    Some(j) => {
                        let new = remainder.subrange(0, j);
                        match (range_start(old), range_start(new)) {
                            (Some(a), Some(b)) => Some((a, b)),
                            _ => None,
                        }
                    },
                }
            },
        }
    }
}

/// The path a `diff --git a/x b/x` header names: its second field with the
/// `b/` prefixes removed.
pub open spec fn git_header_path(line: Seq<char>) -> Seq<char> {
    let rest = line.subrange("diff --git "@.len() as int, line.len() as int);
    let tokens = ws_tokens(rest);
    let field = if tokens.len() > 1 {
        tokens[1]
    } else {
        seq![]
    };
    strip_all_prefix(field, "b/"@)
}

/// Parser state between two lines.
pub struct DiffParseState {
    pub files: Seq<DiffFileView>,
    pub current: Option<DiffFileView>,
    pub old_line: u32,
    pub new_line: u32,
}

pub open spec fn initial_state() -> DiffParseState {
    DiffParseState { files: seq![], current: None, old_line: 0, new_line: 0 }
}

/// The finished files, the open one included.
pub open spec fn finished_files(st: DiffParseState) -> Seq<DiffFileView> {
    match st.current {
        Some(f) => st.files.push(with_counts(f)),
        None => st.files,
    }
}

pub open spec fn push_line(f: DiffFileView, l: DiffLineView) -> DiffFileView {
    DiffFileView { lines: f.lines.push(l), ..f }
}

/// How one diff line changes the parser state.
pub open spec fn diff_step(st: DiffParseState, line: Seq<char>, cwd: Option<Seq<char>>) -> DiffParseState {
    if starts_with(line, "diff --git "@) {
        let path = git_header_path(line);
        let resolved = resolve_spec(path, cwd);
        DiffParseState {
            files: finished_files(st),
            current: Some(new_file(display_spec(path, resolved, cwd), resolved)),
            ..st
        }
    } else {
        let st1 = if st.current is None && starts_with(line, "@@ "@) {
            DiffParseState { current: Some(new_file("变更"@, None)), ..st }
        } else {
            st
        };
        match hunk_spec(line) {
            Some((o, n)) => DiffParseState { old_line: o, new_line: n, ..st1 },
            None => match st1.current {
                None => st1,
                Some(f) => if starts_with(line, "--- "@) || starts_with(line, "+++ "@) {
                    st1
                } else if starts_with(line, "+"@) {
                    DiffParseState {
                        current: Some(
                            push_line(
                                f,
                                added_line(st1.new_line, line.subrange(1, line.len() as int)),
                            ),
                        ),
                        new_line: st1.new_line.saturating_add(1),
                        ..st1
                    }
                } else if starts_with(line, "-"@) {
                    DiffParseState {
                        current: Some(
                            push_line(
                                f,
                                deleted_line(st1.old_line, line.subrange(1, line.len() as int)),
                            ),
                        ),
                        old_line: st1.old_line.saturating_add(1),
                        ..st1
                    }
                } else if starts_with(line, " "@) {
                    DiffParseState {
                        current: Some(
                            push_line(
                                f,
                                context_line(
                                    st1.old_line,
                                    st1.new_line,
                                    line.subrange(1, line.len() as int),
                                ),
                            ),
                        ),
                        old_line: st1.old_line.saturating_add(1),
                        new_line: st1.new_line.saturating_add(1),
                        ..st1
                    }
                } else {
                    st1
                },
            },
        }
    }
}

/// Runs the parser over `lines`, first to last.
pub open spec fn diff_run(st: DiffParseState, lines: Seq<Seq<char>>, cwd: Option<Seq<char>>) -> DiffParseState
    decreases lines.len(),
{
    if lines.len() == 0 {
        st
    } else {
        diff_run(diff_step(st, lines[0], cwd), lines.drop_first(), cwd)
    }
}

/// Removes the `\r` of a `\r\n` line ending.
pub open spec fn strip_cr(l: Seq<char>) -> Seq<char> {
    if l.len() > 0 && l.last() == '\r' {
        l.drop_last()
    } else {
        l
    }
}

/// `str::lines`: lines end at `\n` or `\r\n`; the final line ending is
/// optional, and a final `\r` without `\n` is kept.
pub open spec fn split_lines(s: Seq<char>) -> Seq<Seq<char>>
    decreases s.len(),
{
    if s.len() == 0 {
        seq![]
    } else {
        proof {
            lemma_run_before(s, '\n');
        }
        let k = run_before(s, '\n') as int;
        if k < s.len() {
            seq![strip_cr(s.subrange(0, k))] + split_lines(s.subrange(k + 1, s.len() as int))
        } else {
            seq![s]
        }
    }
}

/// The review files a unified diff describes, relative to `cwd`.
pub open spec fn parse_review_files(diff: Seq<char>, cwd: Option<Seq<char>>) -> Seq<DiffFileView> {
    finished_files(diff_run(initial_state(), split_lines(diff), cwd))
}

pub proof fn lemma_run_before(s: Seq<char>, c: char)
    ensures
        run_before(s, c) <= s.len(),
        forall|j: int| 0 <= j < run_before(s, c) ==> #[trigger] s[j] != c,
        run_before(s, c) < s.len() ==> s[run_before(s, c) as int] == c,
    decreases s.len(),
{
    if s.len() > 0 && s[0] != c {
        lemma_run_before(s.drop_first(), c);
        assert forall|j: int| 0 <= j < run_before(s, c) implies #[trigger] s[j] != c by {
            if j > 0 {
                assert(s[j] == s.drop_first()[j - 1]);
            }
        }
    }
}

pub proof fn lemma_run_before_unique(s: Seq<char>, c: char, k: int)
    requires
        0 <= k <= s.len(),
        forall|j: int| 0 <= j < k ==> #[trigger] s[j] != c,
        k < s.len() ==> s[k] == c,
    ensures
        run_before(s, c) == k,
{
    lemma_run_before(s, c);
    if (run_before(s, c) as int) < k {
        assert(s[run_before(s, c) as int] != c);
    }
    if (run_before(s, c) as int) > k {
        assert(s[k] != c);
    }
}

/// Index of the first `c` in `v[lo..]`, or `v.len()`.
fn find_char(v: &Vec<char>, lo: usize, c: char) -> (k: usize)
    requires
        lo <= v.len(),
    ensures
        k == lo + run_before(v@.subrange(lo as int, v@.len() as int), c),
        lo <= k <= v.len(),
{
    let ghost sub = v@.subrange(lo as int, v@.len() as int);
    let mut k = lo;
    while k < v.len() && v[k] != c
        invariant
            lo <= k <= v.len(),
            sub == v@.subrange(lo as int, v@.len() as int),
            forall|j: int| lo <= j < k ==> #[trigger] v@[j] != c,
        decreases v.len() - k,
    {
        k += 1;
    }
    proof {
        assert forall|j: int| 0 <= j < k - lo implies #[trigger] sub[j] != c by {
            assert(sub[j] == v@[lo + j]);
        }
        if k < v.len() {
            assert(sub[k - lo] == v@[k as int]);
        }
        lemma_run_before_unique(sub, c, k - lo);
    }
    k
}

proof fn lemma_digits_value_prefix(s: Seq<char>, i: int)
    requires
        0 <= i < s.len(),
    ensures
        digits_value(s.subrange(0, i + 1)) == digits_value(s.subrange(0, i)) * 10 + ((s[i] as u32
            - 48) as nat),
{
    assert(s.subrange(0, i + 1).drop_last() == s.subrange(0, i));
}

proof fn lemma_digits_value_monotone(s: Seq<char>, i: int)
    requires
        0 <= i <= s.len(),
        all_digits(s),
    ensures
        digits_value(s.subrange(0, i)) <= digits_value(s),
    decreases s.len() - i,
{
    if i < s.len() {
        lemma_digits_value_prefix(s, i);
        lemma_digits_value_monotone(s, i + 1);
    } else {
        assert(s.subrange(0, i) == s);
    }
}

/// `str::parse::<u32>` on the characters `v[lo..hi]`.
fn parse_u32_range(v: &Vec<char>, lo: usize, hi: usize) -> (r: Option<u32>)
    requires
        lo <= hi <= v.len(),
    ensures
        r == parse_u32_spec(v@.subrange(lo as int, hi as int)),
{
    let ghost s = v@.subrange(lo as int, hi as int);
    let start = if lo < hi && v[lo] == '+' {
        lo + 1
    } else {
        lo
    };
    let ghost d = v@.subrange(start as int, hi as int);
    proof {
        if lo < hi {
            assert(s[0] == v@[lo as int]);
            if v@[lo as int] == '+' {
                assert(d =~= s.drop_first());
            } else {
                assert(d =~= s);
            }
        } else {
            assert(d =~= s);
        }
        assert(parse_u32_spec(s) == parse_digits_spec(d));
    }
    if start == hi {
        return None;
    }
    let mut value: u64 = 0;
    let mut i = start;
    proof {
        assert(d.subrange(0, 0) =~= Seq::<char>::empty());
    }
    while i < hi
        invariant
            start <= i <= hi <= v.len(),
            start < hi,
            d == v@.subrange(start as int, hi as int),
            parse_u32_spec(v@.subrange(lo as int, hi as int)) == parse_digits_spec(d),
            forall|j: int| 0 <= j < i - start ==> is_digit(#[trigger] d[j]),
            value == digits_value(d.subrange(0, i - start)),
            value <= u32::MAX,
        decreases hi - i,
    {
        let c = v[i];
        let u = c as u32;
        proof {
            assert(d[i - start] == c);
        }
        if !(48 <= u && u <= 57) {
            proof {
                assert(!is_digit(d[i - start]));
                assert(!all_digits(d));
            }
            return None;
        }
        proof {
            lemma_digits_value_prefix(d, i - start);
        }
        value = value * 10 + (u as u64 - 48);
        if value > 0xFFFF_FFFF {
            proof {
                if all_digits(d) {
                    lemma_digits_value_monotone(d, i - start + 1);
                }
            }
            return None;
        }
        i += 1;
    }
    proof {
        assert(d.subrange(0, hi - start) == d);
    }
    Some(value as u32)
}

/// Start line of a hunk range `start[,count]` held in `v`.
fn range_start_exec(v: &Vec<char>) -> (r: Option<u32>)
    ensures
        r == range_start(v@),
{
    let k = find_char(v, 0, ',');
    proof {
        assert(v@.subrange(0, v@.len() as int) == v@);
    }
    parse_u32_range(v, 0, k)
}

/// The old and new start lines of a `@@ -a,b +c,d @@` hunk header.
pub fn parse_hunk_header(line: &str) -> (r: Option<(u32, u32)>)
    ensures
        r == hunk_spec(line@),
{
    let v = chars_of(line);
    hunk_of(&v)
}

fn hunk_of(line: &Vec<char>) -> (r: Option<(u32, u32)>)
    ensures
        r == hunk_spec(line@),
{
    if !vec_starts_with(line, "@@ -") {
        return None;
    }
    let p = chars_of("@@ -");
    let header = sub_vec(line, p.len(), line.len());
    let plus = chars_of(" +");
    proof {
        assert(header@.subrange(0, header@.len() as int) == header@);
    }
    let i = match find_in(&header, header.len(), 0, &plus) {
        None => return None,
        Some(i) => i,
    };
    proof {
        lemma_find_from_found(header@, plus@, 0);
    }
    let old = sub_vec(&header, 0, i);
    let remainder = sub_vec(&header, i + plus.len(), header.len());
    let close = chars_of(" @@");
    proof {
        assert(remainder@.subrange(0, remainder@.len() as int) == remainder@);
    }
    let j = match find_in(&remainder, remainder.len(), 0, &close) {
        None => return None,
        Some(j) => j,
    };
    proof {
        lemma_find_from_found(remainder@, close@, 0);
    }
    let new = sub_vec(&remainder, 0, j);
    match (range_start_exec(&old), range_start_exec(&new)) {
        (Some(a), Some(b)) => Some((a, b)),
        _ => None,
    }
}

proof fn lemma_second_token(s: Seq<char>)
    ensures
        ({
            let a0 = lead_ws(s) as int;
            let t = s.subrange(a0, s.len() as int);
            let b0 = a0 + word_len(t);
            let u = s.subrange(b0, s.len() as int);
            let a1 = b0 + lead_ws(u);
            let w = s.subrange(a1, s.len() as int);
            let b1 = a1 + word_len(w);
            &&& 0 <= a0 <= b0 <= a1 <= b1 <= s.len()
            &&& (ws_tokens(s).len() > 1 <==> a1 < s.len())
            &&& a1 < s.len() ==> ws_tokens(s)[1] == s.subrange(a1, b1)
        }),
{
    let a0 = lead_ws(s) as int;
    lemma_lead_ws(s);
    let t = s.subrange(a0, s.len() as int);
    assert(t == trim_start(s));
    lemma_word_len(t);
    let b0 = a0 + word_len(t);
    let u = s.subrange(b0, s.len() as int);
    lemma_lead_ws(u);
    let a1 = b0 + lead_ws(u);
    let w = s.subrange(a1, s.len() as int);
    lemma_word_len(w);
    if t.len() > 0 {
        let rest = t.subrange(word_len(t) as int, t.len() as int);
        assert(rest == u);
        assert(ws_tokens(s) == seq![t.subrange(0, word_len(t) as int)] + ws_tokens(u));
        assert(trim_start(u) == w);
        if w.len() > 0 {
            assert(ws_tokens(u) == seq![w.subrange(0, word_len(w) as int)] + ws_tokens(
                w.subrange(word_len(w) as int, w.len() as int),
            ));
            assert(ws_tokens(s)[1] == w.subrange(0, word_len(w) as int));
            assert(w.subrange(0, word_len(w) as int) == s.subrange(a1, a1 + word_len(w)));
        } else {
            assert(ws_tokens(u) == Seq::<Seq<char>>::empty());
        }
    } else {
        assert(ws_tokens(s) == Seq::<Seq<char>>::empty());
        assert(u.len() == 0);
    }
}

proof fn lemma_strip_all_prefix_step(s: Seq<char>, p: Seq<char>)
    requires
        p.len() > 0,
        starts_with(s, p),
    ensures
        strip_all_prefix(s, p) == strip_all_prefix(s.subrange(p.len() as int, s.len() as int), p),
{
}

/// The path named by a `diff --git` header line.
fn git_header_path_exec(line: &Vec<char>) -> (r: String)
    requires
        starts_with(line@, "diff --git "@),
    ensures
        r@ == git_header_path(line@),
{
    let p = chars_of("diff --git ");
    let rest = sub_vec(line, p.len(), line.len());
    let n = rest.len();
    let a0 = skip_ws(&rest, 0, n);
    let b0 = skip_word(&rest, a0, n);
    let a1 = skip_ws(&rest, b0, n);
    let b1 = skip_word(&rest, a1, n);
    proof {
        assert(rest@.subrange(0, n as int) == rest@);
        lemma_second_token(rest@);
    }
    let (mut lo, hi) = if a1 < n {
        (a1, b1)
    } else {
        (n, n)
    };
    proof {
        assert(rest@.subrange(n as int, n as int) =~= Seq::<char>::empty());
    }
    let bp = chars_of("b/");
    proof {
        reveal_strlit("b/");
    }
    while hi - lo >= 2 && rest[lo] == 'b' && rest[lo + 1] == '/'
        invariant
            lo <= hi <= n,
            n == rest.len(),
            bp@ == seq!['b', '/'],
            "b/"@ == seq!['b', '/'],
            strip_all_prefix(rest@.subrange(lo as int, hi as int), "b/"@) == git_header_path(
                line@,
            ),
        decreases hi - lo,
    {
        proof {
            let s = rest@.subrange(lo as int, hi as int);
            assert(s.subrange(0, 2) =~= seq!['b', '/']);
            lemma_strip_all_prefix_step(s, "b/"@);
            assert(s.subrange(2, s.len() as int) == rest@.subrange(lo + 2, hi as int));
        }
        lo = lo + 2;
    }
    proof {
        let s = rest@.subrange(lo as int, hi as int);
        if s.len() >= 2 {
            if s.subrange(0, 2) == seq!['b', '/'] {
                assert(s[0] == rest@[lo as int]);
                assert(s.subrange(0, 2)[0] == s[0]);
                assert(s.subrange(0, 2)[1] == s[1]);
                assert(s[1] == rest@[lo + 1]);
            }
        }
    }
    string_from(&rest, lo, hi)
}

/// Exec parser state.
struct ParseState {
    files: Vec<DiffFilePresentation>,
    current: Option<DiffFilePresentation>,
    old_line: u32,
    new_line: u32,
}

impl View for ParseState {
    type V = DiffParseState;

    closed spec fn view(&self) -> DiffParseState {
        DiffParseState {
            files: files_view(self.files@),
            current: match self.current {
                Some(f) => Some(f@),
                None => None,
            },
            old_line: self.old_line,
            new_line: self.new_line,
        }
    }
}

fn count_lines(lines: &Vec<DiffLinePresentation>, k: DiffLineKind) -> (n: usize)
    ensures
        n == count_kind(lines_view(lines@), k),
{
    let mut n: usize = 0;
    let mut i: usize = 0;
    proof {
        assert(lines_view(lines@).subrange(0, 0) =~= Seq::<DiffLineView>::empty());
    }
    while i < lines.len()
        invariant
            i <= lines.len(),
            n <= i,
            n == count_kind(lines_view(lines@).subrange(0, i as int), k),
        decreases lines.len() - i,
    {
        proof {
            let lv = lines_view(lines@);
            assert(lv.subrange(0, i + 1).drop_last() == lv.subrange(0, i as int));
            assert(lv[i as int] == lines@[i as int]@);
        }
        if lines[i].kind == k {
            n += 1;
        }
        i += 1;
    }
    proof {
        assert(lines_view(lines@).subrange(0, lines.len() as int) == lines_view(lines@));
    }
    n
}

fn finish_file(f: DiffFilePresentation) -> (g: DiffFilePresentation)
    ensures
        g@ == with_counts(f@),
{
    let additions = count_lines(&f.lines, DiffLineKind::Added) as u32;
    let deletions = count_lines(&f.lines, DiffLineKind::Deleted) as u32;
    DiffFilePresentation { additions, deletions, ..f }
}

fn finish_state(st: ParseState) -> (files: Vec<DiffFilePresentation>)
    ensures
        files_view(files@) == finished_files(st@),
{
    let mut files = st.files;
    match st.current {
        Some(f) => {
            let ghost before = files@;
            files.push(finish_file(f));
            proof {
                assert(files_view(files@) =~= files_view(before).push(files@.last()@));
            }
        },
        None => {},
    }
    files
}

fn push_line_exec(f: DiffFilePresentation, l: DiffLinePresentation) -> (g: DiffFilePresentation)
    ensures
        g@ == push_line(f@, l@),
{
    let mut f = f;
    let ghost before = f.lines@;
    f.lines.push(l);
    proof {
        assert(lines_view(f.lines@) =~= lines_view(before).push(l@));
    }
    f
}

fn new_file_exec(path: String, resolved: Option<String>) -> (f: DiffFilePresentation)
    ensures
        f@ == new_file(path@, opt_string(resolved)),
{
    let f = DiffFilePresentation {
        path,
        resolved_path: resolved,
        additions: 0,
        deletions: 0,
        lines: Vec::new(),
        visual_state: DiffFileVisualState::Expanded,
    };
    proof {
        assert(lines_view(f.lines@) =~= Seq::<DiffLineView>::empty());
    }
    f
}

fn step_exec(st: ParseState, line: &Vec<char>, cwd: Option<&str>) -> (r: ParseState)
    ensures
        r@ == diff_step(st@, line@, opt_chars(cwd)),
{
    let mut st = st;
    if vec_starts_with(line, "diff --git ") {
        let path = git_header_path_exec(line);
        let resolved = resolve_review_path(path.as_str(), cwd);
        let display = match &resolved {
            Some(r) => review_display_path(path.as_str(), Some(r.as_str()), cwd),
            None => review_display_path(path.as_str(), None, cwd),
        };
        let current = st.current;
        let files = finish_state(ParseState { files: st.files, current, old_line: 0, new_line: 0 });
        let opened = new_file_exec(display, resolved);
        return ParseState {
            files,
            current: Some(opened),
            old_line: st.old_line,
            new_line: st.new_line,
        };
    }
    if st.current.is_none() && vec_starts_with(line, "@@ ") {
        st.current = Some(new_file_exec(to_owned_string("变更"), None));
    }
    if let Some((o, n)) = hunk_of(line) {
        st.old_line = o;
        st.new_line = n;
        return st;
    }
    let f = match st.current {
        None => return st,
        Some(f) => f,
    };
    let len = line.len();
    if vec_starts_with(line, "--- ") || vec_starts_with(line, "+++ ") {
        return ParseState { files: st.files, current: Some(f), old_line: st.old_line, new_line: st.new_line };
    }
    if vec_starts_with(line, "+") {
        proof {
            reveal_strlit("+");
        }
        let content = string_from(line, 1, len);
        let l = DiffLinePresentation { old_line: None, new_line: Some(st.new_line), content, kind: DiffLineKind::Added };
        let g = push_line_exec(f, l);
        ParseState { files: st.files, current: Some(g), old_line: st.old_line, new_line: st.new_line.saturating_add(1) }
    } else if vec_starts_with(line, "-") {
        proof {
            reveal_strlit("-");
        }
        let content = string_from(line, 1, len);
        let l = DiffLinePresentation { old_line: Some(st.old_line), new_line: None, content, kind: DiffLineKind::Deleted };
        let g = push_line_exec(f, l);
        ParseState { files: st.files, current: Some(g), old_line: st.old_line.saturating_add(1), new_line: st.new_line }
    } else if vec_starts_with(line, " ") {
        proof {
            reveal_strlit(" ");
        }
        let content = string_from(line, 1, len);
        let l = DiffLinePresentation { old_line: Some(st.old_line), new_line: Some(st.new_line), content, kind: DiffLineKind::Context };
        let g = push_line_exec(f, l);
        ParseState {
            files: st.files,
            current: Some(g),
            old_line: st.old_line.saturating_add(1),
            new_line: st.new_line.saturating_add(1),
        }
    } else {
        ParseState { files: st.files, current: Some(f), old_line: st.old_line, new_line: st.new_line }
    }
}

proof fn lemma_split_lines_step(s: Seq<char>, pos: int, k: int)
    requires
        0 <= pos < s.len(),
        k == run_before(s.subrange(pos, s.len() as int), '\n'),
    ensures
        pos + k <= s.len(),
        pos + k < s.len() ==> split_lines(s.subrange(pos, s.len() as int)) == seq![
            strip_cr(s.subrange(pos, pos + k)),
        ] + split_lines(s.subrange(pos + k + 1, s.len() as int)),
        pos + k == s.len() ==> split_lines(s.subrange(pos, s.len() as int)) == seq![
            s.subrange(pos, s.len() as int),
        ],
{
    let rest = s.subrange(pos, s.len() as int);
    lemma_run_before(rest, '\n');
    assert(rest.subrange(0, k) == s.subrange(pos, pos + k));
    if pos + k < s.len() {
        assert(rest.subrange(k + 1, rest.len() as int) == s.subrange(pos + k + 1, s.len() as int));
    }
}

impl DiffReviewPresentation {
    pub fn new(review_id: &str, turn_label: &str, files: Vec<DiffFilePresentation>) -> (r: Self)
        ensures
            r@ == (DiffReviewView {
                review_id: review_id@,
                turn_label: turn_label@,
                files: files_view(files@),
                show_summary: false,
                show_file_tree: true,
                raw_diff: None,
            }),
    {
        DiffReviewPresentation {
            review_id: to_owned_string(review_id),
            turn_label: to_owned_string(turn_label),
            files,
            show_summary: false,
            show_file_tree: true,
            raw_diff: None,
        }
    }

    /// Sum of the per-file additions.
    pub fn total_additions(&self) -> (n: u32)
        requires
            sum_additions(self@.files) <= u32::MAX,
        ensures
            n == sum_additions(self@.files),
    {
        let mut n: u32 = 0;
        let mut i: usize = 0;
        let ghost fv = self@.files;
        proof {
            assert(fv.subrange(0, 0) =~= Seq::<DiffFileView>::empty());
        }
        while i < self.files.len()
            invariant
                i <= self.files.len(),
                fv == files_view(self.files@),
                sum_additions(fv) <= u32::MAX,
                n == sum_additions(fv.subrange(0, i as int)),
            decreases self.files.len() - i,
        {
            proof {
                assert(fv.subrange(0, i + 1).drop_last() == fv.subrange(0, i as int));
                assert(fv[i as int] == self.files@[i as int]@);
                lemma_sum_additions_prefix(fv, i + 1);
            }
            n = n + self.files[i].additions;
            i += 1;
        }
        proof {
            assert(fv.subrange(0, self.files.len() as int) == fv);
        }
        n
    }

    /// Sum of the per-file deletions.
    pub fn total_deletions(&self) -> (n: u32)
        requires
            sum_deletions(self@.files) <= u32::MAX,
        ensures
            n == sum_deletions(self@.files),
    {
        let mut n: u32 = 0;
        let mut i: usize = 0;
        let ghost fv = self@.files;
        proof {
            assert(fv.subrange(0, 0) =~= Seq::<DiffFileView>::empty());
        }
        while i < self.files.len()
            invariant
                i <= self.files.len(),
                fv == files_view(self.files@),
                sum_deletions(fv) <= u32::MAX,
                n == sum_deletions(fv.subrange(0, i as int)),
            decreases self.files.len() - i,
        {
            proof {
                assert(fv.subrange(0, i + 1).drop_last() == fv.subrange(0, i as int));
                assert(fv[i as int] == self.files@[i as int]@);
                lemma_sum_deletions_prefix(fv, i + 1);
            }
            n = n + self.files[i].deletions;
            i += 1;
        }
        proof {
            assert(fv.subrange(0, self.files.len() as int) == fv);
        }
        n
    }

    /// Parses a unified diff into review files. `cwd` is the directory the
    /// diff's relative paths are reported against.
    pub fn from_unified_diff(review_id: &str, turn_label: &str, diff: &str, cwd: Option<&str>) -> (r:
        Self)
        ensures
            r@ == (DiffReviewView {
                review_id: review_id@,
                turn_label: turn_label@,
                files: parse_review_files(diff@, opt_chars(cwd)),
                show_summary: false,
                show_file_tree: true,
                raw_diff: Some(diff@),
            }),
    {
        let v = chars_of(diff);
        let n = v.len();
        let mut st = ParseState { files: Vec::new(), current: None, old_line: 0, new_line: 0 };
        proof {
            assert(st@.files =~= Seq::<DiffFileView>::empty());
            assert(st@ == initial_state());
            assert(v@.subrange(0, n as int) == v@);
        }
        let mut pos: usize = 0;
        while pos < n
            invariant
                pos <= n,
                n == v.len(),
                v@ == diff@,
                diff_run(initial_state(), split_lines(v@), opt_chars(cwd)) == diff_run(
                    st@,
                    split_lines(v@.subrange(pos as int, n as int)),
                    opt_chars(cwd),
                ),
            decreases n - pos,
        {
            let end = find_char(&v, pos, '\n');
            proof {
                lemma_split_lines_step(v@, pos as int, (end - pos) as int);
            }
            let hi = if end < n && end > pos && v[end - 1] == '\r' {
                end - 1
            } else {
                end
            };
            let line = sub_vec(&v, pos, hi);
            proof {
                let full = v@.subrange(pos as int, end as int);
                if end < n {
                    if end > pos && v@[end - 1] == '\r' {
                        assert(full.last() == v@[end - 1]);
                        assert(strip_cr(full) =~= line@);
                    } else {
                        if full.len() > 0 {
                            assert(full.last() == v@[end - 1]);
                        }
                        assert(strip_cr(full) =~= line@);
                    }
                }
                let lines = split_lines(v@.subrange(pos as int, n as int));
                assert(lines[0] == line@);
                if end < n {
                    assert(lines.drop_first() == split_lines(v@.subrange(end + 1, n as int)));
                } else {
                    assert(lines.drop_first() =~= Seq::<Seq<char>>::empty());
                    assert(v@.subrange(n as int, n as int) =~= Seq::<char>::empty());
                }
            }
            st = step_exec(st, &line, cwd);
            if end < n {
                pos = end + 1;
            } else {
                pos = n;
            }
        }
        proof {
            assert(v@.subrange(n as int, n as int) =~= Seq::<char>::empty());
        }
        let files = finish_state(st);
        let mut review = DiffReviewPresentation::new(review_id, turn_label, files);
        review.raw_diff = Some(to_owned_string(diff));
        review
    }
}

proof fn lemma_sum_additions_prefix(fv: Seq<DiffFileView>, i: int)
    requires
        0 <= i <= fv.len(),
    ensures
        sum_additions(fv.subrange(0, i)) <= sum_additions(fv),
    decreases fv.len() - i,
{
    if i < fv.len() {
        lemma_sum_additions_prefix(fv, i + 1);
        assert(fv.subrange(0, i + 1).drop_last() == fv.subrange(0, i));
    } else {
        assert(fv.subrange(0, i) == fv);
    }
}

proof fn lemma_sum_deletions_prefix(fv: Seq<DiffFileView>, i: int)
    requires
        0 <= i <= fv.len(),
    ensures
        sum_deletions(fv.subrange(0, i)) <= sum_deletions(fv),
    decreases fv.len() - i,
{
    if i < fv.len() {
        lemma_sum_deletions_prefix(fv, i + 1);
        assert(fv.subrange(0, i + 1).drop_last() == fv.subrange(0, i));
    } else {
        assert(fv.subrange(0, i) == fv);
    }
}

/// Number of `diff --git` header lines.
pub open spec fn count_headers(lines: Seq<Seq<char>>) -> nat
    decreases lines.len(),
{
    if lines.len() == 0 {
        0
    } else {
        (if starts_with(lines[0], "diff --git "@) {
            1nat
        } else {
            0nat
        }) + count_headers(lines.drop_first())
    }
}

/// Whether a hunk header (`@@ `) comes before any `diff --git` header.
pub open spec fn hunk_before_header(lines: Seq<Seq<char>>) -> bool
    decreases lines.len(),
{
    lines.len() > 0 && !starts_with(lines[0], "diff --git "@) && (starts_with(lines[0], "@@ "@)
        || hunk_before_header(lines.drop_first()))
}

/// A parsed file whose totals are the numbers of its added and deleted
/// lines (kept in a `u32`) and which starts expanded.
pub open spec fn counted_file(f: DiffFileView) -> bool {
    &&& f.additions == count_kind(f.lines, DiffLineKind::Added) as u32
    &&& f.deletions == count_kind(f.lines, DiffLineKind::Deleted) as u32
    &&& f.visual_state == DiffFileVisualState::Expanded
}

pub open spec fn counted_state(st: DiffParseState) -> bool {
    &&& forall|k: int| 0 <= k < st.files.len() ==> counted_file(#[trigger] st.files[k])
    &&& st.current matches Some(f) ==> f.visual_state == DiffFileVisualState::Expanded
}

proof fn lemma_diff_step_counts(st: DiffParseState, line: Seq<char>, cwd: Option<Seq<char>>)
    requires
        counted_state(st),
    ensures
        ({
            let n = diff_step(st, line, cwd);
            &&& counted_state(n)
            &&& n.current is Some || !(st.current is Some)
            &&& if starts_with(line, "diff --git "@) {
                &&& n.files == finished_files(st)
                &&& n.current is Some
            } else if st.current is None && starts_with(line, "@@ "@) {
                &&& n.files == st.files
                &&& n.current is Some
            } else {
                &&& n.files == st.files
                &&& (n.current is Some <==> st.current is Some)
            }
        }),
{
    let n = diff_step(st, line, cwd);
    if starts_with(line, "diff --git "@) {
        let fs = finished_files(st);
        assert forall|k: int| 0 <= k < fs.len() implies counted_file(#[trigger] fs[k]) by {
            if k < st.files.len() {
                assert(fs[k] == st.files[k]);
            }
        }
    }
}

proof fn lemma_diff_run_counts(st: DiffParseState, lines: Seq<Seq<char>>, cwd: Option<Seq<char>>)
    requires
        counted_state(st),
    ensures
        ({
            let end = diff_run(st, lines, cwd);
            let fs = finished_files(end);
            &&& forall|k: int| 0 <= k < fs.len() ==> counted_file(#[trigger] fs[k])
            &&& fs.len() == finished_files(st).len() + count_headers(lines) + (if st.current is None
                && hunk_before_header(lines) {
                1nat
            } else {
                0nat
            })
        }),
    decreases lines.len(),
{
    if lines.len() == 0 {
        let fs = finished_files(st);
        assert forall|k: int| 0 <= k < fs.len() implies counted_file(#[trigger] fs[k]) by {
            if k < st.files.len() {
                assert(fs[k] == st.files[k]);
            }
        }
    } else {
        let n = diff_step(st, lines[0], cwd);
        lemma_diff_step_counts(st, lines[0], cwd);
        lemma_diff_run_counts(n, lines.drop_first(), cwd);
    }
}

/// What the parser makes of a unified diff: one file per `diff --git`
/// header, plus one unnamed file when a hunk comes before any header; each
/// file's totals are the numbers of its added and deleted lines (kept in a
/// `u32`), and each starts expanded.
pub proof fn lemma_parsed_files_are_counted(diff: Seq<char>, cwd: Option<Seq<char>>)
    ensures
        ({
            let files = parse_review_files(diff, cwd);
            let lines = split_lines(diff);
            &&& files.len() == count_headers(lines) + (if hunk_before_header(lines) {
                1nat
            } else {
                0nat
            })
            &&& forall|k: int| 0 <= k < files.len() ==> counted_file(#[trigger] files[k])
        }),
{
    lemma_diff_run_counts(initial_state(), split_lines(diff), cwd);
}

/// The state the first file of the captured review is shown in.
pub open spec fn capture_first_file_state(state: Seq<char>) -> DiffFileVisualState {
    if state == "file-collapsed"@ || state == "first-file-collapsed"@ || state == "collapsed"@ {
        DiffFileVisualState::Collapsed
    } else if state == "file-header-hover"@ || state == "first-header-hover"@ || state
        == "header-hover"@ || state == "hover"@ {
        DiffFileVisualState::HeaderHovered
    } else {
        DiffFileVisualState::Expanded
    }
}

/// The captured two-file turn diff used to exercise the review panel,
/// read from `diff` against the capture workspace, with its first file in
/// the named state.
pub fn captured_diff_review_fixture(diff: &str, state: &str) -> (r: DiffReviewPresentation)
    ensures
        ({
            let files = parse_review_files(diff@, Some("/Users/zp/Desktop/GPUI"@));
            &&& r@.review_id == "turn-diff-ui-capture"@
            &&& r@.turn_label == "上一轮"@
            &&& !r@.show_summary
            &&& r@.show_file_tree
            &&& r@.raw_diff == Some(diff@)
            &&& r@.files == if files.len() > 0 {
                files.update(
                    0,
                    DiffFileView { visual_state: capture_first_file_state(state@), ..files[0] },
                )
            } else {
                files
            }
        }),
{
    let mut review = DiffReviewPresentation::from_unified_diff(
        "turn-diff-ui-capture",
        "上一轮",
        diff,
        Some("/Users/zp/Desktop/GPUI"),
    );
    if review.files.len() > 0 {
        let visual_state = if str_eq(state, "file-collapsed") || str_eq(state, "first-file-collapsed")
            || str_eq(state, "collapsed") {
            DiffFileVisualState::Collapsed
        } else if str_eq(state, "file-header-hover") || str_eq(state, "first-header-hover")
            || str_eq(state, "header-hover") || str_eq(state, "hover") {
            DiffFileVisualState::HeaderHovered
        } else {
            DiffFileVisualState::Expanded
        };
        let ghost before = review@.files;
        let mut first = review.files[0].copy();
        first.visual_state = visual_state;
        review.files.set(0, first);
        proof {
            assert(review@.files =~= before.update(
                0,
                DiffFileView { visual_state: capture_first_file_state(state@), ..before[0] },
            ));
        }
    }
    review
}

/// Within a file, a hunk header `@@ -a[,b] +c[,d] @@` restarts the line
/// numbers whatever lines the file already holds: it adds no line itself,
/// the next deleted line is numbered `a` in the old file, and the next
/// added line is numbered `c` in the new one.
pub proof fn lemma_hunk_header_restarts_numbering(
    st: DiffParseState,
    header: Seq<char>,
    a: u32,
    c: u32,
    body: Seq<char>,
    cwd: Option<Seq<char>>,
)
    requires
        st.current is Some,
        hunk_spec(header) == Some((a, c)),
        body.len() > 0,
        body[0] == '-' || body[0] == '+',
        !starts_with(body, "--- "@),
        !starts_with(body, "+++ "@),
    ensures
        ({
            let f = st.current->0;
            let after_header = diff_step(st, header, cwd);
            let after_body = diff_step(after_header, body, cwd);
            &&& after_header.current is Some
            &&& after_header.current->0.lines == f.lines
            &&& after_header.files == st.files
            &&& after_body.current is Some
            &&& body[0] == '-' ==> after_body.current->0.lines == f.lines.push(
                deleted_line(a, body.subrange(1, body.len() as int)),
            )
            &&& body[0] == '+' ==> after_body.current->0.lines == f.lines.push(
                added_line(c, body.subrange(1, body.len() as int)),
            )
        }),
{
    reveal_strlit("diff --git ");
    reveal_strlit("@@ -");
    reveal_strlit("@@ ");
    reveal_strlit("+");
    reveal_strlit("-");
    assert(starts_with(header, "@@ -"@));
    assert(header.subrange(0, 4)[0] == header[0]);
    assert(header[0] == '@');
    assert(!starts_with(header, "diff --git "@)) by {
        if 11 <= header.len() {
            assert(header.subrange(0, 11)[0] == header[0]);
        }
    }
    assert(!starts_with(body, "diff --git "@)) by {
        if "diff --git "@.len() <= body.len() {
            assert(body.subrange(0, 11)[0] == body[0]);
        }
    }
    assert(!starts_with(body, "@@ "@)) by {
        if 3 <= body.len() {
            assert(body.subrange(0, 3)[0] == body[0]);
        }
    }
    assert(hunk_spec(body) is None) by {
        if 4 <= body.len() {
            assert(body.subrange(0, 4)[0] == body[0]);
        }
    }
    if body[0] == '-' {
        assert(starts_with(body, "-"@)) by {
            assert("-"@ =~= seq!['-']);
            assert(body.subrange(0, 1) =~= seq!['-']);
        }
        assert(!starts_with(body, "+"@)) by {
            assert(body.subrange(0, 1)[0] == body[0]);
        }
    } else {
        assert(starts_with(body, "+"@)) by {
            assert("+"@ =~= seq!['+']);
            assert(body.subrange(0, 1) =~= seq!['+']);
        }
    }
}

/// Running the parser over two stretches of lines in turn is running it
/// over both.
pub proof fn lemma_diff_run_concat(
    st: DiffParseState,
    a: Seq<Seq<char>>,
    b: Seq<Seq<char>>,
    cwd: Option<Seq<char>>,
)
    ensures
        diff_run(st, a + b, cwd) == diff_run(diff_run(st, a, cwd), b, cwd),
    decreases a.len(),
{
    if a.len() > 0 {
        assert((a + b).drop_first() =~= a.drop_first() + b);
        assert((a + b)[0] == a[0]);
        lemma_diff_run_concat(diff_step(st, a[0], cwd), a.drop_first(), b, cwd);
    } else {
        assert(a + b =~= b);
    }
}

/// However many lines of a file came before, a hunk header followed by a
/// deleted or an added line adds exactly that line to the file, numbered
/// from the header: `a` for a deleted line, `c` for an added one.
pub proof fn lemma_later_hunk_numbers_from_its_header(
    st: DiffParseState,
    before: Seq<Seq<char>>,
    header: Seq<char>,
    a: u32,
    c: u32,
    body: Seq<char>,
    cwd: Option<Seq<char>>,
)
    requires
        diff_run(st, before, cwd).current is Some,
        hunk_spec(header) == Some((a, c)),
        body.len() > 0,
        body[0] == '-' || body[0] == '+',
        !starts_with(body, "--- "@),
        !starts_with(body, "+++ "@),
    ensures
        ({
            let mid = diff_run(st, before, cwd);
            let end = diff_run(st, before + seq![header, body], cwd);
            &&& end.current is Some
            &&& end.files == mid.files
            &&& end.current->0.lines == mid.current->0.lines.push(
                if body[0] == '-' {
                    deleted_line(a, body.subrange(1, body.len() as int))
                } else {
                    added_line(c, body.subrange(1, body.len() as int))
                },
            )
        }),
{
    let mid = diff_run(st, before, cwd);
    lemma_diff_run_concat(st, before, seq![header, body], cwd);
    lemma_hunk_header_restarts_numbering(mid, header, a, c, body, cwd);
    let two = seq![header, body];
    let one = seq![body];
    let none = Seq::<Seq<char>>::empty();
    assert(two.drop_first() =~= one);
    assert(one.drop_first() =~= none);
    let s1 = diff_step(mid, header, cwd);
    let s2 = diff_step(s1, body, cwd);
    assert(diff_run(s2, none, cwd) == s2);
    assert(diff_run(s1, one, cwd) == diff_run(s2, none, cwd));
    assert(diff_run(mid, two, cwd) == diff_run(s1, one, cwd));
}

} // verus!
