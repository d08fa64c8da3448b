//! Change units: the hunks of a unified diff, each with the path of the file
//! it changes and its lines numbered as they stand in the changed file.

use vstd::prelude::*;
use crate::text::{
    aligned_number, chars_of, count_lines, decimal, found_at, join_lines, joined, line_count,
    occurs_at, right_aligned, string_of, texts,
};

verus! {

/// What a line of a hunk does to the file.
#[derive(Clone, Copy, Debug, PartialEq, Eq, Structural)]
pub enum LineKind {
    /// The line stands in both files.
    Context,
    /// The line is new in the changed file.
    Add,
    /// The line is gone from the changed file.
    Remove,
}

/// One line of a hunk, without the sign that the diff puts in front of it.
#[derive(Debug)]
pub struct DiffLine {
    pub kind: LineKind,
    pub text: String,
}

pub struct DiffLineView {
    pub kind: LineKind,
    pub text: Seq<char>,
}

impl View for DiffLine {
    type V = DiffLineView;

    open spec fn view(&self) -> DiffLineView {
        DiffLineView { kind: self.kind, text: self.text@ }
    }
}

/// One hunk of a diff: the range that its header declares for the changed
/// file, and its lines.
#[derive(Debug)]
pub struct Hunk {
    /// Number of the hunk's first line in the changed file.
    pub new_start: u64,
    /// Number of lines that the hunk spans in the changed file.
    pub new_count: u64,
    pub lines: Vec<DiffLine>,
}

pub struct HunkView {
    pub new_start: nat,
    pub new_count: nat,
    pub lines: Seq<DiffLineView>,
}

impl View for Hunk {
    type V = HunkView;

    open spec fn view(&self) -> HunkView {
        HunkView {
            new_start: self.new_start as nat,
            new_count: self.new_count as nat,
            lines: Seq::new(self.lines@.len(), |i: int| self.lines@[i]@),
        }
    }
}

/// The part of a diff that changes one file: the path that the header gives
/// for the changed file, and the hunks.
#[derive(Debug)]
pub struct FileDiff {
    pub new_path: String,
    pub hunks: Vec<Hunk>,
}

pub struct FileDiffView {
    pub new_path: Seq<char>,
    pub hunks: Seq<HunkView>,
}

impl View for FileDiff {
    type V = FileDiffView;

    open spec fn view(&self) -> FileDiffView {
        FileDiffView {
            new_path: self.new_path@,
            hunks: Seq::new(self.hunks@.len(), |j: int| self.hunks@[j]@),
        }
    }
}

/// The views of the files in `files`, in order.
pub open spec fn file_views(files: Seq<FileDiff>) -> Seq<FileDiffView> {
    Seq::new(files.len(), |i: int| files[i]@)
}

/// A change unit: one hunk, with the path of its file in the repository and
/// its numbered lines as one text.
#[derive(Clone, Debug)]
pub struct Patch {
    pub path: String,
    pub content: String,
    /// Number of the first line in the changed file.
    pub start_line: u64,
    /// `start_line` plus the number of lines that the hunk spans in the
    /// changed file: one more than the number of the last of them.
    pub end_line: u64,
}

pub struct PatchView {
    pub path: Seq<char>,
    pub content: Seq<char>,
    pub start_line: nat,
    pub end_line: nat,
}

impl View for Patch {
    type V = PatchView;

    open spec fn view(&self) -> PatchView {
        PatchView {
            path: self.path@,
            content: self.content@,
            start_line: self.start_line as nat,
            end_line: self.end_line as nat,
        }
    }
}

/// The views of the change units in `all`, in order.
pub open spec fn patch_views(all: Seq<Patch>) -> Seq<PatchView> {
    Seq::new(all.len(), |i: int| all[i]@)
}

/// The change units of a diff, files and hunks in the order of the diff.
#[derive(Clone, Debug)]
pub struct Patches {
    pub all: Vec<Patch>,
}

impl View for Patches {
    type V = Seq<PatchView>;

    open spec fn view(&self) -> Seq<PatchView> {
        patch_views(self.all@)
    }
}

/// Why a diff gives no change units.
#[derive(Debug, PartialEq, Eq, Structural)]
pub enum ParseError {
    /// A hunk's range, or one of its lines, lies beyond the largest line
    /// number that can be held.
    LineOutOfRange,
}

impl ParseError {
    /// What went wrong, for a reader.
    pub fn message(&self) -> (text: String)
        ensures
            text@ == "Failed to parse patches."@,
    {
        String::from_str("Failed to parse patches.")
    }
}

/// What a two-sided diff puts in front of the path of the changed file.
pub open spec fn new_tree_prefix() -> Seq<char> {
    "b/"@
}

/// The path in the repository: the header's path without the prefix of the
/// changed tree, where it has that prefix.
pub open spec fn repository_path(new_path: Seq<char>) -> Seq<char> {
    if occurs_at(new_path, new_tree_prefix(), 0) {
        new_path.skip(new_tree_prefix().len() as int)
    } else {
        new_path
    }
}

/// A line with its sign: `+` before an added line, `-` before a removed one,
/// nothing before a line of context.
pub open spec fn marked(line: DiffLineView) -> Seq<char> {
    match line.kind {
        LineKind::Context => line.text,
        LineKind::Add => seq!['+'] + line.text,
        LineKind::Remove => seq!['-'] + line.text,
    }
}

/// A line behind its number, the number right-aligned in four columns.
pub open spec fn numbered(number: nat, line: DiffLineView) -> Seq<char> {
    right_aligned(decimal(number), 4) + seq![' '] + marked(line)
}

/// The lines of a hunk, numbered from the hunk's start, one number to each
/// line, removed lines included.
pub open spec fn numbered_lines(hunk: HunkView) -> Seq<Seq<char>> {
    Seq::new(hunk.lines.len(), |i: int| numbered((hunk.new_start + i) as nat, hunk.lines[i]))
}

/// The text of a hunk: its numbered lines, one below the other.
pub open spec fn hunk_content(hunk: HunkView) -> Seq<char> {
    joined(numbered_lines(hunk), seq!['\n'])
}

/// Whether the end of the hunk's range and the numbers of all its lines can be held.
pub open spec fn in_range(hunk: HunkView) -> bool {
    &&& hunk.new_start + hunk.new_count <= u64::MAX
    &&& hunk.new_start + hunk.lines.len() <= u64::MAX + 1
}

/// The change unit for a hunk of the file that the header calls `new_path`.
pub open spec fn change_unit(new_path: Seq<char>, hunk: HunkView) -> PatchView {
    PatchView {
        path: repository_path(new_path),
        content: hunk_content(hunk),
        start_line: hunk.new_start,
        end_line: hunk.new_start + hunk.new_count,
    }
}

/// The change units of one file: one for each hunk, in order.
pub open spec fn file_units(file: FileDiffView) -> Seq<PatchView> {
    Seq::new(file.hunks.len(), |j: int| change_unit(file.new_path, file.hunks[j]))
}

/// The change units of a diff: those of its first file, then those of the
/// second, and so on.
pub open spec fn all_units(files: Seq<FileDiffView>) -> Seq<PatchView>
    decreases files.len(),
{
    if files.len() == 0 {
        Seq::empty()
    } else {
        all_units(files.drop_last()) + file_units(files.last())
    }
}

/// Whether every hunk of the diff is in range.
pub open spec fn all_in_range(files: Seq<FileDiffView>) -> bool {
    forall|i: int, j: int|
        0 <= i < files.len() && 0 <= j < files[i].hunks.len() ==> in_range(
            #[trigger] files[i].hunks[j],
        )
}

/// The number of hunks in a diff.
pub open spec fn hunk_total(files: Seq<FileDiffView>) -> nat
    decreases files.len(),
{
    if files.len() == 0 {
        0
    } else {
        hunk_total(files.drop_last()) + files.last().hunks.len()
    }
}

/// A diff gives as many change units as it has hunks.
pub proof fn lemma_one_unit_per_hunk(files: Seq<FileDiffView>)
    ensures
        all_units(files).len() == hunk_total(files),
    decreases files.len(),
{
    if files.len() > 0 {
        lemma_one_unit_per_hunk(files.drop_last());
    }
}

/// The change units stand in the order of the diff: the unit of hunk `j` of
/// file `i` comes behind the units of all earlier files and of the earlier
/// hunks of its own file. It starts where the hunk starts, and ends as many
/// lines further as the hunk's header declares.
pub proof fn lemma_units_in_document_order(files: Seq<FileDiffView>, i: int, j: int)
    requires
        0 <= i < files.len(),
        0 <= j < files[i].hunks.len(),
    ensures
        hunk_total(files.take(i)) + j < all_units(files).len(),
        all_units(files)[hunk_total(files.take(i)) + j] == change_unit(
            files[i].new_path,
            files[i].hunks[j],
        ),
        all_units(files)[hunk_total(files.take(i)) + j].start_line == files[i].hunks[j].new_start,
        all_units(files)[hunk_total(files.take(i)) + j].end_line - all_units(
            files,
        )[hunk_total(files.take(i)) + j].start_line == files[i].hunks[j].new_count,
    decreases files.len(),
{
    let front = files.drop_last();
    lemma_one_unit_per_hunk(front);
    lemma_one_unit_per_hunk(files);
    if i < files.len() - 1 {
        lemma_units_in_document_order(front, i, j);
        assert(front.take(i) == files.take(i));
    }
}

/// The path in the repository for the path that a header gives.
fn strip_prefix(new_path: &str) -> (path: String)
    ensures
        path@ == repository_path(new_path@),
{
    let chars = chars_of(new_path);
    if found_at(&chars, "b/", 0) {
        string_of(&chars, "b/".unicode_len(), chars.len())
    } else {
        String::from_str(new_path)
    }
}

/// The line with its sign in front.
fn marked_line(line: &DiffLine) -> (text: String)
    ensures
        text@ == marked(line@),
{
    let mut text = String::new();
    match line.kind {
        LineKind::Context => {},
        LineKind::Add => {
            text.push('+');
        },
        LineKind::Remove => {
            text.push('-');
        },
    }
    text.append(line.text.as_str());
    text
}

/// Whether the hunk is in range.
fn hunk_fits(hunk: &Hunk) -> (fits: bool)
    ensures
        fits == in_range(hunk@),
{
    let end = hunk.new_start.checked_add(hunk.new_count);
    if end.is_none() {
        return false;
    }
    if hunk.lines.len() == 0 {
        return true;
    }
    let last = hunk.new_start.checked_add((hunk.lines.len() - 1) as u64);
    last.is_some()
}

/// The numbered lines of the hunk as one text.
fn content_of(hunk: &Hunk) -> (content: String)
    requires
        in_range(hunk@),
    ensures
        content@ == hunk_content(hunk@),
{
    let mut lines: Vec<String> = Vec::new();
    let mut i: usize = 0;
    while i < hunk.lines.len()
        invariant
            i <= hunk.lines.len(),
            in_range(hunk@),
            texts(lines@) == numbered_lines(hunk@).take(i as int),
        decreases hunk.lines.len() - i,
    {
        let number: u64 = hunk.new_start + i as u64;
        let mut line = aligned_number(number, 4);
        line.push(' ');
        line.append(marked_line(&hunk.lines[i]).as_str());
        lines.push(line);
        proof {
            assert(line@ == numbered(number as nat, hunk@.lines[i as int]));
            assert(numbered_lines(hunk@).take(i + 1) == numbered_lines(hunk@).take(i as int).push(
                line@,
            ));
        }
        i = i + 1;
    }
    assert(numbered_lines(hunk@).take(hunk.lines.len() as int) == numbered_lines(hunk@));
    join_lines(&lines)
}

/// The change unit for one hunk.
fn unit_of(new_path: &str, hunk: &Hunk) -> (unit: Patch)
    requires
        in_range(hunk@),
    ensures
        unit@ == change_unit(new_path@, hunk@),
{
    Patch {
        path: strip_prefix(new_path),
        content: content_of(hunk),
        start_line: hunk.new_start,
        end_line: hunk.new_start + hunk.new_count,
    }
}

impl Patch {
    /// A change unit starts no later than it ends.
    pub open spec fn well_formed(&self) -> bool {
        self.start_line <= self.end_line
    }

    /// The unit's text under a line that names its file. The two are joined
    /// by a backslash and the letter `n`.
    pub open spec fn labelled(unit: PatchView) -> Seq<char> {
        "path:"@ + unit.path + "\\n"@ + unit.content
    }

    /// The unit's text under a line that names its file.
    pub fn content_with_path(&self) -> (text: String)
        ensures
            text@ == Self::labelled(self@),
    {
        let mut text = String::from_str("path:");
        text.append(self.path.as_str());
        text.append("\\n");
        text.append(self.content.as_str());
        text
    }
}

/// What stands in front of the path in the header line of the changed file.
pub open spec fn new_file_mark() -> Seq<char> {
    "+++ b/"@
}

/// The first position at or behind `from` at which the header of the changed
/// file stands in `content`.
pub open spec fn first_mark(content: Seq<char>, from: int) -> Option<int>
    decreases content.len() - from,
{
    if from < 0 || from >= content.len() {
        None
    } else if occurs_at(content, new_file_mark(), from) {
        Some(from)
    } else {
        first_mark(content, from + 1)
    }
}

/// The end of the line that `from` lies in: the position of the next line
/// feed, or the end of `content`.
pub open spec fn line_end(content: Seq<char>, from: int) -> int
    decreases content.len() - from,
{
    if 0 <= from < content.len() && content[from] != '\n' {
        line_end(content, from + 1)
    } else {
        from
    }
}

/// The path that the first header of a changed file names in `content`: the
/// rest of the header's line.
pub open spec fn marked_path(content: Seq<char>) -> Option<Seq<char>> {
    match first_mark(content, 0) {
        Some(at) => {
            let start = at + new_file_mark().len();
            Some(content.subrange(start, line_end(content, start)))
        },
        None => None,
    }
}

impl Patch {
    /// The text of a diff as one change unit for the file that its first
    /// header names; none where it has no such header. The unit holds the
    /// whole text and no line numbers.
    pub fn from_text(content: &str) -> (unit: Option<Patch>)
        ensures
            match marked_path(content@) {
                Some(path) => unit matches Some(patch) && patch@ == (PatchView {
                    path,
                    content: content@,
                    start_line: 0,
                    end_line: 0,
                }),
                None => unit is None,
            },
    {
        let chars = chars_of(content);
        let mut at: usize = 0;
        while at < chars.len() && !found_at(&chars, "+++ b/", at)
            invariant
                at <= chars.len(),
                chars@ == content@,
                first_mark(chars@, 0) == first_mark(chars@, at as int),
            decreases chars.len() - at,
        {
            at = at + 1;
        }
        if at >= chars.len() || !found_at(&chars, "+++ b/", at) {
            return None;
        }
        let start = at + "+++ b/".unicode_len();
        let mut end: usize = start;
        while end < chars.len() && chars[end] != '\n'
            invariant
                start <= end <= chars.len(),
                line_end(chars@, start as int) == line_end(chars@, end as int),
            decreases chars.len() - end,
        {
            end = end + 1;
        }
        Some(
            Patch {
                path: string_of(&chars, start, end),
                content: String::from_str(content),
                start_line: 0,
                end_line: 0,
            },
        )
    }
}

/// The lines of all the units together.
pub open spec fn total_line_count(units: Seq<PatchView>) -> nat
    decreases units.len(),
{
    if units.len() == 0 {
        0
    } else {
        total_line_count(units.drop_last()) + line_count(units.last().content)
    }
}

/// The lines of the first units are no more than the lines of all.
proof fn lemma_total_grows(units: Seq<PatchView>, i: int)
    requires
        0 <= i <= units.len(),
    ensures
        total_line_count(units.take(i)) <= total_line_count(units),
    decreases units.len() - i,
{
    if i < units.len() {
        lemma_total_grows(units, i + 1);
        assert(units.take(i + 1).drop_last() == units.take(i));
    } else {
        assert(units.take(i) == units);
    }
}

impl Patches {
    /// The change units of a diff whose text was read into files and hunks:
    /// one unit for each hunk, files and hunks in their order. Where the end
    /// of a hunk's range, or the number of one of its lines, lies beyond
    /// `u64::MAX`, the diff gives no units.
    pub fn parse(files: &Vec<FileDiff>) -> (parsed: Result<Patches, ParseError>)
        ensures
            all_in_range(file_views(files@)) ==> (parsed matches Ok(patches) && patches@
                == all_units(file_views(files@))),
            !all_in_range(file_views(files@)) ==> parsed == Err::<Patches, ParseError>(
                ParseError::LineOutOfRange,
            ),
            parsed matches Ok(patches) ==> forall|k: int|
                0 <= k < patches.all@.len() ==> (#[trigger] patches.all@[k]).well_formed(),
    {
        let ghost views = file_views(files@);
        let mut all: Vec<Patch> = Vec::new();
        let mut i: usize = 0;
        while i < files.len()
            invariant
                i <= files.len(),
                views == file_views(files@),
                patch_views(all@) == all_units(views.take(i as int)),
                forall|a: int, b: int|
                    0 <= a < i && 0 <= b < views[a].hunks.len() ==> in_range(
                        #[trigger] views[a].hunks[b],
                    ),
                forall|k: int| 0 <= k < all@.len() ==> (#[trigger] all@[k]).well_formed(),
            decreases files.len() - i,
        {
            let file = &files[i];
            let ghost done = all_units(views.take(i as int));
            let mut j: usize = 0;
            while j < file.hunks.len()
                invariant
                    i < files.len(),
                    j <= file.hunks.len(),
                    views == file_views(files@),
                    *file == files@[i as int],
                    done == all_units(views.take(i as int)),
                    patch_views(all@) == done + file_units(views[i as int]).take(j as int),
                    forall|a: int, b: int|
                        0 <= a < i && 0 <= b < views[a].hunks.len() ==> in_range(
                            #[trigger] views[a].hunks[b],
                        ),
                    forall|b: int| 0 <= b < j ==> in_range(#[trigger] views[i as int].hunks[b]),
                    forall|k: int| 0 <= k < all@.len() ==> (#[trigger] all@[k]).well_formed(),
                decreases file.hunks.len() - j,
            {
                let hunk = &file.hunks[j];
                assert(views[i as int].hunks[j as int] == hunk@);
                if !hunk_fits(hunk) {
                    return Err(ParseError::LineOutOfRange);
                }
                let unit = unit_of(file.new_path.as_str(), hunk);
                let ghost before = patch_views(all@);
                all.push(unit);
                proof {
                    assert(patch_views(all@) == before.push(unit@));
                }
                j = j + 1;
            }
            proof {
                assert(views.take(i + 1).drop_last() == views.take(i as int));
            }
            i = i + 1;
        }
        assert(views.take(files.len() as int) == views);
        Ok(Patches { all })
    }

    /// The number of lines that the texts of all units hold together.
    pub fn total_lines(&self) -> (total: u64)
        requires
            total_line_count(self@) <= u64::MAX,
        ensures
            total == total_line_count(self@),
    {
        let mut total: u64 = 0;
        let mut i: usize = 0;
        while i < self.all.len()
            invariant
                i <= self.all.len(),
                total_line_count(self@) <= u64::MAX,
                total == total_line_count(self@.take(i as int)),
            decreases self.all.len() - i,
        {
            let lines = count_lines(self.all[i].content.as_str());
            proof {
                lemma_total_grows(self@, i + 1);
                assert(self@.take(i + 1).drop_last() == self@.take(i as int));
            }
            total = total + lines as u64;
            i = i + 1;
        }
        assert(self@.take(self.all.len() as int) == self@);
        total
    }
}

} // verus!
