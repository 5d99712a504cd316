//! The line-mark table of a block, and the search for the next free hole.
//!
//! The table holds one byte for each line of a block. The byte of a line is
//! zero while the line is free. The byte of the last line is not read as a
//! line mark: it says whether the block as a whole is live.

use vstd::prelude::*;
use crate::consts::{LINE_COUNT, LINE_SIZE};
use crate::enums::{MarkedState, is_mark_code};

verus! {

/// The number of whole lines that `alloc_size` bytes take up.
pub open spec fn lines_needed(alloc_size: int) -> int {
    (alloc_size + LINE_SIZE - 1) / (LINE_SIZE as int)
}

/// The highest marked line below line `top`, or `-1` where every line below
/// `top` is free.
pub open spec fn marked_below(marks: Seq<u8>, top: int) -> int
    decreases top,
{
    if top <= 0 {
        -1
    } else if marks[top - 1] != 0 {
        top - 1
    } else {
        marked_below(marks, top - 1)
    }
}

/// The hole that a search downward from line `top` settles on, as the pair
/// of the line it ends below and the line it starts at.
///
/// The lines below `top` form runs of free lines, parted by marked lines.
/// The search takes the highest run that is long enough. A run that reaches
/// line 0 is long enough with `need` lines and is taken whole. A run that
/// rests on a marked line must have more than `need` lines, and its lowest
/// line is left out of the hole: an object that starts in the marked line
/// may reach into it.
pub open spec fn hole_below(marks: Seq<u8>, top: int, need: int) -> Option<(int, int)>
    decreases top,
    via hole_below_decreases
{
    let floor = marked_below(marks, top);
    if floor < 0 {
        if top >= 1 && top >= need {
            Some((top, 0int))
        } else {
            None
        }
    } else if top - floor - 1 > need {
        Some((top, floor + 2))
    } else {
        hole_below(marks, floor, need)
    }
}

#[via_fn]
proof fn hole_below_decreases(marks: Seq<u8>, top: int, need: int) {
    lemma_marked_below(marks, top);
}

/// The hole that a search from byte offset `starting_at` finds for
/// `alloc_size` bytes, as block-relative byte offsets: first the offset that
/// the hole ends at, then the offset that it starts at.
pub open spec fn hole_from(marks: Seq<u8>, starting_at: int, alloc_size: int) -> Option<
    (usize, usize),
> {
    match hole_below(marks, starting_at / (LINE_SIZE as int), lines_needed(alloc_size)) {
        Some((hi, lo)) => Some(((hi * LINE_SIZE) as usize, (lo * LINE_SIZE) as usize)),
        None => None,
    }
}

/// `marked_below` names a marked line below `top` with only free lines
/// between the two, or `-1` where all lines below `top` are free.
pub proof fn lemma_marked_below(marks: Seq<u8>, top: int)
    ensures
        -1 <= marked_below(marks, top),
        top > 0 ==> marked_below(marks, top) < top,
        top <= 0 ==> marked_below(marks, top) == -1,
        marked_below(marks, top) >= 0 ==> marks[marked_below(marks, top)] != 0,
        forall|k: int| marked_below(marks, top) < k < top ==> marks[k] == 0,
    decreases top,
{
    if top > 0 && marks[top - 1] == 0 {
        lemma_marked_below(marks, top - 1);
    }
}

/// Free lines between `low` and `top` do not change what lies marked below.
pub proof fn lemma_marked_below_skips_free(marks: Seq<u8>, low: int, top: int)
    requires
        0 <= low <= top,
        forall|k: int| low <= k < top ==> marks[k] == 0,
    ensures
        marked_below(marks, top) == marked_below(marks, low),
    decreases top - low,
{
    if low < top {
        lemma_marked_below_skips_free(marks, low, top - 1);
    }
}

/// What holds of every hole that a search returns. The hole lies below
/// `top`, all its lines are free, and it has room for `need` lines. It ends
/// at `top` or just below a marked line. Either it starts at line 0, or it
/// starts two lines above a marked line, and the free line between the two
/// is left unused.
pub proof fn lemma_hole_below(marks: Seq<u8>, top: int, need: int)
    requires
        0 <= need,
        hole_below(marks, top, need) is Some,
    ensures
        ({
            let (hi, lo) = hole_below(marks, top, need).unwrap();
            &&& 0 <= lo <= hi <= top
            &&& 1 <= hi
            &&& hi - lo >= need
            &&& forall|k: int| lo <= k < hi ==> marks[k] == 0
            &&& hi == top || marks[hi] != 0
            &&& lo == 0 || (lo >= 2 && marks[lo - 2] != 0 && marks[lo - 1] == 0)
        }),
    decreases top,
{
    lemma_marked_below(marks, top);
    let floor = marked_below(marks, top);
    if floor >= 0 && top - floor - 1 <= need {
        lemma_hole_below(marks, floor, need);
    }
}

/// Whether the byte range from `lo` up to `hi` is a hole that may be handed
/// out for `alloc_size` bytes after a search from `starting_at`. It lies
/// below `starting_at`, begins and ends on a line boundary, holds only free
/// lines, and has room for the request. Unless it begins at offset 0, it
/// begins two lines above a marked line, with a free line between the two.
pub open spec fn is_sound_hole(
    marks: Seq<u8>,
    starting_at: int,
    alloc_size: int,
    hi: int,
    lo: int,
) -> bool {
    &&& 0 <= lo <= hi <= starting_at
    &&& lo % (LINE_SIZE as int) == 0
    &&& hi % (LINE_SIZE as int) == 0
    &&& hi - lo >= alloc_size
    &&& (hi - lo) / (LINE_SIZE as int) >= lines_needed(alloc_size)
    &&& forall|k: int| lo / (LINE_SIZE as int) <= k < hi / (LINE_SIZE as int) ==> marks[k] == 0
    &&& lo > 0 ==> {
        &&& lo >= 2 * LINE_SIZE
        &&& marks[lo / (LINE_SIZE as int) - 2] != 0
        &&& marks[lo / (LINE_SIZE as int) - 1] == 0
    }
}

/// Every hole that a search returns is sound.
pub proof fn lemma_found_hole(marks: Seq<u8>, starting_at: usize, alloc_size: usize)
    requires
        hole_from(marks, starting_at as int, alloc_size as int) is Some,
    ensures
        ({
            let (hi, lo) = hole_from(marks, starting_at as int, alloc_size as int).unwrap();
            is_sound_hole(marks, starting_at as int, alloc_size as int, hi as int, lo as int)
        }),
{
    let top = starting_at as int / (LINE_SIZE as int);
    let need = lines_needed(alloc_size as int);
    lemma_hole_below(marks, top, need);
}

/// A hole never touches a marked line below it. Where a search returns a
/// hole that does not start at offset 0, the line just below the hole is
/// free and the line below that one is marked; and the hole still has room
/// for the lines that were asked for.
pub proof fn lemma_hole_keeps_buffer_line(marks: Seq<u8>, starting_at: usize, alloc_size: usize)
    requires
        hole_from(marks, starting_at as int, alloc_size as int) is Some,
        hole_from(marks, starting_at as int, alloc_size as int).unwrap().1 > 0,
    ensures
        ({
            let (hi, lo) = hole_from(marks, starting_at as int, alloc_size as int).unwrap();
            &&& lo >= 2 * LINE_SIZE
            &&& marks[lo / LINE_SIZE - 2] != 0
            &&& marks[lo / LINE_SIZE - 1] == 0
            &&& (hi - lo) / (LINE_SIZE as int) >= lines_needed(alloc_size as int)
        }),
{
    let top = starting_at as int / (LINE_SIZE as int);
    let need = lines_needed(alloc_size as int);
    lemma_hole_below(marks, top, need);
}

/// In a table without marks below line `top`, a search from `top` for any
/// request that fits into those lines returns all of them: the hole ends at
/// `top` and starts at offset 0.
pub proof fn lemma_unmarked_table_hole(marks: Seq<u8>, starting_at: int, alloc_size: int)
    requires
        forall|k: int| 0 <= k < starting_at / (LINE_SIZE as int) ==> marks[k] == 0,
        1 <= starting_at / (LINE_SIZE as int),
        lines_needed(alloc_size) <= starting_at / (LINE_SIZE as int),
    ensures
        hole_from(marks, starting_at, alloc_size) == Some(
            ((starting_at / (LINE_SIZE as int) * LINE_SIZE) as usize, 0usize),
        ),
{
    let top = starting_at / (LINE_SIZE as int);
    lemma_marked_below_skips_free(marks, 0, top);
}

/// Where a search finds no hole for `need` lines, it finds none for more.
pub proof fn lemma_no_hole_for_more(marks: Seq<u8>, top: int, need: int, more: int)
    requires
        need <= more,
        hole_below(marks, top, need) is None,
    ensures
        hole_below(marks, top, more) is None,
    decreases top,
{
    lemma_marked_below(marks, top);
    let floor = marked_below(marks, top);
    if floor >= 0 && top - floor - 1 <= need {
        lemma_no_hole_for_more(marks, floor, need, more);
    }
}

/// The table after a run of `mark_line` calls, each given as the line and
/// the state that it was called with.
pub open spec fn after_marks(marks: Seq<u8>, calls: Seq<(int, MarkedState)>) -> Seq<u8>
    decreases calls.len(),
{
    if calls.len() == 0 {
        marks
    } else {
        after_marks(marks, calls.drop_last()).update(calls.last().0, calls.last().1.code())
    }
}

/// The state that the latest call for line `line` recorded, if there was
/// such a call.
pub open spec fn latest_mark(calls: Seq<(int, MarkedState)>, line: int) -> Option<MarkedState>
    decreases calls.len(),
{
    if calls.len() == 0 {
        None
    } else if calls.last().0 == line {
        Some(calls.last().1)
    } else {
        latest_mark(calls.drop_last(), line)
    }
}

/// After any run of `mark_line` calls on lines of the table, the byte of each
/// line is the code of the state that the latest call for that line
/// recorded, and the byte of a line that no call named is what it was.
pub proof fn lemma_marks_show_latest_call(
    marks: Seq<u8>,
    calls: Seq<(int, MarkedState)>,
    line: int,
)
    requires
        marks.len() == LINE_COUNT,
        forall|j: int| 0 <= j < calls.len() ==> 0 <= (#[trigger] calls[j]).0 < LINE_COUNT,
        0 <= line < LINE_COUNT,
    ensures
        after_marks(marks, calls).len() == LINE_COUNT,
        after_marks(marks, calls)[line] == match latest_mark(calls, line) {
            Some(state) => state.code(),
            None => marks[line],
        },
    decreases calls.len(),
{
    if calls.len() > 0 {
        lemma_marks_show_latest_call(marks, calls.drop_last(), line);
    }
}

/// The line-mark table of one block.
///
/// The layout of a block sets its last `LINE_COUNT` bytes aside for this
/// table. The table is kept in a vector of its own all the same, one byte
/// for each line, so those bytes of the block's memory stay unused.
pub struct BlockMeta {
    lines: Vec<u8>,
}

impl View for BlockMeta {
    type V = Seq<u8>;

    closed spec fn view(&self) -> Seq<u8> {
        self.lines@
    }
}

impl BlockMeta {
    /// The table has one byte for each line, and each byte is the code of a
    /// mark state.
    pub open spec fn wf(&self) -> bool {
        &&& self@.len() == LINE_COUNT
        &&& forall|i: int| 0 <= i < LINE_COUNT ==> is_mark_code(#[trigger] self@[i])
    }

    /// A table in which every byte is zero.
    pub fn new() -> (meta: BlockMeta)
        ensures
            meta.wf(),
            meta@ == Seq::new(LINE_COUNT as nat, |i: int| 0u8),
    {
        let mut lines: Vec<u8> = Vec::new();
        let mut i: usize = 0;
        while i < LINE_COUNT
            invariant
                i <= LINE_COUNT,
                lines@ == Seq::new(i as nat, |k: int| 0u8),
            decreases LINE_COUNT - i,
        {
            lines.push(0);
            i += 1;
            assert(lines@ =~= Seq::new(i as nat, |k: int| 0u8));
        }
        BlockMeta { lines }
    }

    /// Searches downward from the line that holds byte offset `starting_at`
    /// for a hole that takes `alloc_size` bytes. The offsets that come back
    /// are relative to the block: the end of the hole first, its start
    /// second.
    pub fn find_next_available_hole(&self, starting_at: usize, alloc_size: usize) -> (r: Option<
        (usize, usize),
    >)
        requires
            self.wf(),
            starting_at / LINE_SIZE <= LINE_COUNT,
        ensures
            r == hole_from(self@, starting_at as int, alloc_size as int),
            r matches Some((hi, lo)) ==> is_sound_hole(
                self@,
                starting_at as int,
                alloc_size as int,
                hi as int,
                lo as int,
            ),
    {
        proof {
            if hole_from(self@, starting_at as int, alloc_size as int) is Some {
                lemma_found_hole(self@, starting_at, alloc_size);
            }
        }
        let starting_line: usize = starting_at / LINE_SIZE;
        let partial: usize = if alloc_size % LINE_SIZE != 0 {
            1
        } else {
            0
        };
        let lines_required: usize = alloc_size / LINE_SIZE + partial;
        assert(lines_required == lines_needed(alloc_size as int));
        let mut count: usize = 0;
        let mut end: usize = starting_line;
        let mut i: usize = starting_line;
        while i > 0
            invariant
                self.wf(),
                hole_from(self@, starting_at as int, alloc_size as int) matches Some((hi, lo))
                    ==> is_sound_hole(
                    self@,
                    starting_at as int,
                    alloc_size as int,
                    hi as int,
                    lo as int,
                ),
                starting_line == starting_at / LINE_SIZE,
                lines_required == lines_needed(alloc_size as int),
                i <= end <= starting_line <= LINE_COUNT,
                count == end - i,
                forall|k: int| i <= k < end ==> self@[k] == 0,
                hole_below(self@, starting_line as int, lines_required as int) == hole_below(
                    self@,
                    end as int,
                    lines_required as int,
                ),
                i == 0 && end > 0 ==> end < lines_required,
            decreases i,
        {
            i -= 1;
            let marked = self.get_marked_index(i);
            proof {
                lemma_marked_below_skips_free(self@, i + 1, end as int);
            }
            if marked == 0 {
                count += 1;
                if i == 0 && count >= lines_required {
                    proof {
                        lemma_marked_below_skips_free(self@, 0, end as int);
                    }
                    return Some((end * LINE_SIZE, 0));
                }
            } else {
                if count > lines_required {
                    return Some((end * LINE_SIZE, (i + 2) * LINE_SIZE));
                }
                count = 0;
                end = i;
            }
        }
        proof {
            lemma_marked_below_skips_free(self@, 0, end as int);
        }
        None
    }

    /// Records `value` for line `line_number`. A number past the last byte
    /// of the table is turned down, and the table stays as it was.
    pub fn mark_line(&mut self, line_number: usize, value: MarkedState) -> (ok: bool)
        requires
            old(self).wf(),
        ensures
            final(self).wf(),
            ok == (line_number < LINE_COUNT),
            ok ==> final(self)@ == old(self)@.update(line_number as int, value.code()),
            !ok ==> final(self)@ == old(self)@,
    {
        if line_number > LINE_COUNT - 1 {
            false
        } else {
            self.lines[line_number] = value.map_to_u8();
            true
        }
    }

    /// Records `value` in the last byte of the table, the one that says
    /// whether the block is live.
    pub fn mark_block_status(&mut self, value: MarkedState) -> (ok: bool)
        requires
            old(self).wf(),
        ensures
            final(self).wf(),
            ok,
            final(self)@ == old(self)@.update(LINE_COUNT - 1, value.code()),
    {
        self.mark_line(LINE_COUNT - 1, value)
    }

    /// The byte recorded for line `line_number`.
    pub fn get_marked_index(&self, line_number: usize) -> (byte: u8)
        requires
            self.wf(),
            line_number < LINE_COUNT,
        ensures
            byte == self@[line_number as int],
    {
        self.lines[line_number]
    }

    /// Whether line `line_number` carries a mark of either kind.
    pub fn is_marked(&self, line_number: usize) -> (marked: bool)
        requires
            self.wf(),
            line_number < LINE_COUNT,
        ensures
            marked == (self@[line_number as int] != 0),
    {
        self.lines[line_number] != 0
    }

    /// Sets every byte of the table, the last one too, back to unmarked.
    pub fn reset(&mut self)
        requires
            old(self).wf(),
        ensures
            final(self).wf(),
            final(self)@ == Seq::new(LINE_COUNT as nat, |i: int| 0u8),
    {
        let mut i: usize = 0;
        while i < LINE_COUNT
            invariant
                i <= LINE_COUNT,
                self.wf(),
                forall|k: int| 0 <= k < i ==> self@[k] == 0,
            decreases LINE_COUNT - i,
        {
            self.mark_line(i, MarkedState::Unmarked);
            i += 1;
        }
        assert(self@ =~= Seq::new(LINE_COUNT as nat, |i: int| 0u8));
    }
}

} // verus!
