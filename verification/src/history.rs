//! The versioned edit history: a linear, truncating undo/redo log.  A
//! version is one undoable batch of per-cell edits; the history keeps a
//! cursor that partitions the log into applied and redoable versions.

use vstd::prelude::*;

use crate::grid_cell::GridCell;
use crate::grid_list::GridList;
use crate::tools::DrawingTools;

verus! {

/// One cell transition: the grid position, the glyph it held before, the
/// glyph it holds after, and the tool that made the change.
#[derive(Clone, Copy, Debug)]
pub struct Edit {
    pub index: usize,
    pub from: char,
    pub to: char,
    pub tool: DrawingTools,
}

impl Edit {
    pub fn new(index: usize, from: char, to: char, tool: DrawingTools) -> (r: Self)
        ensures
            r == (Edit { index, from, to, tool }),
    {
        Self { index, from, to, tool }
    }

    pub fn get_index(&self) -> (r: usize)
        ensures
            r == self.index,
    {
        self.index
    }

    pub fn get_from(&self) -> (r: char)
        ensures
            r == self.from,
    {
        self.from
    }

    pub fn get_to(&self) -> (r: char)
        ensures
            r == self.to,
    {
        self.to
    }

    pub fn get_tool(&self) -> (r: DrawingTools)
        ensures
            r == self.tool,
    {
        self.tool
    }
}

/// Whether some edit in the batch writes to linear index `i`.
pub open spec fn edits_touch(edits: Seq<Edit>, i: int) -> bool {
    exists|k: int| 0 <= k < edits.len() && edits[k].index == i
}

/// Every edit in the batch stays inside a buffer of `n` cells.
pub open spec fn edits_in_bounds(edits: Seq<Edit>, n: int) -> bool {
    forall|k: int| 0 <= k < edits.len() ==> #[trigger] edits[k].index < n
}

/// A batch of edits after `push_without_overwrite`: the first write to a
/// cell index wins, later writes to the same index are dropped.
pub open spec fn push_no_overwrite(edits: Seq<Edit>, e: Edit) -> Seq<Edit> {
    if edits_touch(edits, e.index as int) {
        edits
    } else {
        edits.push(e)
    }
}

/// One undoable batch of edits.
#[derive(Debug)]
pub struct Version {
    pub edits: Vec<Edit>,
}

impl Version {
    pub fn new() -> (r: Self)
        ensures
            r.edits@.len() == 0,
    {
        Self { edits: Vec::new() }
    }

    pub fn push(&mut self, index: usize, from: char, to: char, tool: DrawingTools)
        ensures
            final(self).edits@ == old(self).edits@.push(Edit { index, from, to, tool }),
    {
        self.edits.push(Edit::new(index, from, to, tool));
    }

    /// Record an edit unless the version already holds one for the same cell
    /// index; the first write to a cell wins within one version.
    pub fn push_without_overwrite(&mut self, index: usize, from: char, to: char, tool: DrawingTools)
        ensures
            final(self).edits@ == push_no_overwrite(
                old(self).edits@,
                Edit { index, from, to, tool },
            ),
    {
        let n: usize = self.edits.len();
        let mut k: usize = 0;
        while k < n
            invariant
                k <= n,
                n == self.edits@.len(),
                *self == *old(self),
                forall|j: int| 0 <= j < k ==> self.edits@[j].index != index,
            decreases n - k,
        {
            if self.edits[k].index == index {
                proof {
                    assert(edits_touch(self.edits@, index as int));
                }
                return ;
            }
            k = k + 1;
        }
        proof {
            assert(!edits_touch(self.edits@, index as int));
        }
        self.edits.push(Edit::new(index, from, to, tool));
    }

    pub fn clear(&mut self)
        ensures
            final(self).edits@.len() == 0,
    {
        self.edits.clear();
    }

    pub fn len(&self) -> (r: usize)
        ensures
            r == self.edits@.len(),
    {
        self.edits.len()
    }

    pub fn get_edits(&self) -> (r: &Vec<Edit>)
        ensures
            r@ == self.edits@,
    {
        &self.edits
    }

    /// An element-for-element copy of this version.
    pub fn duplicate(&self) -> (r: Version)
        ensures
            r.edits@ == self.edits@,
    {
        let n: usize = self.edits.len();
        let mut edits: Vec<Edit> = Vec::new();
        let mut k: usize = 0;
        while k < n
            invariant
                k <= n,
                n == self.edits@.len(),
                edits@ == self.edits@.take(k as int),
            decreases n - k,
        {
            edits.push(self.edits[k]);
            proof {
                assert(edits@ =~= self.edits@.take(k + 1));
            }
            k = k + 1;
        }
        proof {
            assert(self.edits@.take(n as int) =~= self.edits@);
        }
        Version { edits }
    }
}

/// The cell buffer after overwriting the content at `index` with `ch`.
pub open spec fn write_content(s: Seq<GridCell>, index: int, ch: char) -> Seq<GridCell> {
    s.update(index, GridCell { content: ch, ..s[index] })
}

/// What one content write does, field by field.
pub proof fn lemma_write_content_facts(s: Seq<GridCell>, index: int, ch: char)
    requires
        0 <= index < s.len(),
    ensures
        write_content(s, index, ch).len() == s.len(),
        write_content(s, index, ch)[index].content == ch,
        forall|j: int|
            0 <= j < s.len() && j != index ==> write_content(s, index, ch)[j] == s[j],
{
}

/// The cell buffer after applying a batch of edits in order, writing each
/// edit's `from` glyph (undo) or `to` glyph (redo).
pub open spec fn apply_writes(s: Seq<GridCell>, edits: Seq<Edit>, use_from: bool) -> Seq<GridCell>
    decreases edits.len(),
{
    if edits.len() == 0 {
        s
    } else {
        apply_writes(
            write_content(
                s,
                edits[0].index as int,
                if use_from {
                    edits[0].from
                } else {
                    edits[0].to
                },
            ),
            edits.drop_first(),
            use_from,
        )
    }
}

/// The linear undo/redo log with its cursor.  `index` always lies in
/// `[0, versions.len()]`: versions before it are applied, versions from it
/// on are available to redo.
#[derive(Debug)]
pub struct History {
    pub versions: Vec<Version>,
    pub index: usize,
}

impl History {
    pub open spec fn wf(self) -> bool {
        self.index <= self.versions@.len()
    }

    pub fn new() -> (r: Self)
        ensures
            r.wf(),
            r.versions@.len() == 0,
            r.index == 0,
    {
        Self { versions: Vec::new(), index: 0 }
    }

    pub fn get_history(&self) -> (r: &Vec<Version>)
        ensures
            r@ == self.versions@,
    {
        &self.versions
    }

    /// Append a version at the cursor.  An empty version is dropped; a
    /// non-empty one first discards everything from the cursor on (the redo
    /// branch), then is appended, and the cursor moves past it.
    pub fn save_version(&mut self, version: Version)
        requires
            old(self).wf(),
        ensures
            final(self).wf(),
            version.edits@.len() == 0 ==> *final(self) == *old(self),
            version.edits@.len() > 0 ==> {
                &&& final(self).versions@ == old(self).versions@.subrange(
                    0,
                    old(self).index as int,
                ).push(version)
                &&& final(self).index == old(self).index + 1
                &&& final(self).index == final(self).versions@.len()
            },
    {
        if version.len() > 0 {
            self.versions.truncate(self.index);
            proof {
                assert(self.versions@ =~= old(self).versions@.subrange(
                    0,
                    old(self).index as int,
                ));
            }
            self.versions.push(version);
            self.index = self.versions.len();
        }
    }

    /// Step the cursor back one version and write every edit's `from` glyph
    /// back into the grid; a no-op when nothing is applied.
    pub fn undo(&mut self, grid_list: &mut GridList)
        requires
            old(self).wf(),
            forall|k: int|
                0 <= k < old(self).versions@.len() ==> edits_in_bounds(
                    #[trigger] old(self).versions@[k].edits@,
                    old(grid_list).data@.len() as int,
                ),
        ensures
            final(self).wf(),
            final(self).versions@ == old(self).versions@,
            final(grid_list).grid_size == old(grid_list).grid_size,
            final(grid_list).current_selection == old(grid_list).current_selection,
            old(self).index == 0 ==> *final(self) == *old(self) && *final(grid_list) == *old(
                grid_list,
            ),
            old(self).index > 0 ==> {
                &&& final(self).index == old(self).index - 1
                &&& final(grid_list).data@ == apply_writes(
                    old(grid_list).data@,
                    old(self).versions@[old(self).index - 1].edits@,
                    true,
                )
            },
    {
        if self.index > 0 {
            self.index = self.index - 1;
            let idx = self.index;
            let ghost edits = self.versions@[idx as int].edits@;
            let m: usize = self.versions[idx].edits.len();
            let mut k: usize = 0;
            while k < m
                invariant
                    k <= m,
                    idx < self.versions@.len(),
                    *self == old(self).spec_with_index(idx),
                    m == edits.len(),
                    edits == self.versions@[idx as int].edits@,
                    edits_in_bounds(edits, old(grid_list).data@.len() as int),
                    grid_list.data@.len() == old(grid_list).data@.len(),
                    grid_list.data@ == apply_writes(old(grid_list).data@, edits.take(k as int), true),
                    grid_list.grid_size == old(grid_list).grid_size,
                    grid_list.current_selection == old(grid_list).current_selection,
                decreases m - k,
            {
                let e = self.versions[idx].edits[k];
                proof {
                    lemma_apply_writes_take_succ(old(grid_list).data@, edits, k as int, true);
                    lemma_apply_writes_len(old(grid_list).data@, edits.take(k as int), true);
                }
                grid_list.set(e.index, e.from);
                k = k + 1;
            }
            proof {
                assert(edits.take(m as int) =~= edits);
            }
        }
    }

    /// Write every edit's `to` glyph of the version at the cursor into the
    /// grid and step the cursor forward; a no-op when nothing is redoable.
    pub fn redo(&mut self, grid_list: &mut GridList)
        requires
            old(self).wf(),
            forall|k: int|
                0 <= k < old(self).versions@.len() ==> edits_in_bounds(
                    #[trigger] old(self).versions@[k].edits@,
                    old(grid_list).data@.len() as int,
                ),
        ensures
            final(self).wf(),
            final(self).versions@ == old(self).versions@,
            final(grid_list).grid_size == old(grid_list).grid_size,
            final(grid_list).current_selection == old(grid_list).current_selection,
            old(self).index == old(self).versions@.len() ==> *final(self) == *old(self)
                && *final(grid_list) == *old(grid_list),
            old(self).index < old(self).versions@.len() ==> {
                &&& final(self).index == old(self).index + 1
                &&& final(grid_list).data@ == apply_writes(
                    old(grid_list).data@,
                    old(self).versions@[old(self).index as int].edits@,
                    false,
                )
            },
    {
        if self.index < self.versions.len() {
            let idx = self.index;
            let ghost edits = self.versions@[idx as int].edits@;
            let m: usize = self.versions[idx].edits.len();
            let mut k: usize = 0;
            while k < m
                invariant
                    k <= m,
                    idx < self.versions@.len(),
                    *self == *old(self),
                    m == edits.len(),
                    edits == self.versions@[idx as int].edits@,
                    edits_in_bounds(edits, old(grid_list).data@.len() as int),
                    grid_list.data@.len() == old(grid_list).data@.len(),
                    grid_list.data@ == apply_writes(
                        old(grid_list).data@,
                        edits.take(k as int),
                        false,
                    ),
                    grid_list.grid_size == old(grid_list).grid_size,
                    grid_list.current_selection == old(grid_list).current_selection,
                decreases m - k,
            {
                let e = self.versions[idx].edits[k];
                proof {
                    lemma_apply_writes_take_succ(old(grid_list).data@, edits, k as int, false);
                    lemma_apply_writes_len(old(grid_list).data@, edits.take(k as int), false);
                }
                grid_list.set(e.index, e.to);
                k = k + 1;
            }
            proof {
                assert(edits.take(m as int) =~= edits);
            }
            self.index = idx + 1;
        }
    }

    /// The same history with the cursor moved; used to state loop invariants.
    pub open spec fn spec_with_index(self, index: usize) -> History {
        History { index, ..self }
    }
}

/// Applying one more edit of a batch extends the applied prefix by one write.
pub proof fn lemma_apply_writes_take_succ(
    s: Seq<GridCell>,
    edits: Seq<Edit>,
    k: int,
    use_from: bool,
)
    requires
        0 <= k < edits.len(),
    ensures
        apply_writes(s, edits.take(k + 1), use_from) == write_content(
            apply_writes(s, edits.take(k), use_from),
            edits[k].index as int,
            if use_from {
                edits[k].from
            } else {
                edits[k].to
            },
        ),
    decreases k,
{
    let vk = if use_from {
        edits[k].from
    } else {
        edits[k].to
    };
    if k == 0 {
        let s1 = write_content(s, edits[0].index as int, vk);
        assert(apply_writes(s1, Seq::<Edit>::empty(), use_from) == s1);
        assert(edits.take(1).drop_first() =~= Seq::<Edit>::empty());
        assert(edits.take(0) =~= Seq::<Edit>::empty());
        assert(edits.take(1)[0] == edits[0]);
        assert(apply_writes(s, edits.take(1), use_from) == apply_writes(
            s1,
            edits.take(1).drop_first(),
            use_from,
        ));
        assert(apply_writes(s, edits.take(0), use_from) == s);
    } else {
        let v0 = if use_from {
            edits[0].from
        } else {
            edits[0].to
        };
        let s1 = write_content(s, edits[0].index as int, v0);
        let rest = edits.drop_first();
        assert(edits.take(k + 1)[0] == edits[0]);
        assert(edits.take(k)[0] == edits[0]);
        assert(edits.take(k + 1).drop_first() =~= rest.take(k));
        assert(edits.take(k).drop_first() =~= rest.take(k - 1));
        assert(apply_writes(s, edits.take(k + 1), use_from) == apply_writes(
            s1,
            rest.take(k),
            use_from,
        ));
        assert(apply_writes(s, edits.take(k), use_from) == apply_writes(
            s1,
            rest.take(k - 1),
            use_from,
        ));
        lemma_apply_writes_take_succ(s1, rest, k - 1, use_from);
        assert(rest[k - 1] == edits[k]);
    }
}

/// How one `save_version` call relates two history states: an empty batch
/// changes nothing, a non-empty one discards the redo branch, appends a
/// version holding exactly `edits`, and moves the cursor past it.
pub open spec fn saved_once(h0: History, h1: History, edits: Seq<Edit>) -> bool {
    &&& (edits.len() == 0 ==> h1 == h0)
    &&& (edits.len() > 0 ==> {
        &&& h1.versions@.len() == h0.index + 1
        &&& h1.versions@.subrange(0, h0.index as int) == h0.versions@.subrange(0, h0.index as int)
        &&& h1.versions@[h0.index as int].edits@ == edits
        &&& h1.index == h0.index + 1
    })
}

/// Whether some edit of some version in the list writes to linear index `i`.
pub open spec fn versions_touch(vs: Seq<Version>, i: int) -> bool {
    exists|k: int| 0 <= k < vs.len() && edits_touch(#[trigger] vs[k].edits@, i)
}

/// Every edit of every version in the list stays inside `n` cells.
pub open spec fn versions_in_bounds(vs: Seq<Version>, n: int) -> bool {
    forall|k: int| 0 <= k < vs.len() ==> edits_in_bounds(#[trigger] vs[k].edits@, n)
}

/// The cell buffer after undoing every version in the list, newest first:
/// what repeated `undo` calls leave behind.
pub open spec fn undo_all(s: Seq<GridCell>, vs: Seq<Version>) -> Seq<GridCell>
    decreases vs.len(),
{
    if vs.len() == 0 {
        s
    } else {
        undo_all(apply_writes(s, vs.last().edits@, true), vs.drop_last())
    }
}

/// The cell buffer after redoing every version in the list, oldest first:
/// what repeated `redo` calls produce.
pub open spec fn redo_all(s: Seq<GridCell>, vs: Seq<Version>) -> Seq<GridCell>
    decreases vs.len(),
{
    if vs.len() == 0 {
        s
    } else {
        redo_all(apply_writes(s, vs[0].edits@, false), vs.drop_first())
    }
}

/// Applying in-bounds edits never changes the buffer's length.
pub proof fn lemma_apply_writes_len(s: Seq<GridCell>, edits: Seq<Edit>, use_from: bool)
    requires
        edits_in_bounds(edits, s.len() as int),
    ensures
        apply_writes(s, edits, use_from).len() == s.len(),
    decreases edits.len(),
{
    if edits.len() > 0 {
        let s1 = write_content(
            s,
            edits[0].index as int,
            if use_from {
                edits[0].from
            } else {
                edits[0].to
            },
        );
        assert(s1.len() == s.len());
        assert forall|j: int| 0 <= j < edits.drop_first().len() implies #[trigger] edits.drop_first()[j].index
            < s1.len() by {
            assert(edits.drop_first()[j] == edits[j + 1]);
        }
        lemma_apply_writes_len(s1, edits.drop_first(), use_from);
    }
}

/// A batch of edits that never writes to `i` leaves cell `i` alone.
proof fn lemma_apply_writes_untouched(s: Seq<GridCell>, edits: Seq<Edit>, use_from: bool, i: int)
    requires
        0 <= i < s.len(),
        edits_in_bounds(edits, s.len() as int),
        !edits_touch(edits, i),
    ensures
        apply_writes(s, edits, use_from)[i] == s[i],
        apply_writes(s, edits, use_from).len() == s.len(),
    decreases edits.len(),
{
    lemma_apply_writes_len(s, edits, use_from);
    if edits.len() > 0 {
        let v0 = if use_from {
            edits[0].from
        } else {
            edits[0].to
        };
        let s1 = write_content(s, edits[0].index as int, v0);
        let rest = edits.drop_first();
        assert(edits[0].index as int != i);
        assert(s1[i] == s[i]);
        assert(forall|j: int| 0 <= j < rest.len() ==> rest[j] == edits[j + 1]);
        assert(!edits_touch(rest, i)) by {
            if edits_touch(rest, i) {
                let k = choose|k: int| 0 <= k < rest.len() && rest[k].index == i;
                assert(edits[k + 1].index == i);
            }
        }
        assert(edits_in_bounds(rest, s1.len() as int));
        lemma_apply_writes_untouched(s1, rest, use_from, i);
    }
}

/// The cell with its content blanked out: equality of these means two cells
/// agree on everything but the content glyph.  Undo and redo only ever write
/// the content field, so this part of a cell is invariant under them.
pub open spec fn blank_content(c: GridCell) -> GridCell {
    GridCell { content: crate::consts::CHAR_SPACE, ..c }
}

/// Applying edits changes only the content field of any cell.
proof fn lemma_apply_writes_blank(s: Seq<GridCell>, edits: Seq<Edit>, use_from: bool, i: int)
    requires
        0 <= i < s.len(),
        edits_in_bounds(edits, s.len() as int),
    ensures
        blank_content(apply_writes(s, edits, use_from)[i]) == blank_content(s[i]),
        apply_writes(s, edits, use_from).len() == s.len(),
    decreases edits.len(),
{
    lemma_apply_writes_len(s, edits, use_from);
    if edits.len() > 0 {
        let v0 = if use_from {
            edits[0].from
        } else {
            edits[0].to
        };
        let s1 = write_content(s, edits[0].index as int, v0);
        let rest = edits.drop_first();
        assert(forall|j: int| 0 <= j < rest.len() ==> rest[j] == edits[j + 1]);
        assert(edits_in_bounds(rest, s1.len() as int));
        assert(blank_content(s1[i]) == blank_content(s[i]));
        lemma_apply_writes_blank(s1, rest, use_from, i);
    }
}

/// A batch of edits that does write to `i` leaves the same cell there from
/// any two buffers whose cells differ at most in their content glyphs.
proof fn lemma_apply_writes_touched_agree(
    s1: Seq<GridCell>,
    s2: Seq<GridCell>,
    edits: Seq<Edit>,
    use_from: bool,
    i: int,
)
    requires
        s1.len() == s2.len(),
        edits_in_bounds(edits, s1.len() as int),
        edits_touch(edits, i),
        forall|j: int|
            0 <= j < s1.len() ==> blank_content(#[trigger] s1[j]) == blank_content(s2[j]),
    ensures
        apply_writes(s1, edits, use_from)[i] == apply_writes(s2, edits, use_from)[i],
    decreases edits.len(),
{
    let v0 = if use_from {
        edits[0].from
    } else {
        edits[0].to
    };
    let t1 = write_content(s1, edits[0].index as int, v0);
    let t2 = write_content(s2, edits[0].index as int, v0);
    let rest = edits.drop_first();
    assert(forall|j: int| 0 <= j < rest.len() ==> rest[j] == edits[j + 1]);
    assert(edits_in_bounds(rest, t1.len() as int));
    assert(forall|j: int|
        0 <= j < t1.len() ==> blank_content(#[trigger] t1[j]) == blank_content(t2[j]));
    if edits_touch(rest, i) {
        lemma_apply_writes_touched_agree(t1, t2, rest, use_from, i);
    } else {
        assert(edits[0].index as int == i) by {
            let k = choose|k: int| 0 <= k < edits.len() && edits[k].index == i;
            if k > 0 {
                assert(rest[k - 1].index == i);
            }
        }
        assert(blank_content(s1[i]) == blank_content(s2[i]));
        assert(t1[i] == t2[i]);
        lemma_apply_writes_untouched(t1, rest, use_from, i);
        lemma_apply_writes_untouched(t2, rest, use_from, i);
    }
}

/// Undoing a list of in-bounds versions keeps the buffer's length.
proof fn lemma_undo_all_len(s: Seq<GridCell>, vs: Seq<Version>)
    requires
        versions_in_bounds(vs, s.len() as int),
    ensures
        undo_all(s, vs).len() == s.len(),
    decreases vs.len(),
{
    if vs.len() > 0 {
        let s1 = apply_writes(s, vs.last().edits@, true);
        lemma_apply_writes_len(s, vs.last().edits@, true);
        assert(forall|j: int| 0 <= j < vs.drop_last().len() ==> vs.drop_last()[j] == vs[j]);
        lemma_undo_all_len(s1, vs.drop_last());
    }
}

/// Undoing versions that never write to `i` leaves cell `i` alone.
proof fn lemma_undo_all_untouched(s: Seq<GridCell>, vs: Seq<Version>, i: int)
    requires
        0 <= i < s.len(),
        versions_in_bounds(vs, s.len() as int),
        !versions_touch(vs, i),
    ensures
        undo_all(s, vs)[i] == s[i],
        undo_all(s, vs).len() == s.len(),
    decreases vs.len(),
{
    lemma_undo_all_len(s, vs);
    if vs.len() > 0 {
        let last = vs.last();
        assert(!edits_touch(last.edits@, i)) by {
            assert(vs[vs.len() - 1] == last);
        }
        let s1 = apply_writes(s, last.edits@, true);
        lemma_apply_writes_untouched(s, last.edits@, true, i);
        let front = vs.drop_last();
        assert(forall|j: int| 0 <= j < front.len() ==> front[j] == vs[j]);
        assert(!versions_touch(front, i)) by {
            if versions_touch(front, i) {
                let k = choose|k: int| 0 <= k < front.len() && edits_touch(front[k].edits@, i);
                assert(edits_touch(vs[k].edits@, i));
            }
        }
        lemma_undo_all_untouched(s1, front, i);
    }
}

/// Redoing a list of versions gives the same buffer from any two starting
/// buffers that agree on every cell the versions never write to and whose
/// cells differ at most in their content glyphs elsewhere.
proof fn lemma_redo_all_agree(s1: Seq<GridCell>, s2: Seq<GridCell>, vs: Seq<Version>)
    requires
        s1.len() == s2.len(),
        versions_in_bounds(vs, s1.len() as int),
        forall|i: int| 0 <= i < s1.len() && !versions_touch(vs, i) ==> s1[i] == s2[i],
        forall|i: int|
            0 <= i < s1.len() ==> blank_content(#[trigger] s1[i]) == blank_content(s2[i]),
    ensures
        redo_all(s1, vs) == redo_all(s2, vs),
    decreases vs.len(),
{
    if vs.len() == 0 {
        assert(forall|i: int| 0 <= i < s1.len() ==> s1[i] == s2[i]);
        assert(s1 =~= s2);
    } else {
        let first = vs[0];
        let t1 = apply_writes(s1, first.edits@, false);
        let t2 = apply_writes(s2, first.edits@, false);
        let rest = vs.drop_first();
        lemma_apply_writes_len(s1, first.edits@, false);
        lemma_apply_writes_len(s2, first.edits@, false);
        assert(forall|j: int| 0 <= j < rest.len() ==> rest[j] == vs[j + 1]);
        assert(versions_in_bounds(rest, t1.len() as int));
        assert forall|i: int| 0 <= i < t1.len() implies blank_content(#[trigger] t1[i])
            == blank_content(t2[i]) by {
            lemma_apply_writes_blank(s1, first.edits@, false, i);
            lemma_apply_writes_blank(s2, first.edits@, false, i);
        }
        assert forall|i: int|
            0 <= i < t1.len() && !versions_touch(rest, i) implies t1[i] == t2[i] by {
            if edits_touch(first.edits@, i) {
                lemma_apply_writes_touched_agree(s1, s2, first.edits@, false, i);
            } else {
                assert(!versions_touch(vs, i)) by {
                    if versions_touch(vs, i) {
                        let k = choose|k: int|
                            0 <= k < vs.len() && edits_touch(vs[k].edits@, i);
                        if k > 0 {
                            assert(edits_touch(rest[k - 1].edits@, i));
                        }
                    }
                }
                lemma_apply_writes_untouched(s1, first.edits@, false, i);
                lemma_apply_writes_untouched(s2, first.edits@, false, i);
            }
        }
        lemma_redo_all_agree(t1, t2, rest);
    }
}

/// History round-trip: take a grid that agrees with its saved versions (every
/// cell some version wrote to holds the last glyph written there, which is
/// how versions recorded by actually applying the edits leave it).  Undoing
/// all the versions, newest first, and then redoing them all, oldest first,
/// restores the grid cell-for-cell.
pub proof fn lemma_history_round_trip(s: Seq<GridCell>, vs: Seq<Version>)
    requires
        versions_in_bounds(vs, s.len() as int),
        redo_all(s, vs) == s,
    ensures
        redo_all(undo_all(s, vs), vs) == s,
{
    let u = undo_all(s, vs);
    lemma_undo_all_len(s, vs);
    assert forall|i: int| 0 <= i < u.len() && !versions_touch(vs, i) implies u[i] == s[i] by {
        lemma_undo_all_untouched(s, vs, i);
    }
    assert forall|i: int| 0 <= i < u.len() implies blank_content(#[trigger] u[i]) == blank_content(
        s[i],
    ) by {
        lemma_undo_all_blank(s, vs, i);
    }
    lemma_redo_all_agree(u, s, vs);
}

/// Undoing versions changes only the content field of any cell.
proof fn lemma_undo_all_blank(s: Seq<GridCell>, vs: Seq<Version>, i: int)
    requires
        0 <= i < s.len(),
        versions_in_bounds(vs, s.len() as int),
    ensures
        blank_content(undo_all(s, vs)[i]) == blank_content(s[i]),
    decreases vs.len(),
{
    if vs.len() > 0 {
        let last = vs.last();
        let s1 = apply_writes(s, last.edits@, true);
        assert(edits_in_bounds(last.edits@, s.len() as int)) by {
            assert(vs[vs.len() - 1] == last);
        }
        lemma_apply_writes_blank(s, last.edits@, true, i);
        let front = vs.drop_last();
        assert(forall|j: int| 0 <= j < front.len() ==> front[j] == vs[j]);
        lemma_undo_all_blank(s1, front, i);
    }
}

/// Branch discard: saving a non-empty version while `k` versions are applied
/// keeps exactly those first `k` versions, appends the new one, and leaves
/// the cursor just past it — so every previously redoable version is gone
/// and a redo finds nothing to do.
pub proof fn lemma_branch_discard(versions: Seq<Version>, k: int, v: Version)
    requires
        0 <= k <= versions.len(),
        v.edits@.len() > 0,
    ensures
        versions.subrange(0, k).push(v).len() == k + 1,
        versions.subrange(0, k).push(v)[k] == v,
        forall|j: int| 0 <= j < k ==> versions.subrange(0, k).push(v)[j] == versions[j],
{
}

} // verus!
