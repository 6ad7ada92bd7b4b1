//! Collapsible regions of the output.

use vstd::prelude::*;

verus! {

/// A collapsible region within the output: the header line `start` and the
/// lines strictly between `start` and `end`, which are hidden while the
/// region is collapsed.
pub struct CollapseRegion {
    pub start: usize,
    pub end: usize,
    pub header: String,
    pub collapsed: bool,
}

/// Whether `line` falls strictly inside a collapsed region.
pub open spec fn hidden_in(regions: Seq<CollapseRegion>, line: int) -> bool {
    exists|i: int|
        0 <= i < regions.len() && (#[trigger] regions[i]).collapsed && regions[i].start < line
            < regions[i].end
}

/// Whether `region` is collapsed and has its header at `line`.
pub open spec fn collapsed_header(region: CollapseRegion, line: int) -> bool {
    region.start == line && region.collapsed
}

/// The index of the first region that is collapsed with its header at `line`.
pub open spec fn first_collapsed_at(regions: Seq<CollapseRegion>, line: int) -> Option<int> {
    if exists|i: int| 0 <= i < regions.len() && collapsed_header(#[trigger] regions[i], line) {
        Some(
            choose|i: int|
                0 <= i < regions.len() && collapsed_header(#[trigger] regions[i], line) && forall|
                    j: int,
                | 0 <= j < i ==> !collapsed_header(#[trigger] regions[j], line),
        )
    } else {
        None
    }
}

/// The index of the first region whose header is at `line`.
pub open spec fn first_header_at(regions: Seq<CollapseRegion>, line: int) -> Option<int> {
    if exists|i: int| 0 <= i < regions.len() && (#[trigger] regions[i]).start == line {
        Some(
            choose|i: int|
                0 <= i < regions.len() && (#[trigger] regions[i]).start == line && forall|j: int|
                    0 <= j < i ==> (#[trigger] regions[j]).start != line,
        )
    } else {
        None
    }
}

/// `regions` with the collapsed flag of region `i` flipped.
pub open spec fn flip(regions: Seq<CollapseRegion>, i: int) -> Seq<CollapseRegion> {
    regions.update(i, CollapseRegion { collapsed: !regions[i].collapsed, ..regions[i] })
}

/// The collapsible regions of the output, numbered in the order they were added.
pub struct CollapseManager {
    regions: Vec<CollapseRegion>,
    next_id: usize,
}

impl CollapseManager {
    /// The regions, in the order they were added; a region's ID is its index.
    pub closed spec fn regions_of(&self) -> Seq<CollapseRegion> {
        self.regions@
    }

    /// The ID that the next region will get is the number of regions.
    #[verifier::type_invariant]
    closed spec fn ids_dense(&self) -> bool {
        self.next_id == self.regions@.len()
    }

    pub fn new() -> (m: Self)
        ensures
            m.regions_of() == Seq::<CollapseRegion>::empty(),
    {
        CollapseManager { regions: Vec::new(), next_id: 0 }
    }

    /// Add a new, expanded region. Returns its ID.
    pub fn add_region(&mut self, start: usize, end: usize, header: &str) -> (id: usize)
        ensures
            id == old(self).regions_of().len(),
            final(self).regions_of().len() == old(self).regions_of().len() + 1,
            final(self).regions_of().take(id as int) == old(self).regions_of(),
            final(self).regions_of()[id as int].start == start,
            final(self).regions_of()[id as int].end == end,
            final(self).regions_of()[id as int].header@ == header@,
            !final(self).regions_of()[id as int].collapsed,
    {
        proof {
            use_type_invariant(&*self);
        }
        let id = self.next_id;
        let mut taken = CollapseManager::new();
        std::mem::swap(&mut taken, self);
        let CollapseManager { mut regions, next_id: _ } = taken;
        regions.push(
            CollapseRegion { start, end, header: String::from_str(header), collapsed: false },
        );
        let next = regions.len();
        proof {
            assert(regions@.take(id as int) =~= old(self).regions@);
        }
        *self = CollapseManager { regions, next_id: next };
        id
    }

    /// Flip the collapsed state of region `id`. Returns the new state, or
    /// `None` (and changes nothing) when there is no such region.
    pub fn toggle(&mut self, id: usize) -> (r: Option<bool>)
        ensures
            id < old(self).regions_of().len() ==> {
                &&& final(self).regions_of() == flip(old(self).regions_of(), id as int)
                &&& r == Some(!old(self).regions_of()[id as int].collapsed)
            },
            id >= old(self).regions_of().len() ==> {
                &&& final(self).regions_of() == old(self).regions_of()
                &&& r is None
            },
    {
        proof {
            use_type_invariant(&*self);
        }
        if id >= self.regions.len() {
            return None;
        }
        let mut taken = CollapseManager::new();
        std::mem::swap(&mut taken, self);
        let CollapseManager { mut regions, next_id: next } = taken;
        let flipped = !regions[id].collapsed;
        regions[id].collapsed = flipped;
        proof {
            assert(regions@ =~= flip(old(self).regions@, id as int));
        }
        *self = CollapseManager { regions, next_id: next };
        Some(flipped)
    }

    /// Whether `line_idx` falls strictly inside a collapsed region.
    pub fn is_hidden(&self, line_idx: usize) -> (b: bool)
        ensures
            b == hidden_in(self.regions_of(), line_idx as int),
    {
        let mut i: usize = 0;
        while i < self.regions.len()
            invariant
                i <= self.regions@.len(),
                forall|j: int|
                    0 <= j < i ==> !((#[trigger] self.regions@[j]).collapsed && self.regions@[j].start
                        < line_idx < self.regions@[j].end),
            decreases self.regions@.len() - i,
        {
            let r = &self.regions[i];
            if r.collapsed && line_idx > r.start && line_idx < r.end {
                return true;
            }
            i = i + 1;
        }
        false
    }

    /// The ID of the first region whose header is at `line_idx`, collapsed
    /// or not.
    pub fn region_at(&self, line_idx: usize) -> (r: Option<usize>)
        ensures
            r matches Some(i) ==> i < self.regions_of().len(),
            r == (match first_header_at(self.regions_of(), line_idx as int) {
                Some(i) => Some(i as usize),
                None => None::<usize>,
            }),
    {
        let mut i: usize = 0;
        while i < self.regions.len()
            invariant
                i <= self.regions@.len(),
                forall|j: int| 0 <= j < i ==> (#[trigger] self.regions@[j]).start != line_idx,
            decreases self.regions@.len() - i,
        {
            if self.regions[i].start == line_idx {
                proof {
                    lemma_first_header_at(self.regions@, line_idx as int, i as int);
                }
                return Some(i);
            }
            i = i + 1;
        }
        None
    }

    /// The header text of the first collapsed region whose header is at `line_idx`.
    pub fn collapsed_header_at(&self, line_idx: usize) -> (r: Option<&str>)
        ensures
            r matches Some(h) ==> first_collapsed_at(self.regions_of(), line_idx as int) matches Some(
                i,
            ) && h@ == self.regions_of()[i].header@,
            r is None ==> first_collapsed_at(self.regions_of(), line_idx as int) is None,
    {
        let mut i: usize = 0;
        while i < self.regions.len()
            invariant
                i <= self.regions@.len(),
                forall|j: int|
                    0 <= j < i ==> !collapsed_header(#[trigger] self.regions@[j], line_idx as int),
            decreases self.regions@.len() - i,
        {
            if self.regions[i].start == line_idx && self.regions[i].collapsed {
                proof {
                    lemma_first_collapsed_at(self.regions@, line_idx as int, i as int);
                }
                return Some(self.regions[i].header.as_str());
            }
            i = i + 1;
        }
        None
    }

    pub fn regions(&self) -> (r: &[CollapseRegion])
        ensures
            r@ == self.regions_of(),
    {
        self.regions.as_slice()
    }

    /// Flip the collapsed state of the most recently added region. Returns
    /// the new state, or `None` when there is no region.
    pub fn toggle_last(&mut self) -> (r: Option<bool>)
        ensures
            old(self).regions_of().len() == 0 ==> final(self).regions_of() == old(
                self,
            ).regions_of() && r is None,
            old(self).regions_of().len() > 0 ==> {
                let last = old(self).regions_of().len() - 1;
                &&& final(self).regions_of() == flip(old(self).regions_of(), last)
                &&& r == Some(!old(self).regions_of()[last].collapsed)
            },
    {
        if self.regions.len() == 0 {
            return None;
        }
        let last_idx = self.regions.len() - 1;
        self.toggle(last_idx)
    }
}

impl Default for CollapseManager {
    fn default() -> (m: Self)
        ensures
            m.regions_of() == Seq::<CollapseRegion>::empty(),
    {
        Self::new()
    }
}

/// The first match found by a front-to-back scan is the one that
/// `first_collapsed_at` names.
proof fn lemma_first_collapsed_at(regions: Seq<CollapseRegion>, line: int, i: int)
    requires
        0 <= i < regions.len(),
        collapsed_header(regions[i], line),
        forall|j: int| 0 <= j < i ==> !collapsed_header(#[trigger] regions[j], line),
    ensures
        first_collapsed_at(regions, line) == Some(i),
{
    let k = choose|k: int|
        0 <= k < regions.len() && collapsed_header(#[trigger] regions[k], line) && forall|j: int|
            0 <= j < k ==> !collapsed_header(#[trigger] regions[j], line);
    assert(0 <= k < regions.len() && collapsed_header(regions[k], line) && forall|j: int|
        0 <= j < k ==> !collapsed_header(#[trigger] regions[j], line));
    if k < i {
        assert(!collapsed_header(regions[k], line));
    }
    if i < k {
        assert(!collapsed_header(regions[i], line));
    }
}

proof fn lemma_first_header_at(regions: Seq<CollapseRegion>, line: int, i: int)
    requires
        0 <= i < regions.len(),
        regions[i].start == line,
        forall|j: int| 0 <= j < i ==> (#[trigger] regions[j]).start != line,
    ensures
        first_header_at(regions, line) == Some(i),
{
    let k = choose|k: int|
        0 <= k < regions.len() && (#[trigger] regions[k]).start == line && forall|j: int|
            0 <= j < k ==> (#[trigger] regions[j]).start != line;
    assert(0 <= k < regions.len() && regions[k].start == line && forall|j: int|
        0 <= j < k ==> (#[trigger] regions[j]).start != line);
    if k < i {
        assert(regions[k].start != line);
    }
    if i < k {
        assert(regions[i].start != line);
    }
}

/// A line is hidden exactly when it lies strictly inside some collapsed
/// region, whichever region that is: any such region hides it, and without
/// one it is shown.
pub proof fn law_hidden_iff_inside_collapsed(regions: Seq<CollapseRegion>, line: int)
    ensures
        forall|i: int|
            0 <= i < regions.len() && (#[trigger] regions[i]).collapsed && regions[i].start < line
                && line < regions[i].end ==> hidden_in(regions, line),
        (forall|i: int|
            0 <= i < regions.len() ==> !((#[trigger] regions[i]).collapsed && regions[i].start < line
                && line < regions[i].end)) ==> !hidden_in(regions, line),
{
}

/// Flipping the same region twice restores every region.
pub proof fn law_toggle_twice_restores(regions: Seq<CollapseRegion>, i: int)
    requires
        0 <= i < regions.len(),
    ensures
        flip(flip(regions, i), i) == regions,
{
    assert(flip(flip(regions, i), i) =~= regions);
}

} // verus!
