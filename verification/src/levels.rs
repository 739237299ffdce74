//! The campaign's level list and which level is current: either a
//! campaign index or a custom level loaded from outside the list.

use vstd::prelude::*;

verus! {

/// An opaque identifier for a loaded level asset.
#[derive(Clone, Copy, Debug, PartialEq, Eq, Structural, Hash)]
pub struct LevelId(pub u64);

/// Which level is current.
#[derive(Clone, Copy, Debug, PartialEq, Eq, Structural)]
pub enum Current {
    /// A level of the campaign list, by index.
    Campaign(usize),
    /// A custom level outside the campaign list.
    Custom(LevelId),
}

impl Default for Current {
    /// The first campaign level.
    fn default() -> (r: Current)
        ensures
            r == Current::Campaign(0usize),
    {
        Current::Campaign(0)
    }
}

/// The campaign list with the current selection.
#[derive(Clone, Debug)]
pub struct Levels {
    levels: Vec<LevelId>,
    current: Current,
}

/// First position of `h` in `s` at or after `from`, if any.
pub open spec fn first_index_from(s: Seq<LevelId>, h: LevelId, from: int) -> Option<int>
    decreases s.len() - from,
{
    if from < 0 || from >= s.len() {
        Option::None
    } else if s[from] == h {
        Option::Some(from)
    } else {
        first_index_from(s, h, from + 1)
    }
}

impl Levels {
    /// The campaign list.
    pub closed spec fn list(self) -> Seq<LevelId> {
        self.levels@
    }

    /// The current selection.
    pub closed spec fn cur(self) -> Current {
        self.current
    }

    /// At least one level, and a campaign index always inside the list.
    pub open spec fn wf(self) -> bool {
        &&& self.list().len() >= 1
        &&& (self.cur() matches Current::Campaign(id) ==> id < self.list().len())
    }

    /// A campaign of `levels`, starting at the first.
    pub fn new(levels: Vec<LevelId>) -> (r: Levels)
        requires
            levels@.len() >= 1,
        ensures
            r.list() == levels@,
            r.cur() == Current::Campaign(0usize),
            r.wf(),
    {
        Levels { levels, current: Current::Campaign(0) }
    }

    /// The current level.
    pub fn current(&self) -> (r: LevelId)
        requires
            self.wf(),
        ensures
            (self.cur() matches Current::Campaign(id) ==> r == self.list()[id as int]),
            (self.cur() matches Current::Custom(h) ==> r == h),
    {
        match self.current {
            Current::Campaign(id) => self.levels[id],
            Current::Custom(h) => h,
        }
    }

    /// Whether no campaign level follows the current one: true on the
    /// last campaign level and on any custom level.
    pub fn is_last_or_custom(&self) -> (r: bool)
        requires
            self.wf(),
        ensures
            r == match self.cur() {
                Current::Campaign(id) => id >= self.list().len() - 1,
                Current::Custom(_) => true,
            },
    {
        match self.current {
            Current::Campaign(id) => id >= self.levels.len() - 1,
            Current::Custom(_) => true,
        }
    }

    /// The current campaign index; a custom level counts as the first.
    pub fn current_index(&self) -> (r: usize)
        ensures
            r == match self.cur() {
                Current::Campaign(id) => id as int,
                Current::Custom(_) => 0,
            },
    {
        match self.current {
            Current::Campaign(id) => id,
            Current::Custom(_) => 0,
        }
    }

    /// Whether the current level is the last campaign level.
    pub fn is_last(&self) -> (r: bool)
        requires
            self.wf(),
        ensures
            r == match self.cur() {
                Current::Campaign(id) => id >= self.list().len() - 1,
                Current::Custom(_) => false,
            },
    {
        match self.current {
            Current::Campaign(id) => id >= self.levels.len() - 1,
            Current::Custom(_) => false,
        }
    }

    /// The first campaign level.
    pub fn first(&self) -> (r: LevelId)
        requires
            self.wf(),
        ensures
            r == self.list()[0],
    {
        self.levels[0]
    }

    /// The campaign level after the current one, if the current one is a
    /// campaign level and not the last.
    pub fn next(&self) -> (r: Option<LevelId>)
        requires
            self.wf(),
        ensures
            r == match self.cur() {
                Current::Campaign(id) => {
                    if id + 1 < self.list().len() {
                        Option::Some(self.list()[id as int + 1])
                    } else {
                        Option::<LevelId>::None
                    }
                },
                Current::Custom(_) => Option::<LevelId>::None,
            },
    {
        match self.current {
            Current::Campaign(id) => {
                if id < self.levels.len() - 1 {
                    Option::Some(self.levels[id + 1])
                } else {
                    Option::None
                }
            },
            Current::Custom(_) => Option::None,
        }
    }

    /// Make `handle` current: as a campaign level if it is in the list
    /// (at its first position), as a custom level otherwise.
    pub fn set(&mut self, handle: LevelId)
        requires
            old(self).wf(),
        ensures
            final(self).list() == old(self).list(),
            final(self).cur() == match first_index_from(old(self).list(), handle, 0) {
                Option::Some(i) => Current::Campaign(i as usize),
                Option::None => Current::Custom(handle),
            },
            final(self).wf(),
    {
        let mut i: usize = 0;
        while i < self.levels.len()
            invariant
                *self == *old(self),
                old(self).wf(),
                i <= self.levels@.len(),
                first_index_from(old(self).list(), handle, 0) == first_index_from(
                    old(self).list(),
                    handle,
                    i as int,
                ),
            decreases self.levels@.len() - i,
        {
            if self.levels[i] == handle {
                proof {
                    assert(first_index_from(old(self).list(), handle, i as int) == Option::Some(
                        i as int,
                    ));
                }
                self.current = Current::Campaign(i);
                return ;
            }
            i = i + 1;
        }
        proof {
            assert(first_index_from(old(self).list(), handle, i as int) is None);
        }
        self.current = Current::Custom(handle);
    }
}

} // verus!
