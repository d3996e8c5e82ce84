use vstd::prelude::*;

verus! {

/// Identifies an abstract grid: the group that owns it and its position there.
#[derive(Clone, Copy, Debug, PartialEq, Eq, Structural)]
pub struct AbstractGridID {
    pub group: u64,
    pub index: u64,
}

#[derive(Clone, Copy, Debug, PartialEq, Eq, Structural)]
pub enum GridKind {
    Color,
    DepthStencil,
}

/// What happens to a grid's contents when a flow starts using it.
#[derive(Clone, Copy, Debug, PartialEq, Eq, Structural)]
pub enum StartOperation {
    Clear,
    Load,
    DontCare,
}

/// What a grid's contents serve once the flow is done with it.
#[derive(Clone, Copy, Debug, PartialEq, Eq, Structural)]
pub enum GridPurpose {
    Display,
    Sampled,
    Nothing,
}

/// A render target not yet bound to concrete storage.
#[derive(Clone, Copy, Debug, PartialEq, Eq, Structural)]
pub struct AbstractGrid {
    pub kind: GridKind,
    pub start_operation: StartOperation,
    pub purpose: GridPurpose,
}

/// Errors of the grid registry.
#[derive(Clone, Copy, Debug, PartialEq, Eq, Structural)]
pub enum GridError {
    UnknownGridID(AbstractGridID),
}

/// Hands out grid groups, each with a tag of its own.
pub struct Instance {
    next_tag: u64,
}

impl Instance {
    pub closed spec fn next_tag_spec(&self) -> u64 {
        self.next_tag
    }

    pub fn new() -> (r: Instance)
        ensures
            r.next_tag_spec() == 0,
    {
        Instance { next_tag: 0 }
    }

    /// The tag that the next group will get.
    pub fn next_tag(&self) -> (r: u64)
        ensures
            r == self.next_tag_spec(),
    {
        self.next_tag
    }

    /// A new, empty group; its tag differs from those of all groups this
    /// instance made before, so their identifiers never resolve in it.
    pub fn create_abstract_grid_group(&mut self) -> (r: AbstractGridGroup)
        requires
            old(self).next_tag_spec() < u64::MAX,
        ensures
            r.tag_spec() == old(self).next_tag_spec(),
            r.grids_spec() == Seq::<AbstractGrid>::empty(),
            final(self).next_tag_spec() == old(self).next_tag_spec() + 1,
    {
        let tag = self.next_tag;
        self.next_tag = self.next_tag + 1;
        AbstractGridGroup::new(tag)
    }
}

/// A set of abstract grids that share one concrete backing.
/// The grid with identifier `{ group: tag, index: i }` is `grids[i]`.
pub struct AbstractGridGroup {
    tag: u64,
    grids: Vec<AbstractGrid>,
}

/// The same group bound to a width and a height.
#[derive(Clone, Debug)]
pub struct ConcreteGridGroup {
    pub width: u32,
    pub height: u32,
    pub grids: Vec<AbstractGridID>,
}

impl AbstractGridGroup {
    pub closed spec fn tag_spec(&self) -> u64 {
        self.tag
    }

    pub closed spec fn grids_spec(&self) -> Seq<AbstractGrid> {
        self.grids@
    }

    /// Whether `id` names a grid of this group.
    pub open spec fn owns(&self, id: AbstractGridID) -> bool {
        id.group == self.tag_spec() && id.index < self.grids_spec().len()
    }

    /// The descriptor that `id` names in this group.
    pub open spec fn grid_of(&self, id: AbstractGridID) -> AbstractGrid {
        self.grids_spec()[id.index as int]
    }

    /// An empty group whose identifiers carry `tag`.
    pub(crate) fn new(tag: u64) -> (r: Self)
        ensures
            r.tag_spec() == tag,
            r.grids_spec() == Seq::<AbstractGrid>::empty(),
    {
        AbstractGridGroup { tag, grids: Vec::new() }
    }

    pub fn tag(&self) -> (r: u64)
        ensures
            r == self.tag_spec(),
    {
        self.tag
    }

    pub fn len(&self) -> (r: usize)
        ensures
            r == self.grids_spec().len(),
    {
        self.grids.len()
    }

    /// Adds a grid; its identifier is the next free index of this group.
    pub fn register(&mut self, grid: AbstractGrid) -> (r: AbstractGridID)
        requires
            old(self).grids_spec().len() < u64::MAX,
        ensures
            final(self).tag_spec() == old(self).tag_spec(),
            final(self).grids_spec() == old(self).grids_spec().push(grid),
            r == (AbstractGridID { group: old(self).tag_spec(), index: old(self).grids_spec().len() as u64 }),
            final(self).owns(r),
    {
        let index = self.grids.len() as u64;
        self.grids.push(grid);
        AbstractGridID { group: self.tag, index }
    }

    /// The descriptor of `id`, or `UnknownGridID` when this group does not own it.
    pub fn resolve(&self, id: AbstractGridID) -> (r: Result<AbstractGrid, GridError>)
        ensures
            self.owns(id) ==> r == Ok::<AbstractGrid, GridError>(self.grid_of(id)),
            !self.owns(id) ==> r == Err::<AbstractGrid, GridError>(GridError::UnknownGridID(id)),
    {
        if id.group == self.tag && id.index < self.grids.len() as u64 {
            Ok(self.grids[id.index as usize])
        } else {
            Err(GridError::UnknownGridID(id))
        }
    }

    /// Binds the group to a size: every grid of the group gets a concrete binding.
    pub fn create_concrete(&self, width: u32, height: u32) -> (r: ConcreteGridGroup)
        requires
            self.grids_spec().len() <= u64::MAX,
        ensures
            r.width == width,
            r.height == height,
            r.grids@.len() == self.grids_spec().len(),
            forall|i: int| 0 <= i < r.grids@.len() ==> r.grids@[i] == (AbstractGridID { group: self.tag_spec(), index: i as u64 }),
    {
        let mut grids: Vec<AbstractGridID> = Vec::new();
        let mut i: usize = 0;
        while i < self.grids.len()
            invariant
                i <= self.grids@.len() <= u64::MAX,
                grids@.len() == i,
                forall|j: int| 0 <= j < i ==> grids@[j] == (AbstractGridID { group: self.tag, index: j as u64 }),
            decreases self.grids@.len() - i,
        {
            grids.push(AbstractGridID { group: self.tag, index: i as u64 });
            i = i + 1;
        }
        ConcreteGridGroup { width, height, grids }
    }
}

} // verus!
