//! The kinds of edge between records, and how far a query follows each.

use vstd::prelude::*;

verus! {

/// The kinds of edge that a query can follow.
#[derive(Clone, Copy, Debug, PartialEq, Eq, Structural)]
pub enum EdgeKind {
    /// An ontology type inherits from another.
    InheritsFrom,
    /// A property type constrains its values on a data type.
    ConstrainsValuesOn,
    /// A type constrains its properties on a property type.
    ConstrainsPropertiesOn,
    /// An entity type constrains its links on an entity type.
    ConstrainsLinksOn,
    /// An entity type constrains the destinations of its links on an entity
    /// type.
    ConstrainsLinkDestinationsOn,
    /// An entity is of an entity type.
    IsOfType,
    /// A link has an entity on its left.
    HasLeftEntity,
    /// A link has an entity on its right.
    HasRightEntity,
}

/// The direction in which an edge is followed.
#[derive(Clone, Copy, Debug, PartialEq, Eq, Structural)]
pub enum Direction {
    Outgoing,
    Incoming,
}

/// How far the edges of one kind are followed, by direction.
#[derive(Clone, Copy, Debug, PartialEq, Eq, Structural)]
pub struct EdgeResolveDepths {
    pub outgoing: u8,
    pub incoming: u8,
}

impl EdgeResolveDepths {
    pub open spec fn get(self, direction: Direction) -> u8 {
        match direction {
            Direction::Outgoing => self.outgoing,
            Direction::Incoming => self.incoming,
        }
    }

    pub open spec fn with(self, direction: Direction, depth: u8) -> EdgeResolveDepths {
        match direction {
            Direction::Outgoing => EdgeResolveDepths { outgoing: depth, incoming: self.incoming },
            Direction::Incoming => EdgeResolveDepths { outgoing: self.outgoing, incoming: depth },
        }
    }
}

/// How far a query follows the edges of each kind in each direction.
#[derive(Clone, Copy, Debug, PartialEq, Eq, Structural)]
pub struct GraphResolveDepths {
    pub inherits_from: EdgeResolveDepths,
    pub constrains_values_on: EdgeResolveDepths,
    pub constrains_properties_on: EdgeResolveDepths,
    pub constrains_links_on: EdgeResolveDepths,
    pub constrains_link_destinations_on: EdgeResolveDepths,
    pub is_of_type: EdgeResolveDepths,
    pub has_left_entity: EdgeResolveDepths,
    pub has_right_entity: EdgeResolveDepths,
}

/// The number of pairs of an edge kind and a direction.
pub const SLOTS: u8 = 16;

/// The pairs of an edge kind and a direction, in the order in which a query
/// considers them.
pub open spec fn slot_spec(index: int) -> (EdgeKind, Direction) {
    let direction = if index % 2 == 0 {
        Direction::Outgoing
    } else {
        Direction::Incoming
    };
    let kind = if index / 2 == 0 {
        EdgeKind::InheritsFrom
    } else if index / 2 == 1 {
        EdgeKind::ConstrainsValuesOn
    } else if index / 2 == 2 {
        EdgeKind::ConstrainsPropertiesOn
    } else if index / 2 == 3 {
        EdgeKind::ConstrainsLinksOn
    } else if index / 2 == 4 {
        EdgeKind::ConstrainsLinkDestinationsOn
    } else if index / 2 == 5 {
        EdgeKind::IsOfType
    } else if index / 2 == 6 {
        EdgeKind::HasLeftEntity
    } else {
        EdgeKind::HasRightEntity
    };
    (kind, direction)
}

/// The pair of an edge kind and a direction at a place of the order.
pub(crate) fn slot(index: u8) -> (pair: (EdgeKind, Direction))
    requires
        index < SLOTS,
    ensures
        pair == slot_spec(index as int),
{
    let direction = if index % 2 == 0 {
        Direction::Outgoing
    } else {
        Direction::Incoming
    };
    let half = index / 2;
    let kind = if half == 0 {
        EdgeKind::InheritsFrom
    } else if half == 1 {
        EdgeKind::ConstrainsValuesOn
    } else if half == 2 {
        EdgeKind::ConstrainsPropertiesOn
    } else if half == 3 {
        EdgeKind::ConstrainsLinksOn
    } else if half == 4 {
        EdgeKind::ConstrainsLinkDestinationsOn
    } else if half == 5 {
        EdgeKind::IsOfType
    } else if half == 6 {
        EdgeKind::HasLeftEntity
    } else {
        EdgeKind::HasRightEntity
    };
    (kind, direction)
}

impl GraphResolveDepths {
    /// The depths of one kind of edge.
    pub open spec fn of_kind(self, kind: EdgeKind) -> EdgeResolveDepths {
        match kind {
            EdgeKind::InheritsFrom => self.inherits_from,
            EdgeKind::ConstrainsValuesOn => self.constrains_values_on,
            EdgeKind::ConstrainsPropertiesOn => self.constrains_properties_on,
            EdgeKind::ConstrainsLinksOn => self.constrains_links_on,
            EdgeKind::ConstrainsLinkDestinationsOn => self.constrains_link_destinations_on,
            EdgeKind::IsOfType => self.is_of_type,
            EdgeKind::HasLeftEntity => self.has_left_entity,
            EdgeKind::HasRightEntity => self.has_right_entity,
        }
    }

    /// The depths with those of one kind of edge replaced.
    pub open spec fn with_kind(self, kind: EdgeKind, depths: EdgeResolveDepths) -> GraphResolveDepths {
        match kind {
            EdgeKind::InheritsFrom => GraphResolveDepths { inherits_from: depths, ..self },
            EdgeKind::ConstrainsValuesOn => GraphResolveDepths {
                constrains_values_on: depths,
                ..self
            },
            EdgeKind::ConstrainsPropertiesOn => GraphResolveDepths {
                constrains_properties_on: depths,
                ..self
            },
            EdgeKind::ConstrainsLinksOn => GraphResolveDepths {
                constrains_links_on: depths,
                ..self
            },
            EdgeKind::ConstrainsLinkDestinationsOn => GraphResolveDepths {
                constrains_link_destinations_on: depths,
                ..self
            },
            EdgeKind::IsOfType => GraphResolveDepths { is_of_type: depths, ..self },
            EdgeKind::HasLeftEntity => GraphResolveDepths { has_left_entity: depths, ..self },
            EdgeKind::HasRightEntity => GraphResolveDepths { has_right_entity: depths, ..self },
        }
    }

    /// How far the edges of a kind are followed in a direction.
    pub open spec fn get(self, kind: EdgeKind, direction: Direction) -> u8 {
        self.of_kind(kind).get(direction)
    }

    /// The depths with that of one kind and direction replaced.
    pub open spec fn with(self, kind: EdgeKind, direction: Direction, depth: u8) -> GraphResolveDepths {
        self.with_kind(kind, self.of_kind(kind).with(direction, depth))
    }

    /// The depths that are left after an edge of a kind has been followed in
    /// a direction: one less for that kind and direction, the same for
    /// every other.
    pub open spec fn after(self, kind: EdgeKind, direction: Direction) -> GraphResolveDepths {
        self.with(kind, direction, (self.get(kind, direction) - 1) as u8)
    }

    /// The depths under which no edge is followed.
    pub open spec fn none() -> GraphResolveDepths {
        let zero = EdgeResolveDepths { outgoing: 0, incoming: 0 };
        GraphResolveDepths {
            inherits_from: zero,
            constrains_values_on: zero,
            constrains_properties_on: zero,
            constrains_links_on: zero,
            constrains_link_destinations_on: zero,
            is_of_type: zero,
            has_left_entity: zero,
            has_right_entity: zero,
        }
    }

    /// The depths under which no edge is followed.
    pub fn zero() -> (depths: GraphResolveDepths)
        ensures
            depths == Self::none(),
    {
        let zero = EdgeResolveDepths { outgoing: 0, incoming: 0 };
        GraphResolveDepths {
            inherits_from: zero,
            constrains_values_on: zero,
            constrains_properties_on: zero,
            constrains_links_on: zero,
            constrains_link_destinations_on: zero,
            is_of_type: zero,
            has_left_entity: zero,
            has_right_entity: zero,
        }
    }

    fn kind_depths(&self, kind: EdgeKind) -> (depths: EdgeResolveDepths)
        ensures
            depths == self.of_kind(kind),
    {
        match kind {
            EdgeKind::InheritsFrom => self.inherits_from,
            EdgeKind::ConstrainsValuesOn => self.constrains_values_on,
            EdgeKind::ConstrainsPropertiesOn => self.constrains_properties_on,
            EdgeKind::ConstrainsLinksOn => self.constrains_links_on,
            EdgeKind::ConstrainsLinkDestinationsOn => self.constrains_link_destinations_on,
            EdgeKind::IsOfType => self.is_of_type,
            EdgeKind::HasLeftEntity => self.has_left_entity,
            EdgeKind::HasRightEntity => self.has_right_entity,
        }
    }

    /// How far the edges of a kind are followed in a direction.
    pub fn depth(&self, kind: EdgeKind, direction: Direction) -> (depth: u8)
        ensures
            depth == self.get(kind, direction),
    {
        let depths = self.kind_depths(kind);
        match direction {
            Direction::Outgoing => depths.outgoing,
            Direction::Incoming => depths.incoming,
        }
    }

    /// The depths with that of one kind and direction replaced.
    pub fn set(&self, kind: EdgeKind, direction: Direction, depth: u8) -> (depths:
        GraphResolveDepths)
        ensures
            depths == self.with(kind, direction, depth),
    {
        let old = self.kind_depths(kind);
        let new = match direction {
            Direction::Outgoing => EdgeResolveDepths { outgoing: depth, incoming: old.incoming },
            Direction::Incoming => EdgeResolveDepths { outgoing: old.outgoing, incoming: depth },
        };
        let mut depths = *self;
        match kind {
            EdgeKind::InheritsFrom => {
                depths.inherits_from = new;
            },
            EdgeKind::ConstrainsValuesOn => {
                depths.constrains_values_on = new;
            },
            EdgeKind::ConstrainsPropertiesOn => {
                depths.constrains_properties_on = new;
            },
            EdgeKind::ConstrainsLinksOn => {
                depths.constrains_links_on = new;
            },
            EdgeKind::ConstrainsLinkDestinationsOn => {
                depths.constrains_link_destinations_on = new;
            },
            EdgeKind::IsOfType => {
                depths.is_of_type = new;
            },
            EdgeKind::HasLeftEntity => {
                depths.has_left_entity = new;
            },
            EdgeKind::HasRightEntity => {
                depths.has_right_entity = new;
            },
        }
        depths
    }

    /// The depths that are left after an edge of a kind has been followed in
    /// a direction.
    pub(crate) fn decrement(&self, kind: EdgeKind, direction: Direction) -> (depths: GraphResolveDepths)
        requires
            self.get(kind, direction) > 0,
        ensures
            depths == self.after(kind, direction),
    {
        self.set(kind, direction, self.depth(kind, direction) - 1)
    }
}

} // verus!
