//! Resource currencies: the kinds of resources a player can own, the kinds of
//! resource tokens that sit on played cards, and the cost classes a card can be
//! paid in.
use vstd::prelude::*;

verus! {

/// A resource token bound to a specific played card, distinct from a player's
/// general resource pool.
#[derive(Clone, Copy, Debug, PartialEq, Eq, Structural)]
pub enum CardResource {
    Microbe,
    Plant,
    Animal,
    Science,
    Fighter,
}

/// A currency in a player's general resource pool.
#[derive(Clone, Copy, Debug, PartialEq, Eq, Structural)]
pub enum Resource {
    Megacredits,
    Steel,
    Titanium,
    Plants,
    Energy,
    Heat,
}

/// The cost class of a card or action: plain megacredits, or a class that may
/// be partly paid with a discounted metal (steel for `Building`, titanium for
/// `Space`), or a plain resource payment.
#[derive(Clone, Copy, Debug, PartialEq, Eq, Structural)]
pub enum PaymentCost {
    Megacredits(usize),
    Space(usize),
    Building(usize),
    SpaceOrBuilding(usize),
    Steel(usize),
    Titanium(usize),
    Plants(usize),
    Energy(usize),
    Heat(usize),
}

impl DeepView for CardResource {
    type V = CardResource;

    open spec fn deep_view(&self) -> CardResource {
        *self
    }
}

impl DeepView for Resource {
    type V = Resource;

    open spec fn deep_view(&self) -> Resource {
        *self
    }
}

impl DeepView for PaymentCost {
    type V = PaymentCost;

    open spec fn deep_view(&self) -> PaymentCost {
        *self
    }
}

/// A player's balance in every currency. Balances are unsigned, so a balance
/// can never go negative.
#[derive(Clone, Copy, Debug, PartialEq, Eq, Structural)]
pub struct ResourceBank {
    pub megacredits: usize,
    pub steel: usize,
    pub titanium: usize,
    pub plants: usize,
    pub energy: usize,
    pub heat: usize,
}

impl DeepView for ResourceBank {
    type V = ResourceBank;

    open spec fn deep_view(&self) -> ResourceBank {
        *self
    }
}

impl ResourceBank {
    /// The balance of one currency.
    pub open spec fn spec_get(&self, r: Resource) -> usize {
        match r {
            Resource::Megacredits => self.megacredits,
            Resource::Steel => self.steel,
            Resource::Titanium => self.titanium,
            Resource::Plants => self.plants,
            Resource::Energy => self.energy,
            Resource::Heat => self.heat,
        }
    }

    /// The bank with the balance of one currency replaced.
    pub open spec fn spec_with(&self, r: Resource, v: usize) -> ResourceBank {
        match r {
            Resource::Megacredits => ResourceBank { megacredits: v, ..*self },
            Resource::Steel => ResourceBank { steel: v, ..*self },
            Resource::Titanium => ResourceBank { titanium: v, ..*self },
            Resource::Plants => ResourceBank { plants: v, ..*self },
            Resource::Energy => ResourceBank { energy: v, ..*self },
            Resource::Heat => ResourceBank { heat: v, ..*self },
        }
    }

    /// An empty bank.
    pub fn zero() -> (r: ResourceBank)
        ensures
            r == (ResourceBank { megacredits: 0, steel: 0, titanium: 0, plants: 0, energy: 0, heat: 0 }),
    {
        ResourceBank { megacredits: 0, steel: 0, titanium: 0, plants: 0, energy: 0, heat: 0 }
    }

    #[verifier::when_used_as_spec(spec_get)]
    pub fn get(&self, r: Resource) -> (v: usize)
        ensures
            v == self.spec_get(r),
    {
        match r {
            Resource::Megacredits => self.megacredits,
            Resource::Steel => self.steel,
            Resource::Titanium => self.titanium,
            Resource::Plants => self.plants,
            Resource::Energy => self.energy,
            Resource::Heat => self.heat,
        }
    }

    /// Replaces the balance of one currency.
    pub fn set(&mut self, r: Resource, v: usize)
        ensures
            *final(self) == old(self).spec_with(r, v),
    {
        match r {
            Resource::Megacredits => self.megacredits = v,
            Resource::Steel => self.steel = v,
            Resource::Titanium => self.titanium = v,
            Resource::Plants => self.plants = v,
            Resource::Energy => self.energy = v,
            Resource::Heat => self.heat = v,
        }
    }
}

/// A player's per-generation recurring gain or loss rate in every currency.
/// Only megacredit production may be negative; the floor is enforced by
/// `PlayerState`'s well-formedness condition, not by this type.
#[derive(Clone, Copy, Debug, PartialEq, Eq, Structural)]
pub struct ProductionLevels {
    pub megacredits: isize,
    pub steel: isize,
    pub titanium: isize,
    pub plants: isize,
    pub energy: isize,
    pub heat: isize,
}

impl DeepView for ProductionLevels {
    type V = ProductionLevels;

    open spec fn deep_view(&self) -> ProductionLevels {
        *self
    }
}

impl ProductionLevels {
    /// The production level for one currency.
    pub open spec fn spec_get(&self, r: Resource) -> isize {
        match r {
            Resource::Megacredits => self.megacredits,
            Resource::Steel => self.steel,
            Resource::Titanium => self.titanium,
            Resource::Plants => self.plants,
            Resource::Energy => self.energy,
            Resource::Heat => self.heat,
        }
    }

    /// The levels with the production of one currency replaced.
    pub open spec fn spec_with(&self, r: Resource, v: isize) -> ProductionLevels {
        match r {
            Resource::Megacredits => ProductionLevels { megacredits: v, ..*self },
            Resource::Steel => ProductionLevels { steel: v, ..*self },
            Resource::Titanium => ProductionLevels { titanium: v, ..*self },
            Resource::Plants => ProductionLevels { plants: v, ..*self },
            Resource::Energy => ProductionLevels { energy: v, ..*self },
            Resource::Heat => ProductionLevels { heat: v, ..*self },
        }
    }

    /// All levels zero.
    pub fn zero() -> (r: ProductionLevels)
        ensures
            r == (ProductionLevels { megacredits: 0, steel: 0, titanium: 0, plants: 0, energy: 0, heat: 0 }),
    {
        ProductionLevels { megacredits: 0, steel: 0, titanium: 0, plants: 0, energy: 0, heat: 0 }
    }

    #[verifier::when_used_as_spec(spec_get)]
    pub fn get(&self, r: Resource) -> (v: isize)
        ensures
            v == self.spec_get(r),
    {
        match r {
            Resource::Megacredits => self.megacredits,
            Resource::Steel => self.steel,
            Resource::Titanium => self.titanium,
            Resource::Plants => self.plants,
            Resource::Energy => self.energy,
            Resource::Heat => self.heat,
        }
    }

    /// Replaces the production level for one currency.
    pub fn set(&mut self, r: Resource, v: isize)
        ensures
            *final(self) == old(self).spec_with(r, v),
    {
        match r {
            Resource::Megacredits => self.megacredits = v,
            Resource::Steel => self.steel = v,
            Resource::Titanium => self.titanium = v,
            Resource::Plants => self.plants = v,
            Resource::Energy => self.energy = v,
            Resource::Heat => self.heat = v,
        }
    }
}

} // verus!
