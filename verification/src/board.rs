//! Board geometry and shared board state: hex coordinates with bounds and
//! neighbor enumeration, per-space static metadata, and the mutable occupancy
//! indexes for cities, oceans, greeneries and special tiles.
use vstd::prelude::*;

use crate::card::{dup_impact, CityKind, ImmediateImpact, ImmediateImpactView, LocationRestriction, SpecialLocation, SpecialTile};
use crate::game::PlayerState;
use crate::resource::Resource;
use crate::game::PlayerId;

verus! {

/// Smallest x coordinate on the board (bottom-left edge).
pub const BOUNDS_MIN_X: isize = 0;

/// Largest x coordinate on the board.
pub const BOUNDS_MAX_X: isize = 8;

/// Smallest y coordinate on the board.
pub const BOUNDS_MIN_Y: isize = -8;

/// Largest y coordinate on the board (top-left edge).
pub const BOUNDS_MAX_Y: isize = 0;

/// Smallest derived z coordinate on the board.
pub const BOUNDS_MIN_Z: isize = -4;

/// Largest derived z coordinate on the board.
pub const BOUNDS_MAX_Z: isize = 4;

/// A point on the hex grid in the implicit three-axis "cube" coordinate
/// system; every point satisfies x + y + z = 0, and the z coordinate is
/// dropped since it is implicitly z = -(x + y).
///
/// (0, 0) is the left-most hex of the center row; x increases to the
/// top-right, y increases to the top-left, z increases downward.
#[derive(Clone, Copy, Debug, PartialEq, Eq, Structural)]
pub struct Coordinates {
    pub x: isize,
    pub y: isize,
}

impl DeepView for Coordinates {
    type V = Coordinates;

    open spec fn deep_view(&self) -> Coordinates {
        *self
    }
}

impl Coordinates {
    /// The derived third axis, as unbounded arithmetic.
    pub open spec fn spec_z(&self) -> int {
        -(self.x + self.y)
    }

    /// Whether x, y and the derived z each lie within the fixed board bounds.
    pub open spec fn spec_in_bounds(&self) -> bool {
        &&& BOUNDS_MIN_X <= self.x <= BOUNDS_MAX_X
        &&& BOUNDS_MIN_Y <= self.y <= BOUNDS_MAX_Y
        &&& BOUNDS_MIN_Z <= self.spec_z() <= BOUNDS_MAX_Z
    }

    pub fn new(x: isize, y: isize) -> (r: Coordinates)
        ensures
            r == (Coordinates { x, y }),
    {
        Coordinates { x, y }
    }

    /// The derived third axis z = -(x + y).
    pub fn get_z(&self) -> (z: isize)
        requires
            isize::MIN < self.x + self.y <= isize::MAX,
        ensures
            z == self.spec_z(),
    {
        -(self.x + self.y)
    }

    /// True iff the point lies between all six board edges.
    pub fn is_in_bounds(&self) -> (r: bool)
        ensures
            r == self.spec_in_bounds(),
    {
        // Check the x and y ranges first; z is then small enough to derive
        // without overflow.
        let within_x = self.x >= BOUNDS_MIN_X && self.x <= BOUNDS_MAX_X;
        let within_y = self.y >= BOUNDS_MIN_Y && self.y <= BOUNDS_MAX_Y;
        if within_x && within_y {
            let z = self.get_z();
            z >= BOUNDS_MIN_Z && z <= BOUNDS_MAX_Z
        } else {
            false
        }
    }

    /// The neighbor candidate reached by one directional offset.
    pub open spec fn spec_offset(&self, dx: int, dy: int) -> Coordinates {
        Coordinates { x: (self.x + dx) as isize, y: (self.y + dy) as isize }
    }

    /// The in-bounds neighbors, in candidate order.
    pub open spec fn spec_neighbors(&self) -> Seq<Coordinates> {
        keep_in_bounds(self.spec_offset(1, -1)) + keep_in_bounds(self.spec_offset(0, -1))
            + keep_in_bounds(self.spec_offset(-1, 0)) + keep_in_bounds(self.spec_offset(-1, 1))
            + keep_in_bounds(self.spec_offset(0, 1)) + keep_in_bounds(self.spec_offset(1, 0))
    }

    /// The up-to-six neighboring points that lie within the board bounds,
    /// clockwise starting from the right neighbor. Callers may depend on the
    /// order for deterministic iteration.
    pub fn neighbors_within_bounds(&self) -> (r: Vec<Coordinates>)
        requires
            self.spec_in_bounds(),
        ensures
            r@ == self.spec_neighbors(),
    {
        let mut r: Vec<Coordinates> = Vec::new();
        let c0 = Coordinates { x: self.x + 1, y: self.y - 1 };
        if c0.is_in_bounds() {
            r.push(c0);
        }
        let c1 = Coordinates { x: self.x, y: self.y - 1 };
        if c1.is_in_bounds() {
            r.push(c1);
        }
        let c2 = Coordinates { x: self.x - 1, y: self.y };
        if c2.is_in_bounds() {
            r.push(c2);
        }
        let c3 = Coordinates { x: self.x - 1, y: self.y + 1 };
        if c3.is_in_bounds() {
            r.push(c3);
        }
        let c4 = Coordinates { x: self.x, y: self.y + 1 };
        if c4.is_in_bounds() {
            r.push(c4);
        }
        let c5 = Coordinates { x: self.x + 1, y: self.y };
        if c5.is_in_bounds() {
            r.push(c5);
        }
        proof {
            assert(c0 == self.spec_offset(1, -1));
            assert(c1 == self.spec_offset(0, -1));
            assert(c2 == self.spec_offset(-1, 0));
            assert(c3 == self.spec_offset(-1, 1));
            assert(c4 == self.spec_offset(0, 1));
            assert(c5 == self.spec_offset(1, 0));
            assert(r@ =~= self.spec_neighbors());
        }
        r
    }
}

/// The singleton sequence of a candidate if it is in bounds, else empty.
pub open spec fn keep_in_bounds(c: Coordinates) -> Seq<Coordinates> {
    if c.spec_in_bounds() {
        seq![c]
    } else {
        Seq::empty()
    }
}

/// A place a tile can occupy: a hex on Mars, or a named off-board location.
#[derive(Clone, Copy, Debug, PartialEq, Eq, Structural)]
pub enum TileLocation {
    OnMars(Coordinates),
    OffMars(SpecialLocation),
}

impl DeepView for TileLocation {
    type V = TileLocation;

    open spec fn deep_view(&self) -> TileLocation {
        *self
    }
}

impl TileLocation {
    /// Whether a location names a hex inside the board bounds, or an
    /// off-board location (which is always well-formed).
    pub open spec fn spec_wf(&self) -> bool {
        match *self {
            TileLocation::OnMars(c) => c.spec_in_bounds(),
            TileLocation::OffMars(_) => true,
        }
    }

    /// The neighboring locations: the coordinate neighbors when on Mars, and
    /// nothing when off Mars.
    pub open spec fn spec_neighbors(&self) -> Seq<TileLocation> {
        match *self {
            TileLocation::OnMars(c) => c.spec_neighbors().map_values(|n: Coordinates| TileLocation::OnMars(n)),
            TileLocation::OffMars(_) => Seq::empty(),
        }
    }

    /// The neighboring locations within bounds; an off-board location has no
    /// neighbors.
    pub fn neighbors_within_bounds(&self) -> (r: Vec<TileLocation>)
        requires
            self.spec_wf(),
        ensures
            r@ == self.spec_neighbors(),
    {
        match self {
            TileLocation::OnMars(coord) => {
                let ns = coord.neighbors_within_bounds();
                let mut r: Vec<TileLocation> = Vec::new();
                let n = ns.len();
                for i in 0..n
                    invariant
                        n == ns@.len(),
                        ns@ == coord.spec_neighbors(),
                        r@ == ns@.map_values(|c: Coordinates| TileLocation::OnMars(c)).subrange(0, i as int),
                {
                    r.push(TileLocation::OnMars(ns[i]));
                    proof {
                        assert(r@ =~= ns@.map_values(|c: Coordinates| TileLocation::OnMars(c)).subrange(0, i as int + 1));
                    }
                }
                proof {
                    assert(r@ =~= ns@.map_values(|c: Coordinates| TileLocation::OnMars(c)));
                }
                r
            }
            TileLocation::OffMars(_) => Vec::new(),
        }
    }
}

/// A location known to hold no tile, as witnessed when it was inspected.
#[derive(Clone, Copy, Debug, PartialEq, Eq, Structural)]
pub struct EmptyLocation {
    pub loc: TileLocation,
}

impl DeepView for EmptyLocation {
    type V = EmptyLocation;

    open spec fn deep_view(&self) -> EmptyLocation {
        *self
    }
}

impl EmptyLocation {
    /// The underlying location.
    pub open spec fn spec_loc(&self) -> TileLocation {
        self.loc
    }

    /// Wraps a location.
    pub fn from_location(location: TileLocation) -> (r: EmptyLocation)
        ensures
            r.spec_loc() == location,
    {
        EmptyLocation { loc: location }
    }

    /// Unwraps the location.
    pub fn location(&self) -> (r: TileLocation)
        ensures
            r == self.spec_loc(),
    {
        self.loc
    }
}

/// The derived, read-only status of one location.
#[derive(Clone, Copy, Debug, PartialEq, Eq, Structural)]
pub enum TileStatus {
    Empty(EmptyLocation),
    Ocean(TileLocation),
    City(TileLocation, CityKind, PlayerId),
    Greenery(TileLocation, PlayerId),
    SpecialTile(TileLocation, SpecialTile, PlayerId),
}

impl DeepView for TileStatus {
    type V = TileStatus;

    open spec fn deep_view(&self) -> TileStatus {
        *self
    }
}

/// A static property of a board space.
#[derive(Clone, Copy, Debug, PartialEq, Eq, Structural)]
pub enum Designation {
    Land,
    ReservedForOcean,
    VolcanicArea,
    NonMarsTile,
    Special(SpecialLocation),
}

impl DeepView for Designation {
    type V = Designation;

    open spec fn deep_view(&self) -> Designation {
        *self
    }
}

/// Static per-location metadata: an optional display name, the location, its
/// designations, and the bonuses granted when something is first placed there.
#[derive(Clone, Debug, PartialEq, Eq)]
pub struct BoardSpace {
    pub name: Option<String>,
    pub location: TileLocation,
    pub designations: Vec<Designation>,
    pub placement_bonus: Vec<ImmediateImpact>,
}

impl BoardSpace {
    /// Whether the space carries the given designation.
    pub open spec fn spec_has_designation(&self, d: Designation) -> bool {
        self.designations@.contains(d)
    }

    /// Whether the space is designated land.
    pub open spec fn spec_is_land(&self) -> bool {
        self.spec_has_designation(Designation::Land)
    }

    /// Whether the space is designated as reserved for an ocean.
    pub open spec fn spec_is_reserved_for_ocean(&self) -> bool {
        self.spec_has_designation(Designation::ReservedForOcean)
    }

    pub fn new(
        name: Option<String>,
        location: TileLocation,
        designations: Vec<Designation>,
        placement_bonus: Vec<ImmediateImpact>,
    ) -> (r: BoardSpace)
        ensures
            r == (BoardSpace { name, location, designations, placement_bonus }),
    {
        BoardSpace { name, location, designations, placement_bonus }
    }

    /// An unnamed space on Mars.
    pub fn new_on_mars(
        mars_coordinates: Coordinates,
        designations: Vec<Designation>,
        placement_bonus: Vec<ImmediateImpact>,
    ) -> (r: BoardSpace)
        ensures
            r == (BoardSpace {
                name: None,
                location: TileLocation::OnMars(mars_coordinates),
                designations,
                placement_bonus,
            }),
    {
        BoardSpace::new(None, TileLocation::OnMars(mars_coordinates), designations, placement_bonus)
    }

    /// An unnamed land space on Mars.
    pub fn new_land_on_mars(
        mars_coordinates: Coordinates,
        placement_bonus: Vec<ImmediateImpact>,
    ) -> (r: BoardSpace)
        ensures
            r.name is None,
            r.location == TileLocation::OnMars(mars_coordinates),
            r.designations@ == seq![Designation::Land],
            r.placement_bonus == placement_bonus,
    {
        let mut designations: Vec<Designation> = Vec::new();
        designations.push(Designation::Land);
        proof {
            assert(designations@ =~= seq![Designation::Land]);
        }
        BoardSpace::new_on_mars(mars_coordinates, designations, placement_bonus)
    }

    /// An unnamed land space on Mars without a placement bonus.
    pub fn new_non_bonus_land_on_mars(mars_coordinates: Coordinates) -> (r: BoardSpace)
        ensures
            r.name is None,
            r.location == TileLocation::OnMars(mars_coordinates),
            r.designations@ == seq![Designation::Land],
            r.placement_bonus@.len() == 0,
    {
        BoardSpace::new_land_on_mars(mars_coordinates, Vec::new())
    }

    /// An unnamed land space on Mars granting a resource bonus.
    pub fn new_resource_bonus_land_on_mars(
        mars_coordinates: Coordinates,
        resource: Resource,
        count: usize,
    ) -> (r: BoardSpace)
        ensures
            r.name is None,
            r.location == TileLocation::OnMars(mars_coordinates),
            r.designations@ == seq![Designation::Land],
            r.placement_bonus.deep_view() == seq![ImmediateImpactView::GainResource(resource, count)],
    {
        let mut bonus: Vec<ImmediateImpact> = Vec::new();
        bonus.push(ImmediateImpact::GainResource(resource, count));
        proof {
            assert(bonus.deep_view() =~= seq![ImmediateImpactView::GainResource(resource, count)]);
        }
        BoardSpace::new_land_on_mars(mars_coordinates, bonus)
    }

    /// An unnamed land space on Mars granting a card draw.
    pub fn new_card_draw_land_on_mars(
        mars_coordinates: Coordinates,
        card_count: usize,
    ) -> (r: BoardSpace)
        ensures
            r.name is None,
            r.location == TileLocation::OnMars(mars_coordinates),
            r.designations@ == seq![Designation::Land],
            r.placement_bonus.deep_view() == seq![ImmediateImpactView::DrawCard(card_count)],
    {
        let mut bonus: Vec<ImmediateImpact> = Vec::new();
        bonus.push(ImmediateImpact::DrawCard(card_count));
        proof {
            assert(bonus.deep_view() =~= seq![ImmediateImpactView::DrawCard(card_count)]);
        }
        BoardSpace::new_land_on_mars(mars_coordinates, bonus)
    }

    /// An unnamed ocean-reserved space on Mars.
    pub fn new_ocean_on_mars(
        mars_coordinates: Coordinates,
        placement_bonus: Vec<ImmediateImpact>,
    ) -> (r: BoardSpace)
        ensures
            r.name is None,
            r.location == TileLocation::OnMars(mars_coordinates),
            r.designations@ == seq![Designation::ReservedForOcean],
            r.placement_bonus == placement_bonus,
    {
        let mut designations: Vec<Designation> = Vec::new();
        designations.push(Designation::ReservedForOcean);
        proof {
            assert(designations@ =~= seq![Designation::ReservedForOcean]);
        }
        BoardSpace::new(None, TileLocation::OnMars(mars_coordinates), designations, placement_bonus)
    }

    /// An unnamed ocean-reserved space on Mars granting a resource bonus.
    pub fn new_resource_bonus_ocean_on_mars(
        mars_coordinates: Coordinates,
        resource: Resource,
        count: usize,
    ) -> (r: BoardSpace)
        ensures
            r.name is None,
            r.location == TileLocation::OnMars(mars_coordinates),
            r.designations@ == seq![Designation::ReservedForOcean],
            r.placement_bonus.deep_view() == seq![ImmediateImpactView::GainResource(resource, count)],
    {
        let mut bonus: Vec<ImmediateImpact> = Vec::new();
        bonus.push(ImmediateImpact::GainResource(resource, count));
        proof {
            assert(bonus.deep_view() =~= seq![ImmediateImpactView::GainResource(resource, count)]);
        }
        BoardSpace::new_ocean_on_mars(mars_coordinates, bonus)
    }

    /// An unnamed ocean-reserved space on Mars granting a card draw.
    pub fn new_card_draw_ocean_on_mars(
        mars_coordinates: Coordinates,
        card_count: usize,
    ) -> (r: BoardSpace)
        ensures
            r.name is None,
            r.location == TileLocation::OnMars(mars_coordinates),
            r.designations@ == seq![Designation::ReservedForOcean],
            r.placement_bonus.deep_view() == seq![ImmediateImpactView::DrawCard(card_count)],
    {
        let mut bonus: Vec<ImmediateImpact> = Vec::new();
        bonus.push(ImmediateImpact::DrawCard(card_count));
        proof {
            assert(bonus.deep_view() =~= seq![ImmediateImpactView::DrawCard(card_count)]);
        }
        BoardSpace::new_ocean_on_mars(mars_coordinates, bonus)
    }

    /// True iff the space is designated land.
    pub fn is_land(&self) -> (r: bool)
        ensures
            r == self.spec_is_land(),
    {
        self.has_designation(Designation::Land)
    }

    /// True iff the space is designated as reserved for an ocean.
    pub fn is_reserved_for_ocean(&self) -> (r: bool)
        ensures
            r == self.spec_is_reserved_for_ocean(),
    {
        self.has_designation(Designation::ReservedForOcean)
    }

    /// True iff some placement bonus of the space grants steel or titanium.
    pub fn has_metal_placement_bonus(&self) -> (r: bool)
        ensures
            r == exists|i: int|
                0 <= i < self.placement_bonus@.len() && is_metal_gain(#[trigger] self.placement_bonus@[i]),
    {
        let n = self.placement_bonus.len();
        for i in 0..n
            invariant
                n == self.placement_bonus@.len(),
                forall|j: int| 0 <= j < i ==> !is_metal_gain(#[trigger] self.placement_bonus@[j]),
        {
            let found = match &self.placement_bonus[i] {
                ImmediateImpact::GainResource(Resource::Steel, _) => true,
                ImmediateImpact::GainResource(Resource::Titanium, _) => true,
                _ => false,
            };
            if found {
                return true;
            }
        }
        false
    }

    /// True iff the space carries the given designation.
    pub fn has_designation(&self, d: Designation) -> (r: bool)
        ensures
            r == self.spec_has_designation(d),
    {
        let n = self.designations.len();
        for i in 0..n
            invariant
                n == self.designations@.len(),
                forall|j: int| 0 <= j < i ==> self.designations@[j] != d,
        {
            if self.designations[i] == d {
                return true;
            }
        }
        false
    }
}

/// The specification-level mirror of [`BoardSpace`].
pub struct BoardSpaceView {
    pub name: Option<Seq<char>>,
    pub location: TileLocation,
    pub designations: Seq<Designation>,
    pub placement_bonus: Seq<ImmediateImpactView>,
}

impl DeepView for BoardSpace {
    type V = BoardSpaceView;

    open spec fn deep_view(&self) -> BoardSpaceView {
        BoardSpaceView {
            name: self.name.deep_view(),
            location: self.location,
            designations: self.designations.deep_view(),
            placement_bonus: self.placement_bonus.deep_view(),
        }
    }
}

/// The specification-level mirror of [`MarsBoard`].
pub struct MarsBoardView {
    pub board_name: Seq<char>,
    pub spaces: Seq<BoardSpaceView>,
    pub cities: Seq<(TileLocation, CityKind, PlayerId)>,
    pub oceans: Seq<Coordinates>,
    pub greeneries: Seq<(Coordinates, PlayerId)>,
    pub special_tiles: Seq<(Coordinates, SpecialTile, PlayerId)>,
    pub oxygen: usize,
    pub temperature: isize,
}

impl DeepView for MarsBoard {
    type V = MarsBoardView;

    open spec fn deep_view(&self) -> MarsBoardView {
        MarsBoardView {
            board_name: self.board_name.deep_view(),
            spaces: self.spaces.deep_view(),
            cities: self.cities.deep_view(),
            oceans: self.oceans.deep_view(),
            greeneries: self.greeneries.deep_view(),
            special_tiles: self.special_tiles.deep_view(),
            oxygen: self.oxygen,
            temperature: self.temperature,
        }
    }
}

/// Makes a copy of a board space with the same deep view.
pub fn dup_board_space(sp: &BoardSpace) -> (r: BoardSpace)
    ensures
        r.deep_view() == sp.deep_view(),
{
    let name = match &sp.name {
        Some(n) => Some(n.clone()),
        None => None,
    };
    BoardSpace {
        name,
        location: sp.location,
        designations: crate::card::dup_copy_vec(&sp.designations),
        placement_bonus: crate::card::dup_impacts(&sp.placement_bonus),
    }
}

/// Makes a copy of a space list with the same deep view.
pub fn dup_board_spaces(v: &Vec<BoardSpace>) -> (r: Vec<BoardSpace>)
    ensures
        r.deep_view() == v.deep_view(),
{
    let mut r: Vec<BoardSpace> = Vec::new();
    let n = v.len();
    for i in 0..n
        invariant
            n == v@.len(),
            r.deep_view() == v.deep_view().subrange(0, i as int),
    {
        let d = dup_board_space(&v[i]);
        let ghost prev = r.deep_view();
        r.push(d);
        proof {
            assert(prev.len() == i as int);
            assert(r@.len() == i as int + 1);
            assert(r@[i as int] == d);
            assert forall|j: int| 0 <= j <= i implies
                r.deep_view()[j] == v.deep_view().subrange(0, i as int + 1)[j] by {
                if j < i {
                    assert(r.deep_view()[j] == prev[j]);
                } else {
                    assert(r@[j] == d);
                }
            }
            assert(r.deep_view() =~= v.deep_view().subrange(0, i as int + 1));
        }
    }
    proof {
        assert(r.deep_view() =~= v.deep_view());
    }
    r
}

/// Makes a copy of the whole board with the same deep view.
pub fn dup_board(b: &MarsBoard) -> (r: MarsBoard)
    ensures
        r.deep_view() == b.deep_view(),
        b.wf() ==> r.wf(),
{
    let r = MarsBoard {
        board_name: b.board_name.clone(),
        spaces: dup_board_spaces(&b.spaces),
        cities: crate::card::dup_copy_vec(&b.cities),
        oceans: crate::card::dup_copy_vec(&b.oceans),
        greeneries: crate::card::dup_copy_vec(&b.greeneries),
        special_tiles: crate::card::dup_copy_vec(&b.special_tiles),
        oxygen: b.oxygen,
        temperature: b.temperature,
    };
    proof {
        assert(r.cities.deep_view() =~= b.cities.deep_view());
        assert(r.oceans.deep_view() =~= b.oceans.deep_view());
        assert(r.greeneries.deep_view() =~= b.greeneries.deep_view());
        assert(r.special_tiles.deep_view() =~= b.special_tiles.deep_view());
    }
    r
}

/// Whether an impact grants steel or titanium.
pub open spec fn is_metal_gain(i: ImmediateImpact) -> bool {
    ||| i matches ImmediateImpact::GainResource(Resource::Steel, _)
    ||| i matches ImmediateImpact::GainResource(Resource::Titanium, _)
}

/// The largest oxygen level.
pub const MAX_OXYGEN: usize = 14;

/// The coldest temperature.
pub const MIN_TEMPERATURE: isize = -30;

/// The warmest temperature.
pub const MAX_TEMPERATURE: isize = 8;

/// The fixed temperature increment.
pub const TEMPERATURE_STEP: isize = 2;

/// The largest number of ocean tiles.
pub const MAX_OCEANS: usize = 9;

/// Extra megacredits granted per adjacent ocean when a tile is placed.
pub const OCEAN_ADJACENCY_MEGACREDITS: usize = 2;

/// The first city entry for a location, searched front to back.
pub open spec fn find_city_in(
    s: Seq<(TileLocation, CityKind, PlayerId)>,
    loc: TileLocation,
) -> Option<(CityKind, PlayerId)>
    decreases s.len(),
{
    if s.len() == 0 {
        None
    } else if s[0].0 == loc {
        Some((s[0].1, s[0].2))
    } else {
        find_city_in(s.skip(1), loc)
    }
}

/// The first greenery entry for a coordinate, searched front to back.
pub open spec fn find_greenery_in(s: Seq<(Coordinates, PlayerId)>, c: Coordinates) -> Option<
    PlayerId,
>
    decreases s.len(),
{
    if s.len() == 0 {
        None
    } else if s[0].0 == c {
        Some(s[0].1)
    } else {
        find_greenery_in(s.skip(1), c)
    }
}

/// The first special-tile entry for a coordinate, searched front to back.
pub open spec fn find_special_in(
    s: Seq<(Coordinates, SpecialTile, PlayerId)>,
    c: Coordinates,
) -> Option<(SpecialTile, PlayerId)>
    decreases s.len(),
{
    if s.len() == 0 {
        None
    } else if s[0].0 == c {
        Some((s[0].1, s[0].2))
    } else {
        find_special_in(s.skip(1), c)
    }
}

/// The first space for a location, searched front to back.
pub open spec fn find_space_in(s: Seq<BoardSpace>, loc: TileLocation) -> Option<BoardSpace>
    decreases s.len(),
{
    if s.len() == 0 {
        None
    } else if s[0].location == loc {
        Some(s[0])
    } else {
        find_space_in(s.skip(1), loc)
    }
}

/// A missing city entry means no entry carries the location.
pub proof fn lemma_find_city_none(s: Seq<(TileLocation, CityKind, PlayerId)>, loc: TileLocation)
    requires
        find_city_in(s, loc) is None,
    ensures
        forall|i: int| 0 <= i < s.len() ==> (#[trigger] s[i]).0 != loc,
    decreases s.len(),
{
    if s.len() > 0 {
        lemma_find_city_none(s.skip(1), loc);
        assert forall|i: int| 0 <= i < s.len() implies (#[trigger] s[i]).0 != loc by {
            if i > 0 {
                assert(s.skip(1)[i - 1] == s[i]);
            }
        }
    }
}

/// A missing greenery entry means no entry carries the coordinate.
pub proof fn lemma_find_greenery_none(s: Seq<(Coordinates, PlayerId)>, c: Coordinates)
    requires
        find_greenery_in(s, c) is None,
    ensures
        forall|i: int| 0 <= i < s.len() ==> (#[trigger] s[i]).0 != c,
    decreases s.len(),
{
    if s.len() > 0 {
        lemma_find_greenery_none(s.skip(1), c);
        assert forall|i: int| 0 <= i < s.len() implies (#[trigger] s[i]).0 != c by {
            if i > 0 {
                assert(s.skip(1)[i - 1] == s[i]);
            }
        }
    }
}

/// A missing special-tile entry means no entry carries the coordinate.
pub proof fn lemma_find_special_none(s: Seq<(Coordinates, SpecialTile, PlayerId)>, c: Coordinates)
    requires
        find_special_in(s, c) is None,
    ensures
        forall|i: int| 0 <= i < s.len() ==> (#[trigger] s[i]).0 != c,
    decreases s.len(),
{
    if s.len() > 0 {
        lemma_find_special_none(s.skip(1), c);
        assert forall|i: int| 0 <= i < s.len() implies (#[trigger] s[i]).0 != c by {
            if i > 0 {
                assert(s.skip(1)[i - 1] == s[i]);
            }
        }
    }
}

/// Whether a status is an ocean.
pub open spec fn is_ocean_status(st: TileStatus) -> bool {
    st matches TileStatus::Ocean(_)
}

/// Whether a status is a city.
pub open spec fn is_city_status(st: TileStatus) -> bool {
    st matches TileStatus::City(..)
}

/// Whether a status is a greenery.
pub open spec fn is_greenery_status(st: TileStatus) -> bool {
    st matches TileStatus::Greenery(..)
}

/// Whether a status is anything but empty.
pub open spec fn is_occupied_status(st: TileStatus) -> bool {
    !(st matches TileStatus::Empty(_))
}

/// Whether a status is a tile owned by the given player.
pub open spec fn is_status_owned_by(st: TileStatus, pid: PlayerId) -> bool {
    match st {
        TileStatus::City(_, _, owner) => owner == pid,
        TileStatus::Greenery(_, owner) => owner == pid,
        TileStatus::SpecialTile(_, _, owner) => owner == pid,
        _ => false,
    }
}

/// A found city entry sits at some index with the location.
pub proof fn lemma_find_city_some(s: Seq<(TileLocation, CityKind, PlayerId)>, loc: TileLocation)
    requires
        find_city_in(s, loc) is Some,
    ensures
        exists|i: int| 0 <= i < s.len() && (#[trigger] s[i]).0 == loc,
    decreases s.len(),
{
    if s.len() > 0 && s[0].0 != loc {
        lemma_find_city_some(s.skip(1), loc);
        let i = choose|i: int| 0 <= i < s.skip(1).len() && (#[trigger] s.skip(1)[i]).0 == loc;
        assert(s[i + 1] == s.skip(1)[i]);
    }
}

/// A found greenery entry sits at some index with the coordinate.
pub proof fn lemma_find_greenery_some(s: Seq<(Coordinates, PlayerId)>, c: Coordinates)
    requires
        find_greenery_in(s, c) is Some,
    ensures
        exists|i: int| 0 <= i < s.len() && (#[trigger] s[i]).0 == c,
    decreases s.len(),
{
    if s.len() > 0 && s[0].0 != c {
        lemma_find_greenery_some(s.skip(1), c);
        let i = choose|i: int| 0 <= i < s.skip(1).len() && (#[trigger] s.skip(1)[i]).0 == c;
        assert(s[i + 1] == s.skip(1)[i]);
    }
}

/// A found special-tile entry sits at some index with the coordinate.
pub proof fn lemma_find_special_some(s: Seq<(Coordinates, SpecialTile, PlayerId)>, c: Coordinates)
    requires
        find_special_in(s, c) is Some,
    ensures
        exists|i: int| 0 <= i < s.len() && (#[trigger] s[i]).0 == c,
    decreases s.len(),
{
    if s.len() > 0 && s[0].0 != c {
        lemma_find_special_some(s.skip(1), c);
        let i = choose|i: int| 0 <= i < s.skip(1).len() && (#[trigger] s.skip(1)[i]).0 == c;
        assert(s[i + 1] == s.skip(1)[i]);
    }
}

/// The exclusivity law: on a well-formed board, a hex held by one occupancy
/// index is held by no other, so no location ever carries two tiles.
pub proof fn lemma_occupancy_exclusive(b: MarsBoard, c: Coordinates)
    requires
        b.wf(),
    ensures
        find_city_in(b.cities@, TileLocation::OnMars(c)) is Some ==> !b.oceans@.contains(c)
            && find_greenery_in(b.greeneries@, c) is None && find_special_in(b.special_tiles@, c) is None,
        b.oceans@.contains(c) ==> find_city_in(b.cities@, TileLocation::OnMars(c)) is None
            && find_greenery_in(b.greeneries@, c) is None && find_special_in(b.special_tiles@, c) is None,
        find_greenery_in(b.greeneries@, c) is Some ==> find_city_in(
            b.cities@,
            TileLocation::OnMars(c),
        ) is None && !b.oceans@.contains(c) && find_special_in(b.special_tiles@, c) is None,
        find_special_in(b.special_tiles@, c) is Some ==> find_city_in(
            b.cities@,
            TileLocation::OnMars(c),
        ) is None && !b.oceans@.contains(c) && find_greenery_in(b.greeneries@, c) is None,
{
    let loc = TileLocation::OnMars(c);
    if find_city_in(b.cities@, loc) is Some {
        lemma_find_city_some(b.cities@, loc);
        if b.oceans@.contains(c) {
            assert(false);
        }
        if find_greenery_in(b.greeneries@, c) is Some {
            lemma_find_greenery_some(b.greeneries@, c);
            assert(false);
        }
        if find_special_in(b.special_tiles@, c) is Some {
            lemma_find_special_some(b.special_tiles@, c);
            assert(false);
        }
    }
    if b.oceans@.contains(c) {
        if find_greenery_in(b.greeneries@, c) is Some {
            lemma_find_greenery_some(b.greeneries@, c);
            assert(false);
        }
        if find_special_in(b.special_tiles@, c) is Some {
            lemma_find_special_some(b.special_tiles@, c);
            assert(false);
        }
    }
    if find_greenery_in(b.greeneries@, c) is Some && find_special_in(b.special_tiles@, c) is Some {
        lemma_find_greenery_some(b.greeneries@, c);
        lemma_find_special_some(b.special_tiles@, c);
        assert(false);
    }
}

/// How many statuses are oceans.
pub open spec fn count_ocean_statuses(s: Seq<TileStatus>) -> int
    decreases s.len(),
{
    if s.len() == 0 {
        0
    } else {
        (if is_ocean_status(s[0]) { 1int } else { 0int }) + count_ocean_statuses(s.skip(1))
    }
}

/// How many statuses are cities.
pub open spec fn count_city_statuses(s: Seq<TileStatus>) -> int
    decreases s.len(),
{
    if s.len() == 0 {
        0
    } else {
        (if is_city_status(s[0]) { 1int } else { 0int }) + count_city_statuses(s.skip(1))
    }
}

/// How many statuses are greeneries.
pub open spec fn count_greenery_statuses(s: Seq<TileStatus>) -> int
    decreases s.len(),
{
    if s.len() == 0 {
        0
    } else {
        (if is_greenery_status(s[0]) { 1int } else { 0int }) + count_greenery_statuses(s.skip(1))
    }
}

/// How many statuses are occupied by any tile.
pub open spec fn count_occupied_statuses(s: Seq<TileStatus>) -> int
    decreases s.len(),
{
    if s.len() == 0 {
        0
    } else {
        (if is_occupied_status(s[0]) { 1int } else { 0int }) + count_occupied_statuses(s.skip(1))
    }
}

/// How many statuses are tiles owned by the given player.
pub open spec fn count_statuses_owned_by(s: Seq<TileStatus>, pid: PlayerId) -> int
    decreases s.len(),
{
    if s.len() == 0 {
        0
    } else {
        (if is_status_owned_by(s[0], pid) { 1int } else { 0int }) + count_statuses_owned_by(s.skip(1), pid)
    }
}

/// Appending one status adds its contribution to each of the five counters.
pub proof fn lemma_status_counts_push(s: Seq<TileStatus>, x: TileStatus, pid: PlayerId)
    ensures
        count_ocean_statuses(s.push(x)) == count_ocean_statuses(s) + (if is_ocean_status(x) { 1int } else { 0int }),
        count_city_statuses(s.push(x)) == count_city_statuses(s) + (if is_city_status(x) { 1int } else { 0int }),
        count_greenery_statuses(s.push(x)) == count_greenery_statuses(s) + (if is_greenery_status(x) { 1int } else { 0int }),
        count_occupied_statuses(s.push(x)) == count_occupied_statuses(s) + (if is_occupied_status(x) { 1int } else { 0int }),
        count_statuses_owned_by(s.push(x), pid) == count_statuses_owned_by(s, pid) + (if is_status_owned_by(x, pid) { 1int } else { 0int }),
    decreases s.len(),
{
    if s.len() == 0 {
        assert(s.push(x).len() == 1);
        assert(s.push(x).skip(1) =~= Seq::<TileStatus>::empty());
        assert(count_ocean_statuses(s.push(x).skip(1)) == 0);
        assert(s.push(x)[0] == x);
        assert(count_ocean_statuses(s.push(x)) == (if is_ocean_status(x) { 1int } else { 0int }));
        assert(count_ocean_statuses(s) == 0);
        assert(count_city_statuses(s.push(x).skip(1)) == 0);
        assert(count_city_statuses(s.push(x)) == (if is_city_status(x) { 1int } else { 0int }));
        assert(count_city_statuses(s) == 0);
        assert(count_greenery_statuses(s.push(x).skip(1)) == 0);
        assert(count_greenery_statuses(s.push(x)) == (if is_greenery_status(x) { 1int } else { 0int }));
        assert(count_greenery_statuses(s) == 0);
        assert(count_occupied_statuses(s.push(x).skip(1)) == 0);
        assert(count_occupied_statuses(s.push(x)) == (if is_occupied_status(x) { 1int } else { 0int }));
        assert(count_occupied_statuses(s) == 0);
        assert(count_statuses_owned_by(s.push(x).skip(1), pid) == 0);
        assert(count_statuses_owned_by(s.push(x), pid) == (if is_status_owned_by(x, pid) { 1int } else { 0int }));
        assert(count_statuses_owned_by(s, pid) == 0);
    } else {
        lemma_status_counts_push(s.skip(1), x, pid);
        assert(s.push(x).skip(1) =~= s.skip(1).push(x));
        assert(s.push(x)[0] == s[0]);
        assert(count_ocean_statuses(s.push(x)) == (if is_ocean_status(s[0]) { 1int } else { 0int })
            + count_ocean_statuses(s.skip(1).push(x)));
        assert(count_city_statuses(s.push(x)) == (if is_city_status(s[0]) { 1int } else { 0int })
            + count_city_statuses(s.skip(1).push(x)));
        assert(count_greenery_statuses(s.push(x)) == (if is_greenery_status(s[0]) { 1int } else { 0int })
            + count_greenery_statuses(s.skip(1).push(x)));
        assert(count_occupied_statuses(s.push(x)) == (if is_occupied_status(s[0]) { 1int } else { 0int })
            + count_occupied_statuses(s.skip(1).push(x)));
        assert(count_statuses_owned_by(s.push(x), pid) == (if is_status_owned_by(s[0], pid) { 1int } else { 0int })
            + count_statuses_owned_by(s.skip(1).push(x), pid));
        assert(count_ocean_statuses(s) == (if is_ocean_status(s[0]) { 1int } else { 0int })
            + count_ocean_statuses(s.skip(1)));
        assert(count_city_statuses(s) == (if is_city_status(s[0]) { 1int } else { 0int })
            + count_city_statuses(s.skip(1)));
        assert(count_greenery_statuses(s) == (if is_greenery_status(s[0]) { 1int } else { 0int })
            + count_greenery_statuses(s.skip(1)));
        assert(count_occupied_statuses(s) == (if is_occupied_status(s[0]) { 1int } else { 0int })
            + count_occupied_statuses(s.skip(1)));
        assert(count_statuses_owned_by(s, pid) == (if is_status_owned_by(s[0], pid) { 1int } else { 0int })
            + count_statuses_owned_by(s.skip(1), pid));
    }
}

/// Each of the five counters stays between zero and the sequence length.
pub proof fn lemma_status_counts_bounds(s: Seq<TileStatus>, pid: PlayerId)
    ensures
        0 <= count_ocean_statuses(s) <= s.len(),
        0 <= count_city_statuses(s) <= s.len(),
        0 <= count_greenery_statuses(s) <= s.len(),
        0 <= count_occupied_statuses(s) <= s.len(),
        0 <= count_statuses_owned_by(s, pid) <= s.len(),
    decreases s.len(),
{
    if s.len() > 0 {
        lemma_status_counts_bounds(s.skip(1), pid);
    }
}

/// The mutable shared board: the static spaces, the four mutually exclusive
/// occupancy indexes, and the global oxygen and temperature tracks.
#[derive(Clone, Debug, PartialEq, Eq)]
pub struct MarsBoard {
    pub board_name: String,
    pub spaces: Vec<BoardSpace>,
    pub cities: Vec<(TileLocation, CityKind, PlayerId)>,
    pub oceans: Vec<Coordinates>,
    pub greeneries: Vec<(Coordinates, PlayerId)>,
    pub special_tiles: Vec<(Coordinates, SpecialTile, PlayerId)>,
    pub oxygen: usize,
    pub temperature: isize,
}

impl MarsBoard {
    /// The exclusivity invariant: within each occupancy index every location
    /// appears at most once, and no location appears in more than one of the
    /// four indexes; the global tracks stay within their ranges.
    pub open spec fn wf(&self) -> bool {
        &&& forall|i: int, j: int| 0 <= i < j < self.cities@.len()
            ==> (#[trigger] self.cities@[i]).0 != (#[trigger] self.cities@[j]).0
        &&& forall|i: int, j: int| 0 <= i < j < self.oceans@.len()
            ==> #[trigger] self.oceans@[i] != #[trigger] self.oceans@[j]
        &&& forall|i: int, j: int| 0 <= i < j < self.greeneries@.len()
            ==> (#[trigger] self.greeneries@[i]).0 != (#[trigger] self.greeneries@[j]).0
        &&& forall|i: int, j: int| 0 <= i < j < self.special_tiles@.len()
            ==> (#[trigger] self.special_tiles@[i]).0 != (#[trigger] self.special_tiles@[j]).0
        &&& forall|i: int, j: int|
            0 <= i < self.cities@.len() && 0 <= j < self.oceans@.len()
                ==> (#[trigger] self.cities@[i]).0 != TileLocation::OnMars(#[trigger] self.oceans@[j])
        &&& forall|i: int, j: int|
            0 <= i < self.cities@.len() && 0 <= j < self.greeneries@.len()
                ==> (#[trigger] self.cities@[i]).0 != TileLocation::OnMars((#[trigger] self.greeneries@[j]).0)
        &&& forall|i: int, j: int|
            0 <= i < self.cities@.len() && 0 <= j < self.special_tiles@.len()
                ==> (#[trigger] self.cities@[i]).0 != TileLocation::OnMars((#[trigger] self.special_tiles@[j]).0)
        &&& forall|i: int, j: int|
            0 <= i < self.oceans@.len() && 0 <= j < self.greeneries@.len()
                ==> #[trigger] self.oceans@[i] != (#[trigger] self.greeneries@[j]).0
        &&& forall|i: int, j: int|
            0 <= i < self.oceans@.len() && 0 <= j < self.special_tiles@.len()
                ==> #[trigger] self.oceans@[i] != (#[trigger] self.special_tiles@[j]).0
        &&& forall|i: int, j: int|
            0 <= i < self.greeneries@.len() && 0 <= j < self.special_tiles@.len()
                ==> (#[trigger] self.greeneries@[i]).0 != (#[trigger] self.special_tiles@[j]).0
        &&& forall|i: int| 0 <= i < self.cities@.len() ==> (#[trigger] self.cities@[i]).0.spec_wf()
        &&& forall|i: int| 0 <= i < self.oceans@.len() ==> (#[trigger] self.oceans@[i]).spec_in_bounds()
        &&& forall|i: int| 0 <= i < self.greeneries@.len() ==> (#[trigger] self.greeneries@[i]).0.spec_in_bounds()
        &&& forall|i: int| 0 <= i < self.special_tiles@.len() ==> (#[trigger] self.special_tiles@[i]).0.spec_in_bounds()
        &&& self.oxygen <= MAX_OXYGEN
        &&& MIN_TEMPERATURE <= self.temperature <= MAX_TEMPERATURE
        &&& self.oceans@.len() <= MAX_OCEANS
    }

    /// The derived status of a location: cities take priority (off-board
    /// locations can only hold cities), then oceans, greeneries and special
    /// tiles; otherwise the location is empty.
    pub open spec fn spec_tile_status(&self, loc: TileLocation) -> TileStatus {
        match find_city_in(self.cities@, loc) {
            Some((kind, owner)) => TileStatus::City(loc, kind, owner),
            None => match loc {
                TileLocation::OffMars(_) => TileStatus::Empty(EmptyLocation { loc }),
                TileLocation::OnMars(c) => if self.oceans@.contains(c) {
                    TileStatus::Ocean(loc)
                } else {
                    match find_greenery_in(self.greeneries@, c) {
                        Some(owner) => TileStatus::Greenery(loc, owner),
                        None => match find_special_in(self.special_tiles@, c) {
                            Some((tile, owner)) => TileStatus::SpecialTile(loc, tile, owner),
                            None => TileStatus::Empty(EmptyLocation { loc }),
                        },
                    }
                },
            },
        }
    }

    /// The statuses of a location's in-bounds neighbors, in neighbor order.
    pub open spec fn spec_neighbor_statuses(&self, loc: TileLocation) -> Seq<TileStatus> {
        loc.spec_neighbors().map_values(|l: TileLocation| self.spec_tile_status(l))
    }

    /// Builds a board, demanding that the inputs already satisfy the
    /// exclusivity invariant.
    pub fn new(
        board_name: String,
        spaces: Vec<BoardSpace>,
        cities: Vec<(TileLocation, CityKind, PlayerId)>,
        oceans: Vec<Coordinates>,
        greeneries: Vec<(Coordinates, PlayerId)>,
        special_tiles: Vec<(Coordinates, SpecialTile, PlayerId)>,
        oxygen: usize,
        temperature: isize,
    ) -> (board: MarsBoard)
        requires
            (MarsBoard {
                board_name: board_name,
                spaces: spaces,
                cities: cities,
                oceans: oceans,
                greeneries: greeneries,
                special_tiles: special_tiles,
                oxygen: oxygen,
                temperature: temperature,
            }).wf(),
        ensures
            board == (MarsBoard {
                board_name, spaces, cities, oceans, greeneries, special_tiles, oxygen, temperature,
            }),
            board.wf(),
    {
        MarsBoard { board_name, spaces, cities, oceans, greeneries, special_tiles, oxygen, temperature }
    }

    /// The first city entry for a location.
    fn lookup_city(&self, loc: TileLocation) -> (r: Option<(CityKind, PlayerId)>)
        ensures
            r == find_city_in(self.cities@, loc),
    {
        let n = self.cities.len();
        proof {
            assert(self.cities@.skip(0) =~= self.cities@);
        }
        for i in 0..n
            invariant
                n == self.cities@.len(),
                find_city_in(self.cities@, loc) == find_city_in(self.cities@.skip(i as int), loc),
        {
            let entry = &self.cities[i];
            proof {
                assert(self.cities@.skip(i as int)[0] == self.cities@[i as int]);
                assert(self.cities@.skip(i as int).skip(1) =~= self.cities@.skip(i as int + 1));
            }
            if entry.0 == loc {
                return Some((entry.1, entry.2));
            }
        }
        proof {
            assert(self.cities@.skip(n as int) =~= Seq::<(TileLocation, CityKind, PlayerId)>::empty());
        }
        None
    }

    /// Whether a coordinate holds an ocean.
    fn lookup_ocean(&self, c: Coordinates) -> (r: bool)
        ensures
            r == self.oceans@.contains(c),
    {
        let n = self.oceans.len();
        for i in 0..n
            invariant
                n == self.oceans@.len(),
                forall|j: int| 0 <= j < i ==> self.oceans@[j] != c,
        {
            if self.oceans[i] == c {
                return true;
            }
        }
        false
    }

    /// The first greenery entry for a coordinate.
    fn lookup_greenery(&self, c: Coordinates) -> (r: Option<PlayerId>)
        ensures
            r == find_greenery_in(self.greeneries@, c),
    {
        let n = self.greeneries.len();
        proof {
            assert(self.greeneries@.skip(0) =~= self.greeneries@);
        }
        for i in 0..n
            invariant
                n == self.greeneries@.len(),
                find_greenery_in(self.greeneries@, c) == find_greenery_in(self.greeneries@.skip(i as int), c),
        {
            let entry = &self.greeneries[i];
            proof {
                assert(self.greeneries@.skip(i as int)[0] == self.greeneries@[i as int]);
                assert(self.greeneries@.skip(i as int).skip(1) =~= self.greeneries@.skip(i as int + 1));
            }
            if entry.0 == c {
                return Some(entry.1);
            }
        }
        proof {
            assert(self.greeneries@.skip(n as int) =~= Seq::<(Coordinates, PlayerId)>::empty());
        }
        None
    }

    /// The first special-tile entry for a coordinate.
    fn lookup_special(&self, c: Coordinates) -> (r: Option<(SpecialTile, PlayerId)>)
        ensures
            r == find_special_in(self.special_tiles@, c),
    {
        let n = self.special_tiles.len();
        proof {
            assert(self.special_tiles@.skip(0) =~= self.special_tiles@);
        }
        for i in 0..n
            invariant
                n == self.special_tiles@.len(),
                find_special_in(self.special_tiles@, c) == find_special_in(self.special_tiles@.skip(i as int), c),
        {
            let entry = &self.special_tiles[i];
            proof {
                assert(self.special_tiles@.skip(i as int)[0] == self.special_tiles@[i as int]);
                assert(self.special_tiles@.skip(i as int).skip(1) =~= self.special_tiles@.skip(i as int + 1));
            }
            if entry.0 == c {
                return Some((entry.1, entry.2));
            }
        }
        proof {
            assert(self.special_tiles@.skip(n as int) =~= Seq::<(Coordinates, SpecialTile, PlayerId)>::empty());
        }
        None
    }

    /// The first space entry for a location.
    pub fn lookup_space(&self, loc: TileLocation) -> (r: Option<&BoardSpace>)
        ensures
            match r {
                Some(sp) => find_space_in(self.spaces@, loc) == Some(*sp),
                None => find_space_in(self.spaces@, loc) is None,
            },
    {
        let n = self.spaces.len();
        proof {
            assert(self.spaces@.skip(0) =~= self.spaces@);
        }
        for i in 0..n
            invariant
                n == self.spaces@.len(),
                find_space_in(self.spaces@, loc) == find_space_in(self.spaces@.skip(i as int), loc),
        {
            proof {
                assert(self.spaces@.skip(i as int)[0] == self.spaces@[i as int]);
                assert(self.spaces@.skip(i as int).skip(1) =~= self.spaces@.skip(i as int + 1));
            }
            if self.spaces[i].location == loc {
                return Some(&self.spaces[i]);
            }
        }
        proof {
            assert(self.spaces@.skip(n as int) =~= Seq::<BoardSpace>::empty());
        }
        None
    }

    /// Resolves a location's status, with cities taking priority over oceans,
    /// greeneries and special tiles.
    pub fn get_tile_status(&self, location: &TileLocation) -> (r: TileStatus)
        ensures
            r == self.spec_tile_status(*location),
    {
        match self.lookup_city(*location) {
            Some((kind, owner)) => TileStatus::City(*location, kind, owner),
            None => match location {
                TileLocation::OffMars(_) => TileStatus::Empty(EmptyLocation { loc: *location }),
                TileLocation::OnMars(c) => {
                    if self.lookup_ocean(*c) {
                        TileStatus::Ocean(*location)
                    } else {
                        match self.lookup_greenery(*c) {
                            Some(owner) => TileStatus::Greenery(*location, owner),
                            None => match self.lookup_special(*c) {
                                Some((tile, owner)) => TileStatus::SpecialTile(*location, tile, owner),
                                None => TileStatus::Empty(EmptyLocation { loc: *location }),
                            },
                        }
                    }
                }
            },
        }
    }

    /// The statuses of a location's in-bounds neighbors, in neighbor order.
    pub fn get_neighbor_tile_status(&self, location: &TileLocation) -> (r: Vec<TileStatus>)
        requires
            location.spec_wf(),
        ensures
            r@ == self.spec_neighbor_statuses(*location),
    {
        let neighbors = location.neighbors_within_bounds();
        let mut r: Vec<TileStatus> = Vec::new();
        let n = neighbors.len();
        for i in 0..n
            invariant
                n == neighbors@.len(),
                neighbors@ == location.spec_neighbors(),
                r@ == self.spec_neighbor_statuses(*location).subrange(0, i as int),
        {
            let st = self.get_tile_status(&neighbors[i]);
            r.push(st);
            proof {
                assert(r@ =~= self.spec_neighbor_statuses(*location).subrange(0, i as int + 1));
            }
        }
        proof {
            assert(r@ =~= self.spec_neighbor_statuses(*location));
        }
        r
    }

    /// How many of a location's neighbors hold an ocean.
    pub fn count_adjacent_oceans(&self, empty_location: &EmptyLocation) -> (r: usize)
        requires
            empty_location.spec_loc().spec_wf(),
        ensures
            r == count_ocean_statuses(self.spec_neighbor_statuses(empty_location.spec_loc())),
            r <= 6,
    {
        let location = empty_location.location();
        let statuses = self.get_neighbor_tile_status(&location);
        let mut count: usize = 0;
        let n = statuses.len();
        proof {
            assert(location.spec_neighbors().len() <= 6);
            assert(statuses@.subrange(0, 0) =~= Seq::<TileStatus>::empty());
        }
        for i in 0..n
            invariant
                n == statuses@.len(),
                n <= 6,
                statuses@ == self.spec_neighbor_statuses(empty_location.spec_loc()),
                count == count_ocean_statuses(statuses@.subrange(0, i as int)),
                count <= i,
        {
            proof {
                lemma_status_counts_push(statuses@.subrange(0, i as int), statuses@[i as int], PlayerId(0));
                assert(statuses@.subrange(0, i as int + 1) =~= statuses@.subrange(0, i as int).push(statuses@[i as int]));
            }
            if matches!(statuses[i], TileStatus::Ocean(_)) {
                count += 1;
            }
        }
        proof {
            assert(statuses@.subrange(0, n as int) =~= statuses@);
        }
        count
    }

    /// The placement bonus of an empty space: the space's static bonuses,
    /// with two extra megacredits per adjacent ocean coalesced into the first
    /// megacredit gain, or appended at the end when none exists.
    pub fn get_placement_bonuses(&self, empty_location: &EmptyLocation) -> (r: Vec<ImmediateImpact>)
        requires
            empty_location.spec_loc().spec_wf(),
            find_space_in(self.spaces@, empty_location.spec_loc()) is Some,
            mc_gains_at_most(
                match find_space_in(self.spaces@, empty_location.spec_loc()) {
                    Some(space) => space.placement_bonus.deep_view(),
                    None => Seq::empty(),
                },
                (usize::MAX - 12) as int,
            ),
        ensures
            ({
                let space = match find_space_in(self.spaces@, empty_location.spec_loc()) {
                    Some(space) => space,
                    None => arbitrary(),
                };
                let extra = OCEAN_ADJACENCY_MEGACREDITS * count_ocean_statuses(
                    self.spec_neighbor_statuses(empty_location.spec_loc()),
                );
                r.deep_view() == coalesce_mc_bonus(space.placement_bonus.deep_view(), extra as usize)
            }),
    {
        let adjacent_oceans = self.count_adjacent_oceans(empty_location);
        let extra = adjacent_oceans * OCEAN_ADJACENCY_MEGACREDITS;
        let location = empty_location.location();
        let space_opt = self.lookup_space(location);
        let space = space_opt.unwrap();
        proof {
            assert(space.placement_bonus.deep_view().skip(0) =~= space.placement_bonus.deep_view());
        }
        coalesce_from(&space.placement_bonus, 0, extra)
    }
}

impl MarsBoard {
    /// The placement-restriction table, evaluated against the current board.
    /// `AdjacentToOwnedTileIfAble` is a soft restriction and never blocks a
    /// placement.
    pub open spec fn spec_restriction_ok(
        &self,
        pid: PlayerId,
        loc: TileLocation,
        r: LocationRestriction,
    ) -> bool {
        let sts = self.spec_neighbor_statuses(loc);
        let sp = find_space_in(self.spaces@, loc);
        match r {
            LocationRestriction::LandTile => sp matches Some(space) && space.spec_is_land(),
            LocationRestriction::ReservedForOcean => sp matches Some(space)
                && space.spec_is_reserved_for_ocean(),
            LocationRestriction::OnSteelOrTitaniumPlacementBonus => sp matches Some(space)
                && exists|i: int|
                    0 <= i < space.placement_bonus@.len() && is_metal_gain(#[trigger] space.placement_bonus@[i]),
            LocationRestriction::AtSpecialLocation(sl) => sp matches Some(space)
                && space.spec_has_designation(Designation::Special(sl)),
            LocationRestriction::AdjacentToOwnedTile => count_statuses_owned_by(sts, pid) >= 1,
            LocationRestriction::AdjacentToOwnedTileIfAble => true,
            LocationRestriction::NotNextToAnyOtherTile => count_occupied_statuses(sts) == 0,
            LocationRestriction::NotNextToACity => count_city_statuses(sts) == 0,
            LocationRestriction::NextToACity => count_city_statuses(sts) >= 1,
            LocationRestriction::NextToAtLeastTwoCities => count_city_statuses(sts) >= 2,
            LocationRestriction::NextToAGreenery => count_greenery_statuses(sts) >= 1,
        }
    }

    /// Validates every restriction against the current board and, when all
    /// pass, inserts the city; on any violation it fails without mutating
    /// anything. The caller must have established that the location is empty.
    pub fn can_place_city(
        &mut self,
        player: &mut PlayerState,
        empty_location: EmptyLocation,
        city_kind: CityKind,
        location_restrictions: &[LocationRestriction],
    ) -> (r: Option<()>)
        requires
            old(self).wf(),
            empty_location.spec_loc().spec_wf(),
            old(self).spec_tile_status(empty_location.spec_loc()) matches TileStatus::Empty(_),
        ensures
            *final(player) == *old(player),
            (r is Some) <==> (forall|k: int|
                0 <= k < location_restrictions@.len() ==> old(self).spec_restriction_ok(
                    old(player).player_id,
                    empty_location.spec_loc(),
                    #[trigger] location_restrictions@[k],
                )),
            r is None ==> *final(self) == *old(self),
            r is Some ==> final(self).cities@ == old(self).cities@.push(
                (empty_location.spec_loc(), city_kind, old(player).player_id),
            ) && final(self).board_name == old(self).board_name && final(self).spaces
                == old(self).spaces && final(self).oceans == old(self).oceans && final(self).greeneries
                == old(self).greeneries && final(self).special_tiles == old(self).special_tiles
                && final(self).oxygen == old(self).oxygen && final(self).temperature
                == old(self).temperature,
            final(self).wf(),
    {
        let location = empty_location.location();
        let pid = player.player_id;
        let statuses = self.get_neighbor_tile_status(&location);
        let ghost sts = self.spec_neighbor_statuses(empty_location.spec_loc());

        let mut adjacent_tiles_of_any_kind: usize = 0;
        let mut adjacent_greeneries: usize = 0;
        let mut adjacent_cities: usize = 0;
        let mut adjacent_owned_tiles: usize = 0;

        let n = statuses.len();
        proof {
            assert(location.spec_neighbors().len() <= 6);
            assert(statuses@.subrange(0, 0) =~= Seq::<TileStatus>::empty());
        }
        for i in 0..n
            invariant
                n == statuses@.len(),
                n <= 6,
                statuses@ == sts,
                adjacent_tiles_of_any_kind == count_occupied_statuses(sts.subrange(0, i as int)),
                adjacent_greeneries == count_greenery_statuses(sts.subrange(0, i as int)),
                adjacent_cities == count_city_statuses(sts.subrange(0, i as int)),
                adjacent_owned_tiles == count_statuses_owned_by(sts.subrange(0, i as int), pid),
                adjacent_tiles_of_any_kind <= i,
                adjacent_greeneries <= i,
                adjacent_cities <= i,
                adjacent_owned_tiles <= i,
        {
            proof {
                lemma_status_counts_push(sts.subrange(0, i as int), sts[i as int], pid);
                assert(sts.subrange(0, i as int + 1) =~= sts.subrange(0, i as int).push(sts[i as int]));
            }
            let status = &statuses[i];
            if !matches!(status, TileStatus::Empty(_)) {
                adjacent_tiles_of_any_kind += 1;
            }
            match status {
                TileStatus::City(_, _, _) => {
                    adjacent_cities += 1;
                }
                TileStatus::Greenery(_, _) => {
                    adjacent_greeneries += 1;
                }
                TileStatus::Empty(_) | TileStatus::Ocean(_) | TileStatus::SpecialTile(_, _, _) => {}
            }
            let owned = match status {
                TileStatus::City(_, _, owner_id) => *owner_id == pid,
                TileStatus::Greenery(_, owner_id) => *owner_id == pid,
                TileStatus::SpecialTile(_, _, owner_id) => *owner_id == pid,
                _ => false,
            };
            if owned {
                adjacent_owned_tiles += 1;
            }
        }
        proof {
            assert(sts.subrange(0, n as int) =~= sts);
        }

        let m = location_restrictions.len();
        for k in 0..m
            invariant
                old(self).wf(),
                m == location_restrictions@.len(),
                n == statuses@.len(),
                statuses@ == sts,
                sts == old(self).spec_neighbor_statuses(empty_location.spec_loc()),
                adjacent_tiles_of_any_kind == count_occupied_statuses(sts),
                adjacent_greeneries == count_greenery_statuses(sts),
                adjacent_cities == count_city_statuses(sts),
                adjacent_owned_tiles == count_statuses_owned_by(sts, pid),
                self == old(self),
                player == old(player),
                pid == old(player).player_id,
                location == empty_location.spec_loc(),
                forall|j: int| 0 <= j < k ==> old(self).spec_restriction_ok(
                    pid,
                    empty_location.spec_loc(),
                    #[trigger] location_restrictions@[j],
                ),
        {
            let ok = match &location_restrictions[k] {
                LocationRestriction::LandTile => {
                    match self.lookup_space(location) {
                        Some(space) => space.is_land(),
                        None => false,
                    }
                }
                LocationRestriction::ReservedForOcean => {
                    match self.lookup_space(location) {
                        Some(space) => space.is_reserved_for_ocean(),
                        None => false,
                    }
                }
                LocationRestriction::OnSteelOrTitaniumPlacementBonus => {
                    match self.lookup_space(location) {
                        Some(space) => space.has_metal_placement_bonus(),
                        None => false,
                    }
                }
                LocationRestriction::AtSpecialLocation(special_location) => {
                    match self.lookup_space(location) {
                        Some(space) => space.has_designation(Designation::Special(*special_location)),
                        None => false,
                    }
                }
                LocationRestriction::AdjacentToOwnedTile => adjacent_owned_tiles > 0,
                // Soft restriction: never blocks a placement.
                LocationRestriction::AdjacentToOwnedTileIfAble => true,
                LocationRestriction::NotNextToAnyOtherTile => adjacent_tiles_of_any_kind == 0,
                LocationRestriction::NotNextToACity => adjacent_cities == 0,
                LocationRestriction::NextToACity => adjacent_cities >= 1,
                LocationRestriction::NextToAtLeastTwoCities => adjacent_cities >= 2,
                LocationRestriction::NextToAGreenery => adjacent_greeneries >= 1,
            };
            if !ok {
                proof {
                    assert(!old(self).spec_restriction_ok(
                        pid,
                        empty_location.spec_loc(),
                        location_restrictions@[k as int],
                    ));
                }
                return None;
            }
        }

        proof {
            let loc = empty_location.spec_loc();
            assert(find_city_in(old(self).cities@, loc) is None);
            lemma_find_city_none(old(self).cities@, loc);
            match loc {
                TileLocation::OnMars(c) => {
                    assert(!old(self).oceans@.contains(c));
                    lemma_find_greenery_none(old(self).greeneries@, c);
                    lemma_find_special_none(old(self).special_tiles@, c);
                }
                TileLocation::OffMars(_) => {}
            }
        }
        let entry = (location, city_kind, pid);
        self.cities.push(entry);
        proof {
            let loc = empty_location.spec_loc();
            let oldc = old(self).cities@;
            assert(self.cities@ == oldc.push((loc, city_kind, pid)));
            assert forall|i: int, j: int| 0 <= i < j < self.cities@.len() implies
                (#[trigger] self.cities@[i]).0 != (#[trigger] self.cities@[j]).0 by {
                if j == oldc.len() {
                    assert(self.cities@[j].0 == loc);
                    assert(self.cities@[i] == oldc[i]);
                }
            }
            match loc {
                TileLocation::OnMars(c) => {
                    assert forall|i: int, j: int|
                        0 <= i < self.cities@.len() && 0 <= j < self.oceans@.len() implies
                        (#[trigger] self.cities@[i]).0 != TileLocation::OnMars(#[trigger] self.oceans@[j]) by {
                        if i == oldc.len() {
                            assert(self.oceans@[j] != c);
                        }
                    }
                }
                TileLocation::OffMars(_) => {}
            }
        }
        Some(())
    }
}

impl MarsBoard {
    /// Inserts a city at an empty location.
    pub fn place_city_tile(&mut self, location: TileLocation, kind: CityKind, owner: PlayerId)
        requires
            old(self).wf(),
            location.spec_wf(),
            old(self).spec_tile_status(location) matches TileStatus::Empty(_),
        ensures
            *final(self) == (MarsBoard { cities: final(self).cities, ..*old(self) }),
            final(self).cities@ == old(self).cities@.push((location, kind, owner)),
            final(self).wf(),
    {
        proof {
            lemma_find_city_none(old(self).cities@, location);
            match location {
                TileLocation::OnMars(c) => {
                    assert(!old(self).oceans@.contains(c));
                    lemma_find_greenery_none(old(self).greeneries@, c);
                    lemma_find_special_none(old(self).special_tiles@, c);
                }
                TileLocation::OffMars(_) => {}
            }
        }
        self.cities.push((location, kind, owner));
        proof {
            let oldc = old(self).cities@;
            assert forall|i: int, j: int| 0 <= i < j < self.cities@.len() implies
                (#[trigger] self.cities@[i]).0 != (#[trigger] self.cities@[j]).0 by {
                if j == oldc.len() {
                    assert(self.cities@[j].0 == location);
                    assert(self.cities@[i] == oldc[i]);
                }
            }
            match location {
                TileLocation::OnMars(c) => {
                    assert forall|i: int, j: int|
                        0 <= i < self.cities@.len() && 0 <= j < self.oceans@.len() implies
                        (#[trigger] self.cities@[i]).0 != TileLocation::OnMars(
                            #[trigger] self.oceans@[j],
                        ) by {
                        if i == oldc.len() {
                            assert(self.oceans@[j] != c);
                        }
                    }
                }
                TileLocation::OffMars(_) => {}
            }
        }
    }

    /// Inserts a greenery at an empty hex.
    pub fn place_greenery(&mut self, coordinates: Coordinates, owner: PlayerId)
        requires
            old(self).wf(),
            coordinates.spec_in_bounds(),
            old(self).spec_tile_status(TileLocation::OnMars(coordinates)) matches TileStatus::Empty(_),
        ensures
            *final(self) == (MarsBoard { greeneries: final(self).greeneries, ..*old(self) }),
            final(self).greeneries@ == old(self).greeneries@.push((coordinates, owner)),
            final(self).wf(),
    {
        proof {
            lemma_find_city_none(old(self).cities@, TileLocation::OnMars(coordinates));
            assert(!old(self).oceans@.contains(coordinates));
            lemma_find_greenery_none(old(self).greeneries@, coordinates);
            lemma_find_special_none(old(self).special_tiles@, coordinates);
        }
        self.greeneries.push((coordinates, owner));
        proof {
            let oldg = old(self).greeneries@;
            assert forall|i: int, j: int| 0 <= i < j < self.greeneries@.len() implies
                (#[trigger] self.greeneries@[i]).0 != (#[trigger] self.greeneries@[j]).0 by {
                if j == oldg.len() {
                    assert(self.greeneries@[i] == oldg[i]);
                }
            }
            assert forall|i: int, j: int|
                0 <= i < self.oceans@.len() && 0 <= j < self.greeneries@.len() implies
                #[trigger] self.oceans@[i] != (#[trigger] self.greeneries@[j]).0 by {
                if j == oldg.len() {
                    assert(self.oceans@[i] != coordinates);
                }
            }
        }
    }

    /// Inserts a special tile at an empty hex.
    pub fn place_special_tile(
        &mut self,
        coordinates: Coordinates,
        tile: SpecialTile,
        owner: PlayerId,
    )
        requires
            old(self).wf(),
            coordinates.spec_in_bounds(),
            old(self).spec_tile_status(TileLocation::OnMars(coordinates)) matches TileStatus::Empty(_),
        ensures
            *final(self) == (MarsBoard { special_tiles: final(self).special_tiles, ..*old(self) }),
            final(self).special_tiles@ == old(self).special_tiles@.push((coordinates, tile, owner)),
            final(self).wf(),
    {
        proof {
            lemma_find_city_none(old(self).cities@, TileLocation::OnMars(coordinates));
            assert(!old(self).oceans@.contains(coordinates));
            lemma_find_greenery_none(old(self).greeneries@, coordinates);
            lemma_find_special_none(old(self).special_tiles@, coordinates);
        }
        self.special_tiles.push((coordinates, tile, owner));
        proof {
            let olds = old(self).special_tiles@;
            assert forall|i: int, j: int| 0 <= i < j < self.special_tiles@.len() implies
                (#[trigger] self.special_tiles@[i]).0 != (#[trigger] self.special_tiles@[j]).0 by {
                if j == olds.len() {
                    assert(self.special_tiles@[i] == olds[i]);
                }
            }
            assert forall|i: int, j: int|
                0 <= i < self.oceans@.len() && 0 <= j < self.special_tiles@.len() implies
                #[trigger] self.oceans@[i] != (#[trigger] self.special_tiles@[j]).0 by {
                if j == olds.len() {
                    assert(self.oceans@[i] != coordinates);
                }
            }
        }
    }

    /// Inserts an ocean at an empty hex, under the global ocean ceiling.
    pub fn place_ocean(&mut self, coordinates: Coordinates)
        requires
            old(self).wf(),
            coordinates.spec_in_bounds(),
            old(self).spec_tile_status(TileLocation::OnMars(coordinates)) matches TileStatus::Empty(_),
            old(self).oceans@.len() < MAX_OCEANS,
        ensures
            *final(self) == (MarsBoard { oceans: final(self).oceans, ..*old(self) }),
            final(self).oceans@ == old(self).oceans@.push(coordinates),
            final(self).wf(),
    {
        proof {
            lemma_find_city_none(old(self).cities@, TileLocation::OnMars(coordinates));
            assert(!old(self).oceans@.contains(coordinates));
            lemma_find_greenery_none(old(self).greeneries@, coordinates);
            lemma_find_special_none(old(self).special_tiles@, coordinates);
        }
        self.oceans.push(coordinates);
        proof {
            let oldo = old(self).oceans@;
            assert forall|i: int, j: int| 0 <= i < j < self.oceans@.len() implies
                #[trigger] self.oceans@[i] != #[trigger] self.oceans@[j] by {
                if j == oldo.len() {
                    assert(self.oceans@[i] == oldo[i]);
                }
            }
            assert forall|i: int, j: int|
                0 <= i < self.cities@.len() && 0 <= j < self.oceans@.len() implies
                (#[trigger] self.cities@[i]).0 != TileLocation::OnMars(#[trigger] self.oceans@[j]) by {
                if j == oldo.len() {
                    assert(self.cities@[i].0 != TileLocation::OnMars(coordinates));
                }
            }
        }
    }

    /// Raises the temperature by one fixed step.
    pub fn raise_temperature(&mut self)
        requires
            old(self).wf(),
            old(self).temperature + TEMPERATURE_STEP <= MAX_TEMPERATURE,
        ensures
            *final(self) == (MarsBoard { temperature: (old(self).temperature + TEMPERATURE_STEP) as isize, ..*old(self) }),
            final(self).wf(),
    {
        self.temperature = self.temperature + TEMPERATURE_STEP;
    }

    /// Raises the oxygen level by one.
    pub fn raise_oxygen(&mut self)
        requires
            old(self).wf(),
            old(self).oxygen < MAX_OXYGEN,
        ensures
            *final(self) == (MarsBoard { oxygen: (old(self).oxygen + 1) as usize, ..*old(self) }),
            final(self).wf(),
    {
        self.oxygen = self.oxygen + 1;
    }
}

/// Whether every megacredit gain in the sequence is at most the bound.
pub open spec fn mc_gains_at_most(s: Seq<ImmediateImpactView>, bound: int) -> bool {
    forall|i: int| 0 <= i < s.len() && is_mc_gain_view(#[trigger] s[i]) ==> mc_gain_amount(s[i]) <= bound
}

/// Whether an impact (at the specification level) grants megacredits.
pub open spec fn is_mc_gain_view(i: ImmediateImpactView) -> bool {
    i matches ImmediateImpactView::GainResource(Resource::Megacredits, _)
}

/// The amount of a megacredit gain; zero for any other impact.
pub open spec fn mc_gain_amount(i: ImmediateImpactView) -> usize {
    match i {
        ImmediateImpactView::GainResource(Resource::Megacredits, m) => m,
        _ => 0,
    }
}

/// A bonus list with extra megacredits coalesced into its first megacredit
/// gain, or appended as a new gain when none exists.
pub open spec fn coalesce_mc_bonus(s: Seq<ImmediateImpactView>, extra: usize) -> Seq<
    ImmediateImpactView,
>
    decreases s.len(),
{
    if s.len() == 0 {
        seq![ImmediateImpactView::GainResource(Resource::Megacredits, extra)]
    } else if is_mc_gain_view(s[0]) {
        seq![
            ImmediateImpactView::GainResource(
                Resource::Megacredits,
                (mc_gain_amount(s[0]) + extra) as usize,
            ),
        ] + s.skip(1)
    } else {
        seq![s[0]] + coalesce_mc_bonus(s.skip(1), extra)
    }
}

/// Coalesces the extra megacredits into the suffix of a bonus list starting
/// at the given index.
fn coalesce_from(bonus: &Vec<ImmediateImpact>, start: usize, extra: usize) -> (r: Vec<
    ImmediateImpact,
>)
    requires
        start <= bonus@.len(),
        extra <= 12,
        mc_gains_at_most(bonus.deep_view(), (usize::MAX - 12) as int),
    ensures
        r.deep_view() == coalesce_mc_bonus(bonus.deep_view().skip(start as int), extra),
    decreases bonus@.len() - start,
{
    let n = bonus.len();
    let ghost suffix = bonus.deep_view().skip(start as int);
    if start == n {
        let mut r: Vec<ImmediateImpact> = Vec::new();
        r.push(ImmediateImpact::GainResource(Resource::Megacredits, extra));
        proof {
            assert(suffix =~= Seq::<ImmediateImpactView>::empty());
            assert(r.deep_view() =~= coalesce_mc_bonus(suffix, extra));
        }
        r
    } else {
        proof {
            assert(suffix[0] == bonus.deep_view()[start as int]);
        }
        let is_mc = match &bonus[start] {
            ImmediateImpact::GainResource(Resource::Megacredits, _) => true,
            _ => false,
        };
        if is_mc {
            let m = match &bonus[start] {
                ImmediateImpact::GainResource(Resource::Megacredits, m) => *m,
                _ => 0,
            };
            proof {
                assert(is_mc_gain_view(suffix[0]));
                assert(mc_gain_amount(suffix[0]) == m);
            }
            let mut r: Vec<ImmediateImpact> = Vec::new();
            r.push(ImmediateImpact::GainResource(Resource::Megacredits, m + extra));
            let mut j = start + 1;
            while j < n
                invariant
                    start + 1 <= j <= n,
                    n == bonus@.len(),
                    r.deep_view() =~= seq![
                        ImmediateImpactView::GainResource(Resource::Megacredits, (m + extra) as usize),
                    ] + bonus.deep_view().subrange(start as int + 1, j as int),
                decreases n - j,
            {
                let d = dup_impact(&bonus[j]);
                let ghost prev = r.deep_view();
                r.push(d);
                proof {
                    assert(r@[r@.len() - 1] == d);
                    assert(r.deep_view() =~= prev.push(bonus.deep_view()[j as int]));
                    assert(r.deep_view() =~= seq![
                        ImmediateImpactView::GainResource(Resource::Megacredits, (m + extra) as usize),
                    ] + bonus.deep_view().subrange(start as int + 1, j as int + 1));
                }
                j += 1;
            }
            proof {
                assert(bonus.deep_view().subrange(start as int + 1, n as int) =~= suffix.skip(1));
                assert(r.deep_view() =~= coalesce_mc_bonus(suffix, extra));
            }
            r
        } else {
            proof {
                assert(!is_mc_gain_view(suffix[0]));
            }
            let mut rest = coalesce_from(bonus, start + 1, extra);
            let head = dup_impact(&bonus[start]);
            let mut r: Vec<ImmediateImpact> = Vec::new();
            r.push(head);
            let ghost before = r.deep_view();
            r.append(&mut rest);
            proof {
                assert(before =~= seq![suffix[0]]);
                assert(bonus.deep_view().skip(start as int + 1) =~= suffix.skip(1));
                assert forall|k: int| 0 <= k < r.deep_view().len() implies
                    r.deep_view()[k] == (seq![suffix[0]] + coalesce_mc_bonus(suffix.skip(1), extra))[k] by {
                }
                assert(r.deep_view() =~= seq![suffix[0]] + coalesce_mc_bonus(suffix.skip(1), extra));
                assert(r.deep_view() =~= coalesce_mc_bonus(suffix, extra));
            }
            r
        }
    }
}

/// The two standard off-board spaces.
pub fn make_standard_non_mars_board_spaces() -> (r: Vec<BoardSpace>)
    ensures
        r@.len() == 2,
        r.deep_view()[0] == base_game_space(0),
        r.deep_view()[1] == base_game_space(1),
        r@[0].location == TileLocation::OffMars(SpecialLocation::PhobosSpaceHaven),
        r@[1].location == TileLocation::OffMars(SpecialLocation::GanymedeColony),
        r@[0].designations@ == seq![
            Designation::NonMarsTile,
            Designation::Special(SpecialLocation::PhobosSpaceHaven),
        ],
        r@[1].designations@ == seq![
            Designation::NonMarsTile,
            Designation::Special(SpecialLocation::GanymedeColony),
        ],
        r@[0].name matches Some(n) && n@ == "Phobos Space Haven"@,
        r@[1].name matches Some(n) && n@ == "Ganymede Colony"@,
        r@[0].placement_bonus@.len() == 0,
        r@[1].placement_bonus@.len() == 0,
{
    let mut r: Vec<BoardSpace> = Vec::new();
    r.push(base_game_space_at(0));
    r.push(base_game_space_at(1));
    proof {
        assert(r.deep_view()[0] == r@[0].deep_view());
        assert(r.deep_view()[1] == r@[1].deep_view());
        assert(r@[0].designations@ =~= seq![
            Designation::NonMarsTile,
            Designation::Special(SpecialLocation::PhobosSpaceHaven),
        ]);
        assert(r@[1].designations@ =~= seq![
            Designation::NonMarsTile,
            Designation::Special(SpecialLocation::GanymedeColony),
        ]);
        assert(r@[0].placement_bonus.deep_view().len() == r@[0].placement_bonus@.len());
        assert(r@[1].placement_bonus.deep_view().len() == r@[1].placement_bonus@.len());
    }
    r
}

/// Positions 0 to 15 of the standard layout.
pub open spec fn base_game_space_a(i: int) -> BoardSpaceView
    recommends
        0 <= i < 16,
{
    if i == 0 {
        BoardSpaceView { name: Some("Phobos Space Haven"@), location: TileLocation::OffMars(SpecialLocation::PhobosSpaceHaven), designations: seq![Designation::NonMarsTile, Designation::Special(SpecialLocation::PhobosSpaceHaven)], placement_bonus: Seq::<ImmediateImpactView>::empty() }
    } else if i == 1 {
        BoardSpaceView { name: Some("Ganymede Colony"@), location: TileLocation::OffMars(SpecialLocation::GanymedeColony), designations: seq![Designation::NonMarsTile, Designation::Special(SpecialLocation::GanymedeColony)], placement_bonus: Seq::<ImmediateImpactView>::empty() }
    } else if i == 2 {
        BoardSpaceView { name: Some("Arsia Mons"@), location: TileLocation::OnMars(Coordinates { x: 0isize, y: 0isize }), designations: seq![Designation::Land, Designation::Special(SpecialLocation::VolcanicArea)], placement_bonus: seq![ImmediateImpactView::GainResource(Resource::Plants, 2)] }
    } else if i == 3 {
        BoardSpaceView { name: Some("Pavonis Mons"@), location: TileLocation::OnMars(Coordinates { x: 1isize, y: 0isize }), designations: seq![Designation::Land, Designation::Special(SpecialLocation::VolcanicArea)], placement_bonus: seq![ImmediateImpactView::GainResource(Resource::Plants, 1), ImmediateImpactView::GainResource(Resource::Titanium, 1)] }
    } else if i == 4 {
        BoardSpaceView { name: Some("Ascraeus Mons"@), location: TileLocation::OnMars(Coordinates { x: 2isize, y: 0isize }), designations: seq![Designation::Land, Designation::Special(SpecialLocation::VolcanicArea)], placement_bonus: seq![ImmediateImpactView::DrawCard(1)] }
    } else if i == 5 {
        BoardSpaceView { name: None, location: TileLocation::OnMars(Coordinates { x: 3isize, y: 0isize }), designations: seq![Designation::Land], placement_bonus: Seq::<ImmediateImpactView>::empty() }
    } else if i == 6 {
        BoardSpaceView { name: None, location: TileLocation::OnMars(Coordinates { x: 4isize, y: 0isize }), designations: seq![Designation::Land], placement_bonus: seq![ImmediateImpactView::GainResource(Resource::Steel, 2)] }
    } else if i == 7 {
        BoardSpaceView { name: None, location: TileLocation::OnMars(Coordinates { x: 0isize, y: -1isize }), designations: seq![Designation::Land], placement_bonus: seq![ImmediateImpactView::GainResource(Resource::Plants, 1)] }
    } else if i == 8 {
        BoardSpaceView { name: None, location: TileLocation::OnMars(Coordinates { x: 1isize, y: -1isize }), designations: seq![Designation::Land], placement_bonus: seq![ImmediateImpactView::GainResource(Resource::Plants, 2)] }
    } else if i == 9 {
        BoardSpaceView { name: None, location: TileLocation::OnMars(Coordinates { x: 2isize, y: -1isize }), designations: seq![Designation::Land], placement_bonus: seq![ImmediateImpactView::GainResource(Resource::Plants, 1)] }
    } else if i == 10 {
        BoardSpaceView { name: None, location: TileLocation::OnMars(Coordinates { x: 3isize, y: -1isize }), designations: seq![Designation::Land], placement_bonus: Seq::<ImmediateImpactView>::empty() }
    } else if i == 11 {
        BoardSpaceView { name: Some("Tharsis Tholus"@), location: TileLocation::OnMars(Coordinates { x: 4isize, y: -1isize }), designations: seq![Designation::Land, Designation::Special(SpecialLocation::VolcanicArea)], placement_bonus: seq![ImmediateImpactView::GainResource(Resource::Steel, 1)] }
    } else if i == 12 {
        BoardSpaceView { name: None, location: TileLocation::OnMars(Coordinates { x: 5isize, y: -1isize }), designations: seq![Designation::ReservedForOcean], placement_bonus: seq![ImmediateImpactView::GainResource(Resource::Steel, 2)] }
    } else if i == 13 {
        BoardSpaceView { name: None, location: TileLocation::OnMars(Coordinates { x: 0isize, y: -2isize }), designations: seq![Designation::Land], placement_bonus: Seq::<ImmediateImpactView>::empty() }
    } else if i == 14 {
        BoardSpaceView { name: None, location: TileLocation::OnMars(Coordinates { x: 1isize, y: -2isize }), designations: seq![Designation::Land], placement_bonus: seq![ImmediateImpactView::GainResource(Resource::Plants, 2)] }
    } else {
        BoardSpaceView { name: Some("Noctis City"@), location: TileLocation::OnMars(Coordinates { x: 2isize, y: -2isize }), designations: seq![Designation::Land, Designation::Special(SpecialLocation::NoctisCity)], placement_bonus: seq![ImmediateImpactView::GainResource(Resource::Plants, 2)] }
    }
}

/// Positions 16 to 31 of the standard layout.
pub open spec fn base_game_space_b(i: int) -> BoardSpaceView
    recommends
        16 <= i < 32,
{
    if i == 16 {
        BoardSpaceView { name: None, location: TileLocation::OnMars(Coordinates { x: 3isize, y: -2isize }), designations: seq![Designation::Land], placement_bonus: seq![ImmediateImpactView::GainResource(Resource::Plants, 1)] }
    } else if i == 17 {
        BoardSpaceView { name: None, location: TileLocation::OnMars(Coordinates { x: 4isize, y: -2isize }), designations: seq![Designation::Land], placement_bonus: Seq::<ImmediateImpactView>::empty() }
    } else if i == 18 {
        BoardSpaceView { name: None, location: TileLocation::OnMars(Coordinates { x: 5isize, y: -2isize }), designations: seq![Designation::Land], placement_bonus: Seq::<ImmediateImpactView>::empty() }
    } else if i == 19 {
        BoardSpaceView { name: None, location: TileLocation::OnMars(Coordinates { x: 6isize, y: -2isize }), designations: seq![Designation::Land], placement_bonus: Seq::<ImmediateImpactView>::empty() }
    } else if i == 20 {
        BoardSpaceView { name: None, location: TileLocation::OnMars(Coordinates { x: 0isize, y: -3isize }), designations: seq![Designation::Land], placement_bonus: seq![ImmediateImpactView::GainResource(Resource::Steel, 2)] }
    } else if i == 21 {
        BoardSpaceView { name: None, location: TileLocation::OnMars(Coordinates { x: 1isize, y: -3isize }), designations: seq![Designation::Land], placement_bonus: Seq::<ImmediateImpactView>::empty() }
    } else if i == 22 {
        BoardSpaceView { name: None, location: TileLocation::OnMars(Coordinates { x: 2isize, y: -3isize }), designations: seq![Designation::Land], placement_bonus: seq![ImmediateImpactView::GainResource(Resource::Plants, 1)] }
    } else if i == 23 {
        BoardSpaceView { name: None, location: TileLocation::OnMars(Coordinates { x: 3isize, y: -3isize }), designations: seq![Designation::ReservedForOcean], placement_bonus: seq![ImmediateImpactView::GainResource(Resource::Plants, 2)] }
    } else if i == 24 {
        BoardSpaceView { name: None, location: TileLocation::OnMars(Coordinates { x: 4isize, y: -3isize }), designations: seq![Designation::Land], placement_bonus: seq![ImmediateImpactView::GainResource(Resource::Plants, 1)] }
    } else if i == 25 {
        BoardSpaceView { name: None, location: TileLocation::OnMars(Coordinates { x: 5isize, y: -3isize }), designations: seq![Designation::Land], placement_bonus: Seq::<ImmediateImpactView>::empty() }
    } else if i == 26 {
        BoardSpaceView { name: None, location: TileLocation::OnMars(Coordinates { x: 6isize, y: -3isize }), designations: seq![Designation::Land], placement_bonus: Seq::<ImmediateImpactView>::empty() }
    } else if i == 27 {
        BoardSpaceView { name: None, location: TileLocation::OnMars(Coordinates { x: 7isize, y: -3isize }), designations: seq![Designation::ReservedForOcean], placement_bonus: seq![ImmediateImpactView::DrawCard(1)] }
    } else if i == 28 {
        BoardSpaceView { name: None, location: TileLocation::OnMars(Coordinates { x: 0isize, y: -4isize }), designations: seq![Designation::Land], placement_bonus: seq![ImmediateImpactView::GainResource(Resource::Steel, 1)] }
    } else if i == 29 {
        BoardSpaceView { name: None, location: TileLocation::OnMars(Coordinates { x: 1isize, y: -4isize }), designations: seq![Designation::Land], placement_bonus: Seq::<ImmediateImpactView>::empty() }
    } else if i == 30 {
        BoardSpaceView { name: None, location: TileLocation::OnMars(Coordinates { x: 2isize, y: -4isize }), designations: seq![Designation::Land], placement_bonus: Seq::<ImmediateImpactView>::empty() }
    } else {
        BoardSpaceView { name: None, location: TileLocation::OnMars(Coordinates { x: 3isize, y: -4isize }), designations: seq![Designation::Land], placement_bonus: seq![ImmediateImpactView::GainResource(Resource::Plants, 1)] }
    }
}

/// Positions 32 to 47 of the standard layout.
pub open spec fn base_game_space_c(i: int) -> BoardSpaceView
    recommends
        32 <= i < 48,
{
    if i == 32 {
        BoardSpaceView { name: None, location: TileLocation::OnMars(Coordinates { x: 4isize, y: -4isize }), designations: seq![Designation::ReservedForOcean], placement_bonus: seq![ImmediateImpactView::GainResource(Resource::Plants, 2)] }
    } else if i == 33 {
        BoardSpaceView { name: None, location: TileLocation::OnMars(Coordinates { x: 5isize, y: -4isize }), designations: seq![Designation::Land], placement_bonus: seq![ImmediateImpactView::GainResource(Resource::Plants, 2)] }
    } else if i == 34 {
        BoardSpaceView { name: None, location: TileLocation::OnMars(Coordinates { x: 6isize, y: -4isize }), designations: seq![Designation::Land], placement_bonus: Seq::<ImmediateImpactView>::empty() }
    } else if i == 35 {
        BoardSpaceView { name: None, location: TileLocation::OnMars(Coordinates { x: 7isize, y: -4isize }), designations: seq![Designation::Land], placement_bonus: Seq::<ImmediateImpactView>::empty() }
    } else if i == 36 {
        BoardSpaceView { name: None, location: TileLocation::OnMars(Coordinates { x: 8isize, y: -4isize }), designations: seq![Designation::ReservedForOcean], placement_bonus: Seq::<ImmediateImpactView>::empty() }
    } else if i == 37 {
        BoardSpaceView { name: None, location: TileLocation::OnMars(Coordinates { x: 1isize, y: -5isize }), designations: seq![Designation::Land], placement_bonus: seq![ImmediateImpactView::GainResource(Resource::Steel, 2)] }
    } else if i == 38 {
        BoardSpaceView { name: None, location: TileLocation::OnMars(Coordinates { x: 2isize, y: -5isize }), designations: seq![Designation::Land], placement_bonus: Seq::<ImmediateImpactView>::empty() }
    } else if i == 39 {
        BoardSpaceView { name: None, location: TileLocation::OnMars(Coordinates { x: 3isize, y: -5isize }), designations: seq![Designation::Land], placement_bonus: Seq::<ImmediateImpactView>::empty() }
    } else if i == 40 {
        BoardSpaceView { name: None, location: TileLocation::OnMars(Coordinates { x: 4isize, y: -5isize }), designations: seq![Designation::Land], placement_bonus: seq![ImmediateImpactView::GainResource(Resource::Plants, 1)] }
    } else if i == 41 {
        BoardSpaceView { name: None, location: TileLocation::OnMars(Coordinates { x: 5isize, y: -5isize }), designations: seq![Designation::ReservedForOcean], placement_bonus: seq![ImmediateImpactView::GainResource(Resource::Plants, 2)] }
    } else if i == 42 {
        BoardSpaceView { name: None, location: TileLocation::OnMars(Coordinates { x: 6isize, y: -5isize }), designations: seq![Designation::Land], placement_bonus: seq![ImmediateImpactView::GainResource(Resource::Plants, 1)] }
    } else if i == 43 {
        BoardSpaceView { name: None, location: TileLocation::OnMars(Coordinates { x: 7isize, y: -5isize }), designations: seq![Designation::Land], placement_bonus: Seq::<ImmediateImpactView>::empty() }
    } else if i == 44 {
        BoardSpaceView { name: None, location: TileLocation::OnMars(Coordinates { x: 8isize, y: -5isize }), designations: seq![Designation::ReservedForOcean], placement_bonus: seq![ImmediateImpactView::DrawCard(2)] }
    } else if i == 45 {
        BoardSpaceView { name: None, location: TileLocation::OnMars(Coordinates { x: 2isize, y: -6isize }), designations: seq![Designation::Land], placement_bonus: Seq::<ImmediateImpactView>::empty() }
    } else if i == 46 {
        BoardSpaceView { name: None, location: TileLocation::OnMars(Coordinates { x: 3isize, y: -6isize }), designations: seq![Designation::Land], placement_bonus: seq![ImmediateImpactView::DrawCard(1)] }
    } else {
        BoardSpaceView { name: None, location: TileLocation::OnMars(Coordinates { x: 4isize, y: -6isize }), designations: seq![Designation::Land], placement_bonus: Seq::<ImmediateImpactView>::empty() }
    }
}

/// Positions 48 to 62 of the standard layout.
pub open spec fn base_game_space_d(i: int) -> BoardSpaceView
    recommends
        48 <= i < 63,
{
    if i == 48 {
        BoardSpaceView { name: None, location: TileLocation::OnMars(Coordinates { x: 5isize, y: -6isize }), designations: seq![Designation::ReservedForOcean], placement_bonus: seq![ImmediateImpactView::GainResource(Resource::Plants, 1)] }
    } else if i == 49 {
        BoardSpaceView { name: None, location: TileLocation::OnMars(Coordinates { x: 6isize, y: -6isize }), designations: seq![Designation::Land], placement_bonus: seq![ImmediateImpactView::GainResource(Resource::Plants, 2)] }
    } else if i == 50 {
        BoardSpaceView { name: None, location: TileLocation::OnMars(Coordinates { x: 7isize, y: -6isize }), designations: seq![Designation::Land], placement_bonus: seq![ImmediateImpactView::GainResource(Resource::Plants, 1)] }
    } else if i == 51 {
        BoardSpaceView { name: None, location: TileLocation::OnMars(Coordinates { x: 8isize, y: -6isize }), designations: seq![Designation::Land], placement_bonus: seq![ImmediateImpactView::GainResource(Resource::Steel, 1)] }
    } else if i == 52 {
        BoardSpaceView { name: None, location: TileLocation::OnMars(Coordinates { x: 3isize, y: -7isize }), designations: seq![Designation::Land], placement_bonus: Seq::<ImmediateImpactView>::empty() }
    } else if i == 53 {
        BoardSpaceView { name: None, location: TileLocation::OnMars(Coordinates { x: 4isize, y: -7isize }), designations: seq![Designation::Land], placement_bonus: Seq::<ImmediateImpactView>::empty() }
    } else if i == 54 {
        BoardSpaceView { name: None, location: TileLocation::OnMars(Coordinates { x: 5isize, y: -7isize }), designations: seq![Designation::Land], placement_bonus: seq![ImmediateImpactView::GainResource(Resource::Plants, 1)] }
    } else if i == 55 {
        BoardSpaceView { name: None, location: TileLocation::OnMars(Coordinates { x: 6isize, y: -7isize }), designations: seq![Designation::ReservedForOcean], placement_bonus: seq![ImmediateImpactView::GainResource(Resource::Plants, 1)] }
    } else if i == 56 {
        BoardSpaceView { name: None, location: TileLocation::OnMars(Coordinates { x: 7isize, y: -7isize }), designations: seq![Designation::Land], placement_bonus: seq![ImmediateImpactView::GainResource(Resource::Plants, 2)] }
    } else if i == 57 {
        BoardSpaceView { name: None, location: TileLocation::OnMars(Coordinates { x: 8isize, y: -7isize }), designations: seq![Designation::ReservedForOcean], placement_bonus: seq![ImmediateImpactView::GainResource(Resource::Plants, 2)] }
    } else if i == 58 {
        BoardSpaceView { name: None, location: TileLocation::OnMars(Coordinates { x: 4isize, y: -8isize }), designations: seq![Designation::ReservedForOcean], placement_bonus: seq![ImmediateImpactView::GainResource(Resource::Titanium, 2)] }
    } else if i == 59 {
        BoardSpaceView { name: None, location: TileLocation::OnMars(Coordinates { x: 5isize, y: -8isize }), designations: seq![Designation::Land], placement_bonus: seq![ImmediateImpactView::GainResource(Resource::Titanium, 1)] }
    } else if i == 60 {
        BoardSpaceView { name: None, location: TileLocation::OnMars(Coordinates { x: 6isize, y: -8isize }), designations: seq![Designation::Land], placement_bonus: Seq::<ImmediateImpactView>::empty() }
    } else if i == 61 {
        BoardSpaceView { name: None, location: TileLocation::OnMars(Coordinates { x: 7isize, y: -8isize }), designations: seq![Designation::ReservedForOcean], placement_bonus: seq![ImmediateImpactView::GainResource(Resource::Plants, 1)] }
    } else {
        BoardSpaceView { name: None, location: TileLocation::OnMars(Coordinates { x: 8isize, y: -8isize }), designations: seq![Designation::Land], placement_bonus: seq![ImmediateImpactView::GainResource(Resource::Plants, 2)] }
    }
}

/// The standard board layout, space by space: the two off-board spaces
/// first, then the on-Mars columns from the top-left edge.
pub open spec fn base_game_space(i: int) -> BoardSpaceView
    recommends
        0 <= i < 63,
{
    if i < 16 {
        base_game_space_a(i)
    } else if i < 32 {
        base_game_space_b(i)
    } else if i < 48 {
        base_game_space_c(i)
    } else {
        base_game_space_d(i)
    }
}

/// The layout position of a location on the standard board, or a negative
/// value for a location the layout does not hold.
pub open spec fn base_game_slot(loc: TileLocation) -> int {
    match loc {
        TileLocation::OffMars(SpecialLocation::PhobosSpaceHaven) => 0,
        TileLocation::OffMars(SpecialLocation::GanymedeColony) => 1,
        TileLocation::OffMars(_) => -1,
        TileLocation::OnMars(c) => {
            if c.y == 0 {
                if c.x == 0 {
                    2
                } else if c.x == 1 {
                    3
                } else if c.x == 2 {
                    4
                } else if c.x == 3 {
                    5
                } else if c.x == 4 {
                    6
                } else {
                    -1
                }
            } else if c.y == -1 {
                if c.x == 0 {
                    7
                } else if c.x == 1 {
                    8
                } else if c.x == 2 {
                    9
                } else if c.x == 3 {
                    10
                } else if c.x == 4 {
                    11
                } else if c.x == 5 {
                    12
                } else {
                    -1
                }
            } else if c.y == -2 {
                if c.x == 0 {
                    13
                } else if c.x == 1 {
                    14
                } else if c.x == 2 {
                    15
                } else if c.x == 3 {
                    16
                } else if c.x == 4 {
                    17
                } else if c.x == 5 {
                    18
                } else if c.x == 6 {
                    19
                } else {
                    -1
                }
            } else if c.y == -3 {
                if c.x == 0 {
                    20
                } else if c.x == 1 {
                    21
                } else if c.x == 2 {
                    22
                } else if c.x == 3 {
                    23
                } else if c.x == 4 {
                    24
                } else if c.x == 5 {
                    25
                } else if c.x == 6 {
                    26
                } else if c.x == 7 {
                    27
                } else {
                    -1
                }
            } else if c.y == -4 {
                if c.x == 0 {
                    28
                } else if c.x == 1 {
                    29
                } else if c.x == 2 {
                    30
                } else if c.x == 3 {
                    31
                } else if c.x == 4 {
                    32
                } else if c.x == 5 {
                    33
                } else if c.x == 6 {
                    34
                } else if c.x == 7 {
                    35
                } else if c.x == 8 {
                    36
                } else {
                    -1
                }
            } else if c.y == -5 {
                if c.x == 1 {
                    37
                } else if c.x == 2 {
                    38
                } else if c.x == 3 {
                    39
                } else if c.x == 4 {
                    40
                } else if c.x == 5 {
                    41
                } else if c.x == 6 {
                    42
                } else if c.x == 7 {
                    43
                } else if c.x == 8 {
                    44
                } else {
                    -1
                }
            } else if c.y == -6 {
                if c.x == 2 {
                    45
                } else if c.x == 3 {
                    46
                } else if c.x == 4 {
                    47
                } else if c.x == 5 {
                    48
                } else if c.x == 6 {
                    49
                } else if c.x == 7 {
                    50
                } else if c.x == 8 {
                    51
                } else {
                    -1
                }
            } else if c.y == -7 {
                if c.x == 3 {
                    52
                } else if c.x == 4 {
                    53
                } else if c.x == 5 {
                    54
                } else if c.x == 6 {
                    55
                } else if c.x == 7 {
                    56
                } else if c.x == 8 {
                    57
                } else {
                    -1
                }
            } else if c.y == -8 {
                if c.x == 4 {
                    58
                } else if c.x == 5 {
                    59
                } else if c.x == 6 {
                    60
                } else if c.x == 7 {
                    61
                } else if c.x == 8 {
                    62
                } else {
                    -1
                }
            } else {
                -1
            }
        },
    }
}

/// The slot facts for positions 0 to 15.
#[verifier::rlimit(100)]
proof fn lemma_base_game_slots_a()
    ensures
        forall|i: int| 0 <= i < 16 ==> base_game_slot(#[trigger] base_game_space(i).location)
            == i,
{
    assert forall|i: int| 0 <= i < 16 implies base_game_slot(
        #[trigger] base_game_space(i).location,
    ) == i by {
        if i == 0 {
            assert(base_game_slot(base_game_space(0).location) == 0);
        } else if i == 1 {
            assert(base_game_slot(base_game_space(1).location) == 1);
        } else if i == 2 {
            assert(base_game_slot(base_game_space(2).location) == 2);
        } else if i == 3 {
            assert(base_game_slot(base_game_space(3).location) == 3);
        } else if i == 4 {
            assert(base_game_slot(base_game_space(4).location) == 4);
        } else if i == 5 {
            assert(base_game_slot(base_game_space(5).location) == 5);
        } else if i == 6 {
            assert(base_game_slot(base_game_space(6).location) == 6);
        } else if i == 7 {
            assert(base_game_slot(base_game_space(7).location) == 7);
        } else if i == 8 {
            assert(base_game_slot(base_game_space(8).location) == 8);
        } else if i == 9 {
            assert(base_game_slot(base_game_space(9).location) == 9);
        } else if i == 10 {
            assert(base_game_slot(base_game_space(10).location) == 10);
        } else if i == 11 {
            assert(base_game_slot(base_game_space(11).location) == 11);
        } else if i == 12 {
            assert(base_game_slot(base_game_space(12).location) == 12);
        } else if i == 13 {
            assert(base_game_slot(base_game_space(13).location) == 13);
        } else if i == 14 {
            assert(base_game_slot(base_game_space(14).location) == 14);
        } else {
            assert(base_game_slot(base_game_space(15).location) == 15);
        }
    }
}

/// The slot facts for positions 16 to 31.
#[verifier::rlimit(100)]
proof fn lemma_base_game_slots_b()
    ensures
        forall|i: int| 16 <= i < 32 ==> base_game_slot(#[trigger] base_game_space(i).location)
            == i,
{
    assert forall|i: int| 16 <= i < 32 implies base_game_slot(
        #[trigger] base_game_space(i).location,
    ) == i by {
        if i == 16 {
            assert(base_game_slot(base_game_space(16).location) == 16);
        } else if i == 17 {
            assert(base_game_slot(base_game_space(17).location) == 17);
        } else if i == 18 {
            assert(base_game_slot(base_game_space(18).location) == 18);
        } else if i == 19 {
            assert(base_game_slot(base_game_space(19).location) == 19);
        } else if i == 20 {
            assert(base_game_slot(base_game_space(20).location) == 20);
        } else if i == 21 {
            assert(base_game_slot(base_game_space(21).location) == 21);
        } else if i == 22 {
            assert(base_game_slot(base_game_space(22).location) == 22);
        } else if i == 23 {
            assert(base_game_slot(base_game_space(23).location) == 23);
        } else if i == 24 {
            assert(base_game_slot(base_game_space(24).location) == 24);
        } else if i == 25 {
            assert(base_game_slot(base_game_space(25).location) == 25);
        } else if i == 26 {
            assert(base_game_slot(base_game_space(26).location) == 26);
        } else if i == 27 {
            assert(base_game_slot(base_game_space(27).location) == 27);
        } else if i == 28 {
            assert(base_game_slot(base_game_space(28).location) == 28);
        } else if i == 29 {
            assert(base_game_slot(base_game_space(29).location) == 29);
        } else if i == 30 {
            assert(base_game_slot(base_game_space(30).location) == 30);
        } else {
            assert(base_game_slot(base_game_space(31).location) == 31);
        }
    }
}

/// The slot facts for positions 32 to 47.
#[verifier::rlimit(100)]
proof fn lemma_base_game_slots_c()
    ensures
        forall|i: int| 32 <= i < 48 ==> base_game_slot(#[trigger] base_game_space(i).location)
            == i,
{
    assert forall|i: int| 32 <= i < 48 implies base_game_slot(
        #[trigger] base_game_space(i).location,
    ) == i by {
        if i == 32 {
            assert(base_game_slot(base_game_space(32).location) == 32);
        } else if i == 33 {
            assert(base_game_slot(base_game_space(33).location) == 33);
        } else if i == 34 {
            assert(base_game_slot(base_game_space(34).location) == 34);
        } else if i == 35 {
            assert(base_game_slot(base_game_space(35).location) == 35);
        } else if i == 36 {
            assert(base_game_slot(base_game_space(36).location) == 36);
        } else if i == 37 {
            assert(base_game_slot(base_game_space(37).location) == 37);
        } else if i == 38 {
            assert(base_game_slot(base_game_space(38).location) == 38);
        } else if i == 39 {
            assert(base_game_slot(base_game_space(39).location) == 39);
        } else if i == 40 {
            assert(base_game_slot(base_game_space(40).location) == 40);
        } else if i == 41 {
            assert(base_game_slot(base_game_space(41).location) == 41);
        } else if i == 42 {
            assert(base_game_slot(base_game_space(42).location) == 42);
        } else if i == 43 {
            assert(base_game_slot(base_game_space(43).location) == 43);
        } else if i == 44 {
            assert(base_game_slot(base_game_space(44).location) == 44);
        } else if i == 45 {
            assert(base_game_slot(base_game_space(45).location) == 45);
        } else if i == 46 {
            assert(base_game_slot(base_game_space(46).location) == 46);
        } else {
            assert(base_game_slot(base_game_space(47).location) == 47);
        }
    }
}

/// The slot facts for positions 48 to 62.
#[verifier::rlimit(100)]
proof fn lemma_base_game_slots_d()
    ensures
        forall|i: int| 48 <= i < 63 ==> base_game_slot(#[trigger] base_game_space(i).location)
            == i,
{
    assert forall|i: int| 48 <= i < 63 implies base_game_slot(
        #[trigger] base_game_space(i).location,
    ) == i by {
        if i == 48 {
            assert(base_game_slot(base_game_space(48).location) == 48);
        } else if i == 49 {
            assert(base_game_slot(base_game_space(49).location) == 49);
        } else if i == 50 {
            assert(base_game_slot(base_game_space(50).location) == 50);
        } else if i == 51 {
            assert(base_game_slot(base_game_space(51).location) == 51);
        } else if i == 52 {
            assert(base_game_slot(base_game_space(52).location) == 52);
        } else if i == 53 {
            assert(base_game_slot(base_game_space(53).location) == 53);
        } else if i == 54 {
            assert(base_game_slot(base_game_space(54).location) == 54);
        } else if i == 55 {
            assert(base_game_slot(base_game_space(55).location) == 55);
        } else if i == 56 {
            assert(base_game_slot(base_game_space(56).location) == 56);
        } else if i == 57 {
            assert(base_game_slot(base_game_space(57).location) == 57);
        } else if i == 58 {
            assert(base_game_slot(base_game_space(58).location) == 58);
        } else if i == 59 {
            assert(base_game_slot(base_game_space(59).location) == 59);
        } else if i == 60 {
            assert(base_game_slot(base_game_space(60).location) == 60);
        } else if i == 61 {
            assert(base_game_slot(base_game_space(61).location) == 61);
        } else {
            assert(base_game_slot(base_game_space(62).location) == 62);
        }
    }
}

/// Every layout position carries its own location: the standard board's
/// spaces sit at pairwise distinct locations.
pub proof fn lemma_base_game_locations_distinct()
    ensures
        forall|i: int| 0 <= i < 63 ==> base_game_slot(#[trigger] base_game_space(i).location) == i,
        forall|i: int, j: int| 0 <= i < j < 63 ==> base_game_space(i).location != base_game_space(
            j,
        ).location,
{
    lemma_base_game_slots_a();
    lemma_base_game_slots_b();
    lemma_base_game_slots_c();
    lemma_base_game_slots_d();
}

/// Builds the layout space at one position among 0 to 15.
#[verifier::rlimit(100)]
fn base_game_space_at_a(i: usize) -> (sp: BoardSpace)
    requires
        0 <= i < 16,
    ensures
        sp.deep_view() == base_game_space(i as int),
{
    if i == 0 {
        let mut designations: Vec<Designation> = Vec::new();
        designations.push(Designation::NonMarsTile);
        designations.push(Designation::Special(SpecialLocation::PhobosSpaceHaven));
        let sp = BoardSpace::new(
            Some("Phobos Space Haven".to_owned()),
            TileLocation::OffMars(SpecialLocation::PhobosSpaceHaven),
            designations,
            Vec::new(),
        );
        proof {
            assert(sp.designations.deep_view() =~= seq![Designation::NonMarsTile, Designation::Special(SpecialLocation::PhobosSpaceHaven)]);
            assert(sp.placement_bonus.deep_view() =~= Seq::<ImmediateImpactView>::empty());
            assert(sp.deep_view() == base_game_space(0));
        }
        sp
    } else if i == 1 {
        let mut designations: Vec<Designation> = Vec::new();
        designations.push(Designation::NonMarsTile);
        designations.push(Designation::Special(SpecialLocation::GanymedeColony));
        let sp = BoardSpace::new(
            Some("Ganymede Colony".to_owned()),
            TileLocation::OffMars(SpecialLocation::GanymedeColony),
            designations,
            Vec::new(),
        );
        proof {
            assert(sp.designations.deep_view() =~= seq![Designation::NonMarsTile, Designation::Special(SpecialLocation::GanymedeColony)]);
            assert(sp.placement_bonus.deep_view() =~= Seq::<ImmediateImpactView>::empty());
            assert(sp.deep_view() == base_game_space(1));
        }
        sp
    } else if i == 2 {
        let mut designations: Vec<Designation> = Vec::new();
        designations.push(Designation::Land);
        designations.push(Designation::Special(SpecialLocation::VolcanicArea));
        let mut bonus: Vec<ImmediateImpact> = Vec::new();
        bonus.push(ImmediateImpact::GainResource(Resource::Plants, 2));
        let sp = BoardSpace::new(
            Some("Arsia Mons".to_owned()),
            TileLocation::OnMars(Coordinates::new(0, 0)),
            designations,
            bonus,
        );
        proof {
            assert(sp.designations.deep_view() =~= seq![Designation::Land, Designation::Special(SpecialLocation::VolcanicArea)]);
            assert(sp.placement_bonus.deep_view() =~= seq![ImmediateImpactView::GainResource(Resource::Plants, 2)]);
            assert(sp.deep_view() == base_game_space(2));
        }
        sp
    } else if i == 3 {
        let mut designations: Vec<Designation> = Vec::new();
        designations.push(Designation::Land);
        designations.push(Designation::Special(SpecialLocation::VolcanicArea));
        let mut bonus: Vec<ImmediateImpact> = Vec::new();
        bonus.push(ImmediateImpact::GainResource(Resource::Plants, 1));
        bonus.push(ImmediateImpact::GainResource(Resource::Titanium, 1));
        let sp = BoardSpace::new(
            Some("Pavonis Mons".to_owned()),
            TileLocation::OnMars(Coordinates::new(1, 0)),
            designations,
            bonus,
        );
        proof {
            assert(sp.designations.deep_view() =~= seq![Designation::Land, Designation::Special(SpecialLocation::VolcanicArea)]);
            assert(sp.placement_bonus.deep_view() =~= seq![ImmediateImpactView::GainResource(Resource::Plants, 1), ImmediateImpactView::GainResource(Resource::Titanium, 1)]);
            assert(sp.deep_view() == base_game_space(3));
        }
        sp
    } else if i == 4 {
        let mut designations: Vec<Designation> = Vec::new();
        designations.push(Designation::Land);
        designations.push(Designation::Special(SpecialLocation::VolcanicArea));
        let mut bonus: Vec<ImmediateImpact> = Vec::new();
        bonus.push(ImmediateImpact::DrawCard(1));
        let sp = BoardSpace::new(
            Some("Ascraeus Mons".to_owned()),
            TileLocation::OnMars(Coordinates::new(2, 0)),
            designations,
            bonus,
        );
        proof {
            assert(sp.designations.deep_view() =~= seq![Designation::Land, Designation::Special(SpecialLocation::VolcanicArea)]);
            assert(sp.placement_bonus.deep_view() =~= seq![ImmediateImpactView::DrawCard(1)]);
            assert(sp.deep_view() == base_game_space(4));
        }
        sp
    } else if i == 5 {
        let sp = BoardSpace::new_non_bonus_land_on_mars(Coordinates::new(3, 0));
        proof {
            assert(sp.designations.deep_view() =~= sp.designations@);
            assert(sp.placement_bonus.deep_view() =~= Seq::<ImmediateImpactView>::empty());
            assert(sp.deep_view() == base_game_space(5));
        }
        sp
    } else if i == 6 {
        let sp = BoardSpace::new_resource_bonus_land_on_mars(Coordinates::new(4, 0), Resource::Steel, 2);
        proof {
            assert(sp.designations.deep_view() =~= sp.designations@);
            assert(sp.deep_view() == base_game_space(6));
        }
        sp
    } else if i == 7 {
        let sp = BoardSpace::new_resource_bonus_land_on_mars(Coordinates::new(0, -1), Resource::Plants, 1);
        proof {
            assert(sp.designations.deep_view() =~= sp.designations@);
            assert(sp.deep_view() == base_game_space(7));
        }
        sp
    } else if i == 8 {
        let sp = BoardSpace::new_resource_bonus_land_on_mars(Coordinates::new(1, -1), Resource::Plants, 2);
        proof {
            assert(sp.designations.deep_view() =~= sp.designations@);
            assert(sp.deep_view() == base_game_space(8));
        }
        sp
    } else if i == 9 {
        let sp = BoardSpace::new_resource_bonus_land_on_mars(Coordinates::new(2, -1), Resource::Plants, 1);
        proof {
            assert(sp.designations.deep_view() =~= sp.designations@);
            assert(sp.deep_view() == base_game_space(9));
        }
        sp
    } else if i == 10 {
        let sp = BoardSpace::new_non_bonus_land_on_mars(Coordinates::new(3, -1));
        proof {
            assert(sp.designations.deep_view() =~= sp.designations@);
            assert(sp.placement_bonus.deep_view() =~= Seq::<ImmediateImpactView>::empty());
            assert(sp.deep_view() == base_game_space(10));
        }
        sp
    } else if i == 11 {
        let mut designations: Vec<Designation> = Vec::new();
        designations.push(Designation::Land);
        designations.push(Designation::Special(SpecialLocation::VolcanicArea));
        let mut bonus: Vec<ImmediateImpact> = Vec::new();
        bonus.push(ImmediateImpact::GainResource(Resource::Steel, 1));
        let sp = BoardSpace::new(
            Some("Tharsis Tholus".to_owned()),
            TileLocation::OnMars(Coordinates::new(4, -1)),
            designations,
            bonus,
        );
        proof {
            assert(sp.designations.deep_view() =~= seq![Designation::Land, Designation::Special(SpecialLocation::VolcanicArea)]);
            assert(sp.placement_bonus.deep_view() =~= seq![ImmediateImpactView::GainResource(Resource::Steel, 1)]);
            assert(sp.deep_view() == base_game_space(11));
        }
        sp
    } else if i == 12 {
        let sp = BoardSpace::new_resource_bonus_ocean_on_mars(Coordinates::new(5, -1), Resource::Steel, 2);
        proof {
            assert(sp.designations.deep_view() =~= sp.designations@);
            assert(sp.deep_view() == base_game_space(12));
        }
        sp
    } else if i == 13 {
        let sp = BoardSpace::new_non_bonus_land_on_mars(Coordinates::new(0, -2));
        proof {
            assert(sp.designations.deep_view() =~= sp.designations@);
            assert(sp.placement_bonus.deep_view() =~= Seq::<ImmediateImpactView>::empty());
            assert(sp.deep_view() == base_game_space(13));
        }
        sp
    } else if i == 14 {
        let sp = BoardSpace::new_resource_bonus_land_on_mars(Coordinates::new(1, -2), Resource::Plants, 2);
        proof {
            assert(sp.designations.deep_view() =~= sp.designations@);
            assert(sp.deep_view() == base_game_space(14));
        }
        sp
    } else {
        let mut designations: Vec<Designation> = Vec::new();
        designations.push(Designation::Land);
        designations.push(Designation::Special(SpecialLocation::NoctisCity));
        let mut bonus: Vec<ImmediateImpact> = Vec::new();
        bonus.push(ImmediateImpact::GainResource(Resource::Plants, 2));
        let sp = BoardSpace::new(
            Some("Noctis City".to_owned()),
            TileLocation::OnMars(Coordinates::new(2, -2)),
            designations,
            bonus,
        );
        proof {
            assert(sp.designations.deep_view() =~= seq![Designation::Land, Designation::Special(SpecialLocation::NoctisCity)]);
            assert(sp.placement_bonus.deep_view() =~= seq![ImmediateImpactView::GainResource(Resource::Plants, 2)]);
            assert(sp.deep_view() == base_game_space(15));
        }
        sp
    }
}

/// Builds the layout space at one position among 16 to 31.
#[verifier::rlimit(100)]
fn base_game_space_at_b(i: usize) -> (sp: BoardSpace)
    requires
        16 <= i < 32,
    ensures
        sp.deep_view() == base_game_space(i as int),
{
    if i == 16 {
        let sp = BoardSpace::new_resource_bonus_land_on_mars(Coordinates::new(3, -2), Resource::Plants, 1);
        proof {
            assert(sp.designations.deep_view() =~= sp.designations@);
            assert(sp.deep_view() == base_game_space(16));
        }
        sp
    } else if i == 17 {
        let sp = BoardSpace::new_non_bonus_land_on_mars(Coordinates::new(4, -2));
        proof {
            assert(sp.designations.deep_view() =~= sp.designations@);
            assert(sp.placement_bonus.deep_view() =~= Seq::<ImmediateImpactView>::empty());
            assert(sp.deep_view() == base_game_space(17));
        }
        sp
    } else if i == 18 {
        let sp = BoardSpace::new_non_bonus_land_on_mars(Coordinates::new(5, -2));
        proof {
            assert(sp.designations.deep_view() =~= sp.designations@);
            assert(sp.placement_bonus.deep_view() =~= Seq::<ImmediateImpactView>::empty());
            assert(sp.deep_view() == base_game_space(18));
        }
        sp
    } else if i == 19 {
        let sp = BoardSpace::new_non_bonus_land_on_mars(Coordinates::new(6, -2));
        proof {
            assert(sp.designations.deep_view() =~= sp.designations@);
            assert(sp.placement_bonus.deep_view() =~= Seq::<ImmediateImpactView>::empty());
            assert(sp.deep_view() == base_game_space(19));
        }
        sp
    } else if i == 20 {
        let sp = BoardSpace::new_resource_bonus_land_on_mars(Coordinates::new(0, -3), Resource::Steel, 2);
        proof {
            assert(sp.designations.deep_view() =~= sp.designations@);
            assert(sp.deep_view() == base_game_space(20));
        }
        sp
    } else if i == 21 {
        let sp = BoardSpace::new_non_bonus_land_on_mars(Coordinates::new(1, -3));
        proof {
            assert(sp.designations.deep_view() =~= sp.designations@);
            assert(sp.placement_bonus.deep_view() =~= Seq::<ImmediateImpactView>::empty());
            assert(sp.deep_view() == base_game_space(21));
        }
        sp
    } else if i == 22 {
        let sp = BoardSpace::new_resource_bonus_land_on_mars(Coordinates::new(2, -3), Resource::Plants, 1);
        proof {
            assert(sp.designations.deep_view() =~= sp.designations@);
            assert(sp.deep_view() == base_game_space(22));
        }
        sp
    } else if i == 23 {
        let sp = BoardSpace::new_resource_bonus_ocean_on_mars(Coordinates::new(3, -3), Resource::Plants, 2);
        proof {
            assert(sp.designations.deep_view() =~= sp.designations@);
            assert(sp.deep_view() == base_game_space(23));
        }
        sp
    } else if i == 24 {
        let sp = BoardSpace::new_resource_bonus_land_on_mars(Coordinates::new(4, -3), Resource::Plants, 1);
        proof {
            assert(sp.designations.deep_view() =~= sp.designations@);
            assert(sp.deep_view() == base_game_space(24));
        }
        sp
    } else if i == 25 {
        let sp = BoardSpace::new_non_bonus_land_on_mars(Coordinates::new(5, -3));
        proof {
            assert(sp.designations.deep_view() =~= sp.designations@);
            assert(sp.placement_bonus.deep_view() =~= Seq::<ImmediateImpactView>::empty());
            assert(sp.deep_view() == base_game_space(25));
        }
        sp
    } else if i == 26 {
        let sp = BoardSpace::new_non_bonus_land_on_mars(Coordinates::new(6, -3));
        proof {
            assert(sp.designations.deep_view() =~= sp.designations@);
            assert(sp.placement_bonus.deep_view() =~= Seq::<ImmediateImpactView>::empty());
            assert(sp.deep_view() == base_game_space(26));
        }
        sp
    } else if i == 27 {
        let sp = BoardSpace::new_card_draw_ocean_on_mars(Coordinates::new(7, -3), 1);
        proof {
            assert(sp.designations.deep_view() =~= sp.designations@);
            assert(sp.deep_view() == base_game_space(27));
        }
        sp
    } else if i == 28 {
        let sp = BoardSpace::new_resource_bonus_land_on_mars(Coordinates::new(0, -4), Resource::Steel, 1);
        proof {
            assert(sp.designations.deep_view() =~= sp.designations@);
            assert(sp.deep_view() == base_game_space(28));
        }
        sp
    } else if i == 29 {
        let sp = BoardSpace::new_non_bonus_land_on_mars(Coordinates::new(1, -4));
        proof {
            assert(sp.designations.deep_view() =~= sp.designations@);
            assert(sp.placement_bonus.deep_view() =~= Seq::<ImmediateImpactView>::empty());
            assert(sp.deep_view() == base_game_space(29));
        }
        sp
    } else if i == 30 {
        let sp = BoardSpace::new_non_bonus_land_on_mars(Coordinates::new(2, -4));
        proof {
            assert(sp.designations.deep_view() =~= sp.designations@);
            assert(sp.placement_bonus.deep_view() =~= Seq::<ImmediateImpactView>::empty());
            assert(sp.deep_view() == base_game_space(30));
        }
        sp
    } else {
        let sp = BoardSpace::new_resource_bonus_land_on_mars(Coordinates::new(3, -4), Resource::Plants, 1);
        proof {
            assert(sp.designations.deep_view() =~= sp.designations@);
            assert(sp.deep_view() == base_game_space(31));
        }
        sp
    }
}

/// Builds the layout space at one position among 32 to 47.
#[verifier::rlimit(100)]
fn base_game_space_at_c(i: usize) -> (sp: BoardSpace)
    requires
        32 <= i < 48,
    ensures
        sp.deep_view() == base_game_space(i as int),
{
    if i == 32 {
        let sp = BoardSpace::new_resource_bonus_ocean_on_mars(Coordinates::new(4, -4), Resource::Plants, 2);
        proof {
            assert(sp.designations.deep_view() =~= sp.designations@);
            assert(sp.deep_view() == base_game_space(32));
        }
        sp
    } else if i == 33 {
        let sp = BoardSpace::new_resource_bonus_land_on_mars(Coordinates::new(5, -4), Resource::Plants, 2);
        proof {
            assert(sp.designations.deep_view() =~= sp.designations@);
            assert(sp.deep_view() == base_game_space(33));
        }
        sp
    } else if i == 34 {
        let sp = BoardSpace::new_non_bonus_land_on_mars(Coordinates::new(6, -4));
        proof {
            assert(sp.designations.deep_view() =~= sp.designations@);
            assert(sp.placement_bonus.deep_view() =~= Seq::<ImmediateImpactView>::empty());
            assert(sp.deep_view() == base_game_space(34));
        }
        sp
    } else if i == 35 {
        let sp = BoardSpace::new_non_bonus_land_on_mars(Coordinates::new(7, -4));
        proof {
            assert(sp.designations.deep_view() =~= sp.designations@);
            assert(sp.placement_bonus.deep_view() =~= Seq::<ImmediateImpactView>::empty());
            assert(sp.deep_view() == base_game_space(35));
        }
        sp
    } else if i == 36 {
        let sp = BoardSpace::new_ocean_on_mars(Coordinates::new(8, -4), Vec::new());
        proof {
            assert(sp.designations.deep_view() =~= sp.designations@);
            assert(sp.placement_bonus.deep_view() =~= Seq::<ImmediateImpactView>::empty());
            assert(sp.deep_view() == base_game_space(36));
        }
        sp
    } else if i == 37 {
        let sp = BoardSpace::new_resource_bonus_land_on_mars(Coordinates::new(1, -5), Resource::Steel, 2);
        proof {
            assert(sp.designations.deep_view() =~= sp.designations@);
            assert(sp.deep_view() == base_game_space(37));
        }
        sp
    } else if i == 38 {
        let sp = BoardSpace::new_non_bonus_land_on_mars(Coordinates::new(2, -5));
        proof {
            assert(sp.designations.deep_view() =~= sp.designations@);
            assert(sp.placement_bonus.deep_view() =~= Seq::<ImmediateImpactView>::empty());
            assert(sp.deep_view() == base_game_space(38));
        }
        sp
    } else if i == 39 {
        let sp = BoardSpace::new_non_bonus_land_on_mars(Coordinates::new(3, -5));
        proof {
            assert(sp.designations.deep_view() =~= sp.designations@);
            assert(sp.placement_bonus.deep_view() =~= Seq::<ImmediateImpactView>::empty());
            assert(sp.deep_view() == base_game_space(39));
        }
        sp
    } else if i == 40 {
        let sp = BoardSpace::new_resource_bonus_land_on_mars(Coordinates::new(4, -5), Resource::Plants, 1);
        proof {
            assert(sp.designations.deep_view() =~= sp.designations@);
            assert(sp.deep_view() == base_game_space(40));
        }
        sp
    } else if i == 41 {
        let sp = BoardSpace::new_resource_bonus_ocean_on_mars(Coordinates::new(5, -5), Resource::Plants, 2);
        proof {
            assert(sp.designations.deep_view() =~= sp.designations@);
            assert(sp.deep_view() == base_game_space(41));
        }
        sp
    } else if i == 42 {
        let sp = BoardSpace::new_resource_bonus_land_on_mars(Coordinates::new(6, -5), Resource::Plants, 1);
        proof {
            assert(sp.designations.deep_view() =~= sp.designations@);
            assert(sp.deep_view() == base_game_space(42));
        }
        sp
    } else if i == 43 {
        let sp = BoardSpace::new_non_bonus_land_on_mars(Coordinates::new(7, -5));
        proof {
            assert(sp.designations.deep_view() =~= sp.designations@);
            assert(sp.placement_bonus.deep_view() =~= Seq::<ImmediateImpactView>::empty());
            assert(sp.deep_view() == base_game_space(43));
        }
        sp
    } else if i == 44 {
        let sp = BoardSpace::new_card_draw_ocean_on_mars(Coordinates::new(8, -5), 2);
        proof {
            assert(sp.designations.deep_view() =~= sp.designations@);
            assert(sp.deep_view() == base_game_space(44));
        }
        sp
    } else if i == 45 {
        let sp = BoardSpace::new_non_bonus_land_on_mars(Coordinates::new(2, -6));
        proof {
            assert(sp.designations.deep_view() =~= sp.designations@);
            assert(sp.placement_bonus.deep_view() =~= Seq::<ImmediateImpactView>::empty());
            assert(sp.deep_view() == base_game_space(45));
        }
        sp
    } else if i == 46 {
        let sp = BoardSpace::new_card_draw_land_on_mars(Coordinates::new(3, -6), 1);
        proof {
            assert(sp.designations.deep_view() =~= sp.designations@);
            assert(sp.deep_view() == base_game_space(46));
        }
        sp
    } else {
        let sp = BoardSpace::new_non_bonus_land_on_mars(Coordinates::new(4, -6));
        proof {
            assert(sp.designations.deep_view() =~= sp.designations@);
            assert(sp.placement_bonus.deep_view() =~= Seq::<ImmediateImpactView>::empty());
            assert(sp.deep_view() == base_game_space(47));
        }
        sp
    }
}

/// Builds the layout space at one position among 48 to 62.
#[verifier::rlimit(100)]
fn base_game_space_at_d(i: usize) -> (sp: BoardSpace)
    requires
        48 <= i < 63,
    ensures
        sp.deep_view() == base_game_space(i as int),
{
    if i == 48 {
        let sp = BoardSpace::new_resource_bonus_ocean_on_mars(Coordinates::new(5, -6), Resource::Plants, 1);
        proof {
            assert(sp.designations.deep_view() =~= sp.designations@);
            assert(sp.deep_view() == base_game_space(48));
        }
        sp
    } else if i == 49 {
        let sp = BoardSpace::new_resource_bonus_land_on_mars(Coordinates::new(6, -6), Resource::Plants, 2);
        proof {
            assert(sp.designations.deep_view() =~= sp.designations@);
            assert(sp.deep_view() == base_game_space(49));
        }
        sp
    } else if i == 50 {
        let sp = BoardSpace::new_resource_bonus_land_on_mars(Coordinates::new(7, -6), Resource::Plants, 1);
        proof {
            assert(sp.designations.deep_view() =~= sp.designations@);
            assert(sp.deep_view() == base_game_space(50));
        }
        sp
    } else if i == 51 {
        let sp = BoardSpace::new_resource_bonus_land_on_mars(Coordinates::new(8, -6), Resource::Steel, 1);
        proof {
            assert(sp.designations.deep_view() =~= sp.designations@);
            assert(sp.deep_view() == base_game_space(51));
        }
        sp
    } else if i == 52 {
        let sp = BoardSpace::new_non_bonus_land_on_mars(Coordinates::new(3, -7));
        proof {
            assert(sp.designations.deep_view() =~= sp.designations@);
            assert(sp.placement_bonus.deep_view() =~= Seq::<ImmediateImpactView>::empty());
            assert(sp.deep_view() == base_game_space(52));
        }
        sp
    } else if i == 53 {
        let sp = BoardSpace::new_non_bonus_land_on_mars(Coordinates::new(4, -7));
        proof {
            assert(sp.designations.deep_view() =~= sp.designations@);
            assert(sp.placement_bonus.deep_view() =~= Seq::<ImmediateImpactView>::empty());
            assert(sp.deep_view() == base_game_space(53));
        }
        sp
    } else if i == 54 {
        let sp = BoardSpace::new_resource_bonus_land_on_mars(Coordinates::new(5, -7), Resource::Plants, 1);
        proof {
            assert(sp.designations.deep_view() =~= sp.designations@);
            assert(sp.deep_view() == base_game_space(54));
        }
        sp
    } else if i == 55 {
        let sp = BoardSpace::new_resource_bonus_ocean_on_mars(Coordinates::new(6, -7), Resource::Plants, 1);
        proof {
            assert(sp.designations.deep_view() =~= sp.designations@);
            assert(sp.deep_view() == base_game_space(55));
        }
        sp
    } else if i == 56 {
        let sp = BoardSpace::new_resource_bonus_land_on_mars(Coordinates::new(7, -7), Resource::Plants, 2);
        proof {
            assert(sp.designations.deep_view() =~= sp.designations@);
            assert(sp.deep_view() == base_game_space(56));
        }
        sp
    } else if i == 57 {
        let sp = BoardSpace::new_resource_bonus_ocean_on_mars(Coordinates::new(8, -7), Resource::Plants, 2);
        proof {
            assert(sp.designations.deep_view() =~= sp.designations@);
            assert(sp.deep_view() == base_game_space(57));
        }
        sp
    } else if i == 58 {
        let sp = BoardSpace::new_resource_bonus_ocean_on_mars(Coordinates::new(4, -8), Resource::Titanium, 2);
        proof {
            assert(sp.designations.deep_view() =~= sp.designations@);
            assert(sp.deep_view() == base_game_space(58));
        }
        sp
    } else if i == 59 {
        let sp = BoardSpace::new_resource_bonus_land_on_mars(Coordinates::new(5, -8), Resource::Titanium, 1);
        proof {
            assert(sp.designations.deep_view() =~= sp.designations@);
            assert(sp.deep_view() == base_game_space(59));
        }
        sp
    } else if i == 60 {
        let sp = BoardSpace::new_non_bonus_land_on_mars(Coordinates::new(6, -8));
        proof {
            assert(sp.designations.deep_view() =~= sp.designations@);
            assert(sp.placement_bonus.deep_view() =~= Seq::<ImmediateImpactView>::empty());
            assert(sp.deep_view() == base_game_space(60));
        }
        sp
    } else if i == 61 {
        let sp = BoardSpace::new_resource_bonus_ocean_on_mars(Coordinates::new(7, -8), Resource::Plants, 1);
        proof {
            assert(sp.designations.deep_view() =~= sp.designations@);
            assert(sp.deep_view() == base_game_space(61));
        }
        sp
    } else {
        let sp = BoardSpace::new_resource_bonus_land_on_mars(Coordinates::new(8, -8), Resource::Plants, 2);
        proof {
            assert(sp.designations.deep_view() =~= sp.designations@);
            assert(sp.deep_view() == base_game_space(62));
        }
        sp
    }
}

/// Builds the layout space at one position.
pub fn base_game_space_at(i: usize) -> (sp: BoardSpace)
    requires
        i < 63,
    ensures
        sp.deep_view() == base_game_space(i as int),
{
    if i < 16 {
        base_game_space_at_a(i)
    } else if i < 32 {
        base_game_space_at_b(i)
    } else if i < 48 {
        base_game_space_at_c(i)
    } else {
        base_game_space_at_d(i)
    }
}

/// The standard board layout, with nothing placed, no oxygen, and the
/// starting temperature; the spaces follow [`base_game_space`] position by
/// position.
#[verifier::loop_isolation(false)]
pub fn make_base_game_board() -> (board: MarsBoard)
    ensures
        board.wf(),
        board.board_name@ == "Tharsis"@,
        board.spaces@.len() == 63,
        forall|i: int| 0 <= i < 63 ==> #[trigger] board.spaces.deep_view()[i] == base_game_space(i),
        board.cities@.len() == 0,
        board.oceans@.len() == 0,
        board.greeneries@.len() == 0,
        board.special_tiles@.len() == 0,
        board.oxygen == 0,
        board.temperature == -30,
{
    let board_name = "Tharsis".to_owned();
    let oxygen: usize = 0;
    let temperature: isize = -30;

    let mut spaces: Vec<BoardSpace> = Vec::new();
    for i in 0..63usize
        invariant
            spaces@.len() == i,
            forall|j: int| 0 <= j < i ==> #[trigger] spaces.deep_view()[j] == base_game_space(j),
    {
        let ghost prev = spaces.deep_view();
        let sp = base_game_space_at(i);
        spaces.push(sp);
        proof {
            assert forall|j: int| 0 <= j <= i implies #[trigger] spaces.deep_view()[j]
                == base_game_space(j) by {
                if j < i {
                    assert(spaces.deep_view()[j] == prev[j]);
                } else {
                    assert(spaces@[j] == sp);
                }
            }
        }
    }

    MarsBoard::new(
        board_name,
        spaces,
        Vec::new(),
        Vec::new(),
        Vec::new(),
        Vec::new(),
        oxygen,
        temperature,
    )
}

} // verus!
