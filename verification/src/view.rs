//! What is in view, and whether the view moved enough to look again.
//!
//! Positions, angles and zoom are fixed-point numbers: whole thousandths.
//! A zoom of 12.5 is the number 12500. The camera sees a rectangle of the
//! world plane, its footprint, in world units: a tile of the deepest level
//! is one unit wide, and the world is `2^30` units wide.

use crate::coords::{
    axis_len, lemma_tiles_per_axis_bound, tiles_per_axis, TileCoordinate, MAX_ZOOM,
};
use vstd::prelude::*;

verus! {

/// How far, in thousandths, camera or zoom must move before the tiles in
/// view are looked at again: 0.05.
pub const CHANGE_THRESHOLD: u32 = 50;

/// Values of which one can say whether two of them are far apart.
pub trait SignificantlyDifferent {
    /// Whether `self` and `other` are more than `epsilon` apart.
    spec fn differs(&self, other: &Self, epsilon: u32) -> bool;

    /// Whether `self` and `other` are more than `epsilon` apart.
    fn differs_from(&self, other: &Self, epsilon: u32) -> (different: bool)
        ensures
            different == self.differs(other, epsilon),
    ;
}

/// Whether the numbers `a` and `b` are more than `epsilon` apart.
pub open spec fn apart(a: i64, b: i64, epsilon: u32) -> bool {
    a - b > epsilon || b - a > epsilon
}

/// Whether the numbers `a` and `b` are more than `epsilon` apart.
pub fn is_apart(a: i64, b: i64, epsilon: u32) -> (result: bool)
    ensures
        result == apart(a, b, epsilon),
{
    let distance: i128 = if a >= b {
        a as i128 - b as i128
    } else {
        b as i128 - a as i128
    };
    distance > epsilon as i128
}

/// The zoom, in thousandths of a level.
#[derive(Clone, Copy, Debug, PartialEq, Eq, Structural)]
pub struct Zoom {
    pub thousandths: i64,
}

impl Zoom {
    pub fn new(thousandths: i64) -> (zoom: Self)
        ensures
            zoom.thousandths == thousandths,
    {
        Zoom { thousandths }
    }

    /// The zoom level whose tiles are shown: the whole levels of the zoom,
    /// not below level 0 and not beyond the deepest level with addresses.
    pub open spec fn level_spec(self) -> int {
        if self.thousandths < 0 {
            0
        } else if self.thousandths as int / 1000 > MAX_ZOOM {
            MAX_ZOOM as int
        } else {
            self.thousandths as int / 1000
        }
    }

    /// The zoom level whose tiles are shown.
    pub fn level(&self) -> (level: u8)
        ensures
            level == self.level_spec(),
    {
        if self.thousandths < 0 {
            0
        } else {
            let whole: i64 = self.thousandths / 1000;
            if whole > MAX_ZOOM as i64 {
                MAX_ZOOM
            } else {
                whole as u8
            }
        }
    }
}

impl SignificantlyDifferent for Zoom {
    open spec fn differs(&self, other: &Self, epsilon: u32) -> bool {
        apart(self.thousandths, other.thousandths, epsilon)
    }

    fn differs_from(&self, other: &Self, epsilon: u32) -> (different: bool) {
        is_apart(self.thousandths, other.thousandths, epsilon)
    }
}

/// Where the camera is and where it looks, in thousandths.
#[derive(Clone, Copy, Debug, PartialEq, Eq, Structural)]
pub struct CameraPose {
    pub x: i64,
    pub y: i64,
    pub z: i64,
    pub yaw: i64,
    pub pitch: i64,
}

impl SignificantlyDifferent for CameraPose {
    /// Two poses differ if the place differs along an axis, or an angle
    /// differs.
    open spec fn differs(&self, other: &Self, epsilon: u32) -> bool {
        ||| apart(self.x, other.x, epsilon)
        ||| apart(self.y, other.y, epsilon)
        ||| apart(self.z, other.z, epsilon)
        ||| apart(self.yaw, other.yaw, epsilon)
        ||| apart(self.pitch, other.pitch, epsilon)
    }

    fn differs_from(&self, other: &Self, epsilon: u32) -> (different: bool) {
        is_apart(self.x, other.x, epsilon) || is_apart(self.y, other.y, epsilon) || is_apart(
            self.z,
            other.z,
            epsilon,
        ) || is_apart(self.yaw, other.yaw, epsilon) || is_apart(self.pitch, other.pitch, epsilon)
    }
}

/// A value and the value it had when it was last looked at.
#[derive(Debug)]
pub struct ChangeObserver<T> {
    pub inner: T,
    pub reference_value: Option<T>,
}

impl<T: SignificantlyDifferent + Copy> ChangeObserver<T> {
    /// An observer of `value` that was never looked at.
    pub fn new(value: T) -> (observer: Self)
        ensures
            observer.inner == value,
            observer.reference_value is None,
    {
        ChangeObserver { inner: value, reference_value: None }
    }

    /// Gives the observed value a new value. The reference stays.
    pub fn set(&mut self, value: T)
        ensures
            final(self).inner == value,
            final(self).reference_value == old(self).reference_value,
    {
        self.inner = value;
    }

    /// Whether the value is more than `epsilon` away from the reference. A
    /// value that was never looked at counts as changed.
    pub open spec fn changed(&self, epsilon: u32) -> bool {
        match self.reference_value {
            Some(reference) => reference.differs(&self.inner, epsilon),
            None => true,
        }
    }

    /// Whether the value is more than `epsilon` away from the reference.
    pub fn did_change(&self, epsilon: u32) -> (changed: bool)
        ensures
            changed == self.changed(epsilon),
    {
        match &self.reference_value {
            Some(reference) => reference.differs_from(&self.inner, epsilon),
            None => true,
        }
    }

    /// Makes the value the reference.
    pub fn update_reference(&mut self)
        ensures
            final(self).inner == old(self).inner,
            final(self).reference_value == Some(old(self).inner),
    {
        self.reference_value = Some(self.inner);
    }
}

/// A rectangle of tiles on one zoom level: the columns `min_x` to `max_x`
/// and the rows `min_y` to `max_y`, both ends included. It may reach beyond
/// the grid.
#[derive(Clone, Copy, Debug, PartialEq, Eq, Structural)]
pub struct ViewRegion {
    pub min_x: i32,
    pub min_y: i32,
    pub max_x: i32,
    pub max_y: i32,
    pub z: u8,
}

/// Number of whole numbers from `low` to `high`, both included.
pub open spec fn span(low: int, high: int) -> nat {
    if low <= high {
        (high - low + 1) as nat
    } else {
        0
    }
}

impl ViewRegion {
    pub fn new(min_x: i32, min_y: i32, max_x: i32, max_y: i32, z: u8) -> (region: Self)
        ensures
            region == (ViewRegion { min_x, min_y, max_x, max_y, z }),
    {
        ViewRegion { min_x, min_y, max_x, max_y, z }
    }

    /// Whether the tile `c` lies in the region.
    pub open spec fn contains(self, c: TileCoordinate) -> bool {
        &&& c.z == self.z
        &&& self.min_x <= c.x <= self.max_x
        &&& self.min_y <= c.y <= self.max_y
    }

    /// Whether the tile `coords` lies in the region.
    pub fn is_in_view(&self, coords: &TileCoordinate) -> (inside: bool)
        ensures
            inside == self.contains(*coords),
    {
        coords.z == self.z && self.min_x <= coords.x && coords.x <= self.max_x && self.min_y
            <= coords.y && coords.y <= self.max_y
    }

    /// The first column of the region that lies on the grid.
    pub open spec fn first_column(self) -> int {
        if self.min_x < 0 {
            0
        } else {
            self.min_x as int
        }
    }

    /// The last column of the region that lies on the grid.
    pub open spec fn last_column(self) -> int {
        if self.max_x < tiles_per_axis(self.z as nat) {
            self.max_x as int
        } else {
            tiles_per_axis(self.z as nat) - 1
        }
    }

    /// The first row of the region that lies on the grid.
    pub open spec fn first_row(self) -> int {
        if self.min_y < 0 {
            0
        } else {
            self.min_y as int
        }
    }

    /// The last row of the region that lies on the grid.
    pub open spec fn last_row(self) -> int {
        if self.max_y < tiles_per_axis(self.z as nat) {
            self.max_y as int
        } else {
            tiles_per_axis(self.z as nat) - 1
        }
    }

    /// Number of tiles of the region that have an address: the tiles in the
    /// part of the rectangle that lies on the grid.
    pub open spec fn addressable_tiles(self) -> nat {
        if self.z <= MAX_ZOOM {
            span(self.first_column(), self.last_column()) * span(self.first_row(), self.last_row())
        } else {
            0
        }
    }

    /// The tiles of the region that have an address are those of its level
    /// between the first and last column and row that lie on the grid.
    pub proof fn lemma_addressable(self, c: TileCoordinate)
        ensures
            self.contains(c) && c.has_address() <==> {
                &&& c.z == self.z
                &&& self.z <= MAX_ZOOM
                &&& self.first_column() <= c.x <= self.last_column()
                &&& self.first_row() <= c.y <= self.last_row()
            },
    {
    }
}

/// The rectangle of the world plane that the camera sees, in world units,
/// both ends included. It may reach beyond the world.
#[derive(Clone, Copy, Debug, PartialEq, Eq, Structural)]
pub struct Footprint {
    pub min_x: i64,
    pub min_y: i64,
    pub max_x: i64,
    pub max_y: i64,
}

/// Width of a tile of level `z` in world units.
pub open spec fn tile_width(z: nat) -> nat
    recommends
        z <= MAX_ZOOM,
{
    tiles_per_axis((MAX_ZOOM - z) as nat)
}

/// The column (or row) of level `z` in which the world coordinate `w` lies.
/// What lies before the grid is in column -1, what lies behind it in the
/// column after the last.
pub open spec fn tile_index(w: i64, z: nat) -> int
    recommends
        z <= MAX_ZOOM,
{
    if w < 0 {
        -1
    } else if (w as int) / (tile_width(z) as int) >= tiles_per_axis(z) {
        tiles_per_axis(z) as int
    } else {
        (w as int) / (tile_width(z) as int)
    }
}

/// Camera and zoom, each with its reference, and what the camera sees.
#[derive(Debug)]
pub struct ViewState {
    pub zoom: ChangeObserver<Zoom>,
    pub camera: ChangeObserver<CameraPose>,
    /// `None` while the camera sees nothing of the world plane.
    pub footprint: Option<Footprint>,
}

impl ViewState {
    /// A view that was never looked at.
    pub fn new(zoom: Zoom, camera: CameraPose, footprint: Option<Footprint>) -> (state: Self)
        ensures
            state.zoom.inner == zoom,
            state.zoom.reference_value is None,
            state.camera.inner == camera,
            state.camera.reference_value is None,
            state.footprint == footprint,
    {
        ViewState {
            zoom: ChangeObserver::new(zoom),
            camera: ChangeObserver::new(camera),
            footprint,
        }
    }

    /// Whether camera or zoom moved more than the threshold since they were
    /// last looked at.
    pub open spec fn changed(&self) -> bool {
        self.camera.changed(CHANGE_THRESHOLD) || self.zoom.changed(CHANGE_THRESHOLD)
    }

    /// The tiles in view: those of the zoom's level that the footprint
    /// touches. `None` if the camera has no footprint, or one whose ends are
    /// the wrong way round.
    pub open spec fn view_region(&self) -> Option<ViewRegion> {
        match self.footprint {
            Some(footprint) => if footprint.min_x <= footprint.max_x && footprint.min_y
                <= footprint.max_y {
                let z = self.zoom.inner.level_spec() as nat;
                Some(
                    ViewRegion {
                        min_x: tile_index(footprint.min_x, z) as i32,
                        min_y: tile_index(footprint.min_y, z) as i32,
                        max_x: tile_index(footprint.max_x, z) as i32,
                        max_y: tile_index(footprint.max_y, z) as i32,
                        z: z as u8,
                    },
                )
            } else {
                None
            },
            None => None,
        }
    }

    /// Looks at the view: gives the tiles in view if camera or zoom moved
    /// more than the threshold since the last look, and `None` if they did
    /// not, or if there is no view region. Whether or not anything moved,
    /// camera and zoom as they are now become the references for the next
    /// look.
    pub fn enumerate(&mut self) -> (region: Option<ViewRegion>)
        ensures
            region == if old(self).changed() {
                old(self).view_region()
            } else {
                None
            },
            final(self).camera.inner == old(self).camera.inner,
            final(self).camera.reference_value == Some(old(self).camera.inner),
            final(self).zoom.inner == old(self).zoom.inner,
            final(self).zoom.reference_value == Some(old(self).zoom.inner),
            final(self).footprint == old(self).footprint,
    {
        let changed = self.camera.did_change(CHANGE_THRESHOLD) || self.zoom.did_change(
            CHANGE_THRESHOLD,
        );
        let view_region = if changed {
            self.create_view_region()
        } else {
            None
        };
        self.camera.update_reference();
        self.zoom.update_reference();
        view_region
    }

    /// The tiles in view.
    pub fn create_view_region(&self) -> (region: Option<ViewRegion>)
        ensures
            region == self.view_region(),
    {
        match self.footprint {
            Some(footprint) => {
                if footprint.min_x <= footprint.max_x && footprint.min_y <= footprint.max_y {
                    let z = self.zoom.inner.level();
                    Some(
                        ViewRegion {
                            min_x: column_of(footprint.min_x, z),
                            min_y: column_of(footprint.min_y, z),
                            max_x: column_of(footprint.max_x, z),
                            max_y: column_of(footprint.max_y, z),
                            z,
                        },
                    )
                } else {
                    None
                }
            },
            None => None,
        }
    }
}

/// The column (or row) of level `z` in which the world coordinate `w` lies.
fn column_of(w: i64, z: u8) -> (index: i32)
    requires
        z <= MAX_ZOOM,
    ensures
        index == tile_index(w, z as nat),
        -1 <= index <= 0x4000_0000,
{
    proof {
        lemma_tiles_per_axis_bound(z as nat);
        lemma_tiles_per_axis_bound((MAX_ZOOM - z) as nat);
    }
    if w < 0 {
        return -1;
    }
    let width: i64 = axis_len(MAX_ZOOM - z) as i64;
    let count: i64 = axis_len(z) as i64;
    let index: i64 = w / width;
    if index >= count {
        count as i32
    } else {
        index as i32
    }
}

/// Hysteresis: a view that was looked at counts as changed exactly if the
/// camera moved by more than the threshold along an axis or in an angle, or
/// the zoom moved by more than the threshold. Smaller moves, such as jitter
/// from frame to frame, change nothing; a zoom that moved enough counts
/// even while the camera stands still.
pub proof fn lemma_hysteresis(state: ViewState, camera: CameraPose, zoom: Zoom)
    requires
        state.camera.reference_value == Some(camera),
        state.zoom.reference_value == Some(zoom),
    ensures
        state.changed() <==> {
            ||| apart(camera.x, state.camera.inner.x, CHANGE_THRESHOLD)
            ||| apart(camera.y, state.camera.inner.y, CHANGE_THRESHOLD)
            ||| apart(camera.z, state.camera.inner.z, CHANGE_THRESHOLD)
            ||| apart(camera.yaw, state.camera.inner.yaw, CHANGE_THRESHOLD)
            ||| apart(camera.pitch, state.camera.inner.pitch, CHANGE_THRESHOLD)
            ||| apart(zoom.thousandths, state.zoom.inner.thousandths, CHANGE_THRESHOLD)
        },
        apart(zoom.thousandths, state.zoom.inner.thousandths, CHANGE_THRESHOLD)
            ==> state.changed(),
{
}

/// A view that was never looked at counts as changed.
pub proof fn lemma_first_look_counts(state: ViewState)
    requires
        state.camera.reference_value is None || state.zoom.reference_value is None,
    ensures
        state.changed(),
{
}

} // verus!
