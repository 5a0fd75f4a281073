//! Requests the tiles which are currently in view.
//!
//! Once per frame the stage looks at the view. If camera or zoom moved
//! enough, it goes through the tiles in view, asks the tile state store
//! which of them must be fetched, marks those pending and submits one
//! request for each. It never waits: what the requests bring comes back
//! later as messages.

use crate::apc::{AsyncProcedureCall, Submission};
use crate::coords::{axis_len, lemma_tiles_per_axis_bound, TileCoordinate, MAX_ZOOM};
use crate::layers::LayerSet;
use crate::procedure::{started, Action, Procedure};
use crate::store::{
    marked_pending, needs_fetch_in, AlreadyPendingError, StoreModel, TileEntryView, TileStateStore,
};
use crate::style::Style;
use crate::transfer::{Input, InputView, TileRequest, TileRequestView};
use crate::view::{span, SignificantlyDifferent, ViewRegion, ViewState, CHANGE_THRESHOLD};
use vstd::prelude::*;

verus! {

/// What the stages of a frame work on.
pub struct MapContext {
    pub view_state: ViewState,
    pub style: Style,
    pub tile_repository: TileStateStore,
}

/// What one pass over the tiles in view did.
#[derive(Debug, PartialEq, Eq)]
pub struct RequestReport {
    /// Number of tiles for which the store was asked.
    pub examined: u64,
    /// The tiles that were requested, in the order of their requests.
    pub dispatched: Vec<TileCoordinate>,
}

/// The input that requests the layers `layers` of tile `c`.
pub open spec fn request_for(c: TileCoordinate, layers: Seq<Seq<char>>) -> InputView {
    InputView::TileRequest(TileRequestView { coords: c, layers })
}

/// The inputs that request the layers `layers` of each of `tiles`.
pub open spec fn requests_for(tiles: Seq<TileCoordinate>, layers: Seq<Seq<char>>) -> Seq<
    InputView,
> {
    tiles.map_values(|c: TileCoordinate| request_for(c, layers))
}

/// The order in which the tiles of one level are gone through: column by
/// column, and each column row by row.
pub open spec fn precedes(a: TileCoordinate, b: TileCoordinate) -> bool {
    a.x < b.x || (a.x == b.x && a.y < b.y)
}

/// The tiles of `region` that have an address.
pub open spec fn addressable_in(region: ViewRegion) -> spec_fn(TileCoordinate) -> bool {
    |c: TileCoordinate| c.has_address() && region.contains(c)
}

/// The tiles of `region` that have an address and come before column `x`,
/// row `y`.
pub open spec fn looked_at(region: ViewRegion, x: int, y: int) -> spec_fn(TileCoordinate) -> bool {
    |c: TileCoordinate|
        c.has_address() && region.contains(c) && (c.x < x || (c.x == x && c.y < y))
}

/// The store `before`, with every tile among `covered` that needed fetching
/// marked pending.
pub open spec fn marked_pending_where(
    before: StoreModel,
    covered: spec_fn(TileCoordinate) -> bool,
) -> StoreModel {
    Map::new(
        |c: TileCoordinate| before.contains_key(c) || (covered(c) && needs_fetch_in(before, c)),
        |c: TileCoordinate|
            if covered(c) && needs_fetch_in(before, c) {
                TileEntryView::Pending
            } else {
                before[c]
            },
    )
}

/// `tiles` lists the tiles among `covered` that needed fetching in
/// `before`: each of them once, no other tile, in the order of
/// [`precedes`].
pub open spec fn requests_exactly(
    tiles: Seq<TileCoordinate>,
    before: StoreModel,
    covered: spec_fn(TileCoordinate) -> bool,
) -> bool {
    &&& forall|i: int, j: int|
        0 <= i < j < tiles.len() ==> precedes(#[trigger] tiles[i], #[trigger] tiles[j])
    &&& forall|c: TileCoordinate| #[trigger]
        tiles.contains(c) <==> covered(c) && needs_fetch_in(before, c)
}

/// The submissions `after` are the submissions `before` and then one for
/// each of `inputs`, in their order, each with a client cloned from
/// `client`.
pub open spec fn submissions_follow<C: Clone>(
    before: Seq<Submission<C>>,
    after: Seq<Submission<C>>,
    inputs: Seq<InputView>,
    client: C,
) -> bool {
    &&& after.len() == before.len() + inputs.len()
    &&& after.take(before.len() as int) == before
    &&& forall|i: int|
        before.len() <= i < after.len() ==> (#[trigger] after[i]).input == inputs[i - before.len()]
            && cloned(client, after[i].client)
}

/// One pass over `region` led from the store `before` to the store `after`
/// and from the submissions `submitted_before` to `submitted_after`.
///
/// The store was asked once for each tile of the region that has an
/// address. Those that needed fetching are pending now, and for each of
/// them one request for `layers` was submitted, with a client cloned from
/// `client`. Nothing else changed.
pub open spec fn requested_in_view<C: Clone>(
    before: StoreModel,
    after: StoreModel,
    submitted_before: Seq<Submission<C>>,
    submitted_after: Seq<Submission<C>>,
    client: C,
    report: RequestReport,
    layers: Seq<Seq<char>>,
    region: ViewRegion,
) -> bool {
    &&& after == marked_pending_where(before, addressable_in(region))
    &&& requests_exactly(report.dispatched@, before, addressable_in(region))
    &&& submissions_follow(
        submitted_before,
        submitted_after,
        requests_for(report.dispatched@, layers),
        client,
    )
    &&& report.examined == region.addressable_tiles()
}

/// The stage that requests tiles. `A` is the substrate that runs the
/// requests, `C` the client for the data source that goes with each.
pub struct RequestStage<A, C> {
    pub apc: A,
    pub http_source_client: C,
}

impl<C: Clone, A: AsyncProcedureCall<C>> RequestStage<A, C> {
    pub fn new(http_source_client: C, apc: A) -> (stage: Self)
        ensures
            stage.apc == apc,
            stage.http_source_client == http_source_client,
    {
        RequestStage { apc, http_source_client }
    }

    /// One frame's work.
    ///
    /// If camera or zoom moved more than the threshold since the last run,
    /// and there is a view region, the tiles in view are requested and the
    /// report says what was done. Otherwise nothing is requested and there
    /// is no report. In either case camera and zoom as they are now become
    /// the references for the next run.
    pub fn run(&mut self, context: &mut MapContext) -> (report: Option<RequestReport>)
        ensures
            final(context).view_state.camera.inner == old(context).view_state.camera.inner,
            final(context).view_state.camera.reference_value == Some(
                old(context).view_state.camera.inner,
            ),
            final(context).view_state.zoom.inner == old(context).view_state.zoom.inner,
            final(context).view_state.zoom.reference_value == Some(
                old(context).view_state.zoom.inner,
            ),
            final(context).view_state.footprint == old(context).view_state.footprint,
            final(context).style == old(context).style,
            final(self).http_source_client == old(self).http_source_client,
            report is Some <==> old(context).view_state.changed() && old(
                context,
            ).view_state.view_region() is Some,
            match report {
                Some(report) => requested_in_view(
                    old(context).tile_repository@,
                    final(context).tile_repository@,
                    old(self).apc.submitted(),
                    final(self).apc.submitted(),
                    old(self).http_source_client,
                    report,
                    old(context).style.source_layer_names(),
                    old(context).view_state.view_region().unwrap(),
                ),
                None => {
                    &&& final(context).tile_repository@ == old(context).tile_repository@
                    &&& final(self).apc.submitted() == old(self).apc.submitted()
                },
            },
            A::only_submitted(old(self).apc, final(self).apc),
    {
        proof {
            A::lemma_nothing_submitted(self.apc);
        }
        match context.view_state.enumerate() {
            Some(view_region) => Some(
                self.request_tiles_in_view(
                    &mut context.tile_repository,
                    &context.style,
                    &view_region,
                ),
            ),
            None => None,
        }
    }

    /// Requests the tiles of `view_region` that need fetching.
    pub fn request_tiles_in_view(
        &mut self,
        tile_repository: &mut TileStateStore,
        style: &Style,
        view_region: &ViewRegion,
    ) -> (report: RequestReport)
        ensures
            requested_in_view(
                old(tile_repository)@,
                final(tile_repository)@,
                old(self).apc.submitted(),
                final(self).apc.submitted(),
                old(self).http_source_client,
                report,
                style.source_layer_names(),
                *view_region,
            ),
            A::only_submitted(old(self).apc, final(self).apc),
            final(self).http_source_client == old(self).http_source_client,
    {
        proof {
            A::lemma_nothing_submitted(self.apc);
        }
        let source_layers = style.source_layers();
        let mut report = RequestReport { examined: 0, dispatched: Vec::new() };
        let ghost before = tile_repository@;
        let ghost submitted = self.apc.submitted();
        let ghost layers = source_layers@;
        let ghost region = *view_region;
        let z = view_region.z;
        assert(submitted.take(submitted.len() as int) =~= submitted);
        if z > MAX_ZOOM {
            assert(before =~= marked_pending_where(before, addressable_in(region)));
            return report;
        }
        proof {
            lemma_tiles_per_axis_bound(z as nat);
        }
        let columns: i32 = axis_len(z) as i32;
        let first_x: i32 = if view_region.min_x < 0 {
            0
        } else {
            view_region.min_x
        };
        let last_x: i32 = if view_region.max_x < columns {
            view_region.max_x
        } else {
            columns - 1
        };
        let first_y: i32 = if view_region.min_y < 0 {
            0
        } else {
            view_region.min_y
        };
        let last_y: i32 = if view_region.max_y < columns {
            view_region.max_y
        } else {
            columns - 1
        };
        if first_x > last_x || first_y > last_y {
            assert(before =~= marked_pending_where(before, addressable_in(region)));
            assert(span(first_x as int, last_x as int) * span(first_y as int, last_y as int) == 0)
                by (nonlinear_arith)
                requires
                    span(first_x as int, last_x as int) == 0 || span(first_y as int, last_y as int)
                        == 0,
            ;
            return report;
        }
        let ghost rows = last_y - first_y + 1;
        let mut x: i32 = first_x;
        while x <= last_x
            invariant
                z == region.z,
                z <= MAX_ZOOM,
                region == *view_region,
                layers == source_layers@,
                first_x == region.first_column(),
                last_x == region.last_column(),
                first_y == region.first_row(),
                last_y == region.last_row(),
                0 <= first_x <= last_x < 0x4000_0000,
                0 <= first_y <= last_y < 0x4000_0000,
                rows == last_y - first_y + 1,
                first_x <= x <= last_x + 1,
                tile_repository@ == marked_pending_where(
                    before,
                    looked_at(region, x as int, first_y as int),
                ),
                requests_exactly(
                    report.dispatched@,
                    before,
                    looked_at(region, x as int, first_y as int),
                ),
                submissions_follow(
                    submitted,
                    self.apc.submitted(),
                    requests_for(report.dispatched@, layers),
                    old(self).http_source_client,
                ),
                A::only_submitted(old(self).apc, self.apc),
                report.examined == (x - first_x) * rows,
                self.http_source_client == old(self).http_source_client,
            decreases last_x + 1 - x,
        {
            let mut y: i32 = first_y;
            assert((x - first_x) * rows <= 0x4000_0000 * 0x4000_0000) by (nonlinear_arith)
                requires
                    0 <= x - first_x < 0x4000_0000,
                    0 <= rows <= 0x4000_0000,
            ;
            while y <= last_y
                invariant
                    z == region.z,
                    z <= MAX_ZOOM,
                    region == *view_region,
                    layers == source_layers@,
                    first_x == region.first_column(),
                    last_x == region.last_column(),
                    first_y == region.first_row(),
                    last_y == region.last_row(),
                    0 <= first_x <= last_x < 0x4000_0000,
                    0 <= first_y <= last_y < 0x4000_0000,
                    rows == last_y - first_y + 1,
                    first_x <= x <= last_x,
                    first_y <= y <= last_y + 1,
                    tile_repository@ == marked_pending_where(
                        before,
                        looked_at(region, x as int, y as int),
                    ),
                    requests_exactly(
                        report.dispatched@,
                        before,
                        looked_at(region, x as int, y as int),
                    ),
                    submissions_follow(
                        submitted,
                        self.apc.submitted(),
                        requests_for(report.dispatched@, layers),
                        old(self).http_source_client,
                    ),
                    A::only_submitted(old(self).apc, self.apc),
                    report.examined == (x - first_x) * rows + (y - first_y),
                    (x - first_x) * rows <= 0x4000_0000 * 0x4000_0000,
                    self.http_source_client == old(self).http_source_client,
                decreases last_y + 1 - y,
            {
                let coords = TileCoordinate::new(x, y, z);
                let ghost tiles_before = report.dispatched@;
                let ghost apc_before = self.apc;
                let ghost submitted_so_far = self.apc.submitted();
                let ghost seen = looked_at(region, x as int, y as int);
                let ghost seen_after = looked_at(region, x as int, y + 1);
                let requested = self.request_tile(tile_repository, &coords, &source_layers);
                proof {
                    A::lemma_submitted_in_turn(old(self).apc, apc_before, self.apc);
                }
                report.examined = report.examined + 1;
                assert forall|c: TileCoordinate| #[trigger] seen_after(c) == (seen(c) || c == coords) by {}
                match requested {
                    Ok(true) => {
                        report.dispatched.push(coords);
                        proof {
                            let tiles = report.dispatched@;
                            let submitted_now = self.apc.submitted();
                            assert(submitted_now.take(submitted.len() as int)
                                =~= submitted_so_far.take(submitted.len() as int));
                            assert forall|i: int|
                                submitted.len() <= i < submitted_now.len() implies (
                            #[trigger] submitted_now[i]).input == requests_for(tiles, layers)[i
                                - submitted.len()] && cloned(
                                old(self).http_source_client,
                                submitted_now[i].client,
                            ) by {
                                if i < submitted_so_far.len() {
                                    assert(submitted_now[i] == submitted_so_far[i]);
                                }
                            }
                            assert forall|i: int, j: int| 0 <= i < j < tiles.len() implies precedes(
                                #[trigger] tiles[i],
                                #[trigger] tiles[j],
                            ) by {
                                if j == tiles_before.len() {
                                    assert(tiles_before.contains(tiles_before[i]));
                                }
                            }
                            assert forall|c: TileCoordinate| #[trigger]
                                tiles.contains(c) <==> seen_after(c) && needs_fetch_in(
                                    before,
                                    c,
                                ) by {
                                if tiles.contains(c) {
                                    let i = choose|i: int| 0 <= i < tiles.len() && tiles[i] == c;
                                    if i < tiles_before.len() {
                                        assert(tiles_before.contains(c));
                                    }
                                }
                                if seen_after(c) && needs_fetch_in(before, c) {
                                    if c == coords {
                                        assert(tiles[tiles_before.len() as int] == c);
                                    } else {
                                        assert(tiles_before.contains(c));
                                        let i = choose|i: int|
                                            0 <= i < tiles_before.len() && tiles_before[i] == c;
                                        assert(tiles[i] == c);
                                    }
                                }
                            }
                        }
                    },
                    _ => {
                        proof {
                            let tiles = report.dispatched@;
                            assert forall|c: TileCoordinate| #[trigger]
                                tiles.contains(c) <==> seen_after(c) && needs_fetch_in(
                                    before,
                                    c,
                                ) by {}
                        }
                    },
                }
                y = y + 1;
            }
            proof {
                assert(looked_at(region, x as int, y as int) =~= looked_at(
                    region,
                    x + 1,
                    first_y as int,
                ));
                assert((x + 1 - first_x) * rows == (x - first_x) * rows + rows)
                    by (nonlinear_arith);
            }
            x = x + 1;
        }
        proof {
            assert(looked_at(region, x as int, first_y as int) =~= addressable_in(region));
            assert(span(first_x as int, last_x as int) * span(first_y as int, last_y as int) == (x
                - first_x) * rows);
        }
        report
    }

    /// Requests `coords`, if the store says that it needs fetching, and
    /// says whether it did.
    ///
    /// The store is asked once. A tile that needs fetching is marked
    /// pending, and a request for its layers `layers` is submitted. For any
    /// other tile nothing happens. No tile makes this fail.
    pub fn request_tile(
        &mut self,
        tile_repository: &mut TileStateStore,
        coords: &TileCoordinate,
        layers: &LayerSet,
    ) -> (result: Result<bool, AlreadyPendingError>)
        ensures
            result == Ok::<bool, AlreadyPendingError>(
                needs_fetch_in(old(tile_repository)@, *coords),
            ),
            final(tile_repository)@ == marked_pending(old(tile_repository)@, *coords),
            needs_fetch_in(old(tile_repository)@, *coords) ==> submissions_follow(
                old(self).apc.submitted(),
                final(self).apc.submitted(),
                seq![request_for(*coords, layers@)],
                old(self).http_source_client,
            ),
            !needs_fetch_in(old(tile_repository)@, *coords) ==> final(self).apc.submitted() == old(
                self,
            ).apc.submitted(),
            A::only_submitted(old(self).apc, final(self).apc),
            final(self).http_source_client == old(self).http_source_client,
    {
        proof {
            A::lemma_nothing_submitted(self.apc);
        }
        if tile_repository.needs_fetch(coords) {
            tile_repository.mark_pending(coords)?;
            let client = self.http_source_client.clone();
            let ghost before = self.apc.submitted();
            self.apc.submit(
                Input::TileRequest(TileRequest { coords: *coords, layers: layers.clone() }),
                client,
            );
            assert(self.apc.submitted().take(before.len() as int) =~= before);
            Ok(true)
        } else {
            Ok(false)
        }
    }
}

/// The procedure that is run for every input that the stage submits.
///
/// It starts the work on `input` and names the first action: for a tile
/// request, the fetch of the tile. Whoever runs the procedure performs the
/// action and hands what it brought to [`Procedure::step`], until the
/// action is to finish. An input that is no tile request ends the procedure
/// at once, with an error and without harm.
pub fn schedule(input: Input) -> (next: (Procedure, Action))
    ensures
        (next.0@, next.1@) == started(input@),
{
    Procedure::start(input)
}

/// Two frames: after a run, a second run on a view that moved no more than
/// the threshold requests nothing and leaves the store as it is, whatever
/// tiles are still missing.
pub proof fn lemma_second_frame_requests_nothing(first: ViewState, second: ViewState)
    requires
        second.camera.reference_value == Some(first.camera.inner),
        second.zoom.reference_value == Some(first.zoom.inner),
        !first.camera.inner.differs(&second.camera.inner, CHANGE_THRESHOLD),
        !first.zoom.inner.differs(&second.zoom.inner, CHANGE_THRESHOLD),
    ensures
        !second.changed(),
{
}

proof fn lemma_looked_at_number(region: ViewRegion, x: int, y: int)
    requires
        region.z <= MAX_ZOOM,
        region.first_column() <= x <= region.last_column(),
        region.first_row() <= y <= region.last_row() + 1,
    ensures
        Set::new(looked_at(region, x, y)).finite(),
        Set::new(looked_at(region, x, y)).len() == (x - region.first_column()) * (region.last_row()
            - region.first_row() + 1) + (y - region.first_row()),
    decreases x - region.first_column(), y - region.first_row(),
{
    let rows = region.last_row() - region.first_row() + 1;
    let tiles = Set::new(looked_at(region, x, y));
    lemma_tiles_per_axis_bound(region.z as nat);
    if y > region.first_row() {
        let last = TileCoordinate { x: x as i32, y: (y - 1) as i32, z: region.z };
        let before = Set::new(looked_at(region, x, y - 1));
        lemma_looked_at_number(region, x, y - 1);
        assert(tiles =~= before.insert(last));
    } else if x > region.first_column() {
        let before = Set::new(looked_at(region, x - 1, region.last_row() + 1));
        lemma_looked_at_number(region, x - 1, region.last_row() + 1);
        assert(tiles =~= before);
        assert((x - region.first_column()) * rows == (x - 1 - region.first_column()) * rows
            + rows) by (nonlinear_arith);
    } else {
        assert(tiles =~= Set::<TileCoordinate>::empty());
        assert(0 * rows == 0) by (nonlinear_arith);
    }
}

/// [`ViewRegion::addressable_tiles`] is what its name says: the number of
/// tiles of the region that have an address.
pub proof fn lemma_addressable_tiles_is_their_number(region: ViewRegion)
    ensures
        Set::new(addressable_in(region)).finite(),
        Set::new(addressable_in(region)).len() == region.addressable_tiles(),
{
    let tiles = Set::new(addressable_in(region));
    let columns = span(region.first_column(), region.last_column());
    let rows = span(region.first_row(), region.last_row());
    if region.z <= MAX_ZOOM && columns > 0 && rows > 0 {
        lemma_looked_at_number(region, region.last_column(), region.last_row() + 1);
        assert(tiles =~= Set::new(
            looked_at(region, region.last_column(), region.last_row() + 1),
        ));
        assert(columns * rows == (columns - 1) * rows + rows) by (nonlinear_arith);
    } else {
        assert(tiles =~= Set::<TileCoordinate>::empty());
        if region.z <= MAX_ZOOM {
            assert(columns * rows == 0) by (nonlinear_arith)
                requires
                    columns == 0 || rows == 0,
            ;
        }
    }
}

} // verus!
