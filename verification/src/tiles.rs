//! Bookkeeping of map tiles: which are loaded, which are being downloaded and which
//! failed, for the current zoom level.

use vstd::prelude::*;
use vstd::string::*;
use vstd::arithmetic::div_mod::{lemma_add_mod_noop_right, lemma_fundamental_div_mod};
use crate::input::{decimal, push_decimal, push_signed_decimal, signed_decimal};
use crate::message::TileResult;

verus! {

/// Map tile edge length in pixels.
pub const TILE_SIZE: u32 = 256;

/// Rings of tiles kept in memory around the visible area.
pub const KEEP_RINGS: i64 = 2;

/// A map tile: zoom level and column/row.
#[derive(Debug, Clone, Copy, PartialEq, Eq, Structural, PartialOrd, Ord, Hash)]
pub struct TileCoord {
    pub z: u32,
    pub x: i64,
    pub y: i64,
}

/// The view generation a download request belongs to.
///
/// The generation advances on every zoom change; a request issued under an older
/// generation is stale and should not even wait for a download slot.
#[derive(Debug, Clone, Copy)]
pub struct TileEpoch {
    pub issued: u64,
}

impl TileEpoch {
    /// Whether the view generation moved on since this request was issued.
    pub fn is_stale(&self, current: u64) -> (b: bool)
        ensures
            b == (current != self.issued),
    {
        current != self.issued
    }
}

/// The tile columns `min_x .. max_x` and rows `min_y .. max_y` that the visible
/// area touches (ends excluded).
#[derive(Debug, Clone, Copy, PartialEq, Eq, Structural)]
pub struct TileRange {
    pub min_x: i64,
    pub min_y: i64,
    pub max_x: i64,
    pub max_y: i64,
}

/// The range widened by `KEEP_RINGS` on every side stays within `i64`.
pub open spec fn range_fits(r: TileRange) -> bool {
    &&& r.min_x >= i64::MIN + KEEP_RINGS
    &&& r.min_y >= i64::MIN + KEEP_RINGS
    &&& r.max_x <= i64::MAX - KEEP_RINGS
    &&& r.max_y <= i64::MAX - KEEP_RINGS
}

/// Number of tiles along each side of the world at zoom `z`: `2^z`.
pub open spec fn tiles_per_side(z: nat) -> int
    decreases z,
{
    if z == 0 {
        1
    } else {
        2 * tiles_per_side((z - 1) as nat)
    }
}

/// The tile lies inside the world at its zoom level.
pub open spec fn in_world(c: TileCoord) -> bool {
    0 <= c.x < tiles_per_side(c.z as nat) && 0 <= c.y < tiles_per_side(c.z as nat)
}

/// Tiles of column `x` at zoom `z`, rows `y0 .. y1`, that lie inside the world.
pub open spec fn visible_column(z: u32, x: i64, y0: int, y1: int) -> Seq<TileCoord>
    decreases y1 - y0,
{
    if y0 >= y1 {
        Seq::empty()
    } else {
        let c = TileCoord { z, x, y: y0 as i64 };
        (if in_world(c) { seq![c] } else { Seq::empty() }) + visible_column(z, x, y0 + 1, y1)
    }
}

/// Tiles at zoom `z` in columns `x0 .. r.max_x` and rows of `r` that lie inside the
/// world, column by column.
pub open spec fn visible_from(z: u32, x0: int, r: TileRange) -> Seq<TileCoord>
    decreases r.max_x - x0,
{
    if x0 >= r.max_x {
        Seq::empty()
    } else {
        visible_column(z, x0 as i64, r.min_y as int, r.max_y as int) + visible_from(z, x0 + 1, r)
    }
}

/// Tiles of `r` at zoom `z` that lie inside the world, column by column.
pub open spec fn visible(z: u32, r: TileRange) -> Seq<TileCoord> {
    visible_from(z, r.min_x as int, r)
}

/// A tile is kept in memory when it is at the current zoom and at most
/// `KEEP_RINGS` tiles outside the visible range.
pub open spec fn kept(c: TileCoord, z: u32, r: TileRange) -> bool {
    &&& c.z == z
    &&& r.min_x - KEEP_RINGS <= c.x <= r.max_x + KEEP_RINGS
    &&& r.min_y - KEEP_RINGS <= c.y <= r.max_y + KEEP_RINGS
}

/// `s` holds no tile twice.
pub open spec fn distinct(s: Seq<TileCoord>) -> bool {
    forall|i: int, j: int| 0 <= i < s.len() && 0 <= j < s.len() && i != j ==> s[i] != s[j]
}

/// Tile bookkeeping of the map, with `H` the type of a downloaded image.
pub struct TileBook<H> {
    zoom: u32,
    /// Downloaded tiles, each coordinate at most once.
    tiles: Vec<(TileCoord, H)>,
    /// Tiles requested and not yet arrived.
    pending: Vec<TileCoord>,
    /// Tiles whose download failed; drawn as missing, requested again when visible.
    failed: Vec<TileCoord>,
    /// View generation; advances on every zoom change.
    epoch: u64,
    /// Advances on every change that affects drawing.
    revision: u64,
    /// How many times the zoom level changed since the book was made.
    zoom_changes: Ghost<nat>,
}

/// The keys of a list of entries.
pub open spec fn keys_of<H>(s: Seq<(TileCoord, H)>) -> Seq<TileCoord> {
    s.map_values(|e: (TileCoord, H)| e.0)
}

impl<H> TileBook<H> {
    /// The book is consistent: zoom in `1 ..= 19`, and no tile listed twice.
    pub closed spec fn wf(&self) -> bool {
        &&& 1 <= self.zoom <= 19
        &&& distinct(keys_of(self.tiles@))
        &&& distinct(self.pending@)
        &&& distinct(self.failed@)
        &&& self.epoch as int == self.zoom_changes@ % 0x1_0000_0000_0000_0000
    }

    /// How many times the zoom level changed since the book was made.
    pub closed spec fn zoom_changes(&self) -> nat {
        self.zoom_changes@
    }

    pub closed spec fn spec_zoom(&self) -> u32 {
        self.zoom
    }

    /// The downloaded tiles.
    pub closed spec fn loaded(&self) -> Set<TileCoord> {
        keys_of(self.tiles@).to_set()
    }

    /// The image stored for tile `c` (meaningful when `c` is loaded).
    pub closed spec fn image(&self, c: TileCoord) -> H {
        self.tiles@[self.image_index(c)].1
    }

    /// Where the image of tile `c` is stored.
    closed spec fn image_index(&self, c: TileCoord) -> int {
        choose|i: int| 0 <= i < self.tiles@.len() && self.tiles@[i].0 == c
    }

    /// The tiles being downloaded.
    pub closed spec fn requested(&self) -> Set<TileCoord> {
        self.pending@.to_set()
    }

    /// The tiles whose download failed.
    pub closed spec fn failures(&self) -> Set<TileCoord> {
        self.failed@.to_set()
    }

    pub closed spec fn spec_epoch(&self) -> u64 {
        self.epoch
    }

    pub closed spec fn spec_revision(&self) -> u64 {
        self.revision
    }
}


/// Where `c` sits in `v`, if it is there.
fn position_of(v: &Vec<TileCoord>, c: TileCoord) -> (i: Option<usize>)
    ensures
        match i {
            Some(k) => k < v@.len() && v@[k as int] == c,
            None => !v@.contains(c),
        },
{
    let mut k: usize = 0;
    while k < v.len()
        invariant
            k <= v@.len(),
            forall|j: int| 0 <= j < k ==> v@[j] != c,
        decreases v@.len() - k,
    {
        if v[k] == c {
            return Some(k);
        }
        k = k + 1;
    }
    None
}

/// Adds `c` to the set held in `v`.
fn set_insert(v: &mut Vec<TileCoord>, c: TileCoord)
    requires
        distinct(old(v)@),
    ensures
        distinct(final(v)@),
        final(v)@.to_set() == old(v)@.to_set().insert(c),
{
    match position_of(v, c) {
        Some(_) => {
            assert(old(v)@.to_set().insert(c) =~= old(v)@.to_set());
        },
        None => {
            v.push(c);
            assert(v@.to_set() =~= old(v)@.to_set().insert(c)) by {
                assert forall|x: TileCoord| v@.contains(x) <==> (old(v)@.contains(x) || x == c) by {
                    if v@.contains(x) {
                        let j = choose|j: int| 0 <= j < v@.len() && v@[j] == x;
                        if j < old(v)@.len() {
                            assert(old(v)@[j] == x);
                        }
                    }
                    if old(v)@.contains(x) {
                        let j = choose|j: int| 0 <= j < old(v)@.len() && old(v)@[j] == x;
                        assert(v@[j] == x);
                    }
                    if x == c {
                        assert(v@[old(v)@.len() as int] == c);
                    }
                }
            }
        },
    }
}

/// Removes `c` from the set held in `v`.
fn set_remove(v: &mut Vec<TileCoord>, c: TileCoord)
    requires
        distinct(old(v)@),
    ensures
        distinct(final(v)@),
        final(v)@.to_set() == old(v)@.to_set().remove(c),
{
    match position_of(v, c) {
        None => {
            assert(old(v)@.to_set().remove(c) =~= old(v)@.to_set());
        },
        Some(k) => {
            v.remove(k);
            assert(v@ =~= old(v)@.subrange(0, k as int) + old(v)@.subrange(k + 1, old(v)@.len() as int));
            assert forall|i: int, j: int| 0 <= i < v@.len() && 0 <= j < v@.len() && i != j implies v@[i] != v@[j] by {
                let oi = if i < k { i } else { i + 1 };
                let oj = if j < k { j } else { j + 1 };
                assert(v@[i] == old(v)@[oi]);
                assert(v@[j] == old(v)@[oj]);
            }
            assert(v@.to_set() =~= old(v)@.to_set().remove(c)) by {
                assert forall|x: TileCoord| v@.contains(x) <==> (old(v)@.contains(x) && x != c) by {
                    if v@.contains(x) {
                        let j = choose|j: int| 0 <= j < v@.len() && v@[j] == x;
                        let oj = if j < k { j } else { j + 1 };
                        assert(old(v)@[oj] == x);
                        assert(oj != k);
                    }
                    if old(v)@.contains(x) && x != c {
                        let j = choose|j: int| 0 <= j < old(v)@.len() && old(v)@[j] == x;
                        assert(j != k);
                        if j < k {
                            assert(v@[j] == x);
                        } else {
                            assert(v@[j - 1] == x);
                        }
                    }
                }
            }
        },
    }
}

/// Keeps only the tiles of the set held in `v` that `kept` allows.
fn set_retain(v: &mut Vec<TileCoord>, zoom: u32, r: TileRange)
    requires
        distinct(old(v)@),
        range_fits(r),
    ensures
        distinct(final(v)@),
        final(v)@.to_set() == old(v)@.to_set().filter(|c: TileCoord| kept(c, zoom, r)),
{
    let ghost orig = v@;
    let mut out: Vec<TileCoord> = Vec::new();
    let mut i: usize = 0;
    while i < v.len()
        invariant
            v@ == orig,
            distinct(orig),
            range_fits(r),
            i <= orig.len(),
            distinct(out@),
            forall|x: TileCoord| out@.contains(x) <==> (exists|j: int| 0 <= j < i && orig[j] == x && kept(x, zoom, r)),
        decreases orig.len() - i,
    {
        let c = v[i];
        if keeps(c, zoom, r) {
            proof {
                assert forall|j: int| 0 <= j < out@.len() implies out@[j] != c by {
                    if out@[j] == c {
                        assert(out@.contains(c));
                        let jj = choose|jj: int| 0 <= jj < i && orig[jj] == c && kept(c, zoom, r);
                        assert(orig[jj] == orig[i as int]);
                    }
                }
            }
            let ghost before = out@;
            out.push(c);
            proof {
                assert forall|x: TileCoord| out@.contains(x) <==> (exists|j: int| 0 <= j < i + 1 && orig[j] == x && kept(x, zoom, r)) by {
                    if out@.contains(x) {
                        let j = choose|j: int| 0 <= j < out@.len() && out@[j] == x;
                        if j < before.len() {
                            assert(before.contains(x));
                        } else {
                            assert(orig[i as int] == x);
                        }
                    }
                    if exists|j: int| 0 <= j < i + 1 && orig[j] == x && kept(x, zoom, r) {
                        let j = choose|j: int| 0 <= j < i + 1 && orig[j] == x && kept(x, zoom, r);
                        if j < i {
                            assert(before.contains(x));
                            let k = choose|k: int| 0 <= k < before.len() && before[k] == x;
                            assert(out@[k] == x);
                        } else {
                            assert(out@[before.len() as int] == x);
                        }
                    }
                }
            }
        } else {
            proof {
                assert forall|x: TileCoord| out@.contains(x) <==> (exists|j: int| 0 <= j < i + 1 && orig[j] == x && kept(x, zoom, r)) by {
                    if exists|j: int| 0 <= j < i + 1 && orig[j] == x && kept(x, zoom, r) {
                        let j = choose|j: int| 0 <= j < i + 1 && orig[j] == x && kept(x, zoom, r);
                        assert(j != i);
                    }
                }
            }
        }
        i = i + 1;
    }
    proof {
        assert(out@.to_set() =~= orig.to_set().filter(|c: TileCoord| kept(c, zoom, r))) by {
            assert forall|x: TileCoord| out@.contains(x) <==> (orig.contains(x) && kept(x, zoom, r)) by {
                if orig.contains(x) && kept(x, zoom, r) {
                    let j = choose|j: int| 0 <= j < orig.len() && orig[j] == x;
                }
            }
        }
    }
    *v = out;
}

/// Whether `kept` allows tile `c`.
fn keeps(c: TileCoord, zoom: u32, r: TileRange) -> (b: bool)
    requires
        range_fits(r),
    ensures
        b == kept(c, zoom, r),
{
    c.z == zoom && c.x >= r.min_x - KEEP_RINGS && c.x <= r.max_x + KEEP_RINGS && c.y >= r.min_y
        - KEEP_RINGS && c.y <= r.max_y + KEEP_RINGS
}


/// Tiles of `vis`, in order, that are neither in `loaded` nor requested yet; each tile
/// taken counts as requested for the rest of the list.
pub open spec fn missing_from(vis: Seq<TileCoord>, loaded: Set<TileCoord>, pending: Set<TileCoord>) -> Seq<TileCoord>
    decreases vis.len(),
{
    if vis.len() == 0 {
        Seq::empty()
    } else {
        let c = vis[0];
        if loaded.contains(c) || pending.contains(c) {
            missing_from(vis.drop_first(), loaded, pending)
        } else {
            seq![c] + missing_from(vis.drop_first(), loaded, pending.insert(c))
        }
    }
}

/// `v` plus one, wrapping around at the end of `u64`.
pub open spec fn next_u64(v: u64) -> u64 {
    if v == u64::MAX {
        0
    } else {
        (v + 1) as u64
    }
}

/// `z` kept within the zoom levels of the map.
pub open spec fn clamp_map_zoom(z: u32) -> u32 {
    if z < 1 {
        1
    } else if z > 19 {
        19
    } else {
        z
    }
}

proof fn lemma_keys_index<H>(s: Seq<(TileCoord, H)>, i: int)
    requires
        0 <= i < s.len(),
    ensures
        keys_of(s)[i] == s[i].0,
        keys_of(s).len() == s.len(),
{
}

proof fn lemma_tiles_per_side_positive(z: nat)
    ensures
        tiles_per_side(z) >= 1,
    decreases z,
{
    if z > 0 {
        lemma_tiles_per_side_positive((z - 1) as nat);
    }
}

impl<H> TileBook<H> {
    /// An empty book at zoom 15.
    pub fn new() -> (b: Self)
        ensures
            b.wf(),
            b.spec_zoom() == 15,
            b.loaded().is_empty(),
            b.requested().is_empty(),
            b.failures().is_empty(),
            b.spec_epoch() == 0,
            b.spec_revision() == 0,
            b.zoom_changes() == 0,
    {
        let b = TileBook {
            zoom: 15,
            tiles: Vec::new(),
            pending: Vec::new(),
            failed: Vec::new(),
            epoch: 0,
            revision: 0,
            zoom_changes: Ghost(0),
        };
        proof {
            assert(keys_of(b.tiles@) =~= Seq::<TileCoord>::empty());
            assert(b.loaded() =~= Set::<TileCoord>::empty());
            assert(b.requested() =~= Set::<TileCoord>::empty());
            assert(b.failures() =~= Set::<TileCoord>::empty());
        }
        b
    }

    /// The current zoom level.
    pub fn zoom(&self) -> (z: u32)
        ensures
            z == self.spec_zoom(),
    {
        self.zoom
    }

    /// The drawing revision; it changes whenever what is drawn may change.
    pub fn revision(&self) -> (r: u64)
        ensures
            r == self.spec_revision(),
    {
        self.revision
    }

    /// Marks a change that affects drawing.
    pub fn touch(&mut self)
        ensures
            final(self).spec_revision() == next_u64(old(self).spec_revision()),
            final(self).spec_zoom() == old(self).spec_zoom(),
            final(self).loaded() == old(self).loaded(),
            final(self).requested() == old(self).requested(),
            final(self).failures() == old(self).failures(),
            final(self).spec_epoch() == old(self).spec_epoch(),
            final(self).zoom_changes() == old(self).zoom_changes(),
            final(self).wf() == old(self).wf(),
            forall|c: TileCoord| final(self).image(c) == old(self).image(c),
    {
        self.revision = self.revision.wrapping_add(1);
    }

    /// The current view generation, for a download request.
    pub fn epoch(&self) -> (e: TileEpoch)
        ensures
            e.issued == self.spec_epoch(),
    {
        TileEpoch { issued: self.epoch }
    }

    /// Moves to zoom level `zoom` (clamped to `1 ..= 19`); true when the level
    /// changed. A change forgets every tile, pending request and failure, and
    /// starts a new view generation.
    pub fn change_zoom(&mut self, zoom: u32) -> (changed: bool)
        requires
            old(self).wf(),
        ensures
            final(self).wf(),
            changed == (clamp_map_zoom(zoom) != old(self).spec_zoom()),
            !changed ==> final(self).spec_zoom() == old(self).spec_zoom()
                && final(self).loaded() == old(self).loaded()
                && final(self).requested() == old(self).requested()
                && final(self).failures() == old(self).failures()
                && final(self).spec_epoch() == old(self).spec_epoch()
                && final(self).zoom_changes() == old(self).zoom_changes()
                && final(self).spec_revision() == old(self).spec_revision()
                && forall|c: TileCoord| final(self).image(c) == old(self).image(c),
            changed ==> final(self).spec_zoom() == clamp_map_zoom(zoom)
                && final(self).loaded().is_empty()
                && final(self).requested().is_empty()
                && final(self).failures().is_empty()
                && final(self).spec_epoch() == next_u64(old(self).spec_epoch())
                && final(self).zoom_changes() == old(self).zoom_changes() + 1
                && final(self).spec_revision() == next_u64(old(self).spec_revision()),
    {
        let z = if zoom < 1 {
            1
        } else if zoom > 19 {
            19
        } else {
            zoom
        };
        if z == self.zoom {
            return false;
        }
        self.zoom = z;
        self.tiles.clear();
        self.pending.clear();
        self.failed.clear();
        proof {
            lemma_add_mod_noop_right(1, self.zoom_changes@ as int, 0x1_0000_0000_0000_0000);
            lemma_next_mod(self.epoch as int);
        }
        self.epoch = self.epoch.wrapping_add(1);
        self.zoom_changes = Ghost(self.zoom_changes@ + 1);
        proof {
            assert(keys_of(self.tiles@) =~= Seq::<TileCoord>::empty());
            assert(self.loaded() =~= Set::<TileCoord>::empty());
            assert(self.requested() =~= Set::<TileCoord>::empty());
            assert(self.failures() =~= Set::<TileCoord>::empty());
        }
        self.touch();
        true
    }

    /// Tiles of the visible range that lie inside the world, column by column.
    pub fn visible_tiles(&self, r: TileRange) -> (v: Vec<TileCoord>)
        requires
            self.wf(),
        ensures
            v@ == visible(self.spec_zoom(), r),
    {
        let mut count: i64 = 1;
        let mut k: u32 = 0;
        while k < self.zoom
            invariant
                k <= self.zoom <= 19,
                count == tiles_per_side(k as nat),
                count <= 0x80000,
            decreases self.zoom - k,
        {
            proof {
                assert(tiles_per_side((k + 1) as nat) == 2 * tiles_per_side(k as nat));
                lemma_tiles_per_side_positive(k as nat);
                assert(count <= 0x40000) by {
                    lemma_tiles_per_side_bound(k as nat);
                }
            }
            count = count * 2;
            k = k + 1;
        }
        let mut out: Vec<TileCoord> = Vec::new();
        let mut x: i64 = r.min_x;
        while x < r.max_x
            invariant
                r.min_x <= x || r.max_x <= r.min_x,
                x >= r.min_x,
                x <= r.max_x || x == r.min_x,
                count == tiles_per_side(self.zoom as nat),
                1 <= self.zoom <= 19,
                out@ + visible_from(self.zoom, x as int, r) == visible(self.zoom, r),
            decreases r.max_x - x,
        {
            let ghost before = out@;
            let mut y: i64 = r.min_y;
            while y < r.max_y
                invariant
                        x < r.max_x,
                    y >= r.min_y,
                    y <= r.max_y || y == r.min_y,
                    count == tiles_per_side(self.zoom as nat),
                    out@ + visible_column(self.zoom, x, y as int, r.max_y as int) == before + visible_column(
                        self.zoom,
                        x,
                        r.min_y as int,
                        r.max_y as int,
                    ),
                decreases r.max_y - y,
            {
                let c = TileCoord { z: self.zoom, x, y };
                let ghost mid = out@;
                if !(x < 0 || y < 0 || x >= count || y >= count) {
                    out.push(c);
                }
                proof {
                    assert(visible_column(self.zoom, x, y as int, r.max_y as int) == (if in_world(c) {
                        seq![c]
                    } else {
                        Seq::empty()
                    }) + visible_column(self.zoom, x, y + 1, r.max_y as int));
                    if in_world(c) {
                        assert(out@ =~= mid + seq![c]);
                    } else {
                        assert(out@ =~= mid);
                    }
                    assert(out@ + visible_column(self.zoom, x, y + 1, r.max_y as int) =~= mid + visible_column(
                        self.zoom,
                        x,
                        y as int,
                        r.max_y as int,
                    ));
                }
                y = y + 1;
            }
            proof {
                assert(visible_column(self.zoom, x, y as int, r.max_y as int) =~= Seq::<TileCoord>::empty());
                assert(visible_from(self.zoom, x as int, r) == visible_column(self.zoom, x, r.min_y as int, r.max_y as int)
                    + visible_from(self.zoom, x + 1, r));
                assert(out@ + visible_from(self.zoom, x + 1, r) =~= before + visible_from(self.zoom, x as int, r));
            }
            x = x + 1;
        }
        proof {
            assert(visible_from(self.zoom, x as int, r) =~= Seq::<TileCoord>::empty());
            assert(out@ =~= visible(self.zoom, r));
        }
        out
    }
}

proof fn lemma_tiles_per_side_bound(k: nat)
    requires
        k <= 18,
    ensures
        tiles_per_side(k) <= 0x40000,
    decreases 18 - k,
{
    if k < 18 {
        lemma_tiles_per_side_bound(k + 1);
        lemma_tiles_per_side_positive(k);
    } else {
        reveal_with_fuel(tiles_per_side, 19);
    }
}


impl<H> TileBook<H> {
    proof fn lemma_image_at(&self, k: int)
        requires
            self.wf(),
            0 <= k < self.tiles@.len(),
        ensures
            self.image(self.tiles@[k].0) == self.tiles@[k].1,
            self.loaded().contains(self.tiles@[k].0),
    {
        let c = self.tiles@[k].0;
        assert(exists|i: int| 0 <= i < self.tiles@.len() && self.tiles@[i].0 == c);
        let i = self.image_index(c);
        assert(keys_of(self.tiles@)[i] == c && keys_of(self.tiles@)[k] == c);
        assert(i == k) by {
            if i != k {
                assert(distinct(keys_of(self.tiles@)));
                assert(keys_of(self.tiles@)[i] != keys_of(self.tiles@)[k]);
            }
        }
        assert(self.image(c) == self.tiles@[i].1);
        assert(keys_of(self.tiles@)[k] == c);
    }

    fn tile_position(&self, c: TileCoord) -> (i: Option<usize>)
        requires
            self.wf(),
        ensures
            match i {
                Some(k) => k < self.tiles@.len() && self.tiles@[k as int].0 == c,
                None => !self.loaded().contains(c),
            },
    {
        let mut k: usize = 0;
        while k < self.tiles.len()
            invariant
                k <= self.tiles@.len(),
                forall|j: int| 0 <= j < k ==> self.tiles@[j].0 != c,
            decreases self.tiles@.len() - k,
        {
            if self.tiles[k].0 == c {
                return Some(k);
            }
            k = k + 1;
        }
        proof {
            if self.loaded().contains(c) {
                let j = choose|j: int| 0 <= j < keys_of(self.tiles@).len() && keys_of(self.tiles@)[j] == c;
                assert(self.tiles@[j].0 == c);
            }
        }
        None
    }

    /// The image of tile `c`, when it is loaded.
    pub fn tile(&self, c: TileCoord) -> (h: Option<&H>)
        requires
            self.wf(),
        ensures
            match h {
                Some(img) => self.loaded().contains(c) && *img == self.image(c),
                None => !self.loaded().contains(c),
            },
    {
        match self.tile_position(c) {
            Some(k) => {
                proof {
                    self.lemma_image_at(k as int);
                }
                Some(&self.tiles[k].1)
            },
            None => None,
        }
    }

    /// Whether the download of tile `c` failed.
    pub fn is_failed(&self, c: TileCoord) -> (b: bool)
        ensures
            b == self.failures().contains(c),
    {
        position_of(&self.failed, c).is_some()
    }

    /// Whether some tile near the visible area failed to download.
    pub fn has_failures(&self) -> (b: bool)
        ensures
            b == !self.failures().is_empty(),
    {
        proof {
            if self.failed@.len() > 0 {
                assert(self.failures().contains(self.failed@[0]));
            } else {
                assert(self.failures() =~= Set::<TileCoord>::empty());
            }
        }
        self.failed.len() > 0
    }

    /// Stores a downloaded tile. It is no longer pending nor failed; it is kept only
    /// when it belongs to the current zoom level.
    pub fn insert_tile(&mut self, c: TileCoord, image: H)
        requires
            old(self).wf(),
        ensures
            final(self).wf(),
            final(self).spec_zoom() == old(self).spec_zoom(),
            final(self).spec_epoch() == old(self).spec_epoch(),
            final(self).zoom_changes() == old(self).zoom_changes(),
            final(self).requested() == old(self).requested().remove(c),
            final(self).failures() == old(self).failures().remove(c),
            c.z == old(self).spec_zoom() ==> final(self).loaded() == old(self).loaded().insert(c)
                && final(self).image(c) == image
                && final(self).spec_revision() == next_u64(old(self).spec_revision()),
            c.z != old(self).spec_zoom() ==> final(self).loaded() == old(self).loaded()
                && final(self).spec_revision() == old(self).spec_revision(),
            forall|d: TileCoord| d != c && old(self).loaded().contains(d) ==> final(self).image(d) == old(self).image(d),
    {
        set_remove(&mut self.pending, c);
        set_remove(&mut self.failed, c);
        if c.z == self.zoom {
            let ghost before = self.tiles@;
            match self.tile_position(c) {
                Some(k) => {
                    self.tiles.set(k, (c, image));
                    proof {
                        assert(keys_of(self.tiles@) =~= keys_of(before));
                        self.lemma_image_at(k as int);
                        assert forall|d: TileCoord| d != c && old(self).loaded().contains(d) implies self.image(d) == old(self).image(d) by {
                            let j = choose|j: int| 0 <= j < keys_of(before).len() && keys_of(before)[j] == d;
                            assert(before[j].0 == d);
                            assert(j != k);
                            old(self).lemma_image_at(j);
                            self.lemma_image_at(j);
                        }
                        assert(self.loaded() =~= old(self).loaded().insert(c));
                    }
                },
                None => {
                    self.tiles.push((c, image));
                    proof {
                        assert(keys_of(self.tiles@) =~= keys_of(before).push(c));
                        assert(distinct(keys_of(self.tiles@))) by {
                            assert forall|i: int, j: int| 0 <= i < keys_of(self.tiles@).len() && 0 <= j < keys_of(self.tiles@).len() && i != j
                                implies keys_of(self.tiles@)[i] != keys_of(self.tiles@)[j] by {
                                if i == before.len() as int {
                                    assert(keys_of(before)[j] != c) by {
                                        if keys_of(before)[j] == c {
                                            assert(keys_of(before).contains(c));
                                        }
                                    }
                                } else if j == before.len() as int {
                                    assert(keys_of(before)[i] != c) by {
                                        if keys_of(before)[i] == c {
                                            assert(keys_of(before).contains(c));
                                        }
                                    }
                                }
                            }
                        }
                        self.lemma_image_at(before.len() as int);
                        assert forall|d: TileCoord| d != c && old(self).loaded().contains(d) implies self.image(d) == old(self).image(d) by {
                            let j = choose|j: int| 0 <= j < keys_of(before).len() && keys_of(before)[j] == d;
                            assert(before[j].0 == d);
                            old(self).lemma_image_at(j);
                            self.lemma_image_at(j);
                        }
                        let nk = keys_of(self.tiles@);
                        let ok = keys_of(before);
                        assert forall|x: TileCoord| nk.contains(x) <==> (ok.contains(x) || x == c) by {
                            if nk.contains(x) {
                                let j = choose|j: int| 0 <= j < nk.len() && nk[j] == x;
                                if j < ok.len() {
                                    assert(ok[j] == x);
                                }
                            }
                            if ok.contains(x) {
                                let j = choose|j: int| 0 <= j < ok.len() && ok[j] == x;
                                assert(nk[j] == x);
                            }
                            if x == c {
                                assert(nk[ok.len() as int] == c);
                            }
                        }
                        assert(self.loaded() =~= old(self).loaded().insert(c));
                    }
                },
            }
            self.touch();
        }
    }

    /// A download failed: the tile is no longer pending, and it is marked failed when
    /// it belongs to the current zoom level, so that it is drawn as missing.
    pub fn drop_pending(&mut self, c: TileCoord)
        requires
            old(self).wf(),
        ensures
            final(self).wf(),
            final(self).spec_zoom() == old(self).spec_zoom(),
            final(self).spec_epoch() == old(self).spec_epoch(),
            final(self).zoom_changes() == old(self).zoom_changes(),
            final(self).loaded() == old(self).loaded(),
            forall|d: TileCoord| final(self).image(d) == old(self).image(d),
            final(self).requested() == old(self).requested().remove(c),
            c.z == old(self).spec_zoom() ==> final(self).failures() == old(self).failures().insert(c)
                && final(self).spec_revision() == next_u64(old(self).spec_revision()),
            c.z != old(self).spec_zoom() ==> final(self).failures() == old(self).failures()
                && final(self).spec_revision() == old(self).spec_revision(),
    {
        set_remove(&mut self.pending, c);
        if c.z == self.zoom {
            set_insert(&mut self.failed, c);
            self.touch();
        }
    }
}


impl<H> TileBook<H> {
    /// Forgets the tiles, requests and failures that `kept` does not allow.
    fn prune(&mut self, r: TileRange)
        requires
            old(self).wf(),
            range_fits(r),
        ensures
            final(self).wf(),
            final(self).spec_zoom() == old(self).spec_zoom(),
            final(self).spec_epoch() == old(self).spec_epoch(),
            final(self).zoom_changes() == old(self).zoom_changes(),
            final(self).spec_revision() == old(self).spec_revision(),
            final(self).loaded() == old(self).loaded().filter(|c: TileCoord| kept(c, old(self).spec_zoom(), r)),
            final(self).requested() == old(self).requested().filter(|c: TileCoord| kept(c, old(self).spec_zoom(), r)),
            final(self).failures() == old(self).failures().filter(|c: TileCoord| kept(c, old(self).spec_zoom(), r)),
            forall|d: TileCoord| final(self).loaded().contains(d) ==> final(self).image(d) == old(self).image(d),
    {
        let zoom = self.zoom;
        set_retain(&mut self.pending, zoom, r);
        set_retain(&mut self.failed, zoom, r);
        let ghost orig = self.tiles@;
        let ghost start = *self;
        assert(start.tiles@ == old(self).tiles@);
        let ghost p_after = self.pending@;
        let ghost f_after = self.failed@;
        let mut out: Vec<(TileCoord, H)> = Vec::new();
        while self.tiles.len() > 0
            invariant
                self.zoom == zoom,
                1 <= zoom <= 19,
                self.pending@ == p_after,
                self.failed@ == f_after,
                distinct(p_after),
                distinct(f_after),
                self.epoch == start.epoch,
                self.zoom_changes == start.zoom_changes,
                self.revision == start.revision,
                range_fits(r),
                distinct(keys_of(orig)),
                start.tiles@ == orig,
                start.wf(),
                self.tiles@.len() <= orig.len(),
                self.tiles@ == orig.skip(orig.len() - self.tiles@.len()),
                distinct(keys_of(out@)),
                forall|k: int| 0 <= k < out@.len() ==> exists|j: int|
                    0 <= j < orig.len() - self.tiles@.len() && #[trigger] out@[k] == orig[j],
                forall|x: TileCoord| keys_of(out@).contains(x) <==> (exists|j: int|
                    0 <= j < orig.len() - self.tiles@.len() && orig[j].0 == x && kept(x, zoom, r)),
            decreases self.tiles@.len(),
        {
            let ghost done = orig.len() - self.tiles@.len();
            let e = self.tiles.remove(0);
            assert(e == orig[done]);
            assert(self.tiles@ =~= orig.skip(done + 1));
            if keeps(e.0, zoom, r) {
                let ghost before = out@;
                proof {
                    assert(!keys_of(before).contains(e.0)) by {
                        if keys_of(before).contains(e.0) {
                            let j = choose|j: int| 0 <= j < done && orig[j].0 == e.0 && kept(e.0, zoom, r);
                            assert(keys_of(orig)[j] == keys_of(orig)[done]);
                        }
                    }
                }
                out.push(e);
                proof {
                    assert(keys_of(out@) =~= keys_of(before).push(e.0));
                    assert forall|i: int, j: int| 0 <= i < keys_of(out@).len() && 0 <= j < keys_of(out@).len() && i != j
                        implies keys_of(out@)[i] != keys_of(out@)[j] by {
                        if i == before.len() as int {
                            assert(keys_of(before)[j] != e.0) by {
                                if keys_of(before)[j] == e.0 { assert(keys_of(before).contains(e.0)); }
                            }
                        } else if j == before.len() as int {
                            assert(keys_of(before)[i] != e.0) by {
                                if keys_of(before)[i] == e.0 { assert(keys_of(before).contains(e.0)); }
                            }
                        }
                    }
                    assert forall|k: int| 0 <= k < out@.len() implies exists|j: int|
                        0 <= j < done + 1 && #[trigger] out@[k] == orig[j] by {
                        if k < before.len() {
                            assert(out@[k] == before[k]);
                        } else {
                            assert(out@[k] == orig[done]);
                        }
                    }
                    assert forall|x: TileCoord| keys_of(out@).contains(x) <==> (exists|j: int|
                        0 <= j < done + 1 && orig[j].0 == x && kept(x, zoom, r)) by {
                        if keys_of(out@).contains(x) {
                            let k = choose|k: int| 0 <= k < keys_of(out@).len() && keys_of(out@)[k] == x;
                            if k < before.len() {
                                assert(keys_of(before)[k] == x);
                                assert(keys_of(before).contains(x));
                            } else {
                                assert(orig[done].0 == x);
                            }
                        }
                        if exists|j: int| 0 <= j < done + 1 && orig[j].0 == x && kept(x, zoom, r) {
                            let j = choose|j: int| 0 <= j < done + 1 && orig[j].0 == x && kept(x, zoom, r);
                            if j < done {
                                assert(keys_of(before).contains(x));
                                let k = choose|k: int| 0 <= k < keys_of(before).len() && keys_of(before)[k] == x;
                                assert(keys_of(out@)[k] == x);
                            } else {
                                assert(keys_of(out@)[before.len() as int] == x);
                            }
                        }
                    }
                }
            } else {
                proof {
                    assert forall|k: int| 0 <= k < out@.len() implies exists|j: int|
                        0 <= j < done + 1 && #[trigger] out@[k] == orig[j] by {
                        let j = choose|j: int| 0 <= j < done && out@[k] == orig[j];
                    }
                    assert forall|x: TileCoord| keys_of(out@).contains(x) <==> (exists|j: int|
                        0 <= j < done + 1 && orig[j].0 == x && kept(x, zoom, r)) by {
                        if exists|j: int| 0 <= j < done + 1 && orig[j].0 == x && kept(x, zoom, r) {
                            let j = choose|j: int| 0 <= j < done + 1 && orig[j].0 == x && kept(x, zoom, r);
                            assert(j != done);
                        }
                    }
                }
            }
        }
        self.tiles = out;
        proof {
            let zk = |c: TileCoord| kept(c, zoom, r);
            assert(self.loaded() =~= start.loaded().filter(zk)) by {
                assert forall|x: TileCoord| keys_of(self.tiles@).contains(x) <==> (keys_of(orig).contains(x) && kept(x, zoom, r)) by {
                    if keys_of(orig).contains(x) && kept(x, zoom, r) {
                        let j = choose|j: int| 0 <= j < keys_of(orig).len() && keys_of(orig)[j] == x;
                        assert(orig[j].0 == x);
                    }
                    if exists|j: int| 0 <= j < orig.len() && orig[j].0 == x && kept(x, zoom, r) {
                        let j = choose|j: int| 0 <= j < orig.len() && orig[j].0 == x && kept(x, zoom, r);
                        assert(keys_of(orig)[j] == x);
                    }
                }
            }
            assert forall|d: TileCoord| self.loaded().contains(d) implies self.image(d) == old(self).image(d) by {
                let k = choose|k: int| 0 <= k < keys_of(self.tiles@).len() && keys_of(self.tiles@)[k] == d;
                let j = choose|j: int| 0 <= j < orig.len() && self.tiles@[k] == orig[j];
                self.lemma_image_at(k);
                start.lemma_image_at(j);
                assert(start.image_index(d) == old(self).image_index(d));
                assert(start.image(d) == old(self).image(d));
            }
        }
    }

    /// Tiles of the visible range `r` that are neither loaded nor requested: they
    /// become requested (and no longer failed) and come back in visible order, for
    /// download. Tiles far from `r` are forgotten first (see `kept`).
    pub fn take_missing_tiles(&mut self, r: TileRange) -> (missing: Vec<TileCoord>)
        requires
            old(self).wf(),
            range_fits(r),
        ensures
            ({
                let z = old(self).spec_zoom();
                let keep = |c: TileCoord| kept(c, z, r);
                let loaded = old(self).loaded().filter(keep);
                let pending = old(self).requested().filter(keep);
                &&& final(self).wf()
                &&& final(self).spec_zoom() == z
                &&& final(self).spec_epoch() == old(self).spec_epoch()
                &&& final(self).zoom_changes() == old(self).zoom_changes()
                &&& final(self).spec_revision() == next_u64(old(self).spec_revision())
                &&& missing@ == missing_from(visible(z, r), loaded, pending)
                &&& final(self).loaded() == loaded
                &&& final(self).requested() == pending + missing@.to_set()
                &&& final(self).failures() == old(self).failures().filter(keep) - missing@.to_set()
                &&& forall|d: TileCoord| final(self).loaded().contains(d) ==> final(self).image(d) == old(self).image(d)
            }),
            distinct(missing@),
            forall|c: TileCoord| #[trigger] missing@.contains(c) ==> {
                &&& visible(old(self).spec_zoom(), r).contains(c)
                &&& !old(self).loaded().contains(c)
                &&& !old(self).requested().contains(c)
            },
            forall|c: TileCoord| #[trigger] visible(old(self).spec_zoom(), r).contains(c) ==> final(self).loaded().contains(c)
                || final(self).requested().contains(c),
            (forall|c: TileCoord| #[trigger] visible(old(self).spec_zoom(), r).contains(c) ==> old(self).loaded().contains(c)
                || old(self).requested().contains(c)) ==> missing@.len() == 0,
    {
        self.prune(r);
        self.touch();
        let ghost loaded = self.loaded();
        let ghost pending = self.requested();
        let ghost failed = self.failures();
        let vis = self.visible_tiles(r);
        let mut missing: Vec<TileCoord> = Vec::new();
        let mut i: usize = 0;
        proof {
            assert(vis@.skip(0) =~= vis@);
            assert(pending + Seq::<TileCoord>::empty().to_set() =~= pending);
            assert(failed - Seq::<TileCoord>::empty().to_set() =~= failed);
        }
        while i < vis.len()
            invariant
                self.wf(),
                i <= vis@.len(),
                self.loaded() == loaded,
                self.spec_zoom() == old(self).spec_zoom(),
                self.spec_epoch() == old(self).spec_epoch(),
                self.zoom_changes() == old(self).zoom_changes(),
                self.spec_revision() == next_u64(old(self).spec_revision()),
                forall|d: TileCoord| self.loaded().contains(d) ==> self.image(d) == old(self).image(d),
                forall|d: TileCoord| loaded.contains(d) ==> old(self).loaded().contains(d),
                self.requested() == pending + missing@.to_set(),
                self.failures() == failed - missing@.to_set(),
                missing@ + missing_from(vis@.skip(i as int), loaded, pending + missing@.to_set())
                    == missing_from(vis@, loaded, pending),
            decreases vis@.len() - i,
        {
            let c = vis[i];
            let ghost rest = vis@.skip(i as int);
            let ghost cur = pending + missing@.to_set();
            proof {
                assert(rest[0] == c);
                assert(rest.drop_first() =~= vis@.skip(i + 1));
            }
            let known = self.tile_position(c).is_some();
            let asked = position_of(&self.pending, c).is_some();
            if !known && !asked {
                let ghost before = missing@;
                set_insert(&mut self.pending, c);
                set_remove(&mut self.failed, c);
                missing.push(c);
                proof {
                    assert(!loaded.contains(c));
                    assert(!cur.contains(c));
                    assert(missing@.to_set() =~= before.to_set().insert(c)) by {
                        assert forall|x: TileCoord| missing@.contains(x) <==> (before.contains(x) || x == c) by {
                            if missing@.contains(x) {
                                let j = choose|j: int| 0 <= j < missing@.len() && missing@[j] == x;
                                if j < before.len() {
                                    assert(before[j] == x);
                                }
                            }
                            if before.contains(x) {
                                let j = choose|j: int| 0 <= j < before.len() && before[j] == x;
                                assert(missing@[j] == x);
                            }
                            if x == c {
                                assert(missing@[before.len() as int] == c);
                            }
                        }
                    }
                    assert(pending + missing@.to_set() =~= cur.insert(c));
                    assert(self.requested() =~= pending + missing@.to_set());
                    assert(self.failures() =~= failed - missing@.to_set());
                    assert(missing@ =~= before + seq![c]);
                }
            } else {
                proof {
                    if known {
                        let k = choose|k: int| 0 <= k < self.tiles@.len() && self.tiles@[k].0 == c;
                        assert(keys_of(self.tiles@)[k] == c);
                        assert(loaded.contains(c));
                    } else {
                        assert(self.requested().contains(c));
                        assert(cur.contains(c));
                    }
                }
            }
            i = i + 1;
        }
        proof {
            assert(vis@.skip(i as int) =~= Seq::<TileCoord>::empty());
            assert(missing@ =~= missing_from(vis@, loaded, pending));
            lemma_take_facts(old(self).spec_zoom(), r, old(self).loaded(), old(self).requested());
        }
        missing
    }
}


} // verus!

verus! {

proof fn lemma_next_mod(e: int)
    requires
        0 <= e < 0x1_0000_0000_0000_0000,
    ensures
        (1 + e) % 0x1_0000_0000_0000_0000 == if e == 0xffff_ffff_ffff_ffff { 0 } else { e + 1 },
{
    lemma_fundamental_div_mod(1 + e, 0x1_0000_0000_0000_0000);
    assert(0 <= (1 + e) % 0x1_0000_0000_0000_0000 < 0x1_0000_0000_0000_0000);
    let q = (1 + e) / 0x1_0000_0000_0000_0000;
    assert(q == if e == 0xffff_ffff_ffff_ffff { 1int } else { 0int }) by (nonlinear_arith)
        requires
            0 <= e < 0x1_0000_0000_0000_0000,
            1 + e == 0x1_0000_0000_0000_0000 * q + (1 + e) % 0x1_0000_0000_0000_0000,
            0 <= (1 + e) % 0x1_0000_0000_0000_0000 < 0x1_0000_0000_0000_0000;
}

/// What a call of `take_missing_tiles` at zoom `z` on range `r`, with tiles
/// `loaded` and `pending` before it, gives and leaves behind, as sets.
proof fn lemma_take_facts(z: u32, r: TileRange, loaded: Set<TileCoord>, pending: Set<TileCoord>)
    requires
        range_fits(r),
    ensures
        ({
            let keep = |c: TileCoord| kept(c, z, r);
            let m = missing_from(visible(z, r), loaded.filter(keep), pending.filter(keep));
            &&& distinct(m)
            &&& forall|c: TileCoord| #[trigger] m.contains(c) ==> visible(z, r).contains(c) && !loaded.contains(c)
                && !pending.contains(c)
            &&& forall|c: TileCoord| #[trigger] visible(z, r).contains(c) ==> loaded.filter(keep).contains(c) || (
            pending.filter(keep) + m.to_set()).contains(c)
            &&& (forall|c: TileCoord| #[trigger] visible(z, r).contains(c) ==> loaded.contains(c) || pending.contains(c))
                ==> m.len() == 0
        }),
{
    let keep = |c: TileCoord| kept(c, z, r);
    let lf = loaded.filter(keep);
    let pf = pending.filter(keep);
    let vis = visible(z, r);
    let m = missing_from(vis, lf, pf);
    lemma_missing_from_fresh(vis, lf, pf);
    lemma_visible_from_tiles(z, r.min_x as int, r);
    lemma_missing_covers(vis, lf, pf);
    assert forall|c: TileCoord| #[trigger] vis.contains(c) implies kept(c, z, r) by {
        let i = choose|i: int| 0 <= i < vis.len() && vis[i] == c;
        assert(vis[i] == c);
    }
    assert forall|c: TileCoord| #[trigger] m.contains(c) implies vis.contains(c) && !loaded.contains(c) && !pending.contains(c) by {
        let i = choose|i: int| 0 <= i < m.len() && m[i] == c;
        assert(m[i] == c);
    }
    assert forall|c: TileCoord| #[trigger] vis.contains(c) implies lf.contains(c) || (pf + m.to_set()).contains(c) by {
        let i = choose|i: int| 0 <= i < vis.len() && vis[i] == c;
        assert(vis[i] == c);
        if m.contains(c) {
            assert(m.to_set().contains(c));
        }
    }
    if forall|c: TileCoord| #[trigger] vis.contains(c) ==> loaded.contains(c) || pending.contains(c) {
        assert forall|i: int| 0 <= i < vis.len() implies lf.contains(#[trigger] vis[i]) || pf.contains(vis[i]) by {
            assert(vis.contains(vis[i]));
        }
        lemma_nothing_missing(vis, lf, pf);
    }
}

/// A download request goes stale exactly when the zoom level changed since it was
/// issued: `change_zoom` counts every call that changes the level, the other
/// operations of the book leave the count alone, and the view generation of a
/// later state of the book differs from the one a request was issued under (what
/// `TileEpoch::is_stale` tests) if and only if the count grew, for fewer than 2^64
/// level changes in between.
pub proof fn law_request_stale_after_zoom_changes<H>(issued: TileBook<H>, now: TileBook<H>)
    requires
        issued.wf(),
        now.wf(),
        issued.zoom_changes() <= now.zoom_changes() < issued.zoom_changes() + 0x1_0000_0000_0000_0000,
    ensures
        (now.spec_epoch() != issued.spec_epoch()) == (now.zoom_changes() > issued.zoom_changes()),
{
    let a = issued.zoom_changes() as int;
    let b = now.zoom_changes() as int;
    lemma_fundamental_div_mod(a, 0x1_0000_0000_0000_0000);
    lemma_fundamental_div_mod(b, 0x1_0000_0000_0000_0000);
    if a % 0x1_0000_0000_0000_0000 == b % 0x1_0000_0000_0000_0000 {
        let qa = a / 0x1_0000_0000_0000_0000;
        let qb = b / 0x1_0000_0000_0000_0000;
        assert(b - a == 0x1_0000_0000_0000_0000 * (qb - qa)) by (nonlinear_arith)
            requires
                a == 0x1_0000_0000_0000_0000 * qa + a % 0x1_0000_0000_0000_0000,
                b == 0x1_0000_0000_0000_0000 * qb + b % 0x1_0000_0000_0000_0000,
                a % 0x1_0000_0000_0000_0000 == b % 0x1_0000_0000_0000_0000;
    }
}

pub(crate) proof fn lemma_missing_from_fresh(vis: Seq<TileCoord>, loaded: Set<TileCoord>, pending: Set<TileCoord>)
    ensures
        forall|i: int| 0 <= i < missing_from(vis, loaded, pending).len() ==> {
            let c = #[trigger] missing_from(vis, loaded, pending)[i];
            &&& !loaded.contains(c)
            &&& !pending.contains(c)
            &&& vis.contains(c)
        },
        distinct(missing_from(vis, loaded, pending)),
    decreases vis.len(),
{
    if vis.len() > 0 {
        let c = vis[0];
        let rest = vis.drop_first();
        if loaded.contains(c) || pending.contains(c) {
            lemma_missing_from_fresh(rest, loaded, pending);
            let m = missing_from(rest, loaded, pending);
            assert forall|i: int| 0 <= i < m.len() implies vis.contains(#[trigger] m[i]) by {
                let j = choose|j: int| 0 <= j < rest.len() && rest[j] == m[i];
                assert(vis[j + 1] == m[i]);
            }
        } else {
            let p2 = pending.insert(c);
            lemma_missing_from_fresh(rest, loaded, p2);
            let m = missing_from(rest, loaded, p2);
            let all = seq![c] + m;
            assert(missing_from(vis, loaded, pending) == all);
            assert forall|i: int| 0 <= i < all.len() implies ({
                let d = #[trigger] all[i];
                &&& !loaded.contains(d)
                &&& !pending.contains(d)
                &&& vis.contains(d)
            }) by {
                if i == 0 {
                    assert(vis[0] == c);
                } else {
                    assert(all[i] == m[i - 1]);
                    let j = choose|j: int| 0 <= j < rest.len() && rest[j] == m[i - 1];
                    assert(vis[j + 1] == m[i - 1]);
                }
            }
            assert forall|i: int, j: int| 0 <= i < all.len() && 0 <= j < all.len() && i != j implies all[i] != all[j] by {
                if i == 0 && j > 0 {
                    assert(all[j] == m[j - 1]);
                    assert(!p2.contains(m[j - 1]));
                } else if j == 0 && i > 0 {
                    assert(all[i] == m[i - 1]);
                    assert(!p2.contains(m[i - 1]));
                } else if i > 0 && j > 0 {
                    assert(all[i] == m[i - 1] && all[j] == m[j - 1]);
                }
            }
        }
    }
}

pub(crate) proof fn lemma_visible_column_tiles(z: u32, x: i64, y0: int, y1: int)
    requires
        i64::MIN <= y0,
        y1 <= i64::MAX,
    ensures
        forall|i: int| 0 <= i < visible_column(z, x, y0, y1).len() ==> {
            let c = #[trigger] visible_column(z, x, y0, y1)[i];
            &&& c.z == z
            &&& c.x == x
            &&& y0 <= c.y < y1
        },
    decreases y1 - y0,
{
    if y0 < y1 {
        lemma_visible_column_tiles(z, x, y0 + 1, y1);
        let c = TileCoord { z, x, y: y0 as i64 };
        let head = if in_world(c) { seq![c] } else { Seq::<TileCoord>::empty() };
        let more = visible_column(z, x, y0 + 1, y1);
        assert(visible_column(z, x, y0, y1) == head + more);
        assert forall|i: int| 0 <= i < (head + more).len() implies {
            let d = #[trigger] (head + more)[i];
            &&& d.z == z
            &&& d.x == x
            &&& y0 <= d.y < y1
        } by {
            if i < head.len() {
                assert((head + more)[i] == c);
            } else {
                assert((head + more)[i] == more[i - head.len()]);
            }
        }
    }
}

pub(crate) proof fn lemma_visible_from_tiles(z: u32, x0: int, r: TileRange)
    requires
        i64::MIN <= x0,
    ensures
        forall|i: int| 0 <= i < visible_from(z, x0, r).len() ==> {
            let c = #[trigger] visible_from(z, x0, r)[i];
            &&& c.z == z
            &&& x0 <= c.x < r.max_x
            &&& r.min_y <= c.y < r.max_y
        },
    decreases r.max_x - x0,
{
    if x0 < r.max_x {
        lemma_visible_column_tiles(z, x0 as i64, r.min_y as int, r.max_y as int);
        lemma_visible_from_tiles(z, x0 + 1, r);
        let col = visible_column(z, x0 as i64, r.min_y as int, r.max_y as int);
        let more = visible_from(z, x0 + 1, r);
        assert forall|i: int| 0 <= i < (col + more).len() implies {
            let c = #[trigger] (col + more)[i];
            &&& c.z == z
            &&& x0 <= c.x < r.max_x
            &&& r.min_y <= c.y < r.max_y
        } by {
            if i < col.len() {
                assert((col + more)[i] == col[i]);
            } else {
                assert((col + more)[i] == more[i - col.len()]);
            }
        }
    }
}

pub(crate) proof fn lemma_missing_covers(vis: Seq<TileCoord>, loaded: Set<TileCoord>, pending: Set<TileCoord>)
    ensures
        forall|i: int| 0 <= i < vis.len() ==> loaded.contains(#[trigger] vis[i]) || pending.contains(vis[i])
            || missing_from(vis, loaded, pending).contains(vis[i]),
    decreases vis.len(),
{
    if vis.len() > 0 {
        let c = vis[0];
        let rest = vis.drop_first();
        let m = missing_from(vis, loaded, pending);
        if loaded.contains(c) || pending.contains(c) {
            lemma_missing_covers(rest, loaded, pending);
            assert forall|i: int| 0 <= i < vis.len() implies loaded.contains(#[trigger] vis[i]) || pending.contains(vis[i])
                || m.contains(vis[i]) by {
                if i > 0 {
                    assert(vis[i] == rest[i - 1]);
                }
            }
        } else {
            let p2 = pending.insert(c);
            lemma_missing_covers(rest, loaded, p2);
            let m2 = missing_from(rest, loaded, p2);
            assert(m == seq![c] + m2);
            assert forall|i: int| 0 <= i < vis.len() implies loaded.contains(#[trigger] vis[i]) || pending.contains(vis[i])
                || m.contains(vis[i]) by {
                if i == 0 {
                    assert(m[0] == c);
                } else {
                    assert(vis[i] == rest[i - 1]);
                    if m2.contains(vis[i]) {
                        let j = choose|j: int| 0 <= j < m2.len() && m2[j] == vis[i];
                        assert(m[j + 1] == vis[i]);
                    } else if vis[i] == c {
                        assert(m[0] == c);
                    }
                }
            }
        }
    }
}

pub(crate) proof fn lemma_nothing_missing(vis: Seq<TileCoord>, loaded: Set<TileCoord>, pending: Set<TileCoord>)
    requires
        forall|i: int| 0 <= i < vis.len() ==> loaded.contains(#[trigger] vis[i]) || pending.contains(vis[i]),
    ensures
        missing_from(vis, loaded, pending) == Seq::<TileCoord>::empty(),
    decreases vis.len(),
{
    if vis.len() > 0 {
        let rest = vis.drop_first();
        assert(loaded.contains(vis[0]) || pending.contains(vis[0]));
        assert forall|i: int| 0 <= i < rest.len() implies loaded.contains(#[trigger] rest[i]) || pending.contains(rest[i]) by {
            assert(rest[i] == vis[i + 1]);
        }
        lemma_nothing_missing(rest, loaded, pending);
    }
}

} // verus!

verus! {

/// The address of tile `c` on the OpenStreetMap tile server.
pub open spec fn tile_address(c: TileCoord) -> Seq<char> {
    "https://tile.openstreetmap.org/"@ + decimal(c.z as nat) + "/"@ + signed_decimal(c.x as int) + "/"@
        + signed_decimal(c.y as int) + ".png"@
}

/// The address of tile `c` on the OpenStreetMap tile server:
/// `https://tile.openstreetmap.org/{z}/{x}/{y}.png`.
pub fn tile_url(c: TileCoord) -> (url: String)
    ensures
        url@ == tile_address(c),
{
    let mut url = String::from_str("https://tile.openstreetmap.org/");
    push_decimal(&mut url, c.z as u64);
    url.append("/");
    push_signed_decimal(&mut url, c.x);
    url.append("/");
    push_signed_decimal(&mut url, c.y);
    url.append(".png");
    url
}

} // verus!

verus! {

/// What happened while a tile is being fetched.
#[derive(Debug, Clone, Copy, PartialEq, Eq, Structural)]
pub enum FetchEvent {
    /// The fetch was asked for; it has not queued for a download slot yet.
    Begin,
    /// A download slot was granted.
    SlotGranted,
    /// The queue of download slots was closed.
    QueueClosed,
    /// The HTTP request failed.
    RequestFailed,
    /// The server answered with this HTTP status code.
    Responded(u16),
    /// Reading the answer's body failed.
    BodyFailed,
    /// The answer's body was read.
    BodyRead,
    /// The body is not an image that can be decoded.
    DecodeFailed,
    /// The image was decoded.
    Decoded,
}

/// What the fetch of a tile does next.
#[derive(Debug, Clone, Copy, PartialEq, Eq, Structural)]
pub enum FetchAction {
    /// Queue for a download slot.
    WaitForSlot,
    /// Send the HTTP request.
    SendRequest,
    /// Read the answer's body.
    ReadBody,
    /// Decode the body into an image.
    Decode,
    /// The fetch ends with this result.
    Finish(TileResult),
}

/// The next step of a tile fetch after `event`, where `stale` tells whether the view
/// generation moved on since the request was issued. A stale request ends as
/// `Stale` before it queues and again once it has a slot, so no download is made for
/// it; any failure ends it as `Failed`; an answer with a status outside `200 ..= 299`
/// is a failure.
pub open spec fn fetch_step(stale: bool, event: FetchEvent) -> FetchAction {
    match event {
        FetchEvent::Begin => if stale {
            FetchAction::Finish(TileResult::Stale)
        } else {
            FetchAction::WaitForSlot
        },
        FetchEvent::SlotGranted => if stale {
            FetchAction::Finish(TileResult::Stale)
        } else {
            FetchAction::SendRequest
        },
        FetchEvent::Responded(status) => if 200 <= status <= 299 {
            FetchAction::ReadBody
        } else {
            FetchAction::Finish(TileResult::Failed)
        },
        FetchEvent::BodyRead => FetchAction::Decode,
        FetchEvent::Decoded => FetchAction::Finish(TileResult::Loaded),
        FetchEvent::QueueClosed | FetchEvent::RequestFailed | FetchEvent::BodyFailed
        | FetchEvent::DecodeFailed => FetchAction::Finish(TileResult::Failed),
    }
}

/// Decides the next step of a tile fetch (see `fetch_step`).
pub fn tile_fetch_step(stale: bool, event: FetchEvent) -> (out: FetchAction)
    ensures
        out == fetch_step(stale, event),
{
    match event {
        FetchEvent::Begin => if stale {
            FetchAction::Finish(TileResult::Stale)
        } else {
            FetchAction::WaitForSlot
        },
        FetchEvent::SlotGranted => if stale {
            FetchAction::Finish(TileResult::Stale)
        } else {
            FetchAction::SendRequest
        },
        FetchEvent::Responded(status) => if 200 <= status && status <= 299 {
            FetchAction::ReadBody
        } else {
            FetchAction::Finish(TileResult::Failed)
        },
        FetchEvent::BodyRead => FetchAction::Decode,
        FetchEvent::Decoded => FetchAction::Finish(TileResult::Loaded),
        FetchEvent::QueueClosed | FetchEvent::RequestFailed | FetchEvent::BodyFailed
        | FetchEvent::DecodeFailed => FetchAction::Finish(TileResult::Failed),
    }
}

} // verus!
