use vstd::prelude::*;
use crate::lighting::crawl::{crawl_light, crawl_fits, falloff_covers, spec_crawl_cell};
use crate::lighting::light_source::LightSource;
use crate::lighting::light_table::LightTables;
use crate::resources::palette::Palette;

verus! {

/// Micro tile map width.
pub const MAXDUNX: usize = 112;
/// Micro tile map height.
pub const MAXDUNY: usize = 112;

/// Scene lighting: a light level per micro tile, the lights, the light tables of the
/// palette and the ambient level.
pub struct LightingSystem {
    /// Light level per micro tile, 0 (dark) to 15 (full light).
    pub light_grid: [[u8; 112]; 112],
    pub light_sources: Vec<LightSource>,
    pub light_tables: LightTables,
    /// The least light level anywhere.
    pub ambient_light: u8,
    /// The id that the next light added gets.
    pub next_light_id: usize,
}

/// The grid as nested sequences.
pub open spec fn grid_view(g: [[u8; 112]; 112]) -> Seq<Seq<u8>> {
    Seq::new(112, |i: int| g@[i]@)
}

/// The grid after `crawl_light` for one source with falloff levels `falloff`.
pub open spec fn crawl_grid(
    g: Seq<Seq<u8>>,
    source: LightSource,
    block: [[bool; 112]; 112],
    falloff: Seq<u8>,
) -> Seq<Seq<u8>> {
    Seq::new(112, |i: int| Seq::new(112, |j: int| spec_crawl_cell(g[i][j], i, j, source, block, falloff)))
}

/// A dark grid.
pub open spec fn dark_grid() -> Seq<Seq<u8>> {
    Seq::new(112, |i: int| Seq::new(112, |j: int| 0u8))
}

/// The grid after lighting the first `n` sources in order, each with its falloff
/// levels, skipping inactive ones.
pub open spec fn lit_grid(
    g: Seq<Seq<u8>>,
    sources: Seq<LightSource>,
    block: [[bool; 112]; 112],
    falloffs: Seq<Vec<u8>>,
    n: int,
) -> Seq<Seq<u8>>
    decreases n,
{
    if n <= 0 {
        g
    } else {
        let prev = lit_grid(g, sources, block, falloffs, n - 1);
        if sources[n - 1].active {
            crawl_grid(prev, sources[n - 1], block, falloffs[n - 1]@)
        } else {
            prev
        }
    }
}

/// `s` with its position replaced.
pub open spec fn moved(s: LightSource, pos: (usize, usize)) -> LightSource {
    LightSource { position: pos, ..s }
}

impl LightingSystem {
    /// A dark scene with no lights, ambient level 3, and the light tables of `palette`.
    pub fn new(palette: &Palette) -> (s: LightingSystem)
        ensures
            grid_view(s.light_grid) == dark_grid(),
            s.light_sources@ == Seq::<LightSource>::empty(),
            s.light_tables.made_from(*palette),
            s.ambient_light == 3,
            s.next_light_id == 1,
    {
        let s = LightingSystem {
            light_grid: [[0u8; 112]; 112],
            light_sources: Vec::new(),
            light_tables: LightTables::from_palette(palette),
            ambient_light: 3,
            next_light_id: 1,
        };
        assert(grid_view(s.light_grid) =~~= dark_grid());
        s
    }

    /// Add a light; it gets the next id, which is returned.
    pub fn add_light(&mut self, source: LightSource) -> (id: usize)
        requires
            old(self).next_light_id < usize::MAX,
        ensures
            id == old(self).next_light_id,
            final(self).next_light_id == old(self).next_light_id + 1,
            final(self).light_sources@ == old(self).light_sources@.push(LightSource { id, ..source }),
            final(self).light_grid == old(self).light_grid,
            final(self).light_tables == old(self).light_tables,
            final(self).ambient_light == old(self).ambient_light,
    {
        let mut source = source;
        source.id = self.next_light_id;
        self.next_light_id += 1;
        let id = source.id;
        self.light_sources.push(source);
        id
    }

    /// Remove every light with this id.
    pub fn remove_light(&mut self, id: usize)
        ensures
            final(self).light_sources@ == old(self).light_sources@.filter(|ls: LightSource| ls.id != id),
            final(self).next_light_id == old(self).next_light_id,
            final(self).light_grid == old(self).light_grid,
            final(self).light_tables == old(self).light_tables,
            final(self).ambient_light == old(self).ambient_light,
    {
        let ghost pred = |ls: LightSource| ls.id != id;
        let ghost all = self.light_sources@;
        let mut kept: Vec<LightSource> = Vec::new();
        let mut i: usize = 0;
        let n = self.light_sources.len();
        while i < n
            invariant
                n == all.len(),
                self.light_sources@ == all,
                i <= n,
                kept@ == all.take(i as int).filter(pred),
                pred == (|ls: LightSource| ls.id != id),
            decreases n - i,
        {
            reveal_with_fuel(Seq::<_>::filter, 1);
            let s = self.light_sources[i];
            assert(all.take(i + 1).drop_last() =~= all.take(i as int));
            assert(all.take(i + 1).last() == s);
            assert(all.take(i + 1).filter(pred) == if pred(s) {
                all.take(i as int).filter(pred).push(s)
            } else {
                all.take(i as int).filter(pred)
            });
            assert(pred(s) == (s.id != id));
            if s.id != id {
                kept.push(s);
            }
            i += 1;
            assert(kept@ == all.take(i as int).filter(pred));
        }
        assert(all.take(n as int) =~= all);
        self.light_sources = kept;
    }

    /// Move the first light with this id; nothing changes when there is none.
    pub fn update_light_position(&mut self, id: usize, new_pos: (usize, usize))
        ensures
            (exists|i: int| 0 <= i < old(self).light_sources@.len() && #[trigger] old(self).light_sources@[i].id == id) ==> {
                let first = choose|i: int|
                    0 <= i < old(self).light_sources@.len() && old(self).light_sources@[i].id == id
                        && forall|j: int| 0 <= j < i ==> #[trigger] old(self).light_sources@[j].id != id;
                final(self).light_sources@ == old(self).light_sources@.update(
                    first,
                    moved(old(self).light_sources@[first], new_pos),
                )
            },
            (forall|i: int| 0 <= i < old(self).light_sources@.len() ==> #[trigger] old(self).light_sources@[i].id != id)
                ==> final(self).light_sources@ == old(self).light_sources@,
            final(self).next_light_id == old(self).next_light_id,
            final(self).light_grid == old(self).light_grid,
            final(self).light_tables == old(self).light_tables,
            final(self).ambient_light == old(self).ambient_light,
    {
        let n = self.light_sources.len();
        let mut i: usize = 0;
        while i < n
            invariant
                n == self.light_sources@.len(),
                self.light_sources == old(self).light_sources,
                self.next_light_id == old(self).next_light_id,
                self.light_grid == old(self).light_grid,
                self.light_tables == old(self).light_tables,
                self.ambient_light == old(self).ambient_light,
                i <= n,
                forall|j: int| 0 <= j < i ==> #[trigger] self.light_sources@[j].id != id,
            decreases n - i,
        {
            if self.light_sources[i].id == id {
                let mut s = self.light_sources[i];
                s.position = new_pos;
                proof {
                    let first = choose|k: int|
                        0 <= k < old(self).light_sources@.len() && old(self).light_sources@[k].id == id
                            && forall|j: int| 0 <= j < k ==> #[trigger] old(self).light_sources@[j].id != id;
                    assert(0 <= i < n && old(self).light_sources@[i as int].id == id
                        && forall|j: int| 0 <= j < i ==> #[trigger] old(self).light_sources@[j].id != id);
                    if first != i {
                        if first < i {
                            assert(old(self).light_sources@[first].id != id);
                        } else {
                            assert(old(self).light_sources@[i as int].id != id);
                        }
                    }
                }
                self.light_sources.set(i, s);
                return;
            }
            i += 1;
        }
    }

    /// The light level of a micro tile: its grid level but at least the ambient
    /// level; off the map, the ambient level.
    pub fn get_light_level(&self, x: usize, y: usize) -> (v: u8)
        ensures
            v == (if x < MAXDUNX && y < MAXDUNY {
                if self.light_grid@[x as int]@[y as int] > self.ambient_light {
                    self.light_grid@[x as int]@[y as int]
                } else {
                    self.ambient_light
                }
            } else {
                self.ambient_light
            }),
            v >= self.ambient_light,
    {
        if x < MAXDUNX && y < MAXDUNY {
            let g = self.light_grid[x][y];
            if g > self.ambient_light {
                g
            } else {
                self.ambient_light
            }
        } else {
            self.ambient_light
        }
    }

    /// The palette index that shows `color_index` at a light level.
    pub fn apply_lighting(&self, color_index: u8, light_level: u8) -> (v: u8)
        ensures
            v == self.light_tables.spec_entry(if light_level > 15 { 15 } else { light_level as int }, color_index as int),
    {
        self.light_tables.get(light_level, color_index)
    }

    /// Recompute the grid: darken it, then light it from every active light in order,
    /// light `k` with the falloff levels `falloffs[k]` (see `crawl_light`).
    pub fn update(&mut self, block_map: &[[bool; 112]; 112], falloffs: &[Vec<u8>])
        requires
            forall|i: int| 0 <= i < old(self).light_sources@.len() ==> crawl_fits(#[trigger] old(self).light_sources@[i]),
            falloffs@.len() == old(self).light_sources@.len(),
            forall|i: int| 0 <= i < falloffs@.len() ==> falloff_covers(old(self).light_sources@[i], #[trigger] falloffs@[i]@),
        ensures
            grid_view(final(self).light_grid) == lit_grid(
                dark_grid(),
                old(self).light_sources@,
                *block_map,
                falloffs@,
                old(self).light_sources@.len() as int,
            ),
            final(self).light_sources == old(self).light_sources,
            final(self).next_light_id == old(self).next_light_id,
            final(self).light_tables == old(self).light_tables,
            final(self).ambient_light == old(self).ambient_light,
    {
        let mut x: usize = 0;
        while x < MAXDUNX
            invariant
                x <= MAXDUNX,
                self.light_sources == old(self).light_sources,
                self.next_light_id == old(self).next_light_id,
                self.light_tables == old(self).light_tables,
                self.ambient_light == old(self).ambient_light,
                forall|i: int, j: int| 0 <= i < x && 0 <= j < 112 ==> #[trigger] self.light_grid@[i]@[j] == 0u8,
            decreases MAXDUNX - x,
        {
            let mut y: usize = 0;
            while y < MAXDUNY
                invariant
                    x < MAXDUNX,
                    y <= MAXDUNY,
                    self.light_sources == old(self).light_sources,
                    self.next_light_id == old(self).next_light_id,
                    self.light_tables == old(self).light_tables,
                    self.ambient_light == old(self).ambient_light,
                    forall|i: int, j: int| 0 <= i < x && 0 <= j < 112 ==> #[trigger] self.light_grid@[i]@[j] == 0u8,
                    forall|j: int| 0 <= j < y ==> #[trigger] self.light_grid@[x as int]@[j] == 0u8,
                decreases MAXDUNY - y,
            {
                self.light_grid[x][y] = 0;
                y += 1;
            }
            x += 1;
        }
        assert(grid_view(self.light_grid) =~~= dark_grid());

        let n = self.light_sources.len();
        let mut k: usize = 0;
        while k < n
            invariant
                n == self.light_sources@.len(),
                k <= n,
                self.light_sources == old(self).light_sources,
                self.next_light_id == old(self).next_light_id,
                self.light_tables == old(self).light_tables,
                self.ambient_light == old(self).ambient_light,
                forall|i: int| 0 <= i < self.light_sources@.len() ==> crawl_fits(#[trigger] self.light_sources@[i]),
                falloffs@.len() == n,
                forall|i: int| 0 <= i < falloffs@.len() ==> falloff_covers(self.light_sources@[i], #[trigger] falloffs@[i]@),
                grid_view(self.light_grid) == lit_grid(dark_grid(), self.light_sources@, *block_map, falloffs@, k as int),
            decreases n - k,
        {
            let source = self.light_sources[k];
            if source.active {
                let ghost before = grid_view(self.light_grid);
                let falloff = falloffs[k].as_slice();
                crawl_light(&mut self.light_grid, &source, block_map, falloff);
                assert(grid_view(self.light_grid) =~~= crawl_grid(before, source, *block_map, falloffs@[k as int]@));
            }
            k += 1;
        }
    }
}

/// Adding a light and then removing it by the returned id leaves the other lights,
/// as long as no earlier light had that id.
pub proof fn lemma_add_then_remove(sources: Seq<LightSource>, s: LightSource, id: usize)
    requires
        forall|i: int| 0 <= i < sources.len() ==> #[trigger] sources[i].id != id,
    ensures
        sources.push(LightSource { id, ..s }).filter(|x: LightSource| x.id != id) == sources,
{
    let pred = |x: LightSource| x.id != id;
    assert(sources.push(LightSource { id, ..s }).drop_last() =~= sources);
    reveal_with_fuel(Seq::<_>::filter, 1);
    lemma_filter_all(sources, id);
}

/// Filtering out an id that no element has keeps every element.
proof fn lemma_filter_all(sources: Seq<LightSource>, id: usize)
    requires
        forall|i: int| 0 <= i < sources.len() ==> #[trigger] sources[i].id != id,
    ensures
        sources.filter(|x: LightSource| x.id != id) == sources,
    decreases sources.len(),
{
    reveal_with_fuel(Seq::<_>::filter, 1);
    if sources.len() > 0 {
        let init = sources.drop_last();
        assert forall|i: int| 0 <= i < init.len() implies #[trigger] init[i].id != id by {
            assert(init[i] == sources[i]);
        }
        lemma_filter_all(init, id);
        assert(sources =~= init.push(sources.last()));
    } else {
        assert(sources.filter(|x: LightSource| x.id != id) =~= sources);
    }
}

} // verus!
