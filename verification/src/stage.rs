//! Chunk import stage: the block-name resolver with its memoizing cache,
//! the host-side registry and chunk models, and the per-chunk orchestration
//! that turns a region file's bytes into voxel writes.

use vstd::prelude::*;
use crate::nbt::{
    RawPaletteEntry, RawSection, SpecSection, palette_view, section_view, sections_view,
    spec_section_palette, spec_section_block_states, spec_chunk_sections, s_parse_chunk,
    parse_chunk,
};
use crate::codec::{decode_block_states, spec_decoded};
use crate::region::{split_region_coord, chunk_payload, spec_chunk_payload};
use crate::inflate::{gzip_decode, zlib_decode, gzip_decoded, zlib_decoded};

verus! {

/// What lowercasing a string yields: the result depends on the characters
/// alone.
pub uninterp spec fn lower_of(s: Seq<char>) -> Seq<char>;

/// Relies on str::to_lowercase: the result is a function of the characters
/// alone.
#[verifier::external_body]
fn lowercase(s: &String) -> (r: String)
    ensures
        r@ == lower_of(s@),
{
    s.as_str().to_lowercase()
}

/// First-match lookup in an association list.
pub open spec fn find_pair<T>(pairs: Seq<(Seq<char>, T)>, key: Seq<char>) -> Option<T>
    decreases pairs.len(),
{
    if pairs.len() == 0 {
        None
    } else if pairs[0].0 == key {
        Some(pairs[0].1)
    } else {
        find_pair(pairs.subrange(1, pairs.len() as int), key)
    }
}

proof fn lemma_find_pair_found<T>(pairs: Seq<(Seq<char>, T)>, key: Seq<char>, i: int)
    requires
        0 <= i < pairs.len(),
        pairs[i].0 == key,
    ensures
        find_pair(pairs.subrange(i, pairs.len() as int), key) == Some(pairs[i].1),
{
    let s = pairs.subrange(i, pairs.len() as int);
    assert(s[0] == pairs[i]);
}

proof fn lemma_find_pair_step<T>(pairs: Seq<(Seq<char>, T)>, key: Seq<char>, i: int)
    requires
        0 <= i < pairs.len(),
        pairs[i].0 != key,
    ensures
        find_pair(pairs.subrange(i, pairs.len() as int), key) == find_pair(
            pairs.subrange(i + 1, pairs.len() as int),
            key,
        ),
{
    let s = pairs.subrange(i, pairs.len() as int);
    assert(s[0] == pairs[i]);
    assert(s.subrange(1, s.len() as int) =~= pairs.subrange(i + 1, pairs.len() as int));
}

/// The mathematical content of an id-valued association list.
pub open spec fn pairs_view_id(s: Seq<(String, u32)>) -> Seq<(Seq<char>, u32)> {
    s.map_values(|p: (String, u32)| (p.0@, p.1))
}

/// The mathematical content of a name-valued association list.
pub open spec fn pairs_view_str(s: Seq<(String, String)>) -> Seq<(Seq<char>, Seq<char>)> {
    s.map_values(|p: (String, String)| (p.0@, p.1@))
}

fn lookup_id(pairs: &Vec<(String, u32)>, key: &String) -> (r: Option<u32>)
    ensures
        r == find_pair(pairs_view_id(pairs@), key@),
{
    let ghost pv = pairs_view_id(pairs@);
    proof {
        assert(pv.subrange(0, pv.len() as int) =~= pv);
    }
    let mut i: usize = 0;
    while i < pairs.len()
        invariant
            i <= pairs@.len(),
            pv == pairs_view_id(pairs@),
            pv.len() == pairs@.len(),
            find_pair(pv, key@) == find_pair(pv.subrange(i as int, pv.len() as int), key@),
        decreases pairs@.len() - i,
    {
        if pairs[i].0 == *key {
            proof {
                lemma_find_pair_found(pv, key@, i as int);
            }
            return Some(pairs[i].1);
        }
        proof {
            lemma_find_pair_step(pv, key@, i as int);
        }
        i = i + 1;
    }
    proof {
        assert(pv.subrange(pv.len() as int, pv.len() as int) =~= Seq::<(Seq<char>, u32)>::empty());
    }
    None
}

fn lookup_str(pairs: &Vec<(String, String)>, key: &String) -> (r: Option<String>)
    ensures
        (r is Some) == (find_pair(pairs_view_str(pairs@), key@) is Some),
        r is Some ==> r->Some_0@ == find_pair(pairs_view_str(pairs@), key@)->Some_0,
{
    let ghost pv = pairs_view_str(pairs@);
    proof {
        assert(pv.subrange(0, pv.len() as int) =~= pv);
    }
    let mut i: usize = 0;
    while i < pairs.len()
        invariant
            i <= pairs@.len(),
            pv == pairs_view_str(pairs@),
            pv.len() == pairs@.len(),
            find_pair(pv, key@) == find_pair(pv.subrange(i as int, pv.len() as int), key@),
        decreases pairs@.len() - i,
    {
        if pairs[i].0 == *key {
            proof {
                lemma_find_pair_found(pv, key@, i as int);
            }
            return Some(pairs[i].1.clone());
        }
        proof {
            lemma_find_pair_step(pv, key@, i as int);
        }
        i = i + 1;
    }
    proof {
        assert(pv.subrange(pv.len() as int, pv.len() as int) =~= Seq::<
            (Seq<char>, Seq<char>),
        >::empty());
    }
    None
}

/// The substring after the first `:`, when one occurs.
pub open spec fn spec_name_tail(s: Seq<char>) -> Option<Seq<char>>
    decreases s.len(),
{
    if s.len() == 0 {
        None
    } else if s[0] == ':' {
        Some(s.subrange(1, s.len() as int))
    } else {
        spec_name_tail(s.subrange(1, s.len() as int))
    }
}

proof fn lemma_name_tail_at(s: Seq<char>, i: int)
    requires
        0 <= i <= s.len(),
        forall|j: int| 0 <= j < i ==> s[j] != ':',
    ensures
        i < s.len() && s[i] == ':' ==> spec_name_tail(s) == Some(s.subrange(i + 1, s.len() as int)),
        i == s.len() && (forall|j: int| 0 <= j < s.len() ==> s[j] != ':') ==> spec_name_tail(s)
            is None,
    decreases i,
{
    if i == 0 {
        if s.len() > 0 && s[0] != ':' {
            lemma_name_tail_none_shift(s);
        }
    } else {
        let s1 = s.subrange(1, s.len() as int);
        assert(forall|j: int| 0 <= j < i - 1 ==> s1[j] != ':');
        lemma_name_tail_at(s1, i - 1);
        if i < s.len() && s[i] == ':' {
            assert(s1[i - 1] == s[i]);
            assert(s1.subrange(i, s1.len() as int) =~= s.subrange(i + 1, s.len() as int));
        }
        if i == s.len() && (forall|j: int| 0 <= j < s.len() ==> s[j] != ':') {
            assert(forall|j: int| 0 <= j < s1.len() ==> s1[j] != ':');
        }
    }
}

proof fn lemma_name_tail_none_shift(s: Seq<char>)
    requires
        s.len() > 0,
        s[0] != ':',
    ensures
        spec_name_tail(s) == spec_name_tail(s.subrange(1, s.len() as int)),
{
}

/// Returns the substring after the first `:`, when one occurs.
fn name_tail(s: &String) -> (r: Option<String>)
    ensures
        (r is Some) == (spec_name_tail(s@) is Some),
        r is Some ==> r->Some_0@ == spec_name_tail(s@)->Some_0,
{
    let n = s.as_str().unicode_len();
    let mut i: usize = 0;
    while i < n
        invariant
            i <= n,
            n == s@.len(),
            forall|j: int| 0 <= j < i ==> s@[j] != ':',
        decreases n - i,
    {
        if s.as_str().get_char(i) == ':' {
            let t = s.as_str().substring_char(i + 1, n).to_owned();
            proof {
                lemma_name_tail_at(s@, i as int);
            }
            return Some(t);
        }
        i = i + 1;
    }
    proof {
        lemma_name_tail_at(s@, n as int);
    }
    None
}

/// The host registry: block ids indexed by lowercase block name.
pub struct Registry {
    pub blocks_by_name: Vec<(String, u32)>,
}

/// The mathematical content of a registry.
pub open spec fn registry_view(r: Registry) -> Seq<(Seq<char>, u32)> {
    pairs_view_id(r.blocks_by_name@)
}

impl Registry {
    /// Looks a block id up by name, first match winning.
    pub fn get_block_by_name(&self, name: &String) -> (r: Option<u32>)
        ensures
            r == find_pair(registry_view(*self), name@),
    {
        lookup_id(&self.blocks_by_name, name)
    }
}

/// World configuration: the exclusive upper bound on voxel heights.
pub struct WorldConfig {
    pub max_height: u32,
}

/// The host collaborators handed to the stage for one chunk.
pub struct Resources {
    pub registry: Registry,
    pub config: WorldConfig,
}

/// What writing `id` at an absolute coordinate does to a chunk's storage:
/// an update inside the chunk's bounds, and no change outside them.
pub open spec fn spec_set_voxel(
    voxels: Seq<u32>,
    min_x: int,
    min_z: int,
    height: int,
    vx: int,
    vy: int,
    vz: int,
    id: u32,
) -> Seq<u32> {
    if min_x <= vx < min_x + 16 && min_z <= vz < min_z + 16 && 0 <= vy < height {
        voxels.update(vy * 256 + (vz - min_z) * 16 + (vx - min_x), id)
    } else {
        voxels
    }
}

/// The destination chunk: a 16 x 16 column of voxels, addressed by absolute
/// world coordinates relative to its minimum corner.
pub struct Chunk {
    pub coords: (i32, i32),
    pub min: (i32, i32, i32),
    pub height: usize,
    pub voxels: Vec<u32>,
}

impl Chunk {
    /// The storage matches the height, and the origin leaves room for the
    /// 16 x 16 footprint.
    pub open spec fn wf(&self) -> bool {
        &&& self.voxels@.len() == 256 * self.height
        &&& self.min.0 <= i32::MAX - 15
        &&& self.min.2 <= i32::MAX - 15
    }

    /// A fresh chunk of the given height, all voxels 0.
    pub fn new(coords: (i32, i32), min: (i32, i32, i32), height: usize) -> (c: Chunk)
        requires
            height <= usize::MAX / 256,
            min.0 <= i32::MAX - 15,
            min.2 <= i32::MAX - 15,
        ensures
            c.wf(),
            c.coords == coords,
            c.min == min,
            c.height == height,
            forall|k: int| 0 <= k < c.voxels@.len() ==> c.voxels@[k] == 0,
    {
        let n = 256 * height;
        let mut voxels: Vec<u32> = Vec::new();
        let mut i: usize = 0;
        while i < n
            invariant
                i <= n,
                voxels@.len() == i,
                forall|k: int| 0 <= k < i ==> voxels@[k] == 0,
            decreases n - i,
        {
            voxels.push(0);
            i = i + 1;
        }
        Chunk { coords, min, height, voxels }
    }

    /// Writes `id` at the absolute coordinate; a write outside the chunk's
    /// bounds changes nothing.
    pub fn set_voxel(&mut self, vx: i32, vy: i32, vz: i32, id: u32)
        requires
            old(self).wf(),
        ensures
            final(self).wf(),
            final(self).coords == old(self).coords,
            final(self).min == old(self).min,
            final(self).height == old(self).height,
            final(self).voxels@ == spec_set_voxel(
                old(self).voxels@,
                old(self).min.0 as int,
                old(self).min.2 as int,
                old(self).height as int,
                vx as int,
                vy as int,
                vz as int,
                id,
            ),
    {
        let dx: i64 = (vx as i64) - (self.min.0 as i64);
        let dz: i64 = (vz as i64) - (self.min.2 as i64);
        if dx < 0 || dx >= 16 || dz < 0 || dz >= 16 || vy < 0 {
            return ;
        }
        let vyu = vy as usize;
        if vyu >= self.height {
            return ;
        }
        proof {
            assert((vyu as int) * 256 + (dz as int) * 16 + (dx as int) < 256 * (self.height
                as int)) by (nonlinear_arith)
                requires
                    (vyu as int) < (self.height as int),
                    0 <= (dz as int) < 16,
                    0 <= (dx as int) < 16,
            ;
        }
        // Pins the storage length, so the index is known to fit it.
        let storage_len = self.voxels.len();
        let idx: usize = vyu * 256 + (dz as usize) * 16 + (dx as usize);
        self.voxels[idx] = id;
    }

    /// The voxel at the absolute coordinate, 0 outside the chunk's bounds.
    pub fn get_voxel(&self, vx: i32, vy: i32, vz: i32) -> (r: u32)
        requires
            self.wf(),
        ensures
            self.min.0 <= vx < self.min.0 + 16 && self.min.2 <= vz < self.min.2 + 16 && 0 <= vy
                < self.height ==> r == self.voxels@[(vy as int) * 256 + (vz - self.min.2) * 16 + (vx
                - self.min.0)],
            !(self.min.0 <= vx < self.min.0 + 16 && self.min.2 <= vz < self.min.2 + 16 && 0 <= vy
                < self.height) ==> r == 0,
    {
        let dx: i64 = (vx as i64) - (self.min.0 as i64);
        let dz: i64 = (vz as i64) - (self.min.2 as i64);
        if dx < 0 || dx >= 16 || dz < 0 || dz >= 16 || vy < 0 {
            return 0;
        }
        let vyu = vy as usize;
        if vyu >= self.height {
            return 0;
        }
        proof {
            assert((vyu as int) * 256 + (dz as int) * 16 + (dx as int) < 256 * (self.height
                as int)) by (nonlinear_arith)
                requires
                    (vyu as int) < (self.height as int),
                    0 <= (dz as int) < 16,
                    0 <= (dx as int) < 16,
            ;
        }
        // Pins the storage length, so the index is known to fit it.
        let storage_len = self.voxels.len();
        let idx: usize = vyu * 256 + (dz as usize) * 16 + (dx as usize);
        self.voxels[idx]
    }
}

/// The designated empty/air name, which always resolves to id 0.
pub open spec fn air_name() -> Seq<char> {
    "minecraft:air"@
}

/// How a fresh name resolves: an explicit override keyed by the lowercased
/// name wins; else the substring after the first `:`; the chosen target is
/// looked up lowercased in the registry; any miss yields the default id.
pub open spec fn spec_resolution(
    mapping: Seq<(Seq<char>, Seq<char>)>,
    registry: Seq<(Seq<char>, u32)>,
    default_block: u32,
    name: Seq<char>,
) -> u32 {
    let target = match find_pair(mapping, lower_of(name)) {
        Some(t) => Some(t),
        None => spec_name_tail(name),
    };
    match target {
        None => default_block,
        Some(t) => match find_pair(registry, lower_of(t)) {
            Some(id) => id,
            None => default_block,
        },
    }
}

/// One resolver step: air short-circuits to 0 and leaves the cache alone; a
/// cached name returns its cached id; a fresh name is resolved and appended
/// to the cache.
pub open spec fn spec_resolve_one(
    cache: Seq<(Seq<char>, u32)>,
    mapping: Seq<(Seq<char>, Seq<char>)>,
    registry: Seq<(Seq<char>, u32)>,
    default_block: u32,
    name: Seq<char>,
) -> (u32, Seq<(Seq<char>, u32)>) {
    if name == air_name() {
        (0u32, cache)
    } else {
        match find_pair(cache, name) {
            Some(v) => (v, cache),
            None => {
                let id = spec_resolution(mapping, registry, default_block, name);
                (id, cache.push((name, id)))
            },
        }
    }
}

proof fn lemma_find_pair_push<T>(pairs: Seq<(Seq<char>, T)>, key: Seq<char>, p: (Seq<char>, T))
    requires
        find_pair(pairs, key) is None,
        p.0 == key,
    ensures
        find_pair(pairs.push(p), key) == Some(p.1),
    decreases pairs.len(),
{
    let w = pairs.push(p);
    if pairs.len() == 0 {
        assert(w[0] == p);
    } else {
        assert(w[0] == pairs[0]);
        assert(w.subrange(1, w.len() as int) =~= pairs.subrange(1, pairs.len() as int).push(p));
        lemma_find_pair_push(pairs.subrange(1, pairs.len() as int), key, p);
    }
}

/// Memoization law: once a name has been resolved, resolving it again
/// returns the very id the cache stored and changes nothing, whatever
/// override table, registry, or default id the second resolution is given.
pub proof fn lemma_second_resolution_cached(
    cache: Seq<(Seq<char>, u32)>,
    mapping1: Seq<(Seq<char>, Seq<char>)>,
    registry1: Seq<(Seq<char>, u32)>,
    default1: u32,
    mapping2: Seq<(Seq<char>, Seq<char>)>,
    registry2: Seq<(Seq<char>, u32)>,
    default2: u32,
    name: Seq<char>,
)
    ensures
        ({
            let first = spec_resolve_one(cache, mapping1, registry1, default1, name);
            let second = spec_resolve_one(first.1, mapping2, registry2, default2, name);
            second.0 == first.0 && second.1 == first.1
        }),
{
    if name != air_name() {
        match find_pair(cache, name) {
            Some(_) => {
            },
            None => {
                let first = spec_resolve_one(cache, mapping1, registry1, default1, name);
                lemma_find_pair_push(cache, name, (name, first.0));
            },
        }
    }
}

/// Resolves the first `k` names in order, threading the cache through.
pub open spec fn resolve_fold(
    cache: Seq<(Seq<char>, u32)>,
    mapping: Seq<(Seq<char>, Seq<char>)>,
    registry: Seq<(Seq<char>, u32)>,
    default_block: u32,
    names: Seq<Seq<char>>,
    k: int,
) -> (Seq<u32>, Seq<(Seq<char>, u32)>)
    decreases k,
{
    if k <= 0 {
        (Seq::empty(), cache)
    } else {
        let prev = resolve_fold(cache, mapping, registry, default_block, names, k - 1);
        let one = spec_resolve_one(prev.1, mapping, registry, default_block, names[k - 1]);
        (prev.0.push(one.0), one.1)
    }
}

/// The import stage for one third-party world: its path, override table,
/// resolver cache, fallback id, and vertical offset.
pub struct MinecraftAnvilStage {
    pub world_path: String,
    pub mapping: Vec<(String, String)>,
    pub resolved: Vec<(String, u32)>,
    pub default_block: u32,
    pub y_offset: i32,
}

impl MinecraftAnvilStage {
    /// A stage over the given world directory, with no overrides, a default
    /// id of 0, and no vertical offset.
    pub fn new(world_path: String) -> (s: Self)
        ensures
            s.world_path == world_path,
            s.mapping@ == Seq::<(String, String)>::empty(),
            s.resolved@ == Seq::<(String, u32)>::empty(),
            s.default_block == 0,
            s.y_offset == 0,
    {
        MinecraftAnvilStage {
            world_path,
            mapping: Vec::new(),
            resolved: Vec::new(),
            default_block: 0,
            y_offset: 0,
        }
    }

    /// Replaces the override table, lowercasing every external key.
    pub fn with_mapping(self, mapping: Vec<(String, String)>) -> (s: Self)
        ensures
            s.world_path == self.world_path,
            s.resolved == self.resolved,
            s.default_block == self.default_block,
            s.y_offset == self.y_offset,
            s.mapping@.len() == mapping@.len(),
            forall|i: int|
                0 <= i < mapping@.len() ==> (#[trigger] s.mapping@[i]).0@ == lower_of(
                    mapping@[i].0@,
                ) && s.mapping@[i].1 == mapping@[i].1,
    {
        let mut out: Vec<(String, String)> = Vec::new();
        let mut i: usize = 0;
        while i < mapping.len()
            invariant
                i <= mapping@.len(),
                out@.len() == i,
                forall|j: int|
                    0 <= j < i ==> (#[trigger] out@[j]).0@ == lower_of(mapping@[j].0@)
                        && out@[j].1 == mapping@[j].1,
            decreases mapping@.len() - i,
        {
            let k = lowercase(&mapping[i].0);
            let v = mapping[i].1.clone();
            out.push((k, v));
            i = i + 1;
        }
        MinecraftAnvilStage {
            world_path: self.world_path,
            mapping: out,
            resolved: self.resolved,
            default_block: self.default_block,
            y_offset: self.y_offset,
        }
    }

    /// Sets the fallback id used when resolution fails.
    pub fn with_default_block(self, block_id: u32) -> (s: Self)
        ensures
            s.world_path == self.world_path,
            s.mapping == self.mapping,
            s.resolved == self.resolved,
            s.default_block == block_id,
            s.y_offset == self.y_offset,
    {
        MinecraftAnvilStage { default_block: block_id, ..self }
    }

    /// Sets the vertical offset applied to every imported section.
    pub fn with_y_offset(self, offset: i32) -> (s: Self)
        ensures
            s.world_path == self.world_path,
            s.mapping == self.mapping,
            s.resolved == self.resolved,
            s.default_block == self.default_block,
            s.y_offset == offset,
    {
        MinecraftAnvilStage { y_offset: offset, ..self }
    }

    /// The stage's display name.
    pub fn name(&self) -> (r: String)
        ensures
            r@ == "Minecraft Anvil Import"@,
    {
        "Minecraft Anvil Import".to_owned()
    }

    /// Resolves one external block name to a host id, consulting and filling
    /// the cache as `spec_resolve_one` describes.
    pub fn resolve_block_id(&mut self, registry: &Registry, mc_name: &String) -> (id: u32)
        ensures
            final(self).world_path == old(self).world_path,
            final(self).mapping == old(self).mapping,
            final(self).default_block == old(self).default_block,
            final(self).y_offset == old(self).y_offset,
            ({
                let one = spec_resolve_one(
                    pairs_view_id(old(self).resolved@),
                    pairs_view_str(old(self).mapping@),
                    registry_view(*registry),
                    old(self).default_block,
                    mc_name@,
                );
                id == one.0 && pairs_view_id(final(self).resolved@) == one.1
            }),
    {
        let air = "minecraft:air".to_owned();
        if *mc_name == air {
            return 0;
        }
        match lookup_id(&self.resolved, mc_name) {
            Some(v) => v,
            None => {
                let lower_name = lowercase(mc_name);
                let target: Option<String> = match lookup_str(&self.mapping, &lower_name) {
                    Some(t) => Some(t),
                    None => name_tail(mc_name),
                };
                let id = match target {
                    Some(t) => {
                        let lt = lowercase(&t);
                        match registry.get_block_by_name(&lt) {
                            Some(found) => found,
                            None => self.default_block,
                        }
                    },
                    None => self.default_block,
                };
                self.resolved.push((mc_name.clone(), id));
                proof {
                    assert(pairs_view_id(self.resolved@) =~= pairs_view_id(
                        old(self).resolved@,
                    ).push((mc_name@, id)));
                }
                id
            },
        }
    }

    /// Resolves a whole palette in order, threading the cache through.
    fn resolve_palette(&mut self, registry: &Registry, palette: &Vec<RawPaletteEntry>) -> (ids: Vec<
        u32,
    >)
        ensures
            final(self).world_path == old(self).world_path,
            final(self).mapping == old(self).mapping,
            final(self).default_block == old(self).default_block,
            final(self).y_offset == old(self).y_offset,
            ({
                let f = resolve_fold(
                    pairs_view_id(old(self).resolved@),
                    pairs_view_str(old(self).mapping@),
                    registry_view(*registry),
                    old(self).default_block,
                    palette_view(palette@),
                    palette@.len() as int,
                );
                ids@ == f.0 && pairs_view_id(final(self).resolved@) == f.1
            }),
            ids@.len() == palette@.len(),
    {
        let mut ids: Vec<u32> = Vec::new();
        let mut i: usize = 0;
        while i < palette.len()
            invariant
                i <= palette@.len(),
                ids@.len() == i,
                self.world_path == old(self).world_path,
                self.mapping == old(self).mapping,
                self.default_block == old(self).default_block,
                self.y_offset == old(self).y_offset,
                ({
                    let f = resolve_fold(
                        pairs_view_id(old(self).resolved@),
                        pairs_view_str(old(self).mapping@),
                        registry_view(*registry),
                        old(self).default_block,
                        palette_view(palette@),
                        i as int,
                    );
                    ids@ == f.0 && pairs_view_id(self.resolved@) == f.1
                }),
            decreases palette@.len() - i,
        {
            let id = self.resolve_block_id(registry, &palette[i].name);
            ids.push(id);
            i = i + 1;
        }
        ids
    }
}

/// The voxel writes of the first `k` iteration positions of one section:
/// position `i` decomposes as `x = i % 16`, `z = (i / 16) % 16`,
/// `y = i / 256`; an index outside the palette or mapping to air writes
/// nothing, and so does a world height outside `[0, max_height)`.
pub open spec fn place_fold(
    voxels: Seq<u32>,
    min_x: int,
    min_z: int,
    height: int,
    base_y: int,
    max_height: int,
    ids: Seq<u32>,
    words: Seq<i64>,
    k: int,
) -> Seq<u32>
    decreases k,
{
    if k <= 0 {
        voxels
    } else {
        let v = place_fold(voxels, min_x, min_z, height, base_y, max_height, ids, words, k - 1);
        let i = k - 1;
        let pi = spec_decoded(words, ids.len() as nat, i) as int;
        let vy = base_y + i / 256;
        if pi < ids.len() && ids[pi] != 0 && 0 <= vy < max_height {
            spec_set_voxel(
                v,
                min_x,
                min_z,
                height,
                min_x + i % 16,
                vy,
                min_z + (i / 16) % 16,
                ids[pi],
            )
        } else {
            v
        }
    }
}

/// What importing one section does to the chunk's storage and the resolver
/// cache: nothing for an absent or empty palette or a section wholly outside
/// the vertical range; otherwise the palette is resolved once, in order, and
/// the decoded indices drive the voxel writes.
pub open spec fn spec_import_section(
    voxels: Seq<u32>,
    min_x: int,
    min_z: int,
    height: int,
    cache: Seq<(Seq<char>, u32)>,
    mapping: Seq<(Seq<char>, Seq<char>)>,
    registry: Seq<(Seq<char>, u32)>,
    default_block: u32,
    y_offset: int,
    max_height: int,
    s: SpecSection,
) -> (Seq<u32>, Seq<(Seq<char>, u32)>) {
    match spec_section_palette(s) {
        None => (voxels, cache),
        Some(names) => if names.len() == 0 {
            (voxels, cache)
        } else {
            let base_y = s.y * 16 + y_offset;
            if base_y >= max_height || base_y + 15 < 0 {
                (voxels, cache)
            } else {
                let f = resolve_fold(
                    cache,
                    mapping,
                    registry,
                    default_block,
                    names,
                    names.len() as int,
                );
                let words = match spec_section_block_states(s) {
                    Some(w) => w,
                    None => Seq::empty(),
                };
                (
                    place_fold(
                        voxels,
                        min_x,
                        min_z,
                        height,
                        base_y,
                        max_height,
                        f.0,
                        words,
                        4096,
                    ),
                    f.1,
                )
            }
        },
    }
}

/// What importing the first `k` sections does, threading storage and cache.
pub open spec fn import_fold(
    voxels: Seq<u32>,
    min_x: int,
    min_z: int,
    height: int,
    cache: Seq<(Seq<char>, u32)>,
    mapping: Seq<(Seq<char>, Seq<char>)>,
    registry: Seq<(Seq<char>, u32)>,
    default_block: u32,
    y_offset: int,
    max_height: int,
    sections: Seq<SpecSection>,
    k: int,
) -> (Seq<u32>, Seq<(Seq<char>, u32)>)
    decreases k,
{
    if k <= 0 {
        (voxels, cache)
    } else {
        let prev = import_fold(
            voxels,
            min_x,
            min_z,
            height,
            cache,
            mapping,
            registry,
            default_block,
            y_offset,
            max_height,
            sections,
            k - 1,
        );
        spec_import_section(
            prev.0,
            min_x,
            min_z,
            height,
            prev.1,
            mapping,
            registry,
            default_block,
            y_offset,
            max_height,
            sections[k - 1],
        )
    }
}

/// The sections a region file's bytes hold for the chunk at the given chunk
/// coordinates: the slot is looked up, the record decompressed under its
/// scheme byte (1 = gzip, 2 = zlib, anything else unsupported), and the
/// record parsed; any failure yields `None`.
pub open spec fn spec_record_sections(region: Seq<u8>, cx: int, cz: int) -> Option<
    Seq<SpecSection>,
> {
    match spec_chunk_payload(region, cx % 32, cz % 32) {
        None => None,
        Some(p) => {
            let data = if p.0 == 1 {
                gzip_decoded(p.1)
            } else if p.0 == 2 {
                zlib_decoded(p.1)
            } else {
                None
            };
            match data {
                None => None,
                Some(bytes) => match s_parse_chunk(bytes) {
                    None => None,
                    Some(c) => Some(spec_chunk_sections(c)),
                },
            }
        },
    }
}

/// What one `process` call does: with no region data, or when the record is
/// absent, malformed, or under an unsupported scheme, nothing; otherwise the
/// record's sections are imported in order.
pub open spec fn spec_process(
    voxels: Seq<u32>,
    cx: int,
    cz: int,
    min_x: int,
    min_z: int,
    height: int,
    cache: Seq<(Seq<char>, u32)>,
    mapping: Seq<(Seq<char>, Seq<char>)>,
    registry: Seq<(Seq<char>, u32)>,
    default_block: u32,
    y_offset: int,
    max_height: int,
    region: Option<Seq<u8>>,
) -> (Seq<u32>, Seq<(Seq<char>, u32)>) {
    match region {
        None => (voxels, cache),
        Some(bytes) => match spec_record_sections(bytes, cx, cz) {
            None => (voxels, cache),
            Some(secs) => import_fold(
                voxels,
                min_x,
                min_z,
                height,
                cache,
                mapping,
                registry,
                default_block,
                y_offset,
                max_height,
                secs,
                secs.len() as int,
            ),
        },
    }
}

impl MinecraftAnvilStage {
    /// Imports one section into the chunk.  A section with no palette, an
    /// empty palette, or lying wholly above `max_height` or wholly below 0
    /// writes nothing and leaves the cache alone.
    pub fn import_section(
        &mut self,
        chunk: &mut Chunk,
        registry: &Registry,
        max_height: i32,
        section: &RawSection,
    )
        requires
            old(chunk).wf(),
        ensures
            final(chunk).wf(),
            final(chunk).coords == old(chunk).coords,
            final(chunk).min == old(chunk).min,
            final(chunk).height == old(chunk).height,
            final(self).world_path == old(self).world_path,
            final(self).mapping == old(self).mapping,
            final(self).default_block == old(self).default_block,
            final(self).y_offset == old(self).y_offset,
            ({
                let r = spec_import_section(
                    old(chunk).voxels@,
                    old(chunk).min.0 as int,
                    old(chunk).min.2 as int,
                    old(chunk).height as int,
                    pairs_view_id(old(self).resolved@),
                    pairs_view_str(old(self).mapping@),
                    registry_view(*registry),
                    old(self).default_block,
                    old(self).y_offset as int,
                    max_height as int,
                    section_view(*section),
                );
                final(chunk).voxels@ == r.0 && pairs_view_id(final(self).resolved@) == r.1
            }),
            section_view(*section).y * 16 + old(self).y_offset >= max_height || section_view(
                *section,
            ).y * 16 + old(self).y_offset + 15 < 0 ==> final(chunk).voxels@ == old(chunk).voxels@
                && final(self).resolved == old(self).resolved,
    {
        let palette = match section.palette() {
            Some(p) => p,
            None => {
                return ;
            },
        };
        if palette.len() == 0 {
            return ;
        }
        let base_y: i64 = (section.y as i64) * 16 + (self.y_offset as i64);
        if base_y >= (max_height as i64) || base_y + 15 < 0 {
            return ;
        }
        let ids = self.resolve_palette(registry, palette);
        let empty: Vec<i64> = Vec::new();
        let words: &Vec<i64> = match section.block_states() {
            Some(w) => w,
            None => &empty,
        };
        let ghost words_spec: Seq<i64> = match spec_section_block_states(section_view(*section)) {
            Some(w) => w,
            None => Seq::empty(),
        };
        assert(words@ == words_spec);
        let indices = decode_block_states(words, ids.len());
        let min_x = chunk.min.0;
        let min_z = chunk.min.2;
        let mut i: usize = 0;
        while i < 4096
            invariant
                i <= 4096,
                chunk.wf(),
                chunk.coords == old(chunk).coords,
                chunk.min == old(chunk).min,
                chunk.height == old(chunk).height,
                min_x == old(chunk).min.0,
                min_z == old(chunk).min.2,
                base_y == section_view(*section).y * 16 + old(self).y_offset,
                indices@.len() == 4096,
                forall|j: int|
                    0 <= j < 4096 ==> indices@[j] == spec_decoded(words_spec, ids@.len() as nat, j),
                chunk.voxels@ == place_fold(
                    old(chunk).voxels@,
                    old(chunk).min.0 as int,
                    old(chunk).min.2 as int,
                    old(chunk).height as int,
                    base_y as int,
                    max_height as int,
                    ids@,
                    words_spec,
                    i as int,
                ),
            decreases 4096 - i,
        {
            let pi = indices[i];
            if pi < ids.len() {
                let id = ids[pi];
                if id != 0 {
                    let local_x = i % 16;
                    let local_z = (i / 16) % 16;
                    let local_y = i / 256;
                    let vy64: i64 = base_y + (local_y as i64);
                    if vy64 >= 0 && vy64 < (max_height as i64) {
                        let vx: i32 = min_x + (local_x as i32);
                        let vz: i32 = min_z + (local_z as i32);
                        let vy: i32 = vy64 as i32;
                        chunk.set_voxel(vx, vy, vz, id);
                    }
                }
            }
            i = i + 1;
        }
    }

    /// Processes one chunk: locates its record in the region file's bytes,
    /// decompresses and parses it, and imports every section in order.  Any
    /// absent or malformed stage leaves the chunk unmodified; the stage never
    /// fails.
    pub fn process(&mut self, chunk: Chunk, resources: &Resources, region_data: Option<&Vec<u8>>)
        -> (r: Chunk)
        requires
            chunk.wf(),
            resources.config.max_height <= 0x7fffffff,
        ensures
            r.wf(),
            r.coords == chunk.coords,
            r.min == chunk.min,
            r.height == chunk.height,
            final(self).world_path == old(self).world_path,
            final(self).mapping == old(self).mapping,
            final(self).default_block == old(self).default_block,
            final(self).y_offset == old(self).y_offset,
            ({
                let region: Option<Seq<u8>> = match region_data {
                    Some(d) => Some(d@),
                    None => None,
                };
                let p = spec_process(
                    chunk.voxels@,
                    chunk.coords.0 as int,
                    chunk.coords.1 as int,
                    chunk.min.0 as int,
                    chunk.min.2 as int,
                    chunk.height as int,
                    pairs_view_id(old(self).resolved@),
                    pairs_view_str(old(self).mapping@),
                    registry_view(resources.registry),
                    old(self).default_block,
                    old(self).y_offset as int,
                    resources.config.max_height as int,
                    region,
                );
                r.voxels@ == p.0 && pairs_view_id(final(self).resolved@) == p.1
            }),
    {
        let data = match region_data {
            Some(d) => d,
            None => {
                return chunk;
            },
        };
        let split_x = split_region_coord(chunk.coords.0);
        let split_z = split_region_coord(chunk.coords.1);
        let payload = match chunk_payload(data, split_x.1, split_z.1) {
            Some(p) => p,
            None => {
                return chunk;
            },
        };
        let (scheme, compressed) = payload;
        let raw: Option<Vec<u8>> = if scheme == 1 {
            gzip_decode(&compressed)
        } else if scheme == 2 {
            zlib_decode(&compressed)
        } else {
            None
        };
        let bytes = match raw {
            Some(b) => b,
            None => {
                return chunk;
            },
        };
        let parsed = match parse_chunk(&bytes) {
            Some(c) => c,
            None => {
                return chunk;
            },
        };
        let sections = parsed.into_sections();
        let ghost secs = sections_view(sections@);
        proof {
            assert(spec_record_sections(
                data@,
                chunk.coords.0 as int,
                chunk.coords.1 as int,
            ) == Some(secs));
        }
        let max_height: i32 = resources.config.max_height as i32;
        let mut out = chunk;
        let mut k: usize = 0;
        while k < sections.len()
            invariant
                k <= sections@.len(),
                secs == sections_view(sections@),
                out.wf(),
                out.coords == chunk.coords,
                out.min == chunk.min,
                out.height == chunk.height,
                max_height == resources.config.max_height,
                self.world_path == old(self).world_path,
                self.mapping == old(self).mapping,
                self.default_block == old(self).default_block,
                self.y_offset == old(self).y_offset,
                ({
                    let f = import_fold(
                        chunk.voxels@,
                        chunk.min.0 as int,
                        chunk.min.2 as int,
                        chunk.height as int,
                        pairs_view_id(old(self).resolved@),
                        pairs_view_str(old(self).mapping@),
                        registry_view(resources.registry),
                        old(self).default_block,
                        old(self).y_offset as int,
                        max_height as int,
                        secs,
                        k as int,
                    );
                    out.voxels@ == f.0 && pairs_view_id(self.resolved@) == f.1
                }),
            decreases sections@.len() - k,
        {
            let section = &sections[k];
            self.import_section(&mut out, &resources.registry, max_height, section);
            k = k + 1;
        }
        out
    }
}

} // verus!
