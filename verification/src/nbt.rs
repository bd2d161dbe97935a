//! Schema-tolerant record parser: reads the decompressed chunk record, a
//! self-describing tagged tree, into a uniform section list.  Two historical
//! layouts are tolerated: a nested wrapper object keyed `Level` holding the
//! sections, or a top-level sections list, under a modern lowercase or a
//! legacy capitalized key.  Any malformed or mistyped node fails the whole
//! record.
//!
//! The spec functions define the parse over the raw byte sequence; each
//! executable function returns exactly what its spec counterpart describes.

use vstd::prelude::*;
use crate::bytes::{be_u16, be_u32, be_i64, read_be_u16, read_be_u32, read_be_i64};

verus! {

/// What decoding bytes as UTF-8 yields: `None` when they are rejected.
pub uninterp spec fn utf8_of(bytes: Seq<u8>) -> Option<Seq<char>>;

/// Relies on String::from_utf8: whether the bytes decode, and to what, is a
/// function of the bytes alone.
#[verifier::external_body]
fn bytes_to_string(v: Vec<u8>) -> (r: Option<String>)
    ensures
        (r is Some) == (utf8_of(v@) is Some),
        r is Some ==> r->Some_0@ == utf8_of(v@)->Some_0,
{
    String::from_utf8(v).ok()
}

/// One palette entry: the namespaced block name stored under `Name`.
pub struct RawPaletteEntry {
    pub name: String,
}

/// One section of a chunk record, under either historical layout.
pub struct RawSection {
    pub y: i8,
    pub block_states: Option<Vec<i64>>,
    pub block_states_upper: Option<Vec<i64>>,
    pub palette: Option<Vec<RawPaletteEntry>>,
    pub palette_upper: Option<Vec<RawPaletteEntry>>,
}

/// The legacy wrapper object holding the sections.
pub struct RawChunkLevel {
    pub sections_upper: Option<Vec<RawSection>>,
    pub sections_lower: Option<Vec<RawSection>>,
}

/// A parsed chunk record, before the sections list is chosen.
pub struct RawChunk {
    pub level: Option<RawChunkLevel>,
    pub sections_lower: Option<Vec<RawSection>>,
    pub sections_upper: Option<Vec<RawSection>>,
}

/// Mathematical model of one section.
pub struct SpecSection {
    pub y: i8,
    pub block_states: Option<Seq<i64>>,
    pub block_states_upper: Option<Seq<i64>>,
    pub palette: Option<Seq<Seq<char>>>,
    pub palette_upper: Option<Seq<Seq<char>>>,
}

/// Mathematical model of the legacy wrapper.
pub struct SpecLevel {
    pub sections_upper: Option<Seq<SpecSection>>,
    pub sections_lower: Option<Seq<SpecSection>>,
}

/// Mathematical model of a parsed record.
pub struct SpecChunk {
    pub level: Option<SpecLevel>,
    pub sections_lower: Option<Seq<SpecSection>>,
    pub sections_upper: Option<Seq<SpecSection>>,
}

pub open spec fn palette_view(p: Seq<RawPaletteEntry>) -> Seq<Seq<char>> {
    p.map_values(|e: RawPaletteEntry| e.name@)
}

pub open spec fn opt_longs_view(o: Option<Vec<i64>>) -> Option<Seq<i64>> {
    match o {
        Some(v) => Some(v@),
        None => None,
    }
}

pub open spec fn opt_palette_view(o: Option<Vec<RawPaletteEntry>>) -> Option<Seq<Seq<char>>> {
    match o {
        Some(v) => Some(palette_view(v@)),
        None => None,
    }
}

pub open spec fn section_view(s: RawSection) -> SpecSection {
    SpecSection {
        y: s.y,
        block_states: opt_longs_view(s.block_states),
        block_states_upper: opt_longs_view(s.block_states_upper),
        palette: opt_palette_view(s.palette),
        palette_upper: opt_palette_view(s.palette_upper),
    }
}

pub open spec fn sections_view(v: Seq<RawSection>) -> Seq<SpecSection> {
    v.map_values(|s: RawSection| section_view(s))
}

pub open spec fn opt_sections_view(o: Option<Vec<RawSection>>) -> Option<Seq<SpecSection>> {
    match o {
        Some(v) => Some(sections_view(v@)),
        None => None,
    }
}

pub open spec fn level_view(l: RawChunkLevel) -> SpecLevel {
    SpecLevel {
        sections_upper: opt_sections_view(l.sections_upper),
        sections_lower: opt_sections_view(l.sections_lower),
    }
}

pub open spec fn opt_level_view(o: Option<RawChunkLevel>) -> Option<SpecLevel> {
    match o {
        Some(l) => Some(level_view(l)),
        None => None,
    }
}

pub open spec fn chunk_view(c: RawChunk) -> SpecChunk {
    SpecChunk {
        level: opt_level_view(c.level),
        sections_lower: opt_sections_view(c.sections_lower),
        sections_upper: opt_sections_view(c.sections_upper),
    }
}

pub open spec fn spec_key_level() -> Seq<u8> {
    seq![76u8, 101u8, 118u8, 101u8, 108u8]
}

pub open spec fn spec_key_sections_lower() -> Seq<u8> {
    seq![115u8, 101u8, 99u8, 116u8, 105u8, 111u8, 110u8, 115u8]
}

pub open spec fn spec_key_sections_upper() -> Seq<u8> {
    seq![83u8, 101u8, 99u8, 116u8, 105u8, 111u8, 110u8, 115u8]
}

pub open spec fn spec_key_y() -> Seq<u8> {
    seq![89u8]
}

pub open spec fn spec_key_block_states_lower() -> Seq<u8> {
    seq![98u8, 108u8, 111u8, 99u8, 107u8, 95u8, 115u8, 116u8, 97u8, 116u8, 101u8, 115u8]
}

pub open spec fn spec_key_block_states_upper() -> Seq<u8> {
    seq![66u8, 108u8, 111u8, 99u8, 107u8, 83u8, 116u8, 97u8, 116u8, 101u8, 115u8]
}

pub open spec fn spec_key_palette_lower() -> Seq<u8> {
    seq![112u8, 97u8, 108u8, 101u8, 116u8, 116u8, 101u8]
}

pub open spec fn spec_key_palette_upper() -> Seq<u8> {
    seq![80u8, 97u8, 108u8, 101u8, 116u8, 116u8, 101u8]
}

pub open spec fn spec_key_name() -> Seq<u8> {
    seq![78u8, 97u8, 109u8, 101u8]
}

/// A length-prefixed string payload: the decoded characters and the position
/// after it.
pub open spec fn s_string(b: Seq<u8>, pos: int) -> Option<(Seq<char>, int)> {
    if pos + 2 > b.len() {
        None
    } else {
        let n = be_u16(b, pos);
        if pos + 2 + n > b.len() {
            None
        } else {
            match utf8_of(b.subrange(pos + 2, pos + 2 + n)) {
                Some(s) => Some((s, pos + 2 + n)),
                None => None,
            }
        }
    }
}

/// A long-array payload: a signed count, then that many big-endian 64-bit
/// values.
pub open spec fn s_long_array(b: Seq<u8>, pos: int) -> Option<(Seq<i64>, int)> {
    if pos + 4 > b.len() {
        None
    } else {
        let count = be_u32(b, pos);
        if count >= 0x80000000 {
            None
        } else if pos + 4 + 8 * count > b.len() {
            None
        } else {
            Some(
                (
                    Seq::new(count as nat, |k: int| be_i64(b, pos + 4 + 8 * k) as i64),
                    pos + 4 + 8 * count,
                ),
            )
        }
    }
}

/// Skips one payload of the given tag type, yielding the position after it.
/// Unknown tag types, negative array counts, and truncation all fail.
pub open spec fn s_skip_payload(b: Seq<u8>, pos: int, tag: u8) -> Option<int>
    decreases b.len() - pos, 1int,
    when 0 <= pos <= b.len()
{
    if tag == 1 {
        if pos + 1 <= b.len() {
            Some(pos + 1)
        } else {
            None
        }
    } else if tag == 2 {
        if pos + 2 <= b.len() {
            Some(pos + 2)
        } else {
            None
        }
    } else if tag == 3 || tag == 5 {
        if pos + 4 <= b.len() {
            Some(pos + 4)
        } else {
            None
        }
    } else if tag == 4 || tag == 6 {
        if pos + 8 <= b.len() {
            Some(pos + 8)
        } else {
            None
        }
    } else if tag == 7 || tag == 11 || tag == 12 {
        if pos + 4 > b.len() {
            None
        } else {
            let count = be_u32(b, pos);
            let width: int = if tag == 7 {
                1
            } else if tag == 11 {
                4
            } else {
                8
            };
            if count >= 0x80000000 {
                None
            } else if pos + 4 + width * count > b.len() {
                None
            } else {
                Some(pos + 4 + width * count)
            }
        }
    } else if tag == 8 {
        if pos + 2 > b.len() {
            None
        } else {
            let n = be_u16(b, pos);
            if pos + 2 + n > b.len() {
                None
            } else {
                Some(pos + 2 + n)
            }
        }
    } else if tag == 9 {
        if pos + 5 > b.len() {
            None
        } else {
            let elem = b[pos];
            let count = be_u32(b, pos + 1);
            if count >= 0x80000000 {
                None
            } else if count == 0 {
                Some(pos + 5)
            } else if elem == 0 {
                None
            } else {
                s_skip_list(b, pos + 5, elem, count)
            }
        }
    } else if tag == 10 {
        s_skip_entries(b, pos)
    } else {
        None
    }
}

/// Skips `count` list elements of the given tag type.
pub open spec fn s_skip_list(b: Seq<u8>, pos: int, tag: u8, count: int) -> Option<int>
    decreases b.len() - pos, 2int,
    when 0 <= pos <= b.len()
{
    if count <= 0 {
        Some(pos)
    } else {
        match s_skip_payload(b, pos, tag) {
            None => None,
            Some(p2) => if pos < p2 <= b.len() {
                s_skip_list(b, p2, tag, count - 1)
            } else {
                None
            },
        }
    }
}

/// Skips a compound body: named entries up to and including the end tag.
pub open spec fn s_skip_entries(b: Seq<u8>, pos: int) -> Option<int>
    decreases b.len() - pos, 0int,
    when 0 <= pos <= b.len()
{
    if pos >= b.len() {
        None
    } else {
        let tag = b[pos];
        if tag == 0 {
            Some(pos + 1)
        } else if pos + 3 > b.len() {
            None
        } else {
            let klen = be_u16(b, pos + 1);
            let p = pos + 3 + klen;
            if p > b.len() {
                None
            } else {
                match s_skip_payload(b, p, tag) {
                    None => None,
                    Some(p2) => if p < p2 <= b.len() {
                        s_skip_entries(b, p2)
                    } else {
                        None
                    },
                }
            }
        }
    }
}

/// Scans one palette-entry compound for its `Name` string (first present
/// wins); the name is required.
pub open spec fn s_name_entries(b: Seq<u8>, pos: int, name: Option<Seq<char>>) -> Option<
    (Seq<char>, int),
>
    decreases b.len() - pos, 0int,
    when 0 <= pos <= b.len()
{
    if pos >= b.len() {
        None
    } else {
        let tag = b[pos];
        if tag == 0 {
            match name {
                Some(nm) => Some((nm, pos + 1)),
                None => None,
            }
        } else if pos + 3 > b.len() {
            None
        } else {
            let klen = be_u16(b, pos + 1);
            let p = pos + 3 + klen;
            if p > b.len() {
                None
            } else if b.subrange(pos + 3, p) == spec_key_name() {
                if tag != 8 {
                    None
                } else {
                    match s_string(b, p) {
                        None => None,
                        Some((s, p2)) => if p < p2 <= b.len() {
                            let nm = if name is Some {
                                name
                            } else {
                                Some(s)
                            };
                            s_name_entries(b, p2, nm)
                        } else {
                            None
                        },
                    }
                }
            } else {
                match s_skip_payload(b, p, tag) {
                    None => None,
                    Some(p2) => if p < p2 <= b.len() {
                        s_name_entries(b, p2, name)
                    } else {
                        None
                    },
                }
            }
        }
    }
}

/// Parses `count` palette entries.
pub open spec fn s_palette_elems(b: Seq<u8>, pos: int, count: int, acc: Seq<Seq<char>>) -> Option<
    (Seq<Seq<char>>, int),
>
    decreases b.len() - pos, 2int,
    when 0 <= pos <= b.len()
{
    if count <= 0 {
        Some((acc, pos))
    } else {
        match s_name_entries(b, pos, None) {
            None => None,
            Some((nm, p2)) => if pos < p2 <= b.len() {
                s_palette_elems(b, p2, count - 1, acc.push(nm))
            } else {
                None
            },
        }
    }
}

/// A palette list payload: a list of entry compounds; an empty list of any
/// element type is an empty palette.
pub open spec fn s_palette_list(b: Seq<u8>, pos: int) -> Option<(Seq<Seq<char>>, int)>
    decreases b.len() - pos, 3int,
    when 0 <= pos <= b.len()
{
    if pos + 5 > b.len() {
        None
    } else {
        let elem = b[pos];
        let count = be_u32(b, pos + 1);
        if count >= 0x80000000 {
            None
        } else if count == 0 {
            Some((Seq::empty(), pos + 5))
        } else if elem != 10 {
            None
        } else {
            s_palette_elems(b, pos + 5, count, Seq::empty())
        }
    }
}

/// Scans one section compound.  `Y` is required; the packed indices and the
/// palette are optional under both their modern and their legacy keys.
pub open spec fn s_section_entries(
    b: Seq<u8>,
    pos: int,
    y: Option<i8>,
    bsl: Option<Seq<i64>>,
    bsu: Option<Seq<i64>>,
    pall: Option<Seq<Seq<char>>>,
    palu: Option<Seq<Seq<char>>>,
) -> Option<(SpecSection, int)>
    decreases b.len() - pos, 0int,
    when 0 <= pos <= b.len()
{
    if pos >= b.len() {
        None
    } else {
        let tag = b[pos];
        if tag == 0 {
            match y {
                Some(yv) => Some(
                    (
                        SpecSection {
                            y: yv,
                            block_states: bsl,
                            block_states_upper: bsu,
                            palette: pall,
                            palette_upper: palu,
                        },
                        pos + 1,
                    ),
                ),
                None => None,
            }
        } else if pos + 3 > b.len() {
            None
        } else {
            let klen = be_u16(b, pos + 1);
            let p = pos + 3 + klen;
            if p > b.len() {
                None
            } else {
                let key = b.subrange(pos + 3, p);
                if key == spec_key_y() {
                    if tag != 1 || p + 1 > b.len() {
                        None
                    } else {
                        let ny = if y is Some {
                            y
                        } else {
                            Some(b[p] as i8)
                        };
                        s_section_entries(b, p + 1, ny, bsl, bsu, pall, palu)
                    }
                } else if key == spec_key_block_states_lower() || key
                    == spec_key_block_states_upper() {
                    if tag != 12 {
                        None
                    } else {
                        match s_long_array(b, p) {
                            None => None,
                            Some((v, p2)) => if p < p2 <= b.len() {
                                if key == spec_key_block_states_lower() {
                                    let nb = if bsl is Some {
                                        bsl
                                    } else {
                                        Some(v)
                                    };
                                    s_section_entries(b, p2, y, nb, bsu, pall, palu)
                                } else {
                                    let nb = if bsu is Some {
                                        bsu
                                    } else {
                                        Some(v)
                                    };
                                    s_section_entries(b, p2, y, bsl, nb, pall, palu)
                                }
                            } else {
                                None
                            },
                        }
                    }
                } else if key == spec_key_palette_lower() || key == spec_key_palette_upper() {
                    if tag != 9 {
                        None
                    } else {
                        match s_palette_list(b, p) {
                            None => None,
                            Some((names, p2)) => if p < p2 <= b.len() {
                                if key == spec_key_palette_lower() {
                                    let np = if pall is Some {
                                        pall
                                    } else {
                                        Some(names)
                                    };
                                    s_section_entries(b, p2, y, bsl, bsu, np, palu)
                                } else {
                                    let np = if palu is Some {
                                        palu
                                    } else {
                                        Some(names)
                                    };
                                    s_section_entries(b, p2, y, bsl, bsu, pall, np)
                                }
                            } else {
                                None
                            },
                        }
                    }
                } else {
                    match s_skip_payload(b, p, tag) {
                        None => None,
                        Some(p2) => if p < p2 <= b.len() {
                            s_section_entries(b, p2, y, bsl, bsu, pall, palu)
                        } else {
                            None
                        },
                    }
                }
            }
        }
    }
}

/// Parses `count` section compounds.
pub open spec fn s_sections_elems(b: Seq<u8>, pos: int, count: int, acc: Seq<SpecSection>) -> Option<
    (Seq<SpecSection>, int),
>
    decreases b.len() - pos, 2int,
    when 0 <= pos <= b.len()
{
    if count <= 0 {
        Some((acc, pos))
    } else {
        match s_section_entries(b, pos, None, None, None, None, None) {
            None => None,
            Some((s, p2)) => if pos < p2 <= b.len() {
                s_sections_elems(b, p2, count - 1, acc.push(s))
            } else {
                None
            },
        }
    }
}

/// A sections-list payload: a list of section compounds.
pub open spec fn s_sections_list(b: Seq<u8>, pos: int) -> Option<(Seq<SpecSection>, int)>
    decreases b.len() - pos, 3int,
    when 0 <= pos <= b.len()
{
    if pos + 5 > b.len() {
        None
    } else {
        let elem = b[pos];
        let count = be_u32(b, pos + 1);
        if count >= 0x80000000 {
            None
        } else if count == 0 {
            Some((Seq::empty(), pos + 5))
        } else if elem != 10 {
            None
        } else {
            s_sections_elems(b, pos + 5, count, Seq::empty())
        }
    }
}

/// Scans the legacy wrapper compound for its sections list under either key.
pub open spec fn s_level_entries(
    b: Seq<u8>,
    pos: int,
    su: Option<Seq<SpecSection>>,
    sl: Option<Seq<SpecSection>>,
) -> Option<(SpecLevel, int)>
    decreases b.len() - pos, 0int,
    when 0 <= pos <= b.len()
{
    if pos >= b.len() {
        None
    } else {
        let tag = b[pos];
        if tag == 0 {
            Some((SpecLevel { sections_upper: su, sections_lower: sl }, pos + 1))
        } else if pos + 3 > b.len() {
            None
        } else {
            let klen = be_u16(b, pos + 1);
            let p = pos + 3 + klen;
            if p > b.len() {
                None
            } else {
                let key = b.subrange(pos + 3, p);
                if key == spec_key_sections_lower() || key == spec_key_sections_upper() {
                    if tag != 9 {
                        None
                    } else {
                        match s_sections_list(b, p) {
                            None => None,
                            Some((v, p2)) => if p < p2 <= b.len() {
                                if key == spec_key_sections_lower() {
                                    let ns = if sl is Some {
                                        sl
                                    } else {
                                        Some(v)
                                    };
                                    s_level_entries(b, p2, su, ns)
                                } else {
                                    let ns = if su is Some {
                                        su
                                    } else {
                                        Some(v)
                                    };
                                    s_level_entries(b, p2, ns, sl)
                                }
                            } else {
                                None
                            },
                        }
                    }
                } else {
                    match s_skip_payload(b, p, tag) {
                        None => None,
                        Some(p2) => if p < p2 <= b.len() {
                            s_level_entries(b, p2, su, sl)
                        } else {
                            None
                        },
                    }
                }
            }
        }
    }
}

/// Scans the root compound for the wrapper object or a top-level sections
/// list.
pub open spec fn s_chunk_entries(
    b: Seq<u8>,
    pos: int,
    level: Option<SpecLevel>,
    sl: Option<Seq<SpecSection>>,
    su: Option<Seq<SpecSection>>,
) -> Option<(SpecChunk, int)>
    decreases b.len() - pos, 0int,
    when 0 <= pos <= b.len()
{
    if pos >= b.len() {
        None
    } else {
        let tag = b[pos];
        if tag == 0 {
            Some((SpecChunk { level: level, sections_lower: sl, sections_upper: su }, pos + 1))
        } else if pos + 3 > b.len() {
            None
        } else {
            let klen = be_u16(b, pos + 1);
            let p = pos + 3 + klen;
            if p > b.len() {
                None
            } else {
                let key = b.subrange(pos + 3, p);
                if key == spec_key_level() {
                    if tag != 10 {
                        None
                    } else {
                        match s_level_entries(b, p, None, None) {
                            None => None,
                            Some((lv, p2)) => if p < p2 <= b.len() {
                                let nl = if level is Some {
                                    level
                                } else {
                                    Some(lv)
                                };
                                s_chunk_entries(b, p2, nl, sl, su)
                            } else {
                                None
                            },
                        }
                    }
                } else if key == spec_key_sections_lower() || key == spec_key_sections_upper() {
                    if tag != 9 {
                        None
                    } else {
                        match s_sections_list(b, p) {
                            None => None,
                            Some((v, p2)) => if p < p2 <= b.len() {
                                if key == spec_key_sections_lower() {
                                    let ns = if sl is Some {
                                        sl
                                    } else {
                                        Some(v)
                                    };
                                    s_chunk_entries(b, p2, level, ns, su)
                                } else {
                                    let ns = if su is Some {
                                        su
                                    } else {
                                        Some(v)
                                    };
                                    s_chunk_entries(b, p2, level, sl, ns)
                                }
                            } else {
                                None
                            },
                        }
                    }
                } else {
                    match s_skip_payload(b, p, tag) {
                        None => None,
                        Some(p2) => if p < p2 <= b.len() {
                            s_chunk_entries(b, p2, level, sl, su)
                        } else {
                            None
                        },
                    }
                }
            }
        }
    }
}

/// Parses a whole record: a root compound (its own name is ignored), whose
/// body is scanned for the section-holding shapes.
pub open spec fn s_parse_chunk(b: Seq<u8>) -> Option<SpecChunk> {
    if b.len() < 3 {
        None
    } else if b[0] != 10 {
        None
    } else {
        let klen = be_u16(b, 1);
        if 3 + klen > b.len() {
            None
        } else {
            match s_chunk_entries(b, 3 + klen, None, None, None) {
                Some((c, _)) => Some(c),
                None => None,
            }
        }
    }
}

pub open spec fn opt_str_view(o: Option<String>) -> Option<Seq<char>> {
    match o {
        Some(s) => Some(s@),
        None => None,
    }
}

/// The palette chosen for a section: the modern lowercase key wins over the
/// legacy capitalized one.
pub open spec fn spec_section_palette(s: SpecSection) -> Option<Seq<Seq<char>>> {
    if s.palette is Some {
        s.palette
    } else {
        s.palette_upper
    }
}

/// The packed-index words chosen for a section, modern key first.
pub open spec fn spec_section_block_states(s: SpecSection) -> Option<Seq<i64>> {
    if s.block_states is Some {
        s.block_states
    } else {
        s.block_states_upper
    }
}

/// The sections a wrapper object yields, modern key first.
pub open spec fn spec_level_sections(l: SpecLevel) -> Seq<SpecSection> {
    if l.sections_lower is Some {
        l.sections_lower->Some_0
    } else if l.sections_upper is Some {
        l.sections_upper->Some_0
    } else {
        Seq::empty()
    }
}

/// The sections a record yields: the wrapper object if present, else a
/// top-level list under the modern and then the legacy key, else none.
pub open spec fn spec_chunk_sections(c: SpecChunk) -> Seq<SpecSection> {
    if c.level is Some {
        spec_level_sections(c.level->Some_0)
    } else if c.sections_lower is Some {
        c.sections_lower->Some_0
    } else if c.sections_upper is Some {
        c.sections_upper->Some_0
    } else {
        Seq::empty()
    }
}

impl RawSection {
    /// The palette under either key, modern first.
    pub fn palette(&self) -> (r: Option<&Vec<RawPaletteEntry>>)
        ensures
            (r is Some) == (spec_section_palette(section_view(*self)) is Some),
            r is Some ==> palette_view(r->Some_0@) == spec_section_palette(
                section_view(*self),
            )->Some_0,
    {
        match &self.palette {
            Some(p) => Some(p),
            None => match &self.palette_upper {
                Some(p) => Some(p),
                None => None,
            },
        }
    }

    /// The packed-index words under either key, modern first.
    pub fn block_states(&self) -> (r: Option<&Vec<i64>>)
        ensures
            (r is Some) == (spec_section_block_states(section_view(*self)) is Some),
            r is Some ==> r->Some_0@ == spec_section_block_states(section_view(*self))->Some_0,
    {
        match &self.block_states {
            Some(v) => Some(v),
            None => match &self.block_states_upper {
                Some(v) => Some(v),
                None => None,
            },
        }
    }
}

impl RawChunkLevel {
    /// The wrapper's sections, under either key, modern first.
    pub fn into_sections(self) -> (r: Vec<RawSection>)
        ensures
            sections_view(r@) == spec_level_sections(level_view(self)),
    {
        match self.sections_lower {
            Some(s) => s,
            None => match self.sections_upper {
                Some(s) => s,
                None => {
                    let v: Vec<RawSection> = Vec::new();
                    proof {
                        assert(sections_view(v@) =~= Seq::<SpecSection>::empty());
                    }
                    v
                },
            },
        }
    }
}

impl RawChunk {
    /// The record's sections: the wrapper object is preferred, then a
    /// top-level list under the modern and then the legacy key.
    pub fn into_sections(self) -> (r: Vec<RawSection>)
        ensures
            sections_view(r@) == spec_chunk_sections(chunk_view(self)),
    {
        match self.level {
            Some(level) => level.into_sections(),
            None => match self.sections_lower {
                Some(s) => s,
                None => match self.sections_upper {
                    Some(s) => s,
                    None => {
                        let v: Vec<RawSection> = Vec::new();
                        proof {
                            assert(sections_view(v@) =~= Seq::<SpecSection>::empty());
                        }
                        v
                    },
                },
            },
        }
    }
}

/// Copies `n` bytes starting at `start`.
fn copy_range(b: &Vec<u8>, start: usize, n: usize) -> (r: Vec<u8>)
    requires
        start + n <= b.len(),
    ensures
        r@ == b@.subrange(start as int, start as int + n),
{
    let mut out: Vec<u8> = Vec::new();
    let mut i: usize = 0;
    while i < n
        invariant
            i <= n,
            start + n <= b@.len(),
            b@.len() <= usize::MAX,
            out@.len() == i,
            forall|j: int| 0 <= j < i ==> out@[j] == b@[start + j],
        decreases n - i,
    {
        out.push(b[start + i]);
        i = i + 1;
    }
    proof {
        assert(out@ =~= b@.subrange(start as int, start as int + n));
    }
    out
}

/// Whether two byte vectors hold the same bytes.
fn vec_eq(a: &Vec<u8>, key: &Vec<u8>) -> (r: bool)
    ensures
        r == (a@ == key@),
{
    if a.len() != key.len() {
        return false;
    }
    let mut i: usize = 0;
    while i < a.len()
        invariant
            i <= a@.len(),
            a@.len() == key@.len(),
            forall|j: int| 0 <= j < i ==> a@[j] == key@[j],
        decreases a@.len() - i,
    {
        if a[i] != key[i] {
            return false;
        }
        i = i + 1;
    }
    proof {
        assert(a@ =~= key@);
    }
    true
}

fn key_level() -> (r: Vec<u8>)
    ensures
        r@ == spec_key_level(),
{
    let mut v: Vec<u8> = Vec::new();
    v.push(76);
    v.push(101);
    v.push(118);
    v.push(101);
    v.push(108);
    proof {
        assert(v@ =~= spec_key_level());
    }
    v
}

fn key_sections_lower() -> (r: Vec<u8>)
    ensures
        r@ == spec_key_sections_lower(),
{
    let mut v: Vec<u8> = Vec::new();
    v.push(115);
    v.push(101);
    v.push(99);
    v.push(116);
    v.push(105);
    v.push(111);
    v.push(110);
    v.push(115);
    proof {
        assert(v@ =~= spec_key_sections_lower());
    }
    v
}

fn key_sections_upper() -> (r: Vec<u8>)
    ensures
        r@ == spec_key_sections_upper(),
{
    let mut v: Vec<u8> = Vec::new();
    v.push(83);
    v.push(101);
    v.push(99);
    v.push(116);
    v.push(105);
    v.push(111);
    v.push(110);
    v.push(115);
    proof {
        assert(v@ =~= spec_key_sections_upper());
    }
    v
}

fn key_y() -> (r: Vec<u8>)
    ensures
        r@ == spec_key_y(),
{
    let mut v: Vec<u8> = Vec::new();
    v.push(89);
    proof {
        assert(v@ =~= spec_key_y());
    }
    v
}

fn key_block_states_lower() -> (r: Vec<u8>)
    ensures
        r@ == spec_key_block_states_lower(),
{
    let mut v: Vec<u8> = Vec::new();
    v.push(98);
    v.push(108);
    v.push(111);
    v.push(99);
    v.push(107);
    v.push(95);
    v.push(115);
    v.push(116);
    v.push(97);
    v.push(116);
    v.push(101);
    v.push(115);
    proof {
        assert(v@ =~= spec_key_block_states_lower());
    }
    v
}

fn key_block_states_upper() -> (r: Vec<u8>)
    ensures
        r@ == spec_key_block_states_upper(),
{
    let mut v: Vec<u8> = Vec::new();
    v.push(66);
    v.push(108);
    v.push(111);
    v.push(99);
    v.push(107);
    v.push(83);
    v.push(116);
    v.push(97);
    v.push(116);
    v.push(101);
    v.push(115);
    proof {
        assert(v@ =~= spec_key_block_states_upper());
    }
    v
}

fn key_palette_lower() -> (r: Vec<u8>)
    ensures
        r@ == spec_key_palette_lower(),
{
    let mut v: Vec<u8> = Vec::new();
    v.push(112);
    v.push(97);
    v.push(108);
    v.push(101);
    v.push(116);
    v.push(116);
    v.push(101);
    proof {
        assert(v@ =~= spec_key_palette_lower());
    }
    v
}

fn key_palette_upper() -> (r: Vec<u8>)
    ensures
        r@ == spec_key_palette_upper(),
{
    let mut v: Vec<u8> = Vec::new();
    v.push(80);
    v.push(97);
    v.push(108);
    v.push(101);
    v.push(116);
    v.push(116);
    v.push(101);
    proof {
        assert(v@ =~= spec_key_palette_upper());
    }
    v
}

fn key_name() -> (r: Vec<u8>)
    ensures
        r@ == spec_key_name(),
{
    let mut v: Vec<u8> = Vec::new();
    v.push(78);
    v.push(97);
    v.push(109);
    v.push(101);
    proof {
        assert(v@ =~= spec_key_name());
    }
    v
}

/// Reads a long-array payload.
fn long_array(b: &Vec<u8>, pos: usize) -> (r: Option<(Vec<i64>, usize)>)
    requires
        pos <= b.len(),
    ensures
        (r is Some) == (s_long_array(b@, pos as int) is Some),
        r is Some ==> r->Some_0.0@ == s_long_array(b@, pos as int)->Some_0.0,
        r is Some ==> r->Some_0.1 as int == s_long_array(b@, pos as int)->Some_0.1,
        r is Some ==> pos < r->Some_0.1 <= b.len(),
{
    if b.len() - pos < 4 {
        return None;
    }
    let count = read_be_u32(b, pos);
    if count >= 0x80000000 {
        return None;
    }
    if (count as u64) * 8 > (b.len() - (pos + 4)) as u64 {
        return None;
    }
    let cnt = count as usize;
    let mut out: Vec<i64> = Vec::new();
    let mut k: usize = 0;
    while k < cnt
        invariant
            k <= cnt,
            out@.len() == k,
            pos + 4 + 8 * cnt <= b@.len(),
            b@.len() <= usize::MAX,
            forall|j: int| 0 <= j < k ==> out@[j] == be_i64(b@, pos + 4 + 8 * j) as i64,
        decreases cnt - k,
    {
        out.push(read_be_i64(b, pos + 4 + 8 * k));
        k = k + 1;
    }
    proof {
        assert(out@ =~= s_long_array(b@, pos as int)->Some_0.0);
    }
    Some((out, pos + 4 + 8 * cnt))
}

/// Reads a length-prefixed string payload.
fn nbt_string(b: &Vec<u8>, pos: usize) -> (r: Option<(String, usize)>)
    requires
        pos <= b.len(),
    ensures
        (r is Some) == (s_string(b@, pos as int) is Some),
        r is Some ==> r->Some_0.0@ == s_string(b@, pos as int)->Some_0.0,
        r is Some ==> r->Some_0.1 as int == s_string(b@, pos as int)->Some_0.1,
        r is Some ==> pos < r->Some_0.1 <= b.len(),
{
    if b.len() - pos < 2 {
        return None;
    }
    let n = read_be_u16(b, pos) as usize;
    if n > b.len() - (pos + 2) {
        return None;
    }
    let raw = copy_range(b, pos + 2, n);
    match bytes_to_string(raw) {
        Some(s) => Some((s, pos + 2 + n)),
        None => None,
    }
}

/// Skips one payload of the given tag type.
#[verifier::rlimit(30)]
fn skip_payload(b: &Vec<u8>, pos: usize, tag: u8) -> (r: Option<usize>)
    requires
        pos <= b.len(),
    ensures
        (r is Some) == (s_skip_payload(b@, pos as int, tag) is Some),
        r is Some ==> r->Some_0 as int == s_skip_payload(b@, pos as int, tag)->Some_0,
        r is Some ==> pos < r->Some_0 <= b.len(),
    decreases b@.len() - pos, 1int,
{
    if tag == 1 {
        if b.len() - pos >= 1 {
            Some(pos + 1)
        } else {
            None
        }
    } else if tag == 2 {
        if b.len() - pos >= 2 {
            Some(pos + 2)
        } else {
            None
        }
    } else if tag == 3 || tag == 5 {
        if b.len() - pos >= 4 {
            Some(pos + 4)
        } else {
            None
        }
    } else if tag == 4 || tag == 6 {
        if b.len() - pos >= 8 {
            Some(pos + 8)
        } else {
            None
        }
    } else if tag == 7 || tag == 11 || tag == 12 {
        if b.len() - pos < 4 {
            return None;
        }
        let count = read_be_u32(b, pos);
        if count >= 0x80000000 {
            return None;
        }
        let width: usize = if tag == 7 {
            1
        } else if tag == 11 {
            4
        } else {
            8
        };
        proof {
            assert((count as int) * (width as int) <= 0x400000000) by (nonlinear_arith)
                requires
                    (count as int) < 0x80000000,
                    (width as int) <= 8,
            ;
        }
        let need: u64 = (count as u64) * (width as u64);
        if need > (b.len() - (pos + 4)) as u64 {
            return None;
        }
        Some(pos + 4 + (count as usize) * width)
    } else if tag == 8 {
        if b.len() - pos < 2 {
            return None;
        }
        let n = read_be_u16(b, pos) as usize;
        if n > b.len() - (pos + 2) {
            return None;
        }
        Some(pos + 2 + n)
    } else if tag == 9 {
        if b.len() - pos < 5 {
            return None;
        }
        let elem = b[pos];
        let count = read_be_u32(b, pos + 1);
        if count >= 0x80000000 {
            return None;
        }
        if count == 0 {
            return Some(pos + 5);
        }
        if elem == 0 {
            return None;
        }
        skip_list(b, pos + 5, elem, count)
    } else if tag == 10 {
        skip_entries(b, pos)
    } else {
        None
    }
}

/// Skips `count` list elements of the given tag type.
fn skip_list(b: &Vec<u8>, pos: usize, tag: u8, count: u32) -> (r: Option<usize>)
    requires
        pos <= b.len(),
    ensures
        (r is Some) == (s_skip_list(b@, pos as int, tag, count as int) is Some),
        r is Some ==> r->Some_0 as int == s_skip_list(b@, pos as int, tag, count as int)->Some_0,
        r is Some ==> pos <= r->Some_0 <= b.len(),
    decreases b@.len() - pos, 2int,
{
    if count == 0 {
        return Some(pos);
    }
    match skip_payload(b, pos, tag) {
        None => None,
        Some(p2) => skip_list(b, p2, tag, count - 1),
    }
}

/// Skips a compound body, up to and including its end tag.
fn skip_entries(b: &Vec<u8>, pos: usize) -> (r: Option<usize>)
    requires
        pos <= b.len(),
    ensures
        (r is Some) == (s_skip_entries(b@, pos as int) is Some),
        r is Some ==> r->Some_0 as int == s_skip_entries(b@, pos as int)->Some_0,
        r is Some ==> pos < r->Some_0 <= b.len(),
    decreases b@.len() - pos, 0int,
{
    if pos >= b.len() {
        return None;
    }
    let tag = b[pos];
    if tag == 0 {
        return Some(pos + 1);
    }
    if b.len() - pos < 3 {
        return None;
    }
    let klen = read_be_u16(b, pos + 1) as usize;
    if klen > b.len() - (pos + 3) {
        return None;
    }
    let p = pos + 3 + klen;
    match skip_payload(b, p, tag) {
        None => None,
        Some(p2) => skip_entries(b, p2),
    }
}

/// Scans one palette-entry compound for its required `Name` string.
fn name_entries(b: &Vec<u8>, pos: usize, name: Option<String>) -> (r: Option<(String, usize)>)
    requires
        pos <= b.len(),
    ensures
        ({
            let s = s_name_entries(b@, pos as int, opt_str_view(name));
            &&& (r is Some) == (s is Some)
            &&& (r is Some ==> r->Some_0.0@ == s->Some_0.0)
            &&& (r is Some ==> r->Some_0.1 as int == s->Some_0.1)
            &&& (r is Some ==> pos < r->Some_0.1 <= b.len())
        }),
    decreases b@.len() - pos, 0int,
{
    if pos >= b.len() {
        return None;
    }
    let tag = b[pos];
    if tag == 0 {
        return match name {
            Some(nm) => Some((nm, pos + 1)),
            None => None,
        };
    }
    if b.len() - pos < 3 {
        return None;
    }
    let klen = read_be_u16(b, pos + 1) as usize;
    if klen > b.len() - (pos + 3) {
        return None;
    }
    let p = pos + 3 + klen;
    let key = copy_range(b, pos + 3, klen);
    if vec_eq(&key, &key_name()) {
        if tag != 8 {
            return None;
        }
        match nbt_string(b, p) {
            None => None,
            Some((s, p2)) => {
                let nm = match name {
                    Some(old_name) => Some(old_name),
                    None => Some(s),
                };
                name_entries(b, p2, nm)
            },
        }
    } else {
        match skip_payload(b, p, tag) {
            None => None,
            Some(p2) => name_entries(b, p2, name),
        }
    }
}

/// Parses `count` palette entries, extending `acc`.
fn palette_elems(b: &Vec<u8>, pos: usize, count: u32, acc: Vec<RawPaletteEntry>) -> (r: Option<
    (Vec<RawPaletteEntry>, usize),
>)
    requires
        pos <= b.len(),
    ensures
        ({
            let s = s_palette_elems(b@, pos as int, count as int, palette_view(acc@));
            &&& (r is Some) == (s is Some)
            &&& (r is Some ==> palette_view(r->Some_0.0@) == s->Some_0.0)
            &&& (r is Some ==> r->Some_0.1 as int == s->Some_0.1)
            &&& (r is Some ==> pos <= r->Some_0.1 <= b.len())
        }),
    decreases b@.len() - pos, 2int,
{
    if count == 0 {
        return Some((acc, pos));
    }
    match name_entries(b, pos, None) {
        None => None,
        Some((nm, p2)) => {
            let mut acc2 = acc;
            acc2.push(RawPaletteEntry { name: nm });
            proof {
                assert(palette_view(acc2@) =~= palette_view(acc@).push(
                    s_name_entries(b@, pos as int, opt_str_view(None))->Some_0.0,
                ));
            }
            palette_elems(b, p2, count - 1, acc2)
        },
    }
}

/// Reads a palette-list payload.
fn palette_list(b: &Vec<u8>, pos: usize) -> (r: Option<(Vec<RawPaletteEntry>, usize)>)
    requires
        pos <= b.len(),
    ensures
        ({
            let s = s_palette_list(b@, pos as int);
            &&& (r is Some) == (s is Some)
            &&& (r is Some ==> palette_view(r->Some_0.0@) == s->Some_0.0)
            &&& (r is Some ==> r->Some_0.1 as int == s->Some_0.1)
            &&& (r is Some ==> pos < r->Some_0.1 <= b.len())
        }),
    decreases b@.len() - pos, 3int,
{
    if b.len() - pos < 5 {
        return None;
    }
    let elem = b[pos];
    let count = read_be_u32(b, pos + 1);
    if count >= 0x80000000 {
        return None;
    }
    if count == 0 {
        let v: Vec<RawPaletteEntry> = Vec::new();
        proof {
            assert(palette_view(v@) =~= Seq::<Seq<char>>::empty());
        }
        return Some((v, pos + 5));
    }
    if elem != 10 {
        return None;
    }
    let acc: Vec<RawPaletteEntry> = Vec::new();
    proof {
        assert(palette_view(acc@) =~= Seq::<Seq<char>>::empty());
    }
    palette_elems(b, pos + 5, count, acc)
}

/// Scans one section compound.
fn section_entries(
    b: &Vec<u8>,
    pos: usize,
    y: Option<i8>,
    bsl: Option<Vec<i64>>,
    bsu: Option<Vec<i64>>,
    pall: Option<Vec<RawPaletteEntry>>,
    palu: Option<Vec<RawPaletteEntry>>,
) -> (r: Option<(RawSection, usize)>)
    requires
        pos <= b.len(),
    ensures
        ({
            let s = s_section_entries(
                b@,
                pos as int,
                y,
                opt_longs_view(bsl),
                opt_longs_view(bsu),
                opt_palette_view(pall),
                opt_palette_view(palu),
            );
            &&& (r is Some) == (s is Some)
            &&& (r is Some ==> section_view(r->Some_0.0) == s->Some_0.0)
            &&& (r is Some ==> r->Some_0.1 as int == s->Some_0.1)
            &&& (r is Some ==> pos < r->Some_0.1 <= b.len())
        }),
    decreases b@.len() - pos, 0int,
{
    if pos >= b.len() {
        return None;
    }
    let tag = b[pos];
    if tag == 0 {
        return match y {
            Some(yv) => Some(
                (
                    RawSection {
                        y: yv,
                        block_states: bsl,
                        block_states_upper: bsu,
                        palette: pall,
                        palette_upper: palu,
                    },
                    pos + 1,
                ),
            ),
            None => None,
        };
    }
    if b.len() - pos < 3 {
        return None;
    }
    let klen = read_be_u16(b, pos + 1) as usize;
    if klen > b.len() - (pos + 3) {
        return None;
    }
    let p = pos + 3 + klen;
    let key = copy_range(b, pos + 3, klen);
    if vec_eq(&key, &key_y()) {
        if tag != 1 || p >= b.len() {
            return None;
        }
        let ny = match y {
            Some(v) => Some(v),
            None => Some(b[p] as i8),
        };
        section_entries(b, p + 1, ny, bsl, bsu, pall, palu)
    } else if vec_eq(&key, &key_block_states_lower()) {
        if tag != 12 {
            return None;
        }
        match long_array(b, p) {
            None => None,
            Some((v, p2)) => {
                let nb = match bsl {
                    Some(o) => Some(o),
                    None => Some(v),
                };
                section_entries(b, p2, y, nb, bsu, pall, palu)
            },
        }
    } else if vec_eq(&key, &key_block_states_upper()) {
        if tag != 12 {
            return None;
        }
        match long_array(b, p) {
            None => None,
            Some((v, p2)) => {
                let nb = match bsu {
                    Some(o) => Some(o),
                    None => Some(v),
                };
                section_entries(b, p2, y, bsl, nb, pall, palu)
            },
        }
    } else if vec_eq(&key, &key_palette_lower()) {
        if tag != 9 {
            return None;
        }
        match palette_list(b, p) {
            None => None,
            Some((names, p2)) => {
                let np = match pall {
                    Some(o) => Some(o),
                    None => Some(names),
                };
                section_entries(b, p2, y, bsl, bsu, np, palu)
            },
        }
    } else if vec_eq(&key, &key_palette_upper()) {
        if tag != 9 {
            return None;
        }
        match palette_list(b, p) {
            None => None,
            Some((names, p2)) => {
                let np = match palu {
                    Some(o) => Some(o),
                    None => Some(names),
                };
                section_entries(b, p2, y, bsl, bsu, pall, np)
            },
        }
    } else {
        match skip_payload(b, p, tag) {
            None => None,
            Some(p2) => section_entries(b, p2, y, bsl, bsu, pall, palu),
        }
    }
}

/// Parses `count` section compounds, extending `acc`.
fn sections_elems(b: &Vec<u8>, pos: usize, count: u32, acc: Vec<RawSection>) -> (r: Option<
    (Vec<RawSection>, usize),
>)
    requires
        pos <= b.len(),
    ensures
        ({
            let s = s_sections_elems(b@, pos as int, count as int, sections_view(acc@));
            &&& (r is Some) == (s is Some)
            &&& (r is Some ==> sections_view(r->Some_0.0@) == s->Some_0.0)
            &&& (r is Some ==> r->Some_0.1 as int == s->Some_0.1)
            &&& (r is Some ==> pos <= r->Some_0.1 <= b.len())
        }),
    decreases b@.len() - pos, 2int,
{
    if count == 0 {
        return Some((acc, pos));
    }
    match section_entries(b, pos, None, None, None, None, None) {
        None => None,
        Some((sec, p2)) => {
            let ghost sv = section_view(sec);
            let mut acc2 = acc;
            acc2.push(sec);
            proof {
                assert(sections_view(acc2@) =~= sections_view(acc@).push(sv));
            }
            sections_elems(b, p2, count - 1, acc2)
        },
    }
}

/// Reads a sections-list payload.
fn sections_list(b: &Vec<u8>, pos: usize) -> (r: Option<(Vec<RawSection>, usize)>)
    requires
        pos <= b.len(),
    ensures
        ({
            let s = s_sections_list(b@, pos as int);
            &&& (r is Some) == (s is Some)
            &&& (r is Some ==> sections_view(r->Some_0.0@) == s->Some_0.0)
            &&& (r is Some ==> r->Some_0.1 as int == s->Some_0.1)
            &&& (r is Some ==> pos < r->Some_0.1 <= b.len())
        }),
    decreases b@.len() - pos, 3int,
{
    if b.len() - pos < 5 {
        return None;
    }
    let elem = b[pos];
    let count = read_be_u32(b, pos + 1);
    if count >= 0x80000000 {
        return None;
    }
    if count == 0 {
        let v: Vec<RawSection> = Vec::new();
        proof {
            assert(sections_view(v@) =~= Seq::<SpecSection>::empty());
        }
        return Some((v, pos + 5));
    }
    if elem != 10 {
        return None;
    }
    let acc: Vec<RawSection> = Vec::new();
    proof {
        assert(sections_view(acc@) =~= Seq::<SpecSection>::empty());
    }
    sections_elems(b, pos + 5, count, acc)
}

/// Scans the legacy wrapper compound.
fn level_entries(
    b: &Vec<u8>,
    pos: usize,
    su: Option<Vec<RawSection>>,
    sl: Option<Vec<RawSection>>,
) -> (r: Option<(RawChunkLevel, usize)>)
    requires
        pos <= b.len(),
    ensures
        ({
            let s = s_level_entries(b@, pos as int, opt_sections_view(su), opt_sections_view(sl));
            &&& (r is Some) == (s is Some)
            &&& (r is Some ==> level_view(r->Some_0.0) == s->Some_0.0)
            &&& (r is Some ==> r->Some_0.1 as int == s->Some_0.1)
            &&& (r is Some ==> pos < r->Some_0.1 <= b.len())
        }),
    decreases b@.len() - pos, 0int,
{
    if pos >= b.len() {
        return None;
    }
    let tag = b[pos];
    if tag == 0 {
        return Some((RawChunkLevel { sections_upper: su, sections_lower: sl }, pos + 1));
    }
    if b.len() - pos < 3 {
        return None;
    }
    let klen = read_be_u16(b, pos + 1) as usize;
    if klen > b.len() - (pos + 3) {
        return None;
    }
    let p = pos + 3 + klen;
    let key = copy_range(b, pos + 3, klen);
    if vec_eq(&key, &key_sections_lower()) {
        if tag != 9 {
            return None;
        }
        match sections_list(b, p) {
            None => None,
            Some((v, p2)) => {
                let ns = match sl {
                    Some(o) => Some(o),
                    None => Some(v),
                };
                level_entries(b, p2, su, ns)
            },
        }
    } else if vec_eq(&key, &key_sections_upper()) {
        if tag != 9 {
            return None;
        }
        match sections_list(b, p) {
            None => None,
            Some((v, p2)) => {
                let ns = match su {
                    Some(o) => Some(o),
                    None => Some(v),
                };
                level_entries(b, p2, ns, sl)
            },
        }
    } else {
        match skip_payload(b, p, tag) {
            None => None,
            Some(p2) => level_entries(b, p2, su, sl),
        }
    }
}

/// Scans the root compound.
fn chunk_entries(
    b: &Vec<u8>,
    pos: usize,
    level: Option<RawChunkLevel>,
    sl: Option<Vec<RawSection>>,
    su: Option<Vec<RawSection>>,
) -> (r: Option<(RawChunk, usize)>)
    requires
        pos <= b.len(),
    ensures
        ({
            let s = s_chunk_entries(
                b@,
                pos as int,
                opt_level_view(level),
                opt_sections_view(sl),
                opt_sections_view(su),
            );
            &&& (r is Some) == (s is Some)
            &&& (r is Some ==> chunk_view(r->Some_0.0) == s->Some_0.0)
            &&& (r is Some ==> r->Some_0.1 as int == s->Some_0.1)
            &&& (r is Some ==> pos < r->Some_0.1 <= b.len())
        }),
    decreases b@.len() - pos, 0int,
{
    if pos >= b.len() {
        return None;
    }
    let tag = b[pos];
    if tag == 0 {
        return Some((RawChunk { level: level, sections_lower: sl, sections_upper: su }, pos + 1));
    }
    if b.len() - pos < 3 {
        return None;
    }
    let klen = read_be_u16(b, pos + 1) as usize;
    if klen > b.len() - (pos + 3) {
        return None;
    }
    let p = pos + 3 + klen;
    let key = copy_range(b, pos + 3, klen);
    if vec_eq(&key, &key_level()) {
        if tag != 10 {
            return None;
        }
        match level_entries(b, p, None, None) {
            None => None,
            Some((lv, p2)) => {
                let nl = match level {
                    Some(o) => Some(o),
                    None => Some(lv),
                };
                chunk_entries(b, p2, nl, sl, su)
            },
        }
    } else if vec_eq(&key, &key_sections_lower()) {
        if tag != 9 {
            return None;
        }
        match sections_list(b, p) {
            None => None,
            Some((v, p2)) => {
                let ns = match sl {
                    Some(o) => Some(o),
                    None => Some(v),
                };
                chunk_entries(b, p2, level, ns, su)
            },
        }
    } else if vec_eq(&key, &key_sections_upper()) {
        if tag != 9 {
            return None;
        }
        match sections_list(b, p) {
            None => None,
            Some((v, p2)) => {
                let ns = match su {
                    Some(o) => Some(o),
                    None => Some(v),
                };
                chunk_entries(b, p2, level, sl, ns)
            },
        }
    } else {
        match skip_payload(b, p, tag) {
            None => None,
            Some(p2) => chunk_entries(b, p2, level, sl, su),
        }
    }
}

/// Parses a whole decompressed record into its two tolerated shapes.
pub fn parse_chunk(b: &Vec<u8>) -> (r: Option<RawChunk>)
    ensures
        (r is Some) == (s_parse_chunk(b@) is Some),
        r is Some ==> chunk_view(r->Some_0) == s_parse_chunk(b@)->Some_0,
{
    if b.len() < 3 {
        return None;
    }
    if b[0] != 10 {
        return None;
    }
    let klen = read_be_u16(b, 1) as usize;
    if klen > b.len() - 3 {
        return None;
    }
    match chunk_entries(b, 3 + klen, None, None, None) {
        Some((c, _)) => Some(c),
        None => None,
    }
}

} // verus!
