use vstd::prelude::*;

use crate::rgba::Buffer2D;
use crate::utils::{le_value, name_bytes, read_i16, read_u16, read_u32, read_u8};

verus! {

/// The size of one directory entry: offset, size and an 8-byte name.
pub const DIR_SIZE: usize = 16;

/// The size of one map vertex: two `i16` coordinates.
pub const VERTICES_SIZE: usize = 4;

/// The size of one map line definition, whose first two fields are the
/// indices of its vertices.
pub const LINEDEFS_SIZE: usize = 14;

/// One directory entry: where a lump lies in the file, and its name without
/// the NUL padding.
pub struct Dir {
    pub offset: usize,
    pub size: usize,
    pub name: Vec<u8>,
}

/// A WAD archive: its bytes and its directory.
pub struct WAD {
    pub dir_count: usize,
    pub dir_offset: usize,
    pub dirs: Vec<Dir>,
    pub buf: Vec<u8>,
}

/// Why an archive could not be read.
#[derive(Clone, Copy, Debug, PartialEq, Eq, Structural)]
pub enum WadError {
    /// The bytes end inside the header or inside the directory.
    Truncated,
}

/// Why a map could not be read.
#[derive(Clone, Copy, Debug, PartialEq, Eq, Structural)]
pub enum MapError {
    /// No marker lump has the map's name.
    NotFound,
    /// A lump that is read reaches past the end of the archive.
    BadLump,
}

/// Where directory entry `k` starts in an archive whose directory starts at `base`.
pub open spec fn dir_at(base: int, k: int) -> int {
    base + DIR_SIZE * k
}

/// Reads an archive from its bytes. The directory runs from its offset to
/// the end of the bytes, one entry per 16 bytes.
pub fn parse_wad(buf: Vec<u8>) -> (r: Result<WAD, WadError>)
    ensures
        ({
            let b = buf@;
            let base = le_value(b, 8, 4) as int;
            let ok = b.len() >= 12 && base <= b.len() && (b.len() - base) % 16 == 0;
            &&& r.is_ok() == ok
            &&& r.is_err() ==> r == Err::<WAD, WadError>(WadError::Truncated)
            &&& ok ==> {
                let w = r.unwrap();
                &&& w.buf@ == b
                &&& w.dir_count == le_value(b, 4, 4)
                &&& w.dir_offset == base
                &&& w.dirs@.len() == (b.len() - base) / 16
                &&& forall|k: int|
                    0 <= k < w.dirs@.len() ==> {
                        let d = #[trigger] w.dirs@[k];
                        &&& d.offset == le_value(b, dir_at(base, k), 4)
                        &&& d.size == le_value(b, dir_at(base, k) + 4, 4)
                        &&& d.name@ == name_bytes(b, dir_at(base, k) + 8, 8)
                    }
            }
        }),
{
    let len = buf.len();
    if len < 12 {
        return Err(WadError::Truncated);
    }
    let dir_count = read_u32(buf.as_slice(), 4) as usize;
    let dir_offset = read_u32(buf.as_slice(), 8) as usize;
    if dir_offset > len || (len - dir_offset) % DIR_SIZE != 0 {
        return Err(WadError::Truncated);
    }
    let count = (len - dir_offset) / DIR_SIZE;
    let mut dirs: Vec<Dir> = Vec::new();
    let mut k: usize = 0;
    while k < count
        invariant
            len == buf@.len(),
            dir_offset <= len,
            count == (len - dir_offset) / 16,
            (len - dir_offset) % 16 == 0,
            k <= count,
            dirs@.len() == k,
            forall|j: int|
                0 <= j < k ==> {
                    let d = #[trigger] dirs@[j];
                    &&& d.offset == le_value(buf@, dir_at(dir_offset as int, j), 4)
                    &&& d.size == le_value(buf@, dir_at(dir_offset as int, j) + 4, 4)
                    &&& d.name@ == name_bytes(buf@, dir_at(dir_offset as int, j) + 8, 8)
                },
        decreases count - k,
    {
        assert(16 * k + 16 <= len - dir_offset) by (nonlinear_arith)
            requires
                k < count,
                count == (len - dir_offset) / 16,
                (len - dir_offset) % 16 == 0,
                dir_offset <= len,
        ;
        let at = dir_offset + DIR_SIZE * k;
        let offset = read_u32(buf.as_slice(), at) as usize;
        let size = read_u32(buf.as_slice(), at + 4) as usize;
        let name = crate::utils::nonzero_bytes(buf.as_slice(), at + 8, 8);
        dirs.push(Dir { offset, size, name });
        k = k + 1;
    }
    Ok(WAD { dir_count, dir_offset, dirs, buf })
}

/// The geometry of one map: its vertices and the vertex pairs of its lines.
pub struct WorldData {
    pub vertices: Vec<(i16, i16)>,
    pub linedefs: Vec<(usize, usize)>,
}

/// The name of the lump of map vertices.
pub open spec fn vertexes_name() -> Seq<u8> {
    seq![86u8, 69, 82, 84, 69, 88, 69, 83]
}

/// The name of the lump of map lines.
pub open spec fn linedefs_name() -> Seq<u8> {
    seq![76u8, 73, 78, 69, 68, 69, 70, 83]
}

/// Where the scan of the directory for a map stands.
pub struct ScanState {
    pub found: bool,
    pub done: bool,
    pub vertexes: Option<int>,
    pub linedefs: Option<int>,
}

/// The scan after the first `k` entries. Entries of size 0 are markers:
/// the one named like the map starts it, the next one after it ends the
/// scan. Every other entry met, before the map's marker too, that is named
/// like a lump of map data is taken, a later one over an earlier one.
pub open spec fn scan(dirs: Seq<Dir>, map_name: Seq<u8>, k: nat) -> ScanState
    decreases k,
{
    if k == 0 {
        ScanState { found: false, done: false, vertexes: None, linedefs: None }
    } else {
        let st = scan(dirs, map_name, (k - 1) as nat);
        let d = dirs[k - 1];
        if st.done {
            st
        } else if d.size == 0 {
            if st.found {
                ScanState { done: true, ..st }
            } else if d.name@ == map_name {
                ScanState { found: true, ..st }
            } else {
                st
            }
        } else if d.name@ == vertexes_name() {
            ScanState { vertexes: Some(k - 1), ..st }
        } else if d.name@ == linedefs_name() {
            ScanState { linedefs: Some(k - 1), ..st }
        } else {
            st
        }
    }
}

/// Once the scan is done it stays as it is, and takes no more lumps.
proof fn lemma_scan_done(dirs: Seq<Dir>, map_name: Seq<u8>, len: int, a: nat, b: nat)
    requires
        a <= b,
        scan(dirs, map_name, a).done,
    ensures
        scan(dirs, map_name, b) == scan(dirs, map_name, a),
        lumps_ok_upto(dirs, map_name, len, a) == lumps_ok_upto(dirs, map_name, len, b),
    decreases b - a,
{
    if a < b {
        lemma_scan_done(dirs, map_name, len, a, (b - 1) as nat);
        assert forall|j: int| a <= j < b implies (#[trigger] scan(dirs, map_name, j as nat)).done by {
            lemma_scan_done(dirs, map_name, len, a, j as nat);
        }
    }
}

/// Whether lump `d` of map vertices can be read from `buf`.
pub open spec fn vertexes_ok(d: Dir, len: int) -> bool {
    d.offset + d.size <= len && d.size % 4 == 0
}

/// Whether lump `d` of map lines can be read from `buf`: a last, shorter
/// record must still hold the two vertex indices.
pub open spec fn linedefs_ok(d: Dir, len: int) -> bool {
    d.offset + d.size <= len && (d.size % 14 == 0 || d.size % 14 >= 4)
}

/// The `j`-th vertex of the lump at `off`.
pub open spec fn vertex_at(b: Seq<u8>, off: int, j: int) -> (int, int) {
    (signed16(le_value(b, off + 4 * j, 2) as int), signed16(le_value(b, off + 4 * j + 2, 2) as int))
}

pub open spec fn signed16(v: int) -> int {
    if v < 0x8000 {
        v
    } else {
        v - 0x10000
    }
}

/// How many line records a lump of `size` bytes holds, a shorter last one included.
pub open spec fn lines_in(size: int) -> int {
    size / 14 + if size % 14 == 0 {
        0int
    } else {
        1int
    }
}

/// The `j`-th line of the lump at `off`.
pub open spec fn linedef_at(b: Seq<u8>, off: int, j: int) -> (int, int) {
    (le_value(b, off + 14 * j, 2) as int, le_value(b, off + 14 * j + 2, 2) as int)
}

/// Whether every lump that the first `k` entries of the scan take can be read.
pub open spec fn lumps_ok_upto(dirs: Seq<Dir>, map_name: Seq<u8>, len: int, k: nat) -> bool {
    forall|j: int|
        0 <= j < k ==> {
            let st = #[trigger] scan(dirs, map_name, j as nat);
            let d = dirs[j];
            !st.done && d.size != 0 ==> (d.name@ == vertexes_name() ==> vertexes_ok(d, len)) && (
            d.name@ == linedefs_name() ==> linedefs_ok(d, len))
        }
}

/// Reads the vertices of lump `d`.
fn read_vertexes(buf: &Vec<u8>, d: &Dir) -> (r: Vec<(i16, i16)>)
    requires
        vertexes_ok(*d, buf@.len() as int),
    ensures
        r@.len() == d.size / 4,
        forall|j: int|
            0 <= j < r@.len() ==> (#[trigger] r@[j].0 as int, r@[j].1 as int) == vertex_at(
                buf@,
                d.offset as int,
                j,
            ),
{
    let n = d.size / VERTICES_SIZE;
    let len = buf.len();
    let mut out: Vec<(i16, i16)> = Vec::new();
    let mut j: usize = 0;
    while j < n
        invariant
            n == d.size / 4,
            len == buf@.len(),
            vertexes_ok(*d, buf@.len() as int),
            j <= n,
            out@.len() == j,
            forall|i: int|
                0 <= i < j ==> (#[trigger] out@[i].0 as int, out@[i].1 as int) == vertex_at(
                    buf@,
                    d.offset as int,
                    i,
                ),
        decreases n - j,
    {
        assert(4 * j + 4 <= d.size) by (nonlinear_arith)
            requires
                j < d.size / 4,
        ;
        let at = d.offset + VERTICES_SIZE * j;
        out.push((read_i16(buf.as_slice(), at), read_i16(buf.as_slice(), at + 2)));
        j = j + 1;
    }
    out
}

/// Reads the vertex pairs of the lines of lump `d`.
fn read_linedefs(buf: &Vec<u8>, d: &Dir) -> (r: Vec<(usize, usize)>)
    requires
        linedefs_ok(*d, buf@.len() as int),
    ensures
        r@.len() == lines_in(d.size as int),
        forall|j: int|
            0 <= j < r@.len() ==> (#[trigger] r@[j].0 as int, r@[j].1 as int) == linedef_at(
                buf@,
                d.offset as int,
                j,
            ),
{
    let n = d.size / LINEDEFS_SIZE + if d.size % LINEDEFS_SIZE == 0 {
        0
    } else {
        1
    };
    let len = buf.len();
    let mut out: Vec<(usize, usize)> = Vec::new();
    let mut j: usize = 0;
    while j < n
        invariant
            n == lines_in(d.size as int),
            linedefs_ok(*d, buf@.len() as int),
            len == buf@.len(),
            j <= n,
            out@.len() == j,
            forall|i: int|
                0 <= i < j ==> (#[trigger] out@[i].0 as int, out@[i].1 as int) == linedef_at(
                    buf@,
                    d.offset as int,
                    i,
                ),
        decreases n - j,
    {
        assert(14 * j + 4 <= d.size) by (nonlinear_arith)
            requires
                j < d.size / 14 + if d.size % 14 == 0 {
                    0int
                } else {
                    1int
                },
                d.size % 14 == 0 || d.size % 14 >= 4,
        ;
        let at = d.offset + LINEDEFS_SIZE * j;
        out.push((read_u16(buf.as_slice(), at) as usize, read_u16(buf.as_slice(), at + 2) as usize));
        j = j + 1;
    }
    out
}

impl WAD {
    /// Reads the geometry of the map named `map_name`: the vertices and lines
    /// of the last such lumps that the scan of the directory takes.
    pub fn get_map_data(&self, map_name: &[u8]) -> (r: Result<WorldData, MapError>)
        ensures
            ({
                let n = self.dirs@.len();
                let st = scan(self.dirs@, map_name@, n);
                let len = self.buf@.len() as int;
                &&& !lumps_ok_upto(self.dirs@, map_name@, len, n) ==> r == Err::<WorldData, MapError>(MapError::BadLump)
                &&& lumps_ok_upto(self.dirs@, map_name@, len, n) && !st.found ==> r == Err::<WorldData, MapError>(MapError::NotFound)
                &&& lumps_ok_upto(self.dirs@, map_name@, len, n) && st.found ==> r.is_ok() && {
                    let data = r.unwrap();
                    &&& match st.vertexes {
                        None => data.vertices@.len() == 0,
                        Some(j) => {
                            let d = self.dirs@[j];
                            &&& data.vertices@.len() == d.size / 4
                            &&& forall|i: int| 0 <= i < data.vertices@.len() ==> (#[trigger] data.vertices@[i].0 as int, data.vertices@[i].1 as int) == vertex_at(self.buf@, d.offset as int, i)
                        },
                    }
                    &&& match st.linedefs {
                        None => data.linedefs@.len() == 0,
                        Some(j) => {
                            let d = self.dirs@[j];
                            &&& data.linedefs@.len() == lines_in(d.size as int)
                            &&& forall|i: int| 0 <= i < data.linedefs@.len() ==> (#[trigger] data.linedefs@[i].0 as int, data.linedefs@[i].1 as int) == linedef_at(self.buf@, d.offset as int, i)
                        },
                    }
                }
            }),
    {
        let ghost name = map_name@;
        let ghost dirs = self.dirs@;
        let ghost len = self.buf@.len() as int;
        let mut vertices: Vec<(i16, i16)> = Vec::new();
        let mut linedefs: Vec<(usize, usize)> = Vec::new();
        let mut found = false;
        let n = self.dirs.len();
        let mut k: usize = 0;
        let mut done = false;
        let vertexes_tag: Vec<u8> = vec![86u8, 69, 82, 84, 69, 88, 69, 83];
        let linedefs_tag: Vec<u8> = vec![76u8, 73, 78, 69, 68, 69, 70, 83];
        assert(vertexes_tag@ =~= vertexes_name());
        assert(linedefs_tag@ =~= linedefs_name());
        while k < n
            invariant
                n == dirs.len(),
                dirs == self.dirs@,
                name == map_name@,
                len == self.buf@.len(),
                vertexes_tag@ == vertexes_name(),
                linedefs_tag@ == linedefs_name(),
                k <= n,
                found == scan(dirs, name, k as nat).found,
                done == scan(dirs, name, k as nat).done,
                done ==> scan(dirs, name, n as nat) == scan(dirs, name, k as nat),
                done ==> (lumps_ok_upto(dirs, name, len, k as nat) <==> lumps_ok_upto(dirs, name, len, n as nat)),
                lumps_ok_upto(dirs, name, len, k as nat),
                match scan(dirs, name, k as nat).vertexes {
                    None => vertices@.len() == 0,
                    Some(j) => {
                        let d = dirs[j];
                        &&& 0 <= j < n
                        &&& vertices@.len() == d.size / 4
                        &&& forall|i: int| 0 <= i < vertices@.len() ==> (#[trigger] vertices@[i].0 as int, vertices@[i].1 as int) == vertex_at(self.buf@, d.offset as int, i)
                    },
                },
                match scan(dirs, name, k as nat).linedefs {
                    None => linedefs@.len() == 0,
                    Some(j) => {
                        let d = dirs[j];
                        &&& 0 <= j < n
                        &&& linedefs@.len() == lines_in(d.size as int)
                        &&& forall|i: int| 0 <= i < linedefs@.len() ==> (#[trigger] linedefs@[i].0 as int, linedefs@[i].1 as int) == linedef_at(self.buf@, d.offset as int, i)
                    },
                },
            decreases n - k,
        {
            if done {
                k = n;
            } else {
                let d = &self.dirs[k];
                if d.size == 0 {
                    if found {
                        done = true;
                        proof {
                            lemma_scan_done(dirs, name, len, (k + 1) as nat, n as nat);
                        }
                    } else if bytes_eq(&d.name, map_name) {
                        found = true;
                    }
                } else if bytes_eq(&d.name, vertexes_tag.as_slice()) {
                    if !(d.size <= self.buf.len() && d.offset <= self.buf.len() - d.size && d.size % VERTICES_SIZE == 0) {
                        proof {
                            let j = k as int;
                            assert(dirs[j] == *d);
                            let st = scan(dirs, name, j as nat);
                            assert(!(!st.done && dirs[j].size != 0 ==> (dirs[j].name@ == vertexes_name()
                                ==> vertexes_ok(dirs[j], len)) && (dirs[j].name@ == linedefs_name()
                                ==> linedefs_ok(dirs[j], len))));
                            assert(!lumps_ok_upto(dirs, name, len, n as nat));
                        }
                        return Err(MapError::BadLump);
                    }
                    vertices = read_vertexes(&self.buf, d);
                } else if bytes_eq(&d.name, linedefs_tag.as_slice()) {
                    if !(d.size <= self.buf.len() && d.offset <= self.buf.len() - d.size && (d.size % LINEDEFS_SIZE == 0 || d.size % LINEDEFS_SIZE >= 4)) {
                        proof {
                            let j = k as int;
                            assert(dirs[j] == *d);
                            let st = scan(dirs, name, j as nat);
                            assert(!(!st.done && dirs[j].size != 0 ==> (dirs[j].name@ == vertexes_name()
                                ==> vertexes_ok(dirs[j], len)) && (dirs[j].name@ == linedefs_name()
                                ==> linedefs_ok(dirs[j], len))));
                            assert(!lumps_ok_upto(dirs, name, len, n as nat));
                        }
                        return Err(MapError::BadLump);
                    }
                    linedefs = read_linedefs(&self.buf, d);
                }
                k = k + 1;
            }
        }
        if found {
            Ok(WorldData { vertices, linedefs })
        } else {
            Err(MapError::NotFound)
        }
    }
}

/// Whether `a` and `b` hold the same bytes.
pub fn bytes_eq(a: &Vec<u8>, b: &[u8]) -> (r: bool)
    ensures
        r == (a@ == b@),
{
    if a.len() != b.len() {
        return false;
    }
    let mut i: usize = 0;
    while i < a.len()
        invariant
            a@.len() == b@.len(),
            i <= a@.len(),
            forall|j: int| 0 <= j < i ==> a@[j] == b@[j],
        decreases a@.len() - i,
    {
        if a[i] != b[i] {
            return false;
        }
        i = i + 1;
    }
    assert(a@ =~= b@);
    true
}

/// Why a texture could not be read.
#[derive(Clone, Copy, Debug, PartialEq, Eq, Structural)]
pub enum TextureError {
    /// No lump has the texture's name.
    NotFound,
    /// No lump holds the palette.
    NoPalette,
    /// The palette, the column table or a column runs past the end of the
    /// archive, or a column reaches below the texture.
    Malformed,
}

/// The name of the palette lump.
pub open spec fn playpal_name() -> Seq<u8> {
    seq![80u8, 76, 65, 89, 80, 65, 76]
}

/// Whether entry `k` is the first one named `name`.
pub open spec fn first_named(dirs: Seq<Dir>, name: Seq<u8>, k: int) -> bool {
    &&& 0 <= k < dirs.len()
    &&& dirs[k].name@ == name
    &&& forall|j: int| 0 <= j < k ==> (#[trigger] dirs[j]).name@ != name
}

/// Whether some entry is named `name`.
pub open spec fn has_named(dirs: Seq<Dir>, name: Seq<u8>) -> bool {
    exists|k: int| 0 <= k < dirs.len() && (#[trigger] dirs[k]).name@ == name
}

/// Whether the four bytes of a pixel are a palette color, stored blue,
/// green, red, with an opaque alpha, or all 255 where no column reached.
pub open spec fn texel_ok(colors: Seq<u8>, i: int, palette: Seq<u8>) -> bool {
    ||| (colors[4 * i] == 255 && colors[4 * i + 1] == 255 && colors[4 * i + 2] == 255 && colors[4
        * i + 3] == 255)
    ||| exists|c: int| 0 <= c < 256 && #[trigger] palette_texel(colors, i, palette, c)
}

/// Whether pixel `i` holds palette color `c`, stored blue, green, red, with
/// an opaque alpha.
pub open spec fn palette_texel(colors: Seq<u8>, i: int, palette: Seq<u8>, c: int) -> bool {
    colors[4 * i] == palette[3 * c + 2] && colors[4 * i + 1] == palette[3 * c + 1] && colors[4 * i
        + 2] == palette[3 * c] && colors[4 * i + 3] == 255
}

/// The steps of decoding one column of a patch.
enum PatchColumnState {
    YOffset,
    Length,
    PaddingPre,
    Color,
}

impl WAD {
    /// The first entry named `name`.
    pub fn find_dir(&self, name: &[u8]) -> (r: Option<usize>)
        ensures
            r.is_none() == !has_named(self.dirs@, name@),
            r.is_some() ==> first_named(self.dirs@, name@, r.unwrap() as int),
    {
        let mut k: usize = 0;
        while k < self.dirs.len()
            invariant
                k <= self.dirs@.len(),
                forall|j: int| 0 <= j < k ==> (#[trigger] self.dirs@[j]).name@ != name@,
            decreases self.dirs@.len() - k,
        {
            if bytes_eq(&self.dirs[k].name, name) {
                return Some(k);
            }
            k = k + 1;
        }
        None
    }

    /// Decodes the picture lump named `name` into 4-byte pixels, with the
    /// colors of the palette lump. The lump holds its width and height, then
    /// one offset per column; a column is a run of posts, each a starting
    /// row, a length, a padding byte, the palette indices and another
    /// padding byte, and the byte 255 ends it. Pixels that no post covers
    /// stay 255 in all four bytes.
    pub fn load_texture_into_buffer(&self, name: &[u8]) -> (r: Result<Buffer2D, TextureError>)
        ensures
            !has_named(self.dirs@, name@) ==> r == Err::<Buffer2D, TextureError>(TextureError::NotFound),
            has_named(self.dirs@, name@) && !has_named(self.dirs@, playpal_name()) ==> r == Err::<
                Buffer2D,
                TextureError,
            >(TextureError::NoPalette),
            r.is_ok() ==> has_named(self.dirs@, name@) && has_named(self.dirs@, playpal_name())
                && exists|t: int, p: int|
                first_named(self.dirs@, name@, t) && first_named(self.dirs@, playpal_name(), p)
                    && {
                    let img = r.unwrap();
                    let off = self.dirs@[t].offset as int;
                    let pal = self.dirs@[p].offset as int;
                    &&& img.wf()
                    &&& img.width == le_value(self.buf@, off, 2)
                    &&& img.height == le_value(self.buf@, off + 2, 2)
                    &&& forall|i: int|
                        0 <= i < img.width * img.height ==> #[trigger] texel_ok(
                            img.colors@,
                            i,
                            self.buf@.subrange(pal, pal + 768),
                        )
                },
    {
        let t = match self.find_dir(name) {
            Some(t) => t,
            None => return Err(TextureError::NotFound),
        };
        let playpal: Vec<u8> = vec![80u8, 76, 65, 89, 80, 65, 76];
        assert(playpal@ =~= playpal_name());
        let p = match self.find_dir(playpal.as_slice()) {
            Some(p) => p,
            None => return Err(TextureError::NoPalette),
        };
        let len = self.buf.len();
        let pal = self.dirs[p].offset;
        if pal > len || len - pal < 768 {
            return Err(TextureError::Malformed);
        }
        let ghost palette = self.buf@.subrange(pal as int, pal + 768);
        assert(has_named(self.dirs@, name@) && has_named(self.dirs@, playpal_name()));
        let off = self.dirs[t].offset;
        if off > len || len - off < 8 {
            return Err(TextureError::Malformed);
        }
        let w = read_u16(self.buf.as_slice(), off) as usize;
        let h = read_u16(self.buf.as_slice(), off + 2) as usize;
        let _left_offset = read_i16(self.buf.as_slice(), off + 4);
        let _top_offset = read_i16(self.buf.as_slice(), off + 6);
        let pointers = off + 8;
        if len - pointers < 4 * w {
            return Err(TextureError::Malformed);
        }
        assert(w * h <= 0x1_0000 * 0x1_0000) by (nonlinear_arith)
            requires
                w < 0x1_0000,
                h < 0x1_0000,
        ;
        if w as u64 * h as u64 * 4 > usize::MAX as u64 {
            return Err(TextureError::Malformed);
        }
        let mut colors: Vec<u8> = vec![255u8; w * h * 4];
        assert forall|i: int| 0 <= i < w * h implies #[trigger] texel_ok(colors@, i, palette) by {
            assert(colors@[4 * i] == 255u8);
            assert(colors@[4 * i + 1] == 255u8);
            assert(colors@[4 * i + 2] == 255u8);
            assert(colors@[4 * i + 3] == 255u8);
        }
        let mut x: usize = 0;
        while x < w
            invariant
                first_named(self.dirs@, name@, t as int),
                first_named(self.dirs@, playpal_name(), p as int),
                off + 8 <= len,
                pal == self.dirs@[p as int].offset,
                len == self.buf@.len(),
                pal + 768 <= len,
                palette == self.buf@.subrange(pal as int, pal + 768),
                pointers + 4 * w <= len,
                w < 0x1_0000 && h < 0x1_0000,
                colors@.len() == 4 * (w * h),
                x <= w,
                forall|i: int| 0 <= i < w * h ==> #[trigger] texel_ok(colors@, i, palette),
            decreases w - x,
        {
            let column = read_u32(self.buf.as_slice(), pointers + 4 * x) as usize;
            if column > len - off {
                return Err(TextureError::Malformed);
            }
            let start = off + column;
            let mut state = PatchColumnState::YOffset;
            let mut y_offset: usize = 0;
            let mut length: u8 = 0;
            let mut c: u8 = 0;
            let mut i: usize = start;
            let mut ended = false;
            while !ended
                invariant
                    first_named(self.dirs@, name@, t as int),
                    first_named(self.dirs@, playpal_name(), p as int),
                    off + 8 <= len,
                    pal == self.dirs@[p as int].offset,
                    len == self.buf@.len(),
                    pal + 768 <= len,
                    palette == self.buf@.subrange(pal as int, pal + 768),
                    w < 0x1_0000 && h < 0x1_0000,
                    colors@.len() == 4 * (w * h),
                    x < w,
                    y_offset < 256,
                    c <= length,
                    start <= i <= len,
                    forall|k: int| 0 <= k < w * h ==> #[trigger] texel_ok(colors@, k, palette),
                decreases len - i, if ended { 0int } else { 1int },
            {
                if i >= len {
                    return Err(TextureError::Malformed);
                }
                let b = read_u8(self.buf.as_slice(), i);
                match state {
                    PatchColumnState::YOffset => {
                        if b == 0xFF {
                            ended = true;
                        } else {
                            y_offset = b as usize;
                            state = PatchColumnState::Length;
                        }
                    },
                    PatchColumnState::Length => {
                        length = b;
                        c = 0;
                        state = PatchColumnState::PaddingPre;
                    },
                    PatchColumnState::PaddingPre => {
                        state = PatchColumnState::Color;
                    },
                    PatchColumnState::Color => {
                        if c == length {
                            state = PatchColumnState::YOffset;
                        } else {
                            let y = y_offset + c as usize;
                            if y > 255 || y >= h {
                                return Err(TextureError::Malformed);
                            }
                            proof {
                                crate::buffer2d::lemma_index_in_grid(
                                    x as int,
                                    y as int,
                                    w as int,
                                    h as int,
                                );
                            }
                            let clen = colors.len();
                            let index = (y * w + x) * 4;
                            let pi = pal + 3 * (b as usize);
                            let ghost before = colors@;
                            colors.set(index, self.buf[pi + 2]);
                            colors.set(index + 1, self.buf[pi + 1]);
                            colors.set(index + 2, self.buf[pi]);
                            colors.set(index + 3, 255);
                            proof {
                                let cell = (y * w + x) as int;
                                assert forall|k: int| 0 <= k < w * h implies #[trigger] texel_ok(
                                    colors@,
                                    k,
                                    palette,
                                ) by {
                                    if k == cell {
                                        assert(palette[3 * b + 2] == self.buf@[pi + 2]);
                                        assert(palette[3 * b + 1] == self.buf@[pi + 1]);
                                        assert(palette[3 * b] == self.buf@[pi as int]);
                                        assert(palette_texel(colors@, k, palette, b as int));
                                    } else {
                                        assert(texel_ok(before, k, palette));
                                        assert forall|cc: int| palette_texel(before, k, palette, cc) implies palette_texel(colors@, k, palette, cc) by {}
                                        assert(colors@[4 * k] == before[4 * k]);
                                        assert(colors@[4 * k + 1] == before[4 * k + 1]);
                                        assert(colors@[4 * k + 2] == before[4 * k + 2]);
                                        assert(colors@[4 * k + 3] == before[4 * k + 3]);
                                    }
                                }
                            }
                            c = c + 1;
                        }
                    },
                }
                i = i + 1;
            }
            x = x + 1;
        }
        assert(4 * (w * h) == w * h * 4);
        let img = Buffer2D::new(w, h, colors);
        assert(first_named(self.dirs@, name@, t as int) && first_named(self.dirs@, playpal_name(), p as int));
        Ok(img)
    }
}

} // verus!
