//! Index data of polygons: the triangle lists that the shape presets
//! produce, and the triangles that a polygon can draw.

use vstd::prelude::*;

verus! {

/// std's I/O error, carried opaquely inside a decode error.
#[verifier::external_type_specification]
#[verifier::external_body]
pub struct ExIoError(std::io::Error);

/// std's error for a slice converted to an array of another length,
/// carried opaquely inside a decode error.
#[verifier::external_type_specification]
#[verifier::external_body]
pub struct ExTryFromSliceError(std::array::TryFromSliceError);

/// What can go wrong while decoding a polygon from a byte stream.
#[derive(Debug)]
pub enum PolygonDecodeError {
    /// Reading from the stream failed.
    IoError(std::io::Error),
    /// A slice of the wrong length was taken where a fixed-size chunk was expected.
    SliceError(std::array::TryFromSliceError),
}

impl PolygonDecodeError {
    /// The message that describes the error.
    pub fn message(&self) -> (text: &'static str)
        ensures
            self is IoError ==> text@ == "io error while decoding polygon"@,
            self is SliceError ==> text@ == "unreachable logic while decoding polygon"@,
    {
        match self {
            PolygonDecodeError::IoError(_) => "io error while decoding polygon",
            PolygonDecodeError::SliceError(_) => "unreachable logic while decoding polygon",
        }
    }
}

impl From<std::io::Error> for PolygonDecodeError {
    fn from(error: std::io::Error) -> (decoded: Self) {
        PolygonDecodeError::IoError(error)
    }
}

impl vstd::std_specs::convert::FromSpecImpl<std::io::Error> for PolygonDecodeError {
    open spec fn obeys_from_spec() -> bool {
        true
    }

    open spec fn from_spec(error: std::io::Error) -> Self {
        PolygonDecodeError::IoError(error)
    }
}

impl From<std::array::TryFromSliceError> for PolygonDecodeError {
    fn from(error: std::array::TryFromSliceError) -> (decoded: Self) {
        PolygonDecodeError::SliceError(error)
    }
}

impl vstd::std_specs::convert::FromSpecImpl<std::array::TryFromSliceError> for PolygonDecodeError {
    open spec fn obeys_from_spec() -> bool {
        true
    }

    open spec fn from_spec(error: std::array::TryFromSliceError) -> Self {
        PolygonDecodeError::SliceError(error)
    }
}

/// A polygon with no vertices and no indices.
pub fn none<V, I>() -> (shape: ([V; 0], [I; 0]))
    ensures
        shape.0@.len() == 0,
        shape.1@.len() == 0,
{
    ([], [])
}

/// Entry `r` (0, 1 or 2) of triangle `i` of a fan over `count` rim vertices.
///
/// Vertex 0 is the centre and vertices `1..=count` lie on the rim; triangle
/// `i` joins the centre with rim vertex `i + 1` and the next rim vertex,
/// the last triangle closing back onto rim vertex 1.
pub open spec fn fan_entry(count: nat, i: int, r: int) -> int {
    if r == 0 {
        0
    } else if r == 1 {
        i + 1
    } else if i + 1 == count {
        1
    } else {
        i + 2
    }
}

/// The index list of a fan of `count` triangles, three entries per triangle.
pub open spec fn fan_spec(count: nat) -> Seq<usize> {
    Seq::new(3 * count, |j: int| fan_entry(count, j / 3, j % 3) as usize)
}

/// Entry `r` (0 to 5) of spoke `i`: the two triangles of the quad made of
/// vertices `4i .. 4i + 3`.
pub open spec fn spoke_entry(i: int, r: int) -> int {
    let corner: int = if r == 0 {
        0
    } else if r == 1 || r == 4 {
        1
    } else if r == 2 || r == 5 {
        2
    } else {
        3
    };
    4 * i + corner
}

/// The index list of `count` spokes, six entries per spoke.
pub open spec fn spoke_spec(count: nat) -> Seq<usize> {
    Seq::new(6 * count, |j: int| spoke_entry(j / 6, j % 6) as usize)
}

/// The six index entries of spoke `i`.
pub open spec fn spoke(indices: Seq<usize>, i: int) -> Seq<usize> {
    indices.subrange(6 * i, 6 * i + 6)
}

/// Builds the triangle-fan index list of a polygon or heart preset with
/// `count` rim vertices (and so `count + 1` vertices in all).
pub fn fan_indices(count: usize) -> (indices: Vec<usize>)
    requires
        3 * count <= usize::MAX,
    ensures
        indices@ == fan_spec(count as nat),
        indices@.len() == 3 * count,
        forall|k: int|
            0 <= k < count ==> #[trigger] chunk(indices@, k) == (
                0usize,
                (k + 1) as usize,
                (if k + 1 < count { k + 2 } else { 1 }) as usize,
            ),
{
    proof {
        law_fan_triangles(count as nat);
    }
    let mut indices: Vec<usize> = Vec::new();
    let mut i: usize = 0;
    while i < count
        invariant
            3 * count <= usize::MAX,
            i <= count,
            indices@.len() == 3 * i,
            forall|j: int| 0 <= j < 3 * i ==> #[trigger] indices@[j] == fan_entry(count as nat, j / 3, j % 3) as usize,
        decreases count - i,
    {
        let last = if i + 1 == count { 1 } else { i + 2 };
        let ghost before = indices@;
        indices.push(0);
        indices.push(i + 1);
        indices.push(last);
        assert forall|j: int| 0 <= j < 3 * (i + 1) implies #[trigger] indices@[j] == fan_entry(count as nat, j / 3, j % 3) as usize by {
            if j < 3 * i {
                assert(indices@[j] == before[j]);
            }
        }
        i = i + 1;
    }
    assert(indices@ =~= fan_spec(count as nat));
    indices
}

/// Builds the index list of a spoke preset with `count` spokes (and so
/// `4 * count` vertices).
pub fn spoke_indices(count: usize) -> (indices: Vec<usize>)
    requires
        6 * count <= usize::MAX,
    ensures
        indices@ == spoke_spec(count as nat),
        indices@.len() == 6 * count,
        forall|i: int|
            0 <= i < count ==> #[trigger] spoke(indices@, i) == seq![
                (4 * i) as usize,
                (4 * i + 1) as usize,
                (4 * i + 2) as usize,
                (4 * i + 3) as usize,
                (4 * i + 1) as usize,
                (4 * i + 2) as usize,
            ],
{
    proof {
        law_spoke_quads(count as nat);
    }
    let mut indices: Vec<usize> = Vec::new();
    let mut i: usize = 0;
    while i < count
        invariant
            6 * count <= usize::MAX,
            i <= count,
            indices@.len() == 6 * i,
            forall|j: int| 0 <= j < 6 * i ==> #[trigger] indices@[j] == spoke_entry(j / 6, j % 6) as usize,
        decreases count - i,
    {
        let base = i * 4;
        let ghost before = indices@;
        indices.push(base);
        indices.push(base + 1);
        indices.push(base + 2);
        indices.push(base + 3);
        indices.push(base + 1);
        indices.push(base + 2);
        assert forall|j: int| 0 <= j < 6 * (i + 1) implies #[trigger] indices@[j] == spoke_entry(j / 6, j % 6) as usize by {
            if j < 6 * i {
                assert(indices@[j] == before[j]);
            }
        }
        i = i + 1;
    }
    assert(indices@ =~= spoke_spec(count as nat));
    indices
}

/// Whether every corner of `triangle` names one of `vertex_count` vertices.
pub open spec fn triangle_in_range(triangle: (usize, usize, usize), vertex_count: nat) -> bool {
    triangle.0 < vertex_count && triangle.1 < vertex_count && triangle.2 < vertex_count
}

/// Chunk `k` of an index list read as a triangle.
pub open spec fn chunk(indices: Seq<usize>, k: int) -> (usize, usize, usize) {
    (indices[3 * k], indices[3 * k + 1], indices[3 * k + 2])
}

/// The triangles among the first `chunks` chunks of three indices whose
/// corners all name existing vertices, in order.
pub open spec fn chunk_triangles(indices: Seq<usize>, vertex_count: nat, chunks: nat) -> Seq<
    (usize, usize, usize),
>
    decreases chunks,
{
    if chunks == 0 {
        Seq::empty()
    } else {
        let before = chunk_triangles(indices, vertex_count, (chunks - 1) as nat);
        let triangle = chunk(indices, chunks - 1);
        if triangle_in_range(triangle, vertex_count) {
            before.push(triangle)
        } else {
            before
        }
    }
}

/// The triangles that a polygon with `vertex_count` vertices and index list
/// `indices` draws: each complete chunk of three indices, in order, skipping
/// a chunk with an index past the last vertex; a trailing chunk of fewer
/// than three indices is ignored.
pub open spec fn drawable_spec(indices: Seq<usize>, vertex_count: nat) -> Seq<(usize, usize, usize)> {
    chunk_triangles(indices, vertex_count, indices.len() / 3)
}

/// Selects the triangles that a polygon with `vertex_count` vertices and
/// index list `indices` draws.
pub fn drawable_triangles(indices: &[usize], vertex_count: usize) -> (triangles: Vec<(usize, usize, usize)>)
    ensures
        triangles@ == drawable_spec(indices@, vertex_count as nat),
        forall|j: int|
            0 <= j < triangles@.len() ==> (#[trigger] triangles@[j]).0 < vertex_count
                && triangles@[j].1 < vertex_count && triangles@[j].2 < vertex_count,
{
    proof {
        law_drawn_triangles_name_existing_vertices(indices@, vertex_count as nat, indices@.len() / 3);
    }
    let len = indices.len();
    let chunks = len / 3;
    let mut triangles: Vec<(usize, usize, usize)> = Vec::new();
    let mut k: usize = 0;
    while k < chunks
        invariant
            len == indices@.len(),
            chunks == len / 3,
            k <= chunks,
            triangles@ == chunk_triangles(indices@, vertex_count as nat, k as nat),
        decreases chunks - k,
    {
        let a = indices[3 * k];
        let b = indices[3 * k + 1];
        let c = indices[3 * k + 2];
        if a < vertex_count && b < vertex_count && c < vertex_count {
            triangles.push((a, b, c));
        }
        k = k + 1;
    }
    triangles
}

/// When every index names an existing vertex, every complete chunk of three
/// indices is drawn, as the triangle it spells.
pub proof fn lemma_in_range_draws_every_chunk(indices: Seq<usize>, vertex_count: nat, chunks: nat)
    requires
        3 * chunks <= indices.len(),
        forall|j: int| 0 <= j < indices.len() ==> indices[j] < vertex_count,
    ensures
        chunk_triangles(indices, vertex_count, chunks).len() == chunks,
        forall|k: int|
            0 <= k < chunks ==> #[trigger] chunk_triangles(indices, vertex_count, chunks)[k]
                == chunk(indices, k),
    decreases chunks,
{
    if chunks > 0 {
        lemma_in_range_draws_every_chunk(indices, vertex_count, (chunks - 1) as nat);
        let k = chunks - 1;
        assert(indices[3 * k] < vertex_count);
        assert(indices[3 * k + 1] < vertex_count);
        assert(indices[3 * k + 2] < vertex_count);
    }
}

/// An index list whose indices all name existing vertices draws one
/// triangle for each complete chunk of three, in order.
pub proof fn law_in_range_indices_draw_every_triangle(indices: Seq<usize>, vertex_count: nat)
    requires
        forall|j: int| 0 <= j < indices.len() ==> indices[j] < vertex_count,
    ensures
        drawable_spec(indices, vertex_count).len() == indices.len() / 3,
        forall|k: int|
            0 <= k < indices.len() / 3 ==> #[trigger] drawable_spec(indices, vertex_count)[k] == chunk(
                indices,
                k,
            ),
{
    lemma_in_range_draws_every_chunk(indices, vertex_count, indices.len() / 3);
}

/// A fan of `count` triangles only names its `count + 1` vertices, so all
/// of its triangles are drawn.
pub proof fn law_fan_draws_every_triangle(count: nat)
    ensures
        drawable_spec(fan_spec(count), count + 1).len() == count,
        forall|k: int|
            0 <= k < count ==> #[trigger] drawable_spec(fan_spec(count), count + 1)[k] == chunk(
                fan_spec(count),
                k,
            ),
{
    let s = fan_spec(count);
    assert forall|j: int| 0 <= j < s.len() implies s[j] < count + 1 by {
        assert(0 <= j / 3 < count);
    }
    law_in_range_indices_draw_every_triangle(s, count + 1);
}

/// The spokes of `count` spokes only name their `4 * count` vertices, so
/// both triangles of every spoke are drawn.
pub proof fn law_spokes_draw_every_triangle(count: nat)
    ensures
        drawable_spec(spoke_spec(count), 4 * count).len() == 2 * count,
        forall|k: int|
            0 <= k < 2 * count ==> #[trigger] drawable_spec(spoke_spec(count), 4 * count)[k] == chunk(
                spoke_spec(count),
                k,
            ),
{
    let s = spoke_spec(count);
    assert forall|j: int| 0 <= j < s.len() implies s[j] < 4 * count by {
        assert(0 <= j / 6 < count);
        assert(spoke_entry(j / 6, j % 6) <= 4 * (j / 6) + 3);
    }
    law_in_range_indices_draw_every_triangle(s, 4 * count);
}

/// Triangle `k` of a fan of `count` triangles joins the centre (vertex 0)
/// with rim vertex `k + 1` and the next rim vertex, `k + 2`, except that
/// the last triangle closes the rim back onto vertex 1; so each rim edge
/// bounds exactly one triangle and the fan covers the whole polygon.
pub proof fn law_fan_triangles(count: nat)
    requires
        3 * count <= usize::MAX,
    ensures
        fan_spec(count).len() == 3 * count,
        forall|k: int|
            0 <= k < count ==> #[trigger] chunk(fan_spec(count), k) == (
                0usize,
                (k + 1) as usize,
                (if k + 1 < count { k + 2 } else { 1 }) as usize,
            ),
{
    let s = fan_spec(count);
    assert forall|k: int| 0 <= k < count implies #[trigger] chunk(s, k) == (
        0usize,
        (k + 1) as usize,
        (if k + 1 < count { k + 2 } else { 1 }) as usize,
    ) by {
        assert((3 * k) / 3 == k && (3 * k) % 3 == 0);
        assert((3 * k + 1) / 3 == k && (3 * k + 1) % 3 == 1);
        assert((3 * k + 2) / 3 == k && (3 * k + 2) % 3 == 2);
    }
}

/// Spoke `i` is the quad of its own four vertices `4i .. 4i + 3`, drawn as
/// the triangles `(4i, 4i + 1, 4i + 2)` and `(4i + 3, 4i + 1, 4i + 2)`; no
/// spoke names a vertex of another.
pub proof fn law_spoke_quads(count: nat)
    requires
        6 * count <= usize::MAX,
    ensures
        spoke_spec(count).len() == 6 * count,
        forall|i: int|
            0 <= i < count ==> #[trigger] spoke(spoke_spec(count), i) == seq![
                (4 * i) as usize,
                (4 * i + 1) as usize,
                (4 * i + 2) as usize,
                (4 * i + 3) as usize,
                (4 * i + 1) as usize,
                (4 * i + 2) as usize,
            ],
        forall|i: int, r: int|
            0 <= i < count && 0 <= r < 6 ==> 4 * i <= #[trigger] spoke(spoke_spec(count), i)[r] <= 4 * i + 3,
{
    let s = spoke_spec(count);
    assert forall|i: int| 0 <= i < count implies #[trigger] spoke(s, i) == seq![
        (4 * i) as usize,
        (4 * i + 1) as usize,
        (4 * i + 2) as usize,
        (4 * i + 3) as usize,
        (4 * i + 1) as usize,
        (4 * i + 2) as usize,
    ] by {
        assert((6 * i) / 6 == i && (6 * i) % 6 == 0);
        assert((6 * i + 1) / 6 == i && (6 * i + 1) % 6 == 1);
        assert((6 * i + 2) / 6 == i && (6 * i + 2) % 6 == 2);
        assert((6 * i + 3) / 6 == i && (6 * i + 3) % 6 == 3);
        assert((6 * i + 4) / 6 == i && (6 * i + 4) % 6 == 4);
        assert((6 * i + 5) / 6 == i && (6 * i + 5) % 6 == 5);
        assert(spoke(s, i) =~= seq![
            (4 * i) as usize,
            (4 * i + 1) as usize,
            (4 * i + 2) as usize,
            (4 * i + 3) as usize,
            (4 * i + 1) as usize,
            (4 * i + 2) as usize,
        ]);
    }
}

/// Every triangle a polygon draws names only existing vertices: each of its
/// three corners is below the vertex count, so a chunk with an index at or
/// past the vertex count is never drawn.
pub proof fn law_drawn_triangles_name_existing_vertices(indices: Seq<usize>, vertex_count: nat, chunks: nat)
    ensures
        forall|j: int|
            0 <= j < chunk_triangles(indices, vertex_count, chunks).len() ==> (#[trigger] chunk_triangles(
                indices,
                vertex_count,
                chunks,
            )[j]).0 < vertex_count && chunk_triangles(indices, vertex_count, chunks)[j].1 < vertex_count
                && chunk_triangles(indices, vertex_count, chunks)[j].2 < vertex_count,
    decreases chunks,
{
    if chunks > 0 {
        let before = chunk_triangles(indices, vertex_count, (chunks - 1) as nat);
        law_drawn_triangles_name_existing_vertices(indices, vertex_count, (chunks - 1) as nat);
        let now = chunk_triangles(indices, vertex_count, chunks);
        assert forall|j: int| 0 <= j < now.len() implies (#[trigger] now[j]).0 < vertex_count
            && now[j].1 < vertex_count && now[j].2 < vertex_count by {
            if j < before.len() {
                assert(now[j] == before[j]);
            }
        }
    }
}

} // verus!
