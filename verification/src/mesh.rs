//! Geodesic icosphere topology: a base icosahedron whose triangular faces
//! are recursively split at deduplicated edge midpoints, with per-face
//! adjacency resolved through a directed-edge map. Faces refer to each
//! other only by dense 1-based index into one owning vector; corner
//! positions are not stored here — every corner is named by an index into
//! a stable corner-index space, and each index allocated beyond the 12
//! base corners records which two earlier corners it is the midpoint of,
//! so the float geometry can be derived outside the library.

use vstd::prelude::*;

use std::collections::HashMap;

verus! {

broadcast use vstd::std_specs::hash::group_hash_axioms;

/// Powers of four, the per-level growth factor of subdivision.
pub open spec fn pow4(n: nat) -> nat
    decreases n,
{
    if n == 0 {
        1
    } else {
        4 * pow4((n - 1) as nat)
    }
}

proof fn lemma_pow4_monotonic(a: nat, b: nat)
    requires
        a <= b,
    ensures
        pow4(a) <= pow4(b),
    decreases b,
{
    if a < b {
        lemma_pow4_monotonic(a, (b - 1) as nat);
    }
}

/// Face counts stay within `u32` for every depth the builder accepts.
proof fn lemma_pow4_twelve()
    ensures
        pow4(12) == 0x100_0000,
{
    assert(pow4(0) == 1);
    assert(pow4(1) == 4);
    assert(pow4(2) == 16);
    assert(pow4(3) == 64);
    assert(pow4(4) == 256);
    assert(pow4(5) == 1024);
    assert(pow4(6) == 4096);
    assert(pow4(7) == 16384);
    assert(pow4(8) == 65536);
    assert(pow4(9) == 262144);
    assert(pow4(10) == 1048576);
    assert(pow4(11) == 4194304);
    assert(pow4(12) == 16777216);
}

/// The thread-local random generator used for texture-index assignment.
#[verifier::external_type_specification]
#[verifier::external_body]
pub struct ExThreadRng(rand::rngs::ThreadRng);

/// Relies on rand::thread_rng: a handle to the thread-local generator.
#[verifier::external_body]
fn fresh_rng() -> rand::rngs::ThreadRng {
    rand::thread_rng()
}

/// Relies on rand::Rng::gen_range over the nonempty range `0..=3`: the
/// draw is some value of that range; nothing more is promised of it.
#[verifier::external_body]
fn draw_tex_index(rng: &mut rand::rngs::ThreadRng) -> (r: u32)
    ensures
        r <= 3,
{
    rand::Rng::gen_range(rng, 0..=3u32)
}

/// One triangular face. `indices` names the three corners in winding
/// order within the shared corner-index space; `siblings` holds, per
/// directed edge `corner k -> corner k+1`, the 1-based index of the face
/// across that edge, or `None` where the adjacency pass found no owner of
/// the reversed edge.
#[derive(Clone, Copy, Debug, PartialEq, Eq)]
pub struct IcoFace {
    /// Dense 1-based face index; 0 is reserved for "no selection".
    pub index: u32,
    /// The three corner indices, in winding order.
    pub indices: [u32; 3],
    /// Adjacent face per edge, `siblings[k]` across edge `k -> k+1`.
    pub siblings: [Option<u32>; 3],
    /// Seed from which the presentation layer derives texture coordinates.
    pub tex_seed: u32,
    /// Texture-atlas layer, drawn from a four-entry palette.
    pub tex_index: u32,
}

/// Corner slot after `k`, cyclically.
pub open spec fn next_corner(k: int) -> int {
    if k == 2 {
        0
    } else {
        k + 1
    }
}

/// A directed edge `(a, b)` packed into one map key.
pub open spec fn edge_key_spec(a: u32, b: u32) -> u64 {
    (((a * 0x1_0000_0000) + b) as u64)
}

/// The packed key, before truncation, is within `u64` range.
proof fn lemma_edge_key_in_range(a: u32, b: u32)
    ensures
        0 <= a * 0x1_0000_0000 + b < 0x1_0000_0000_0000_0000,
        edge_key_spec(a, b) == a * 0x1_0000_0000 + b,
{
    assert(0 <= a * 0x1_0000_0000 + b < 0x1_0000_0000_0000_0000) by (nonlinear_arith)
        requires
            a < 0x1_0000_0000 && b < 0x1_0000_0000,
    ;
}

/// Packing is injective, so equal keys mean equal directed edges.
pub proof fn lemma_edge_key_injective(a: u32, b: u32, c: u32, d: u32)
    requires
        edge_key_spec(a, b) == edge_key_spec(c, d),
    ensures
        a == c && b == d,
{
    lemma_edge_key_in_range(a, b);
    lemma_edge_key_in_range(c, d);
    assert(a == c && b == d) by (nonlinear_arith)
        requires
            a * 0x1_0000_0000 + b == c * 0x1_0000_0000 + d,
            a < 0x1_0000_0000 && b < 0x1_0000_0000,
            c < 0x1_0000_0000 && d < 0x1_0000_0000,
    ;
}

fn edge_key(a: u32, b: u32) -> (r: u64)
    ensures
        r == edge_key_spec(a, b),
{
    proof {
        lemma_edge_key_in_range(a, b);
    }
    (a as u64) * 0x1_0000_0000 + (b as u64)
}

/// Directed edge `k` of face `f`: from corner `k` to corner `k+1`.
pub open spec fn face_edge(f: IcoFace, k: int) -> u64 {
    edge_key_spec(f.indices[k], f.indices[next_corner(k)])
}

/// Face `i` has `key` among its three directed edges.
pub open spec fn owns_edge(faces: Seq<IcoFace>, i: int, key: u64) -> bool {
    exists|k: int| 0 <= k < 3 && face_edge(faces[i], k) == key
}

/// Every directed edge of every face is present in the map.
pub open spec fn edge_map_covers(em: Map<u64, u32>, faces: Seq<IcoFace>) -> bool {
    forall|i: int, k: int|
        0 <= i < faces.len() && 0 <= k < 3 ==> em.contains_key(#[trigger] face_edge(faces[i], k))
}

/// Every map entry names a face, by its 1-based index, that really has
/// the entry's directed edge.
pub open spec fn edge_map_sound(em: Map<u64, u32>, faces: Seq<IcoFace>) -> bool {
    forall|key: u64|
        #[trigger] em.contains_key(key) ==> 1 <= em[key] <= faces.len() && owns_edge(
            faces,
            em[key] - 1,
            key,
        )
}

/// The sibling a reverse-edge lookup yields for edge `k` of `f`: the face
/// owning the same undirected edge in the opposite winding direction.
pub open spec fn sibling_of(em: Map<u64, u32>, f: IcoFace, k: int) -> Option<u32> {
    let rev = edge_key_spec(f.indices[next_corner(k)], f.indices[k]);
    if em.contains_key(rev) {
        Some(em[rev])
    } else {
        None
    }
}

/// All sibling slots are exactly what reverse lookup in `em` yields.
pub open spec fn siblings_match_map(em: Map<u64, u32>, faces: Seq<IcoFace>) -> bool {
    forall|i: int, k: int|
        0 <= i < faces.len() && 0 <= k < 3 ==> #[trigger] faces[i].siblings[k] == sibling_of(
            em,
            faces[i],
            k,
        )
}

/// The adjacency of `faces` was produced by reverse-directed-edge lookup
/// in some map that covers all directed edges and maps each key to an
/// owning face.
pub open spec fn adjacency_consistent(faces: Seq<IcoFace>) -> bool {
    exists|em: Map<u64, u32>|
        {
            &&& #[trigger] edge_map_covers(em, faces)
            &&& edge_map_sound(em, faces)
            &&& siblings_match_map(em, faces)
        }
}

/// No two faces (and no two slots of one face) share a directed edge: the
/// closed-manifold property that makes reverse-edge lookup unambiguous.
pub open spec fn edges_distinct(faces: Seq<IcoFace>) -> bool {
    forall|i1: int, k1: int, i2: int, k2: int|
        0 <= i1 < faces.len() && 0 <= k1 < 3 && 0 <= i2 < faces.len() && 0 <= k2 < 3
            && #[trigger] face_edge(faces[i1], k1) == #[trigger] face_edge(faces[i2], k2) ==> i1
            == i2 && k1 == k2
}

/// Texture layers come from the four-entry palette.
pub open spec fn tex_palette_ok(faces: Seq<IcoFace>) -> bool {
    forall|i: int| 0 <= i < faces.len() ==> (#[trigger] faces[i]).tex_index <= 3
}

/// No face is degenerate: its three corners are pairwise distinct.
pub open spec fn corners_distinct(faces: Seq<IcoFace>) -> bool {
    forall|i: int|
        0 <= i < faces.len() ==> {
            let f = #[trigger] faces[i];
            f.indices[0] != f.indices[1] && f.indices[1] != f.indices[2] && f.indices[2]
                != f.indices[0]
        }
}

/// Equal canonical keys mean the same undirected edge.
proof fn lemma_canon_key_injective(a: u32, b: u32, c: u32, d: u32)
    requires
        edge_key_spec(canon_hi(a, b), canon_lo(a, b)) == edge_key_spec(canon_hi(c, d), canon_lo(c, d)),
    ensures
        (a == c && b == d) || (a == d && b == c),
{
    lemma_edge_key_injective(canon_hi(a, b), canon_lo(a, b), canon_hi(c, d), canon_lo(c, d));
}

/// Face at position `i` carries the 1-based index `i + 1`.
pub open spec fn faces_dense(faces: Seq<IcoFace>) -> bool {
    forall|i: int| 0 <= i < faces.len() ==> (#[trigger] faces[i]).index == i + 1
}

/// Every corner index is below the allocated corner-index space.
pub open spec fn corners_bounded(faces: Seq<IcoFace>, verts: u32) -> bool {
    forall|i: int, k: int|
        0 <= i < faces.len() && 0 <= k < 3 ==> (#[trigger] faces[i].indices[k]) < verts
}

/// Every non-empty sibling slot names a face index of the same mesh.
pub open spec fn siblings_bounded(faces: Seq<IcoFace>) -> bool {
    forall|i: int, k: int|
        0 <= i < faces.len() && 0 <= k < 3 ==> match #[trigger] sib_at(faces, i, k) {
            Some(v) => 1 <= v <= faces.len(),
            None => true,
        }
}

/// `f` lists `idx` in at least one sibling slot.
pub open spec fn lists_as_sibling(f: IcoFace, idx: u32) -> bool {
    exists|k: int| 0 <= k < 3 && f.siblings[k] == Some(idx)
}

/// The sibling slot `k` of the face at position `i`.
pub open spec fn sib_at(faces: Seq<IcoFace>, i: int, k: int) -> Option<u32> {
    faces[i].siblings[k]
}

/// Whenever face A names face B as a sibling, face B names A back on one
/// of its own edges.
pub open spec fn sibling_symmetric(faces: Seq<IcoFace>) -> bool {
    forall|i: int, k: int|
        0 <= i < faces.len() && 0 <= k < 3 && (#[trigger] sib_at(faces, i, k)) is Some ==> {
            let b = sib_at(faces, i, k)->0;
            &&& 1 <= b <= faces.len()
            &&& lists_as_sibling(faces[b - 1], faces[i].index)
        }
}

/// The texture seed a face gets from its corner indices, with wrapping
/// arithmetic.
pub open spec fn tex_seed_spec(x: u32, y: u32, z: u32) -> u32 {
    (((x + y * z) % 0x1_0000_0000) as u32)
}

fn make_tex_seed(x: u32, y: u32, z: u32) -> (r: u32)
    ensures
        r == tex_seed_spec(x, y, z),
{
    proof {
        assert(x + y * z < 0x1_0000_0000_0000_0000) by (nonlinear_arith)
            requires
                x < 0x1_0000_0000 && y < 0x1_0000_0000 && z < 0x1_0000_0000,
        ;
    }
    let wide: u64 = (x as u64) + (y as u64) * (z as u64);
    proof {
        assert((x + y * z) % 0x1_0000_0000 == wide as int % 0x1_0000_0000) by (nonlinear_arith)
            requires
                wide == x + y * z,
        ;
    }
    (wide % 0x1_0000_0000) as u32
}

/// Insert the three directed edges of every face, keyed to the owning
/// face's 1-based index. Later insertions of a duplicated edge overwrite
/// earlier ones, so the map is only guaranteed to name *an* owner of each
/// key; when the directed edges are pairwise distinct the owner is
/// unique.
fn build_edge_map(faces: &Vec<IcoFace>) -> (em: HashMap<u64, u32>)
    requires
        faces@.len() < u32::MAX,
        faces_dense(faces@),
    ensures
        edge_map_covers(em@, faces@),
        edge_map_sound(em@, faces@),
{
    let n = faces.len();
    let mut em: HashMap<u64, u32> = HashMap::new();
    let mut i: usize = 0;
    while i < n
        invariant
            i <= n,
            n == faces@.len() < u32::MAX,
            faces_dense(faces@),
            forall|j: int, k: int|
                0 <= j < i && 0 <= k < 3 ==> em@.contains_key(#[trigger] face_edge(faces@[j], k)),
            forall|key: u64|
                #[trigger] em@.contains_key(key) ==> 1 <= em@[key] <= faces@.len() && owns_edge(
                    faces@,
                    em@[key] - 1,
                    key,
                ),
        decreases n - i,
    {
        let f = *face_ref(faces, i);
        em.insert(edge_key(f.indices[0], f.indices[1]), f.index);
        em.insert(edge_key(f.indices[1], f.indices[2]), f.index);
        em.insert(edge_key(f.indices[2], f.indices[0]), f.index);
        proof {
            let fi = faces@[i as int];
            assert(face_edge(fi, 0) == edge_key_spec(fi.indices[0], fi.indices[1]));
            assert(face_edge(fi, 1) == edge_key_spec(fi.indices[1], fi.indices[2]));
            assert(face_edge(fi, 2) == edge_key_spec(fi.indices[2], fi.indices[0]));
            assert(owns_edge(faces@, i as int, face_edge(fi, 0)));
            assert(owns_edge(faces@, i as int, face_edge(fi, 1)));
            assert(owns_edge(faces@, i as int, face_edge(fi, 2)));
        }
        i = i + 1;
    }
    em
}

/// Borrow the face at `i`.
fn face_ref(faces: &Vec<IcoFace>, i: usize) -> (r: &IcoFace)
    requires
        i < faces@.len(),
    ensures
        *r == faces@[i as int],
{
    &faces[i]
}

fn get_sibling(em: &HashMap<u64, u32>, a: u32, b: u32) -> (r: Option<u32>)
    ensures
        r == (if em@.contains_key(edge_key_spec(a, b)) {
            Some(em@[edge_key_spec(a, b)])
        } else {
            None::<u32>
        }),
{
    let key = edge_key(a, b);
    match em.get(&key) {
        Some(v) => Some(*v),
        None => None,
    }
}

/// Fields of a face other than its sibling slots.
pub open spec fn same_but_siblings(a: IcoFace, b: IcoFace) -> bool {
    a.index == b.index && a.indices == b.indices && a.tex_seed == b.tex_seed && a.tex_index
        == b.tex_index
}

/// Rewriting sibling slots touches neither the directed edges nor the
/// indices, so what the edge map says of the faces carries over.
proof fn lemma_edge_map_transfer(em: Map<u64, u32>, a: Seq<IcoFace>, b: Seq<IcoFace>)
    requires
        a.len() == b.len(),
        forall|i: int| 0 <= i < a.len() ==> same_but_siblings(#[trigger] b[i], a[i]),
        edge_map_covers(em, a),
        edge_map_sound(em, a),
    ensures
        edge_map_covers(em, b),
        edge_map_sound(em, b),
{
    assert forall|i: int, k: int| 0 <= i < b.len() && 0 <= k < 3 implies em.contains_key(
        #[trigger] face_edge(b[i], k),
    ) by {
        assert(face_edge(b[i], k) == face_edge(a[i], k));
    }
    assert forall|key: u64| #[trigger] em.contains_key(key) implies 1 <= em[key] <= b.len()
        && owns_edge(b, em[key] - 1, key) by {
        let i = em[key] - 1;
        let k = choose|k: int| 0 <= k < 3 && face_edge(a[i], k) == key;
        assert(face_edge(b[i], k) == face_edge(a[i], k));
        assert(owns_edge(b, i, key));
    }
}

/// Siblings taken from a sound edge map point into the face set.
proof fn lemma_siblings_bounded(em: Map<u64, u32>, faces: Seq<IcoFace>)
    requires
        edge_map_sound(em, faces),
        siblings_match_map(em, faces),
    ensures
        siblings_bounded(faces),
{
    assert forall|i: int, k: int| 0 <= i < faces.len() && 0 <= k < 3 implies match #[trigger] sib_at(
        faces,
        i,
        k,
    ) {
        Some(v) => 1 <= v <= faces.len(),
        None => true,
    } by {
        assert(faces[i].siblings[k] == sibling_of(em, faces[i], k));
    }
}

/// Pairing speaks only of corner indices, so rewriting sibling slots
/// keeps it.
proof fn lemma_paired_transfer(a: Seq<IcoFace>, b: Seq<IcoFace>)
    requires
        a.len() == b.len(),
        forall|i: int| 0 <= i < a.len() ==> same_but_siblings(#[trigger] b[i], a[i]),
        edges_paired(a),
    ensures
        edges_paired(b),
{
    assert forall|i: int, k: int|
        0 <= i < b.len() && 0 <= k < 3 implies #[trigger] has_reverse(b, i, k) by {
        assert(has_reverse(a, i, k));
        let (j, l) = choose|j: int, l: int|
            0 <= j < a.len() && 0 <= l < 3 && #[trigger] face_edge(a[j], l) == reverse_edge(
                a,
                i,
                k,
            );
        assert(face_edge(b[j], l) == face_edge(a[j], l));
        assert(reverse_edge(b, i, k) == reverse_edge(a, i, k));
    }
}

/// Distinctness and share-once speak only of corner indices, so
/// rewriting sibling slots keeps them.
proof fn lemma_manifold_transfer(a: Seq<IcoFace>, b: Seq<IcoFace>)
    requires
        a.len() == b.len(),
        forall|i: int| 0 <= i < a.len() ==> same_but_siblings(#[trigger] b[i], a[i]),
        edges_distinct(a),
        edges_share_once(a),
    ensures
        edges_distinct(b),
        edges_share_once(b),
{
    assert forall|i1: int, k1: int, i2: int, k2: int|
        0 <= i1 < b.len() && 0 <= k1 < 3 && 0 <= i2 < b.len() && 0 <= k2 < 3
            && #[trigger] face_edge(b[i1], k1) == #[trigger] face_edge(b[i2], k2) implies i1 == i2
        && k1 == k2 by {
        assert(face_edge(b[i1], k1) == face_edge(a[i1], k1));
        assert(face_edge(b[i2], k2) == face_edge(a[i2], k2));
    }
    assert forall|j1: int, l1: int, l1b: int, j2: int, l2: int, l2b: int|
        0 <= j1 < b.len() && 0 <= j2 < b.len() && 0 <= l1 < 3 && 0 <= l1b < 3 && 0 <= l2 < 3 && 0
            <= l2b < 3 && l1 != l1b && #[trigger] parent_edge_key(b[j1], l1)
            == #[trigger] parent_edge_key(b[j2], l2) && #[trigger] parent_edge_key(b[j1], l1b)
            == #[trigger] parent_edge_key(b[j2], l2b) implies j1 == j2 by {
        assert(parent_edge_key(b[j1], l1) == parent_edge_key(a[j1], l1));
        assert(parent_edge_key(b[j1], l1b) == parent_edge_key(a[j1], l1b));
        assert(parent_edge_key(b[j2], l2) == parent_edge_key(a[j2], l2));
        assert(parent_edge_key(b[j2], l2b) == parent_edge_key(a[j2], l2b));
    }
}

/// Density and corner bounds carry over likewise.
proof fn lemma_structure_transfer(a: Seq<IcoFace>, b: Seq<IcoFace>, verts: u32)
    requires
        a.len() == b.len(),
        forall|i: int| 0 <= i < a.len() ==> same_but_siblings(#[trigger] b[i], a[i]),
        faces_dense(a),
        corners_bounded(a, verts),
        tex_palette_ok(a),
        corners_distinct(a),
    ensures
        faces_dense(b),
        corners_bounded(b, verts),
        tex_palette_ok(b),
        corners_distinct(b),
{
    assert forall|i: int, k: int| 0 <= i < b.len() && 0 <= k < 3 implies (#[trigger] b[i].indices[k])
        < verts by {
        assert(b[i].indices[k] == a[i].indices[k]);
    }
    assert forall|i: int| 0 <= i < b.len() implies {
        let f = #[trigger] b[i];
        f.indices[0] != f.indices[1] && f.indices[1] != f.indices[2] && f.indices[2]
            != f.indices[0]
    } by {
        assert(b[i].indices[0] == a[i].indices[0]);
        assert(b[i].indices[1] == a[i].indices[1]);
        assert(b[i].indices[2] == a[i].indices[2]);
    }
}

/// Point every sibling slot at the owner of the reverse directed edge, as
/// recorded in `em`; a missing reverse edge leaves the slot empty.
fn resolve_siblings(faces: &mut Vec<IcoFace>, em: &HashMap<u64, u32>)
    ensures
        final(faces)@.len() == old(faces)@.len(),
        forall|i: int|
            0 <= i < final(faces)@.len() ==> same_but_siblings(
                #[trigger] final(faces)@[i],
                old(faces)@[i],
            ),
        siblings_match_map(em@, final(faces)@),
{
    let n = faces.len();
    let mut i: usize = 0;
    while i < n
        invariant
            i <= n,
            n == faces@.len(),
            faces@.len() == old(faces)@.len(),
            forall|j: int| i <= j < faces@.len() ==> faces@[j] == old(faces)@[j],
            forall|j: int|
                0 <= j < faces@.len() ==> same_but_siblings(#[trigger] faces@[j], old(faces)@[j]),
            forall|j: int, k: int|
                0 <= j < i && 0 <= k < 3 ==> #[trigger] faces@[j].siblings[k] == sibling_of(
                    em@,
                    faces@[j],
                    k,
                ),
        decreases n - i,
    {
        let f = *face_ref(faces, i);
        let s0 = get_sibling(em, f.indices[1], f.indices[0]);
        let s1 = get_sibling(em, f.indices[2], f.indices[1]);
        let s2 = get_sibling(em, f.indices[0], f.indices[2]);
        let updated = IcoFace { siblings: [s0, s1, s2], ..f };
        faces.set(i, updated);
        i = i + 1;
    }
}

/// `a` is a pointwise prefix of `b`.
pub open spec fn seq_prefix<T>(a: Seq<T>, b: Seq<T>) -> bool {
    a.len() <= b.len() && forall|j: int| 0 <= j < a.len() ==> a[j] == b[j]
}

/// Corner triple of row `i` of the fixed base winding table.
pub open spec fn base_corner_row(i: int) -> (u32, u32, u32) {
    if i == 0 { (0, 11, 5) }
    else if i == 1 { (0, 5, 1) }
    else if i == 2 { (0, 1, 7) }
    else if i == 3 { (0, 7, 10) }
    else if i == 4 { (0, 10, 11) }
    else if i == 5 { (1, 5, 9) }
    else if i == 6 { (5, 11, 4) }
    else if i == 7 { (11, 10, 2) }
    else if i == 8 { (10, 7, 6) }
    else if i == 9 { (7, 1, 8) }
    else if i == 10 { (3, 9, 4) }
    else if i == 11 { (3, 4, 2) }
    else if i == 12 { (3, 2, 6) }
    else if i == 13 { (3, 6, 8) }
    else if i == 14 { (3, 8, 9) }
    else if i == 15 { (4, 9, 5) }
    else if i == 16 { (2, 4, 11) }
    else if i == 17 { (6, 2, 10) }
    else if i == 18 { (8, 6, 7) }
    else { (9, 8, 1) }
}

/// The faces carry exactly the base winding table, row by row.
pub open spec fn base_corners(faces: Seq<IcoFace>) -> bool {
    forall|i: int|
        0 <= i < faces.len() ==> {
            let f = #[trigger] faces[i];
            f.indices[0] == base_corner_row(i).0 && f.indices[1] == base_corner_row(i).1
                && f.indices[2] == base_corner_row(i).2
        }
}

/// The higher corner of an undirected edge, the canonical key order.
pub open spec fn canon_hi(a: u32, b: u32) -> u32 {
    if a > b {
        a
    } else {
        b
    }
}

/// The lower corner of an undirected edge.
pub open spec fn canon_lo(a: u32, b: u32) -> u32 {
    if a > b {
        b
    } else {
        a
    }
}

/// The derivation entry of midpoint corner `v`.
pub open spec fn mid_entry(mids: Seq<(u32, u32)>, v: u32) -> (u32, u32) {
    mids[v - 12]
}

/// `v` is a midpoint corner recorded as deriving from the undirected
/// edge `{a, b}`.
pub open spec fn is_midpoint_of(mids: Seq<(u32, u32)>, v: u32, a: u32, b: u32) -> bool {
    &&& 12 <= v
    &&& v - 12 < mids.len()
    &&& mid_entry(mids, v) == (canon_hi(a, b), canon_lo(a, b))
}

/// The canonical undirected key of edge `k` of `parent`.
pub open spec fn parent_edge_key(parent: IcoFace, k: int) -> u64 {
    edge_key_spec(
        canon_hi(parent.indices[k], parent.indices[next_corner(k)]),
        canon_lo(parent.indices[k], parent.indices[next_corner(k)]),
    )
}

/// The four children of one parent face, in emission order: the corner
/// children at corners 0, 2 and 1, then the center child, over the
/// parent's corners and the midpoints that `mm` assigns to its three
/// edges. One `mm` serves a whole subdivision, so the two faces
/// bordering an edge receive the same midpoint corner.
pub open spec fn child_pattern(
    parent: IcoFace,
    a: IcoFace,
    b: IcoFace,
    c: IcoFace,
    d: IcoFace,
    mids: Seq<(u32, u32)>,
    mm: Map<u64, u32>,
) -> bool {
    let m0 = mm[parent_edge_key(parent, 0)];
    let m1 = mm[parent_edge_key(parent, 1)];
    let m2 = mm[parent_edge_key(parent, 2)];
    &&& mm.contains_key(parent_edge_key(parent, 0))
    &&& mm.contains_key(parent_edge_key(parent, 1))
    &&& mm.contains_key(parent_edge_key(parent, 2))
    &&& is_midpoint_of(mids, m0, parent.indices[0], parent.indices[1])
    &&& is_midpoint_of(mids, m1, parent.indices[1], parent.indices[2])
    &&& is_midpoint_of(mids, m2, parent.indices[2], parent.indices[0])
    &&& a.indices[0] == m2 && a.indices[1] == parent.indices[0] && a.indices[2] == m0
    &&& b.indices[0] == m1 && b.indices[1] == parent.indices[2] && b.indices[2] == m2
    &&& c.indices[0] == m0 && c.indices[1] == parent.indices[1] && c.indices[2] == m1
    &&& d.indices[0] == m0 && d.indices[1] == m1 && d.indices[2] == m2
}

/// All parents' children follow the pattern under one shared
/// edge-to-midpoint assignment.
pub open spec fn subdivision_children(
    parents: Seq<IcoFace>,
    children: Seq<IcoFace>,
    mids: Seq<(u32, u32)>,
    mm: Map<u64, u32>,
) -> bool {
    forall|j: int|
        0 <= j < parents.len() ==> child_pattern(
            #[trigger] parents[j],
            children[4 * j],
            children[4 * j + 1],
            children[4 * j + 2],
            children[4 * j + 3],
            mids,
            mm,
        )
}

/// Prefix order on sequences is transitive.
proof fn lemma_prefix_trans<T>(a: Seq<T>, b: Seq<T>, c: Seq<T>)
    requires
        seq_prefix(a, b),
        seq_prefix(b, c),
    ensures
        seq_prefix(a, c),
{
    assert forall|j: int| 0 <= j < a.len() implies a[j] == c[j] by {
        assert(a[j] == b[j]);
        assert(b[j] == c[j]);
    }
}

/// A child pattern survives extending the midpoint table and assignment:
/// the entries it relies on do not move, and the assignment only gains
/// keys.
proof fn lemma_child_pattern_stable(
    parent: IcoFace,
    a: IcoFace,
    b: IcoFace,
    c: IcoFace,
    d: IcoFace,
    mids0: Seq<(u32, u32)>,
    mids1: Seq<(u32, u32)>,
    mm0: Map<u64, u32>,
    mm1: Map<u64, u32>,
)
    requires
        child_pattern(parent, a, b, c, d, mids0, mm0),
        seq_prefix(mids0, mids1),
        forall|k: u64| mm0.contains_key(k) ==> mm1.contains_key(k) && mm1[k] == mm0[k],
    ensures
        child_pattern(parent, a, b, c, d, mids1, mm1),
{
    let m0 = mm0[parent_edge_key(parent, 0)];
    let m1 = mm0[parent_edge_key(parent, 1)];
    let m2 = mm0[parent_edge_key(parent, 2)];
    assert(mid_entry(mids1, m0) == mid_entry(mids0, m0));
    assert(mid_entry(mids1, m1) == mid_entry(mids0, m1));
    assert(mid_entry(mids1, m2) == mid_entry(mids0, m2));
}

/// A child pattern speaks only of corner indices, so rewriting sibling
/// slots keeps it.
proof fn lemma_child_pattern_siblings(
    parent: IcoFace,
    a0: IcoFace,
    b0: IcoFace,
    c0: IcoFace,
    d0: IcoFace,
    a1: IcoFace,
    b1: IcoFace,
    c1: IcoFace,
    d1: IcoFace,
    mids: Seq<(u32, u32)>,
    mm: Map<u64, u32>,
)
    requires
        child_pattern(parent, a0, b0, c0, d0, mids, mm),
        same_but_siblings(a1, a0),
        same_but_siblings(b1, b0),
        same_but_siblings(c1, c0),
        same_but_siblings(d1, d0),
    ensures
        child_pattern(parent, a1, b1, c1, d1, mids, mm),
{
    assert(a1.indices[0] == a0.indices[0] && a1.indices[1] == a0.indices[1] && a1.indices[2]
        == a0.indices[2]);
    assert(b1.indices[0] == b0.indices[0] && b1.indices[1] == b0.indices[1] && b1.indices[2]
        == b0.indices[2]);
    assert(c1.indices[0] == c0.indices[0] && c1.indices[1] == c0.indices[1] && c1.indices[2]
        == c0.indices[2]);
    assert(d1.indices[0] == d0.indices[0] && d1.indices[1] == d0.indices[1] && d1.indices[2]
        == d0.indices[2]);
}

/// `children` is the subdivision of `parents`: four times as many faces,
/// each parent's slot holding its four children, built over the midpoint
/// table with one shared edge-to-midpoint assignment.
pub open spec fn subdivision_of(
    parents: Seq<IcoFace>,
    children: Seq<IcoFace>,
    mids: Seq<(u32, u32)>,
) -> bool {
    &&& children.len() == 4 * parents.len()
    &&& exists|mm: Map<u64, u32>| #[trigger] subdivision_children(parents, children, mids, mm)
}

/// Every midpoint entry derives from corner indices allocated before it.
pub open spec fn midpoints_ok(s: Seq<(u32, u32)>) -> bool {
    forall|j: int| 0 <= j < s.len() ==> ((#[trigger] s[j]).0 < 12 + j && s[j].1 < 12 + j)
}

/// Every map entry names a midpoint corner whose recorded derivation
/// packs back to exactly the entry's key.
pub open spec fn mid_wf(m: Map<u64, u32>, mids: Seq<(u32, u32)>) -> bool {
    forall|key: u64|
        #[trigger] m.contains_key(key) ==> {
            let v = m[key];
            &&& 12 <= v
            &&& v - 12 < mids.len()
            &&& edge_key_spec(mid_entry(mids, v).0, mid_entry(mids, v).1) == key
        }
}

impl Ico {
    /// The corner index of the midpoint of the undirected edge `{a, b}`:
    /// reused when the edge was seen from its other bordering face
    /// already, freshly allocated otherwise, recording which corners it
    /// derives from.
    fn midpoint_index(&mut self, mid: &mut HashMap<u64, u32>, a: u32, b: u32) -> (r: u32)
        requires
            a < old(self).verts,
            b < old(self).verts,
            old(self).verts < u32::MAX,
            old(self).verts as int == 12 + old(self).midpoints@.len(),
            midpoints_ok(old(self).midpoints@),
            mid_wf(old(mid)@, old(self).midpoints@),
        ensures
            final(self).faces == old(self).faces,
            final(self).sub == old(self).sub,
            r < final(self).verts,
            is_midpoint_of(final(self).midpoints@, r, a, b),
            final(mid)@.contains_key(edge_key_spec(canon_hi(a, b), canon_lo(a, b))),
            final(mid)@[edge_key_spec(canon_hi(a, b), canon_lo(a, b))] == r,
            forall|k: u64|
                old(mid)@.contains_key(k) ==> final(mid)@.contains_key(k) && final(mid)@[k]
                    == old(mid)@[k],
            forall|k: u64|
                final(mid)@.contains_key(k) ==> old(mid)@.contains_key(k) || k == edge_key_spec(
                    canon_hi(a, b),
                    canon_lo(a, b),
                ),
            old(mid)@.contains_key(edge_key_spec(canon_hi(a, b), canon_lo(a, b)))
                ==> *final(self) == *old(self),
            !old(mid)@.contains_key(edge_key_spec(canon_hi(a, b), canon_lo(a, b))) ==> (r == old(
                self,
            ).verts && final(self).verts == old(self).verts + 1),
            old(self).verts <= final(self).verts <= old(self).verts + 1,
            final(self).verts as int == 12 + final(self).midpoints@.len(),
            midpoints_ok(final(self).midpoints@),
            mid_wf(final(mid)@, final(self).midpoints@),
            seq_prefix(old(self).midpoints@, final(self).midpoints@),
    {
        let hi = if a > b {
            a
        } else {
            b
        };
        let lo = if a > b {
            b
        } else {
            a
        };
        let key = edge_key(hi, lo);
        let existing = match mid.get(&key) {
            Some(v) => Some(*v),
            None => None,
        };
        match existing {
            Some(v) => {
                proof {
                    let entry = mid_entry(self.midpoints@, v);
                    lemma_edge_key_injective(entry.0, entry.1, hi, lo);
                }
                v
            },
            None => {
                let idx = self.verts;
                mid.insert(key, idx);
                self.midpoints.push((hi, lo));
                self.verts = self.verts + 1;
                idx
            },
        }
    }
}

/// Append one subdivision child face; its index is its 1-based position
/// in the new dense index space, its texture layer freshly drawn and its
/// texture seed derived from its corners as for every face.
fn push_child(
    faces: &mut Vec<IcoFace>,
    rng: &mut rand::rngs::ThreadRng,
    c0: u32,
    c1: u32,
    c2: u32,
    Ghost(bound): Ghost<u32>,
)
    requires
        c0 < bound,
        c1 < bound,
        c2 < bound,
        old(faces)@.len() + 1 < u32::MAX,
        faces_dense(old(faces)@),
        corners_bounded(old(faces)@, bound),
        tex_palette_ok(old(faces)@),
    ensures
        final(faces)@.len() == old(faces)@.len() + 1,
        faces_dense(final(faces)@),
        corners_bounded(final(faces)@, bound),
        tex_palette_ok(final(faces)@),
        forall|j: int| 0 <= j < old(faces)@.len() ==> final(faces)@[j] == old(faces)@[j],
        ({
            let f = final(faces)@[old(faces)@.len() as int];
            f.indices[0] == c0 && f.indices[1] == c1 && f.indices[2] == c2 && f.tex_seed
                == tex_seed_spec(c0, c1, c2)
        }),
{
    let idx = (faces.len() + 1) as u32;
    let seed = make_tex_seed(c0, c1, c2);
    let ti = draw_tex_index(rng);
    let f = IcoFace {
        index: idx,
        indices: [c0, c1, c2],
        siblings: [None, None, None],
        tex_seed: seed,
        tex_index: ti,
    };
    faces.push(f);
}

/// Append one base face over corners of the 12-entry canonical table; its
/// index is its 1-based position, its texture layer freshly drawn.
fn push_base_face(faces: &mut Vec<IcoFace>, rng: &mut rand::rngs::ThreadRng, c0: u32, c1: u32, c2: u32)
    requires
        c0 < 12,
        c1 < 12,
        c2 < 12,
        old(faces)@.len() < 20,
        faces_dense(old(faces)@),
        corners_bounded(old(faces)@, 12),
        tex_palette_ok(old(faces)@),
    ensures
        final(faces)@.len() == old(faces)@.len() + 1,
        faces_dense(final(faces)@),
        corners_bounded(final(faces)@, 12),
        tex_palette_ok(final(faces)@),
        forall|j: int| 0 <= j < old(faces)@.len() ==> final(faces)@[j] == old(faces)@[j],
        ({
            let f = final(faces)@[old(faces)@.len() as int];
            f.indices[0] == c0 && f.indices[1] == c1 && f.indices[2] == c2 && f.tex_seed
                == tex_seed_spec(c0, c1, c2)
        }),
{
    let idx = (faces.len() + 1) as u32;
    let seed = make_tex_seed(c0, c1, c2);
    let ti = draw_tex_index(rng);
    let f = IcoFace {
        index: idx,
        indices: [c0, c1, c2],
        siblings: [None, None, None],
        tex_seed: seed,
        tex_index: ti,
    };
    faces.push(f);
}

/// The icosphere mesh at one subdivision level. Immutable once built but
/// for `subdivide`, which replaces the face set wholesale.
pub struct Ico {
    /// Subdivision level this face set belongs to.
    pub sub: u32,
    /// Size of the corner-index space: indices `0..verts` are allocated.
    pub verts: u32,
    /// For each corner index `12 + j`, the two earlier corner indices it
    /// is the midpoint of (higher first); base corners `0..12` have no
    /// entry. The prefix is stable across subdivisions.
    pub midpoints: Vec<(u32, u32)>,
    /// The faces, at position `i` the face with index `i + 1`.
    pub faces: Vec<IcoFace>,
}

impl Ico {
    /// The structural invariant every built mesh satisfies: a dense
    /// 1-based face-index space of exactly `20 * 4^sub` faces, corner
    /// indices inside the allocated corner space with no degenerate
    /// face, a midpoint-derivation entry for every non-base corner,
    /// texture layers from the palette, and adjacency produced by
    /// reverse-directed-edge lookup over a closed, properly triangulated
    /// face set — every sibling slot filled with an index of the same
    /// mesh, and the sibling relation symmetric.
    pub open spec fn wf(self) -> bool {
        &&& self.sub <= 12
        &&& self.faces@.len() == 20 * pow4(self.sub as nat)
        &&& faces_dense(self.faces@)
        &&& corners_bounded(self.faces@, self.verts)
        &&& self.verts >= 12
        &&& self.verts as int == 12 + self.midpoints@.len()
        &&& self.verts as int <= 20 * pow4(self.sub as nat) + 12
        &&& forall|j: int|
            0 <= j < self.midpoints@.len() ==> ((#[trigger] self.midpoints@[j]).0 < 12 + j
                && self.midpoints@[j].1 < 12 + j)
        &&& tex_palette_ok(self.faces@)
        &&& corners_distinct(self.faces@)
        &&& siblings_bounded(self.faces@)
        &&& edges_paired(self.faces@)
        &&& edges_distinct(self.faces@)
        &&& edges_share_once(self.faces@)
        &&& siblings_complete(self.faces@)
        &&& sibling_symmetric(self.faces@)
        &&& adjacency_consistent(self.faces@)
    }

    /// The 20-face icosahedron over the 12 canonical corners, in a fixed
    /// winding order, with adjacency resolved.
    pub fn base() -> (r: Ico)
        ensures
            r.wf(),
            r.sub == 0,
            r.verts == 12,
            r.midpoints@.len() == 0,
            r.faces@.len() == 20,
            base_corners(r.faces@),
            built_to_depth(r),
            edges_distinct(r.faces@),
            siblings_complete(r.faces@),
            sibling_symmetric(r.faces@),
    {
        let mut rng = fresh_rng();
        let mut faces: Vec<IcoFace> = Vec::new();
        push_base_face(&mut faces, &mut rng, 0, 11, 5);
        push_base_face(&mut faces, &mut rng, 0, 5, 1);
        push_base_face(&mut faces, &mut rng, 0, 1, 7);
        push_base_face(&mut faces, &mut rng, 0, 7, 10);
        push_base_face(&mut faces, &mut rng, 0, 10, 11);
        push_base_face(&mut faces, &mut rng, 1, 5, 9);
        push_base_face(&mut faces, &mut rng, 5, 11, 4);
        push_base_face(&mut faces, &mut rng, 11, 10, 2);
        push_base_face(&mut faces, &mut rng, 10, 7, 6);
        push_base_face(&mut faces, &mut rng, 7, 1, 8);
        push_base_face(&mut faces, &mut rng, 3, 9, 4);
        push_base_face(&mut faces, &mut rng, 3, 4, 2);
        push_base_face(&mut faces, &mut rng, 3, 2, 6);
        push_base_face(&mut faces, &mut rng, 3, 6, 8);
        push_base_face(&mut faces, &mut rng, 3, 8, 9);
        push_base_face(&mut faces, &mut rng, 4, 9, 5);
        push_base_face(&mut faces, &mut rng, 2, 4, 11);
        push_base_face(&mut faces, &mut rng, 6, 2, 10);
        push_base_face(&mut faces, &mut rng, 8, 6, 7);
        push_base_face(&mut faces, &mut rng, 9, 8, 1);
        proof {
            assert(base_corners(faces@));
        }
        let em = build_edge_map(&faces);
        let ghost before = faces@;
        resolve_siblings(&mut faces, &em);
        proof {
            assert(base_corners(before));
            assert(corners_distinct(before));
            lemma_edge_map_transfer(em@, before, faces@);
            lemma_structure_transfer(before, faces@, 12);
            lemma_siblings_bounded(em@, faces@);
            assert(adjacency_consistent(faces@));
            assert(pow4(0) == 1);
            assert forall|i: int| 0 <= i < faces@.len() implies {
                let f = #[trigger] faces@[i];
                f.indices[0] == base_corner_row(i).0 && f.indices[1] == base_corner_row(i).1
                    && f.indices[2] == base_corner_row(i).2
            } by {
                assert(faces@[i].indices == before[i].indices);
            }
            assert(corners_distinct(faces@));
            lemma_base_edges_distinct(faces@);
            lemma_base_share_once(faces@);
            lemma_sibling_symmetry(faces@);
            lemma_base_edges_paired(before);
            assert forall|i: int, k: int|
                0 <= i < before.len() && 0 <= k < 3 implies #[trigger] has_reverse(
                before,
                i,
                k,
            ) by {
                assert(face_edge(before[base_reverse(i, k).0], base_reverse(i, k).1)
                    == reverse_edge(before, i, k));
            }
            lemma_paired_transfer(before, faces@);
            lemma_siblings_complete(em@, faces@);
        }
        Ico { sub: 0, verts: 12, midpoints: Vec::new(), faces }
    }

    /// Replace every face by its four children: three corner children and
    /// one center child over the edge midpoints, re-projected onto the
    /// sphere by the geometry layer. The old face set is discarded; the
    /// parent with index `n` yields the children `4n-3 ..= 4n`, keeping
    /// the index space dense, and adjacency is resolved afresh over the
    /// new directed edges. Midpoint corner indices are shared between the
    /// two faces bordering each edge and allocated densely after all
    /// existing corners.
    pub fn subdivide(&mut self)
        requires
            old(self).wf(),
            old(self).sub < 12,
        ensures
            final(self).wf(),
            final(self).sub == old(self).sub + 1,
            final(self).faces@.len() == 4 * old(self).faces@.len(),
            seq_prefix(old(self).midpoints@, final(self).midpoints@),
            subdivision_of(old(self).faces@, final(self).faces@, final(self).midpoints@),
            built_to_depth(*old(self)) ==> built_to_depth(*final(self)),
    {
        proof {
            lemma_pow4_twelve();
            lemma_pow4_monotonic(old(self).sub as nat, 11);
            assert(pow4(11) == 0x40_0000);
        }
        let n = self.faces.len();
        let mut rng = fresh_rng();
        let mut mid: HashMap<u64, u32> = HashMap::new();
        let mut children: Vec<IcoFace> = Vec::new();
        let mut i: usize = 0;
        while i < n
            invariant
                i <= n,
                self.faces == old(self).faces,
                self.sub == old(self).sub,
                n == self.faces@.len(),
                n == 20 * pow4(self.sub as nat),
                n <= 20 * 0x40_0000,
                corners_bounded(self.faces@, self.verts),
                corners_bounded(self.faces@, old(self).verts),
                corners_distinct(self.faces@),
                old(self).verts <= self.verts,
                self.verts as int <= old(self).verts + 3 * i,
                old(self).verts as int <= 20 * pow4(self.sub as nat) + 12,
                self.verts as int == 12 + self.midpoints@.len(),
                midpoints_ok(self.midpoints@),
                seq_prefix(old(self).midpoints@, self.midpoints@),
                mid_wf(mid@, self.midpoints@),
                children@.len() == 4 * i,
                faces_dense(children@),
                corners_bounded(children@, self.verts),
                tex_palette_ok(children@),
                corners_distinct(children@),
                forall|k: u64|
                    #[trigger] mid@.contains_key(k) ==> old(self).verts <= mid@[k] < self.verts,
                forall|k1: u64, k2: u64|
                    #![trigger mid@.contains_key(k1), mid@.contains_key(k2)]
                    mid@.contains_key(k1) && mid@.contains_key(k2) && mid@[k1] == mid@[k2] ==> k1
                        == k2,
                forall|j: int|
                    0 <= j < i ==> child_pattern(
                        #[trigger] self.faces@[j],
                        children@[4 * j],
                        children@[4 * j + 1],
                        children@[4 * j + 2],
                        children@[4 * j + 3],
                        self.midpoints@,
                        mid@,
                    ),
            decreases n - i,
        {
            let f = *face_ref(&self.faces, i);
            let c0 = f.indices[0];
            let c1 = f.indices[1];
            let c2 = f.indices[2];
            let ghost mids0 = self.midpoints@;
            let ghost mm0 = mid@;
            let j0 = self.midpoint_index(&mut mid, c0, c1);
            let ghost mids_a = self.midpoints@;
            let j1 = self.midpoint_index(&mut mid, c1, c2);
            let ghost mids_b = self.midpoints@;
            let j2 = self.midpoint_index(&mut mid, c2, c0);
            proof {
                lemma_prefix_trans(mids_a, mids_b, self.midpoints@);
                lemma_prefix_trans(mids0, mids_a, self.midpoints@);
                assert(mid_entry(self.midpoints@, j0) == mid_entry(mids_a, j0));
                assert(mid_entry(self.midpoints@, j1) == mid_entry(mids_b, j1));
                assert(is_midpoint_of(self.midpoints@, j0, c0, c1));
                assert(is_midpoint_of(self.midpoints@, j1, c1, c2));
                assert(is_midpoint_of(self.midpoints@, j2, c2, c0));
                let k0 = edge_key_spec(canon_hi(c0, c1), canon_lo(c0, c1));
                let k1 = edge_key_spec(canon_hi(c1, c2), canon_lo(c1, c2));
                let k2 = edge_key_spec(canon_hi(c2, c0), canon_lo(c2, c0));
                assert(k0 != k1) by {
                    if k0 == k1 {
                        lemma_canon_key_injective(c0, c1, c1, c2);
                    }
                }
                assert(k1 != k2) by {
                    if k1 == k2 {
                        lemma_canon_key_injective(c1, c2, c2, c0);
                    }
                }
                assert(k2 != k0) by {
                    if k2 == k0 {
                        lemma_canon_key_injective(c2, c0, c0, c1);
                    }
                }
                assert(mid@[k0] == j0 && mid@[k1] == j1 && mid@[k2] == j2);
                assert(j0 != j1 && j1 != j2 && j2 != j0);
                assert(old(self).verts <= j0 && old(self).verts <= j1 && old(self).verts <= j2);
            }
            let ghost kids0 = children@;
            push_child(&mut children, &mut rng, j2, c0, j0, Ghost(self.verts));
            push_child(&mut children, &mut rng, j1, c2, j2, Ghost(self.verts));
            push_child(&mut children, &mut rng, j0, c1, j1, Ghost(self.verts));
            push_child(&mut children, &mut rng, j0, j1, j2, Ghost(self.verts));
            proof {
                assert forall|p: int| 0 <= p < kids0.len() implies children@[p] == kids0[p] by {}
                let fi = self.faces@[i as int];
                assert(parent_edge_key(fi, 0) == edge_key_spec(canon_hi(c0, c1), canon_lo(c0, c1)));
                assert(parent_edge_key(fi, 1) == edge_key_spec(canon_hi(c1, c2), canon_lo(c1, c2)));
                assert(parent_edge_key(fi, 2) == edge_key_spec(canon_hi(c2, c0), canon_lo(c2, c0)));
                assert(mid@[parent_edge_key(fi, 0)] == j0);
                assert(mid@[parent_edge_key(fi, 1)] == j1);
                assert(mid@[parent_edge_key(fi, 2)] == j2);
                assert(child_pattern(
                    fi,
                    children@[4 * i],
                    children@[4 * i + 1],
                    children@[4 * i + 2],
                    children@[4 * i + 3],
                    self.midpoints@,
                    mid@,
                ));
                assert forall|j: int| 0 <= j < i implies child_pattern(
                    self.faces@[j],
                    children@[4 * j],
                    children@[4 * j + 1],
                    children@[4 * j + 2],
                    children@[4 * j + 3],
                    self.midpoints@,
                    mid@,
                ) by {
                    lemma_child_pattern_stable(
                        self.faces@[j],
                        kids0[4 * j],
                        kids0[4 * j + 1],
                        kids0[4 * j + 2],
                        kids0[4 * j + 3],
                        mids0,
                        self.midpoints@,
                        mm0,
                        mid@,
                    );
                }
            }
            i = i + 1;
        }
        self.faces = children;
        let em = build_edge_map(&self.faces);
        let ghost before = self.faces@;
        resolve_siblings(&mut self.faces, &em);
        proof {
            lemma_edge_map_transfer(em@, before, self.faces@);
            lemma_structure_transfer(before, self.faces@, self.verts);
            lemma_siblings_bounded(em@, self.faces@);
            assert(adjacency_consistent(self.faces@));
            assert forall|j: int| 0 <= j < old(self).faces@.len() implies child_pattern(
                #[trigger] old(self).faces@[j],
                self.faces@[4 * j],
                self.faces@[4 * j + 1],
                self.faces@[4 * j + 2],
                self.faces@[4 * j + 3],
                self.midpoints@,
                mid@,
            ) by {
                lemma_child_pattern_siblings(
                    old(self).faces@[j],
                    before[4 * j],
                    before[4 * j + 1],
                    before[4 * j + 2],
                    before[4 * j + 3],
                    self.faces@[4 * j],
                    self.faces@[4 * j + 1],
                    self.faces@[4 * j + 2],
                    self.faces@[4 * j + 3],
                    self.midpoints@,
                    mid@,
                );
            }
            assert(subdivision_children(old(self).faces@, self.faces@, self.midpoints@, mid@));
            lemma_subdivision_paired(old(self).faces@, before, self.midpoints@, mid@);
            lemma_paired_transfer(before, self.faces@);
            lemma_siblings_complete(em@, self.faces@);
            lemma_subdivision_distinct(
                old(self).faces@,
                before,
                self.midpoints@,
                mid@,
                old(self).verts,
            );
            lemma_subdivision_share_once(
                old(self).faces@,
                before,
                self.midpoints@,
                mid@,
                old(self).verts,
            );
            lemma_manifold_transfer(before, self.faces@);
            lemma_sibling_symmetry(self.faces@);
        }
        self.sub = self.sub + 1;
        proof {
            assert(pow4(self.sub as nat) == 4 * pow4(old(self).sub as nat));
            if built_to_depth(*old(self)) {
                assert(subdivision_step(*old(self), *self));
                assert(built_chain(*self, self.sub as int));
            }
        }
    }

    /// Build the mesh at subdivision depth `divs`: the base icosahedron
    /// subdivided that many times, with `20 * 4^divs` faces. Depths above
    /// 6 are impractically large but accepted; the bound of 12 only keeps
    /// face indices within `u32`.
    pub fn divs(divs: usize) -> (r: Ico)
        requires
            divs <= 12,
        ensures
            r.wf(),
            r.sub == divs,
            r.faces@.len() == 20 * pow4(divs as nat),
            built_to_depth(r),
    {
        let mut ico = Ico::base();
        let mut d: usize = 0;
        while d < divs
            invariant
                d <= divs <= 12,
                ico.wf(),
                ico.sub == d,
                built_to_depth(ico),
            decreases divs - d,
        {
            ico.subdivide();
            d = d + 1;
        }
        ico
    }

    /// Look up a face by its 1-based index. Index 0 is the reserved
    /// "no selection" sentinel and always yields `None`; a valid index
    /// yields the face carrying exactly that index.
    pub fn face(&self, index: u32) -> (r: Option<&IcoFace>)
        requires
            self.wf(),
        ensures
            match r {
                Some(f) => {
                    &&& 1 <= index <= self.faces@.len()
                    &&& *f == self.faces@[index - 1]
                    &&& f.index == index
                },
                None => index == 0 || index > self.faces@.len(),
            },
    {
        if index == 0 {
            return None;
        }
        let place = (index - 1) as usize;
        if place < self.faces.len() {
            Some(face_ref(&self.faces, place))
        } else {
            None
        }
    }

    /// Flatten the faces into a vertex stream, three entries per face in
    /// face order, so that face `n` owns exactly the run `3(n-1) .. 3n`
    /// that the picking readback relies on. Corners stay symbolic; the
    /// geometry layer joins them with positions.
    pub fn vertex_data(&self) -> (r: Vec<MeshVertex>)
        requires
            self.wf(),
        ensures
            r@.len() == 3 * self.faces@.len(),
            forall|i: int| 0 <= i < r@.len() ==> r@[i] == vertex_of(self.faces@, i),
    {
        let n = self.faces.len();
        let mut out: Vec<MeshVertex> = Vec::new();
        let mut i: usize = 0;
        while i < n
            invariant
                i <= n,
                n == self.faces@.len(),
                out@.len() == 3 * i,
                forall|j: int| 0 <= j < out@.len() ==> out@[j] == vertex_of(self.faces@, j),
            decreases n - i,
        {
            let f = *face_ref(&self.faces, i);
            out.push(
                MeshVertex {
                    face_index: f.index,
                    corner: f.indices[0],
                    tex_seed: f.tex_seed,
                    tex_index: f.tex_index,
                },
            );
            out.push(
                MeshVertex {
                    face_index: f.index,
                    corner: f.indices[1],
                    tex_seed: f.tex_seed,
                    tex_index: f.tex_index,
                },
            );
            out.push(
                MeshVertex {
                    face_index: f.index,
                    corner: f.indices[2],
                    tex_seed: f.tex_seed,
                    tex_index: f.tex_index,
                },
            );
            i = i + 1;
            proof {
                assert forall|j: int| 0 <= j < out@.len() implies out@[j] == vertex_of(
                    self.faces@,
                    j,
                ) by {
                    if j >= 3 * (i - 1) {
                        assert(j / 3 == i - 1 && (j == 3 * (i - 1) * 1 + j % 3)) by (nonlinear_arith)
                            requires
                                3 * (i - 1) <= j < 3 * i,
                        ;
                    }
                }
            }
        }
        out
    }
}

/// One entry of the emitted vertex stream: the owning face's index, one
/// corner index, and the face's texture assignment.
#[derive(Clone, Copy, Debug, PartialEq, Eq, Structural)]
pub struct MeshVertex {
    /// 1-based index of the face this vertex belongs to.
    pub face_index: u32,
    /// Corner index; positions are derived from it outside the library.
    pub corner: u32,
    /// The owning face's texture seed.
    pub tex_seed: u32,
    /// The owning face's texture-atlas layer.
    pub tex_index: u32,
}

/// Entry `i` of the vertex stream of `faces`.
pub open spec fn vertex_of(faces: Seq<IcoFace>, i: int) -> MeshVertex {
    let f = faces[i / 3];
    MeshVertex {
        face_index: f.index,
        corner: f.indices[i % 3],
        tex_seed: f.tex_seed,
        tex_index: f.tex_index,
    }
}

/// Face indices within one mesh are pairwise distinct and fill the
/// contiguous range `1 ..= face_count`.
pub proof fn lemma_face_indices_dense(m: Ico)
    requires
        m.wf(),
    ensures
        forall|i: int|
            0 <= i < m.faces@.len() ==> 1 <= (#[trigger] m.faces@[i]).index <= m.faces@.len(),
        forall|i: int, j: int|
            0 <= i < m.faces@.len() && 0 <= j < m.faces@.len() && i != j
                ==> (#[trigger] m.faces@[i]).index != (#[trigger] m.faces@[j]).index,
{
}

/// Meshes of equal depth have the same face count and the same index
/// sequence: the index space is a function of the depth alone.
pub proof fn lemma_same_depth_same_index_space(m1: Ico, m2: Ico)
    requires
        m1.wf(),
        m2.wf(),
        m1.sub == m2.sub,
    ensures
        m1.faces@.len() == m2.faces@.len(),
        forall|i: int|
            0 <= i < m1.faces@.len() ==> (#[trigger] m1.faces@[i]).index == m2.faces@[i].index,
{
}

/// One subdivision step: `m` was produced from the well-formed mesh `p`
/// by subdividing every face, extending the midpoint table.
pub open spec fn subdivision_step(p: Ico, m: Ico) -> bool {
    &&& p.wf()
    &&& p.sub + 1 == m.sub
    &&& subdivision_of(p.faces@, m.faces@, m.midpoints@)
    &&& seq_prefix(p.midpoints@, m.midpoints@)
}

/// `m` arose from the canonical base by a chain of `d` subdivision
/// steps.
pub open spec fn built_chain(m: Ico, d: int) -> bool
    decreases d,
{
    if d <= 0 {
        m.sub == 0 && m.verts == 12 && m.faces@.len() == 20 && base_corners(m.faces@)
    } else {
        exists|p: Ico| #[trigger] subdivision_step(p, m) && built_chain(p, d - 1)
    }
}

/// The mesh is the canonical base subdivided `sub` times: the fixed
/// winding table over the 12 base corners at depth 0, and one
/// subdivision step per further level.
pub open spec fn built_to_depth(m: Ico) -> bool {
    built_chain(m, m.sub as int)
}

/// No face lists the same sibling index in two slots: together with
/// symmetry, a face's neighbour names it back on exactly one edge. Two
/// equal slots would make the two faces border each other along two
/// edges, or fold a face onto the reverse of its own edge.
pub proof fn lemma_sibling_slots_distinct(faces: Seq<IcoFace>)
    requires
        corners_distinct(faces),
        edges_share_once(faces),
        adjacency_consistent(faces),
    ensures
        forall|i: int, k: int, kb: int|
            0 <= i < faces.len() && 0 <= k < 3 && 0 <= kb < 3 && k != kb && (#[trigger] sib_at(
                faces,
                i,
                k,
            )) is Some ==> sib_at(faces, i, k) != #[trigger] sib_at(faces, i, kb),
{
    let em = choose|em: Map<u64, u32>|
        {
            &&& #[trigger] edge_map_covers(em, faces)
            &&& edge_map_sound(em, faces)
            &&& siblings_match_map(em, faces)
        };
    assert forall|a: u32, b: u32, c: u32, d: u32|
        #![trigger edge_key_spec(a, b), edge_key_spec(c, d)]
        edge_key_spec(a, b) == edge_key_spec(c, d) implies a == c && b == d by {
        lemma_edge_key_injective(a, b, c, d);
    }
    assert forall|i: int, k: int, kb: int|
        0 <= i < faces.len() && 0 <= k < 3 && 0 <= kb < 3 && k != kb && (#[trigger] sib_at(
            faces,
            i,
            k,
        )) is Some implies sib_at(faces, i, k) != #[trigger] sib_at(faces, i, kb) by {
        if sib_at(faces, i, k) == sib_at(faces, i, kb) {
            let fi = faces[i];
            assert(fi.siblings[k] == sibling_of(em, fi, k));
            assert(fi.siblings[kb] == sibling_of(em, fi, kb));
            let rev_k = edge_key_spec(fi.indices[next_corner(k)], fi.indices[k]);
            let rev_kb = edge_key_spec(fi.indices[next_corner(kb)], fi.indices[kb]);
            let b = em[rev_k];
            assert(em.contains_key(rev_k) && em.contains_key(rev_kb) && em[rev_kb] == b);
            assert(owns_edge(faces, b - 1, rev_k) && owns_edge(faces, b - 1, rev_kb));
            let fb = faces[b - 1];
            let k2 = choose|k2: int| 0 <= k2 < 3 && #[trigger] face_edge(fb, k2) == rev_k;
            let k2b = choose|k2b: int| 0 <= k2b < 3 && #[trigger] face_edge(fb, k2b) == rev_kb;
            assert(rev_k != rev_kb);
            assert(parent_edge_key(fb, k2) == parent_edge_key(fi, k));
            assert(parent_edge_key(fb, k2b) == parent_edge_key(fi, kb));
            assert(b - 1 == i);
            assert(false);
        }
    }
}

/// The midpoint corner that the children of parent `j` carry for the
/// parent's edge `k`.
pub open spec fn child_midpoint(children: Seq<IcoFace>, j: int, k: int) -> u32 {
    if k == 0 {
        children[4 * j].indices[2]
    } else if k == 1 {
        children[4 * j + 2].indices[2]
    } else {
        children[4 * j].indices[0]
    }
}

/// Midpoints are deduplicated: when two parent edges are the same
/// undirected edge, the children bordering it on either side are built
/// over one and the same midpoint corner.
pub proof fn lemma_midpoints_shared(
    parents: Seq<IcoFace>,
    children: Seq<IcoFace>,
    mids: Seq<(u32, u32)>,
    j1: int,
    k1: int,
    j2: int,
    k2: int,
)
    requires
        subdivision_of(parents, children, mids),
        0 <= j1 < parents.len(),
        0 <= k1 < 3,
        0 <= j2 < parents.len(),
        0 <= k2 < 3,
        parent_edge_key(parents[j1], k1) == parent_edge_key(parents[j2], k2),
    ensures
        child_midpoint(children, j1, k1) == child_midpoint(children, j2, k2),
{
    let mm = choose|mm: Map<u64, u32>| #[trigger] subdivision_children(parents, children, mids, mm);
    assert(child_pattern(
        parents[j1],
        children[4 * j1],
        children[4 * j1 + 1],
        children[4 * j1 + 2],
        children[4 * j1 + 3],
        mids,
        mm,
    ));
    assert(child_pattern(
        parents[j2],
        children[4 * j2],
        children[4 * j2 + 1],
        children[4 * j2 + 2],
        children[4 * j2 + 3],
        mids,
        mm,
    ));
    assert(child_midpoint(children, j1, k1) == mm[parent_edge_key(parents[j1], k1)]);
    assert(child_midpoint(children, j2, k2) == mm[parent_edge_key(parents[j2], k2)]);
}

/// The 60 directed edges of the base winding table are pairwise
/// distinct: the table describes a closed oriented surface.
#[verifier::rlimit(100)]
proof fn lemma_base_edges_distinct(faces: Seq<IcoFace>)
    requires
        faces.len() == 20,
        base_corners(faces),
    ensures
        edges_distinct(faces),
{
    assert forall|i1: int, k1: int, i2: int, k2: int|
        0 <= i1 < faces.len() && 0 <= k1 < 3 && 0 <= i2 < faces.len() && 0 <= k2 < 3
            && #[trigger] face_edge(faces[i1], k1) == #[trigger] face_edge(
            faces[i2],
            k2,
        ) implies i1 == i2 && k1 == k2 by {
        lemma_edge_key_injective(
            faces[i1].indices[k1],
            faces[i1].indices[next_corner(k1)],
            faces[i2].indices[k2],
            faces[i2].indices[next_corner(k2)],
        );
    }
}

/// The face and edge slot owning the reverse of edge `k` of base face
/// `i`: the neighbour across that edge in the fixed winding table.
pub open spec fn base_reverse(i: int, k: int) -> (int, int) {
    if i <= 9 {
        if i <= 4 {
            if i <= 2 {
                if i <= 1 {
                    if i <= 0 {
                        if k == 0 { (4, 2) } else if k == 1 { (6, 0) } else { (1, 0) }
                    } else {
                        if k == 0 { (0, 2) } else if k == 1 { (5, 0) } else { (2, 0) }
                    }
                } else {
                    if k == 0 { (1, 2) } else if k == 1 { (9, 0) } else { (3, 0) }
                }
            } else {
                if i <= 3 {
                    if k == 0 { (2, 2) } else if k == 1 { (8, 0) } else { (4, 0) }
                } else {
                    if k == 0 { (3, 2) } else if k == 1 { (7, 0) } else { (0, 0) }
                }
            }
        } else {
            if i <= 7 {
                if i <= 6 {
                    if i <= 5 {
                        if k == 0 { (1, 1) } else if k == 1 { (15, 1) } else { (19, 2) }
                    } else {
                        if k == 0 { (0, 1) } else if k == 1 { (16, 1) } else { (15, 2) }
                    }
                } else {
                    if k == 0 { (4, 1) } else if k == 1 { (17, 1) } else { (16, 2) }
                }
            } else {
                if i <= 8 {
                    if k == 0 { (3, 1) } else if k == 1 { (18, 1) } else { (17, 2) }
                } else {
                    if k == 0 { (2, 1) } else if k == 1 { (19, 1) } else { (18, 2) }
                }
            }
        }
    } else {
        if i <= 14 {
            if i <= 12 {
                if i <= 11 {
                    if i <= 10 {
                        if k == 0 { (14, 2) } else if k == 1 { (15, 0) } else { (11, 0) }
                    } else {
                        if k == 0 { (10, 2) } else if k == 1 { (16, 0) } else { (12, 0) }
                    }
                } else {
                    if k == 0 { (11, 2) } else if k == 1 { (17, 0) } else { (13, 0) }
                }
            } else {
                if i <= 13 {
                    if k == 0 { (12, 2) } else if k == 1 { (18, 0) } else { (14, 0) }
                } else {
                    if k == 0 { (13, 2) } else if k == 1 { (19, 0) } else { (10, 0) }
                }
            }
        } else {
            if i <= 17 {
                if i <= 16 {
                    if i <= 15 {
                        if k == 0 { (10, 1) } else if k == 1 { (5, 1) } else { (6, 2) }
                    } else {
                        if k == 0 { (11, 1) } else if k == 1 { (6, 1) } else { (7, 2) }
                    }
                } else {
                    if k == 0 { (12, 1) } else if k == 1 { (7, 1) } else { (8, 2) }
                }
            } else {
                if i <= 18 {
                    if k == 0 { (13, 1) } else if k == 1 { (8, 1) } else { (9, 2) }
                } else {
                    if k == 0 { (14, 1) } else if k == 1 { (9, 1) } else { (5, 2) }
                }
            }
        }
    }
}

/// Every sibling slot of every face is filled: the reverse of each
/// directed edge is owned by another face.
pub open spec fn siblings_complete(faces: Seq<IcoFace>) -> bool {
    forall|i: int, k: int|
        0 <= i < faces.len() && 0 <= k < 3 ==> (#[trigger] sib_at(faces, i, k)) is Some
}

/// The reverse of edge `k` of face `i`.
pub open spec fn reverse_edge(faces: Seq<IcoFace>, i: int, k: int) -> u64 {
    edge_key_spec(faces[i].indices[next_corner(k)], faces[i].indices[k])
}

/// Some face owns the reverse of edge `k` of face `i`.
pub open spec fn has_reverse(faces: Seq<IcoFace>, i: int, k: int) -> bool {
    exists|j: int, l: int|
        0 <= j < faces.len() && 0 <= l < 3 && #[trigger] face_edge(faces[j], l) == reverse_edge(
            faces,
            i,
            k,
        )
}

/// The face set closes up: the reverse of every directed edge is itself
/// a directed edge of some face. On a closed oriented surface this holds
/// of every edge; an unpaired edge would be a boundary.
pub open spec fn edges_paired(faces: Seq<IcoFace>) -> bool {
    forall|i: int, k: int| 0 <= i < faces.len() && 0 <= k < 3 ==> #[trigger] has_reverse(faces, i, k)
}

/// Subdivision keeps the surface closed: the reverse of every child edge
/// is a child edge too. Midpoint-to-midpoint edges pair up between a
/// corner child and the center child of the same parent; edges between a
/// corner and a midpoint pair up across the two parents bordering the
/// subdivided parent edge, which share that edge's midpoint.
proof fn lemma_subdivision_paired(
    parents: Seq<IcoFace>,
    children: Seq<IcoFace>,
    mids: Seq<(u32, u32)>,
    mm: Map<u64, u32>,
)
    requires
        children.len() == 4 * parents.len(),
        subdivision_children(parents, children, mids, mm),
        edges_paired(parents),
    ensures
        edges_paired(children),
{
    assert forall|p: int, s: int|
        0 <= p < children.len() && 0 <= s < 3 implies #[trigger] has_reverse(children, p, s) by {
        let j = p / 4;
        let t = p % 4;
        assert(p == 4 * j + t && 0 <= t < 4 && 0 <= j < parents.len());
        let pf = parents[j];
        assert(child_pattern(
            pf,
            children[4 * j],
            children[4 * j + 1],
            children[4 * j + 2],
            children[4 * j + 3],
            mids,
            mm,
        ));
        let m0 = mm[parent_edge_key(pf, 0)];
        let m1 = mm[parent_edge_key(pf, 1)];
        let m2 = mm[parent_edge_key(pf, 2)];
        if t == 3 {
            // center child (m0, m1, m2): its reverses are the three
            // midpoint edges of this parent's corner children
            if s == 0 {
                assert(face_edge(children[4 * j + 2], 2) == reverse_edge(children, p, s));
            } else if s == 1 {
                assert(face_edge(children[4 * j + 1], 2) == reverse_edge(children, p, s));
            } else {
                assert(face_edge(children[4 * j], 2) == reverse_edge(children, p, s));
            }
        } else if s == 2 {
            // a corner child's midpoint edge: its reverse is one edge of
            // this parent's center child
            if t == 0 {
                assert(face_edge(children[4 * j + 3], 2) == reverse_edge(children, p, s));
            } else if t == 1 {
                assert(face_edge(children[4 * j + 3], 1) == reverse_edge(children, p, s));
            } else {
                assert(face_edge(children[4 * j + 3], 0) == reverse_edge(children, p, s));
            }
        } else {
            // an edge between a parent corner and a midpoint: find the
            // parent owning the reversed parent edge; its corner child
            // across the shared midpoint owns the reverse
            let e: int = if s == 1 {
                if t == 0 {
                    0
                } else if t == 2 {
                    1
                } else {
                    2
                }
            } else {
                if t == 2 {
                    0
                } else if t == 1 {
                    1
                } else {
                    2
                }
            };
            let u = pf.indices[e];
            let v = pf.indices[next_corner(e)];
            assert(has_reverse(parents, j, e));
            let (j2, l2) = choose|j2: int, l2: int|
                0 <= j2 < parents.len() && 0 <= l2 < 3 && #[trigger] face_edge(parents[j2], l2)
                    == reverse_edge(parents, j, e);
            let qf = parents[j2];
            lemma_edge_key_injective(
                qf.indices[l2],
                qf.indices[next_corner(l2)],
                v,
                u,
            );
            assert(qf.indices[l2] == v && qf.indices[next_corner(l2)] == u);
            assert(parent_edge_key(qf, l2) == parent_edge_key(pf, e));
            assert(child_pattern(
                qf,
                children[4 * j2],
                children[4 * j2 + 1],
                children[4 * j2 + 2],
                children[4 * j2 + 3],
                mids,
                mm,
            ));
            if s == 1 {
                // this edge runs corner -> midpoint; its reverse is the
                // neighbour's midpoint -> corner edge
                let q: int = if l2 == 0 {
                    4 * j2 + 2
                } else if l2 == 1 {
                    4 * j2 + 1
                } else {
                    4 * j2
                };
                assert(face_edge(children[q], 0) == reverse_edge(children, p, s));
            } else {
                // midpoint -> corner; its reverse is the neighbour's
                // corner -> midpoint edge
                let q: int = if l2 == 0 {
                    4 * j2
                } else if l2 == 1 {
                    4 * j2 + 2
                } else {
                    4 * j2 + 1
                };
                assert(face_edge(children[q], 1) == reverse_edge(children, p, s));
            }
        }
    }
}

/// Two distinct faces border each other along at most one undirected
/// edge: a face that matched another on two of its edge keys is that
/// face itself.
pub open spec fn edges_share_once(faces: Seq<IcoFace>) -> bool {
    forall|j1: int, l1: int, l1b: int, j2: int, l2: int, l2b: int|
        #![trigger parent_edge_key(faces[j1], l1), parent_edge_key(faces[j1], l1b), parent_edge_key(faces[j2], l2), parent_edge_key(faces[j2], l2b)]
        0 <= j1 < faces.len() && 0 <= j2 < faces.len() && 0 <= l1 < 3 && 0 <= l1b < 3 && 0 <= l2
            < 3 && 0 <= l2b < 3 && l1 != l1b && parent_edge_key(faces[j1], l1)
            == parent_edge_key(faces[j2], l2) && parent_edge_key(faces[j1], l1b)
            == parent_edge_key(faces[j2], l2b) ==> j1 == j2
}

/// Where directed edge `s` of child `p` comes from: it is one of the
/// twelve edge shapes a parent's four children have — between two of the
/// parent's edge midpoints, from a parent corner to a midpoint of an
/// adjacent parent edge, or from such a midpoint to a parent corner.
pub open spec fn child_edge_decomp(
    parents: Seq<IcoFace>,
    children: Seq<IcoFace>,
    mm: Map<u64, u32>,
    p: int,
    s: int,
) -> bool {
    let pf = parents[p / 4];
    let t = p % 4;
    let c0 = pf.indices[0];
    let c1 = pf.indices[1];
    let c2 = pf.indices[2];
    let m0 = mm[parent_edge_key(pf, 0)];
    let m1 = mm[parent_edge_key(pf, 1)];
    let m2 = mm[parent_edge_key(pf, 2)];
    ||| (t == 0 && s == 0 && face_edge(children[p], s) == edge_key_spec(m2, c0))
    ||| (t == 0 && s == 1 && face_edge(children[p], s) == edge_key_spec(c0, m0))
    ||| (t == 0 && s == 2 && face_edge(children[p], s) == edge_key_spec(m0, m2))
    ||| (t == 1 && s == 0 && face_edge(children[p], s) == edge_key_spec(m1, c2))
    ||| (t == 1 && s == 1 && face_edge(children[p], s) == edge_key_spec(c2, m2))
    ||| (t == 1 && s == 2 && face_edge(children[p], s) == edge_key_spec(m2, m1))
    ||| (t == 2 && s == 0 && face_edge(children[p], s) == edge_key_spec(m0, c1))
    ||| (t == 2 && s == 1 && face_edge(children[p], s) == edge_key_spec(c1, m1))
    ||| (t == 2 && s == 2 && face_edge(children[p], s) == edge_key_spec(m1, m0))
    ||| (t == 3 && s == 0 && face_edge(children[p], s) == edge_key_spec(m0, m1))
    ||| (t == 3 && s == 1 && face_edge(children[p], s) == edge_key_spec(m1, m2))
    ||| (t == 3 && s == 2 && face_edge(children[p], s) == edge_key_spec(m2, m0))
}

/// Every child edge decomposes as one of the twelve shapes.
proof fn lemma_child_edge_decomp(
    parents: Seq<IcoFace>,
    children: Seq<IcoFace>,
    mids: Seq<(u32, u32)>,
    mm: Map<u64, u32>,
    p: int,
    s: int,
)
    requires
        children.len() == 4 * parents.len(),
        subdivision_children(parents, children, mids, mm),
        0 <= p < children.len(),
        0 <= s < 3,
    ensures
        child_edge_decomp(parents, children, mm, p, s),
{
    let j = p / 4;
    let t = p % 4;
    assert(p == 4 * j + t && 0 <= t < 4 && 0 <= j < parents.len());
    let pf = parents[j];
    assert(child_pattern(
        pf,
        children[4 * j],
        children[4 * j + 1],
        children[4 * j + 2],
        children[4 * j + 3],
        mids,
        mm,
    ));
}

/// Subdivision keeps directed edges pairwise distinct. Every child edge
/// involves a midpoint, midpoints determine their parent edge, parents
/// do not repeat directed edges, and two parents share at most one
/// undirected edge — so no two child edges can coincide.
#[verifier::rlimit(100)]
proof fn lemma_subdivision_distinct(
    parents: Seq<IcoFace>,
    children: Seq<IcoFace>,
    mids: Seq<(u32, u32)>,
    mm: Map<u64, u32>,
    bound: u32,
)
    requires
        children.len() == 4 * parents.len(),
        subdivision_children(parents, children, mids, mm),
        corners_bounded(parents, bound),
        corners_distinct(parents),
        edges_distinct(parents),
        edges_share_once(parents),
        forall|k: u64| #[trigger] mm.contains_key(k) ==> bound <= mm[k],
        forall|k1: u64, k2: u64|
            #![trigger mm.contains_key(k1), mm.contains_key(k2)]
            mm.contains_key(k1) && mm.contains_key(k2) && mm[k1] == mm[k2] ==> k1 == k2,
    ensures
        edges_distinct(children),
{
    assert forall|a: u32, b: u32, c: u32, d: u32|
        #![trigger edge_key_spec(a, b), edge_key_spec(c, d)]
        edge_key_spec(a, b) == edge_key_spec(c, d) implies a == c && b == d by {
        lemma_edge_key_injective(a, b, c, d);
    }
    assert forall|a: u32, b: u32, c: u32, d: u32|
        #![trigger canon_hi(a, b), canon_hi(c, d)]
        edge_key_spec(canon_hi(a, b), canon_lo(a, b)) == edge_key_spec(
            canon_hi(c, d),
            canon_lo(c, d),
        ) implies ((a == c && b == d) || (a == d && b == c)) by {
        lemma_canon_key_injective(a, b, c, d);
    }
    assert forall|p1: int, s1: int, p2: int, s2: int|
        0 <= p1 < children.len() && 0 <= s1 < 3 && 0 <= p2 < children.len() && 0 <= s2 < 3
            && #[trigger] face_edge(children[p1], s1) == #[trigger] face_edge(
            children[p2],
            s2,
        ) implies p1 == p2 && s1 == s2 by {
        let j1 = p1 / 4;
        let j2 = p2 / 4;
        assert(p1 == 4 * j1 + p1 % 4 && 0 <= p1 % 4 < 4 && 0 <= j1 < parents.len());
        assert(p2 == 4 * j2 + p2 % 4 && 0 <= p2 % 4 < 4 && 0 <= j2 < parents.len());
        lemma_child_edge_decomp(parents, children, mids, mm, p1, s1);
        lemma_child_edge_decomp(parents, children, mids, mm, p2, s2);
        let pf1 = parents[j1];
        let pf2 = parents[j2];
        assert(mm.contains_key(parent_edge_key(pf1, 0)) && mm.contains_key(parent_edge_key(pf1, 1))
            && mm.contains_key(parent_edge_key(pf1, 2)));
        assert(mm.contains_key(parent_edge_key(pf2, 0)) && mm.contains_key(parent_edge_key(pf2, 1))
            && mm.contains_key(parent_edge_key(pf2, 2)));
        assert(face_edge(pf1, 0) == edge_key_spec(pf1.indices[0], pf1.indices[1]));
        assert(face_edge(pf1, 1) == edge_key_spec(pf1.indices[1], pf1.indices[2]));
        assert(face_edge(pf1, 2) == edge_key_spec(pf1.indices[2], pf1.indices[0]));
        assert(face_edge(pf2, 0) == edge_key_spec(pf2.indices[0], pf2.indices[1]));
        assert(face_edge(pf2, 1) == edge_key_spec(pf2.indices[1], pf2.indices[2]));
        assert(face_edge(pf2, 2) == edge_key_spec(pf2.indices[2], pf2.indices[0]));
    }
}

/// Subdivision keeps the triangulation proper: two distinct children
/// still border each other along at most one undirected edge. Children
/// of one parent share only single midpoint edges by construction; for
/// children of different parents, two shared edges would force their
/// parents to share two undirected edges, or one parent to repeat a
/// directed edge or a corner.
#[verifier::rlimit(100)]
#[verifier::spinoff_prover]
proof fn lemma_subdivision_share_once(
    parents: Seq<IcoFace>,
    children: Seq<IcoFace>,
    mids: Seq<(u32, u32)>,
    mm: Map<u64, u32>,
    bound: u32,
)
    requires
        children.len() == 4 * parents.len(),
        subdivision_children(parents, children, mids, mm),
        corners_bounded(parents, bound),
        corners_distinct(parents),
        edges_distinct(parents),
        edges_share_once(parents),
        forall|k: u64| #[trigger] mm.contains_key(k) ==> bound <= mm[k],
        forall|k1: u64, k2: u64|
            #![trigger mm.contains_key(k1), mm.contains_key(k2)]
            mm.contains_key(k1) && mm.contains_key(k2) && mm[k1] == mm[k2] ==> k1 == k2,
    ensures
        edges_share_once(children),
{
    assert forall|a: u32, b: u32, c: u32, d: u32|
        #![trigger edge_key_spec(a, b), edge_key_spec(c, d)]
        edge_key_spec(a, b) == edge_key_spec(c, d) implies a == c && b == d by {
        lemma_edge_key_injective(a, b, c, d);
    }
    assert forall|a: u32, b: u32, c: u32, d: u32|
        #![trigger canon_hi(a, b), canon_hi(c, d)]
        edge_key_spec(canon_hi(a, b), canon_lo(a, b)) == edge_key_spec(
            canon_hi(c, d),
            canon_lo(c, d),
        ) implies ((a == c && b == d) || (a == d && b == c)) by {
        lemma_canon_key_injective(a, b, c, d);
    }
    assert forall|j1: int, l1: int, l1b: int, j2: int, l2: int, l2b: int|
        0 <= j1 < children.len() && 0 <= j2 < children.len() && 0 <= l1 < 3 && 0 <= l1b < 3 && 0
            <= l2 < 3 && 0 <= l2b < 3 && l1 != l1b && #[trigger] parent_edge_key(
            children[j1],
            l1,
        ) == #[trigger] parent_edge_key(children[j2], l2) && #[trigger] parent_edge_key(
            children[j1],
            l1b,
        ) == #[trigger] parent_edge_key(children[j2], l2b) implies j1 == j2 by {
        let q1 = j1 / 4;
        let q2 = j2 / 4;
        assert(j1 == 4 * q1 + j1 % 4 && 0 <= j1 % 4 < 4 && 0 <= q1 < parents.len());
        assert(j2 == 4 * q2 + j2 % 4 && 0 <= q2 < parents.len() && 0 <= j2 % 4 < 4);
        lemma_child_edge_decomp(parents, children, mids, mm, j1, l1);
        lemma_child_edge_decomp(parents, children, mids, mm, j1, l1b);
        lemma_child_edge_decomp(parents, children, mids, mm, j2, l2);
        lemma_child_edge_decomp(parents, children, mids, mm, j2, l2b);
        let pf1 = parents[q1];
        let pf2 = parents[q2];
        assert(mm.contains_key(parent_edge_key(pf1, 0)) && mm.contains_key(parent_edge_key(pf1, 1))
            && mm.contains_key(parent_edge_key(pf1, 2)));
        assert(mm.contains_key(parent_edge_key(pf2, 0)) && mm.contains_key(parent_edge_key(pf2, 1))
            && mm.contains_key(parent_edge_key(pf2, 2)));
        assert(face_edge(pf1, 0) == edge_key_spec(pf1.indices[0], pf1.indices[1]));
        assert(face_edge(pf1, 1) == edge_key_spec(pf1.indices[1], pf1.indices[2]));
        assert(face_edge(pf1, 2) == edge_key_spec(pf1.indices[2], pf1.indices[0]));
        assert(face_edge(pf2, 0) == edge_key_spec(pf2.indices[0], pf2.indices[1]));
        assert(face_edge(pf2, 1) == edge_key_spec(pf2.indices[1], pf2.indices[2]));
        assert(face_edge(pf2, 2) == edge_key_spec(pf2.indices[2], pf2.indices[0]));
    }
}

/// With every reverse edge owned by some face and every directed edge in
/// the map, reverse lookup finds an owner for every slot: no sibling
/// stays empty.
proof fn lemma_siblings_complete(em: Map<u64, u32>, faces: Seq<IcoFace>)
    requires
        edges_paired(faces),
        edge_map_covers(em, faces),
        siblings_match_map(em, faces),
    ensures
        siblings_complete(faces),
{
    assert forall|i: int, k: int| 0 <= i < faces.len() && 0 <= k < 3 implies (#[trigger] sib_at(
        faces,
        i,
        k,
    )) is Some by {
        assert(has_reverse(faces, i, k));
        let (j, l) = choose|j: int, l: int|
            0 <= j < faces.len() && 0 <= l < 3 && #[trigger] face_edge(faces[j], l)
                == reverse_edge(faces, i, k);
        assert(em.contains_key(face_edge(faces[j], l)));
        assert(faces[i].siblings[k] == sibling_of(em, faces[i], k));
    }
}

/// In the base winding table the reverse of every directed edge is owned
/// by the neighbouring face the table assigns it: the 20 faces close up
/// into an oriented surface with no boundary.
#[verifier::rlimit(100)]
proof fn lemma_base_edges_paired(faces: Seq<IcoFace>)
    requires
        faces.len() == 20,
        base_corners(faces),
    ensures
        forall|i: int, k: int|
            0 <= i < faces.len() && 0 <= k < 3 ==> {
                &&& 0 <= base_reverse(i, k).0 < faces.len()
                &&& 0 <= base_reverse(i, k).1 < 3
                &&& #[trigger] face_edge(faces[base_reverse(i, k).0], base_reverse(i, k).1)
                    == edge_key_spec(faces[i].indices[next_corner(k)], faces[i].indices[k])
            },
{
}

/// In the base table, the only owners of an undirected edge are the face
/// itself and the neighbour the reverse table assigns it.
#[verifier::rlimit(100)]
proof fn lemma_base_edge_owners(faces: Seq<IcoFace>)
    requires
        faces.len() == 20,
        base_corners(faces),
    ensures
        forall|j: int, l: int, j2: int, l2: int|
            0 <= j < faces.len() && 0 <= l < 3 && 0 <= j2 < faces.len() && 0 <= l2 < 3
                && #[trigger] parent_edge_key(faces[j], l) == #[trigger] parent_edge_key(
                faces[j2],
                l2,
            ) ==> ((j2 == j && l2 == l) || (j2 == base_reverse(j, l).0 && l2 == base_reverse(
                j,
                l,
            ).1)),
{
    assert forall|j: int, l: int, j2: int, l2: int|
        0 <= j < faces.len() && 0 <= l < 3 && 0 <= j2 < faces.len() && 0 <= l2 < 3
            && #[trigger] parent_edge_key(faces[j], l) == #[trigger] parent_edge_key(
            faces[j2],
            l2,
        ) implies ((j2 == j && l2 == l) || (j2 == base_reverse(j, l).0 && l2 == base_reverse(
        j,
        l,
    ).1)) by {
        lemma_canon_key_injective(
            faces[j].indices[l],
            faces[j].indices[next_corner(l)],
            faces[j2].indices[l2],
            faces[j2].indices[next_corner(l2)],
        );
    }
}

/// The base winding table is a proper triangulation: two distinct faces
/// border each other along at most one edge.
proof fn lemma_base_share_once(faces: Seq<IcoFace>)
    requires
        faces.len() == 20,
        base_corners(faces),
    ensures
        edges_share_once(faces),
{
    lemma_base_edge_owners(faces);
    assert forall|j1: int, l1: int, l1b: int, j2: int, l2: int, l2b: int|
        0 <= j1 < faces.len() && 0 <= j2 < faces.len() && 0 <= l1 < 3 && 0 <= l1b < 3 && 0 <= l2
            < 3 && 0 <= l2b < 3 && l1 != l1b && #[trigger] parent_edge_key(faces[j1], l1)
            == #[trigger] parent_edge_key(faces[j2], l2) && #[trigger] parent_edge_key(
            faces[j1],
            l1b,
        ) == #[trigger] parent_edge_key(faces[j2], l2b) implies j1 == j2 by {
        assert((j2 == j1 && l2 == l1) || (j2 == base_reverse(j1, l1).0 && l2 == base_reverse(
            j1,
            l1,
        ).1));
        assert((j2 == j1 && l2b == l1b) || (j2 == base_reverse(j1, l1b).0 && l2b == base_reverse(
            j1,
            l1b,
        ).1));
        if j2 != j1 {
            assert(base_reverse(j1, l1).0 != base_reverse(j1, l1b).0);
        }
    }
}

/// Sibling references are symmetric: whenever face A names face B across
/// one of its edges, B names A back across one of its own. This holds of
/// any dense face set whose adjacency came from reverse-directed-edge
/// lookup and whose directed edges are pairwise distinct — facts the
/// builders establish for every mesh, so symmetry is part of `wf`.
pub proof fn lemma_sibling_symmetry(faces: Seq<IcoFace>)
    requires
        faces_dense(faces),
        adjacency_consistent(faces),
        edges_distinct(faces),
    ensures
        sibling_symmetric(faces),
{
    let em = choose|em: Map<u64, u32>|
        {
            &&& #[trigger] edge_map_covers(em, faces)
            &&& edge_map_sound(em, faces)
            &&& siblings_match_map(em, faces)
        };
    assert forall|i: int, k: int|
        0 <= i < faces.len() && 0 <= k < 3 && (#[trigger] sib_at(faces, i, k)) is Some implies {
        let b = sib_at(faces, i, k)->0;
        &&& 1 <= b <= faces.len()
        &&& lists_as_sibling(faces[b - 1], faces[i].index)
    } by {
        let fi = faces[i];
        assert(fi.siblings[k] == sibling_of(em, fi, k));
        let rev = edge_key_spec(fi.indices[next_corner(k)], fi.indices[k]);
        assert(em.contains_key(rev));
        let b = em[rev];
        assert(1 <= b <= faces.len() && owns_edge(faces, b - 1, rev));
        let bi = b - 1;
        let k2 = choose|k2: int| 0 <= k2 < 3 && #[trigger] face_edge(faces[bi], k2) == rev;
        let fb = faces[bi];
        lemma_edge_key_injective(
            fb.indices[k2],
            fb.indices[next_corner(k2)],
            fi.indices[next_corner(k)],
            fi.indices[k],
        );
        let rev2 = edge_key_spec(fb.indices[next_corner(k2)], fb.indices[k2]);
        assert(rev2 == face_edge(faces[i], k));
        assert(em.contains_key(face_edge(faces[i], k)));
        assert(fb.siblings[k2] == sibling_of(em, fb, k2));
        assert(fb.siblings[k2] == Some(em[rev2]));
        let o = em[rev2];
        assert(owns_edge(faces, o - 1, rev2));
        let k3 = choose|k3: int| 0 <= k3 < 3 && #[trigger] face_edge(faces[o - 1], k3) == rev2;
        assert(face_edge(faces[o - 1], k3) == face_edge(faces[i], k));
        assert(o - 1 == i && k3 == k);
        assert(o == faces[i].index);
        assert(fb.siblings[k2] == Some(faces[i].index));
        assert(lists_as_sibling(fb, faces[i].index));
    }
}


} // verus!
