use icosphere::mesh::Ico;
use icosphere::mesh::IcoFace;

fn pow4(d: u32) -> usize {
    let mut r: usize = 1;
    for _ in 0..d {
        r *= 4;
    }
    r
}

#[test]
fn face_count_matches_formula_per_depth() {
    for d in 0..=6u32 {
        let mesh = Ico::divs(d as usize);
        assert_eq!(mesh.faces.len(), 20 * pow4(d), "depth {}", d);
        assert_eq!(mesh.sub, d);
    }
}

#[test]
fn base_has_twenty_faces_and_twelve_corners() {
    let mesh = Ico::base();
    assert_eq!(mesh.faces.len(), 20);
    assert_eq!(mesh.verts, 12);
    assert_eq!(mesh.midpoints.len(), 0);
    assert_eq!(mesh.sub, 0);
}

#[test]
fn base_winding_table_is_fixed() {
    let mesh = Ico::base();
    let table: [[u32; 3]; 20] = [
        [0, 11, 5],
        [0, 5, 1],
        [0, 1, 7],
        [0, 7, 10],
        [0, 10, 11],
        [1, 5, 9],
        [5, 11, 4],
        [11, 10, 2],
        [10, 7, 6],
        [7, 1, 8],
        [3, 9, 4],
        [3, 4, 2],
        [3, 2, 6],
        [3, 6, 8],
        [3, 8, 9],
        [4, 9, 5],
        [2, 4, 11],
        [6, 2, 10],
        [8, 6, 7],
        [9, 8, 1],
    ];
    for (pos, row) in table.iter().enumerate() {
        assert_eq!(mesh.faces[pos].indices, *row, "face {}", pos + 1);
    }
}

#[test]
fn face_indices_unique_and_contiguous() {
    for d in 0..=3usize {
        let mesh = Ico::divs(d);
        let n = mesh.faces.len();
        let mut seen = vec![false; n + 1];
        for (pos, f) in mesh.faces.iter().enumerate() {
            assert_eq!(f.index as usize, pos + 1);
            assert!(f.index >= 1 && f.index as usize <= n);
            assert!(!seen[f.index as usize], "index {} repeated", f.index);
            seen[f.index as usize] = true;
        }
        for i in 1..=n {
            assert!(seen[i], "index {} missing", i);
        }
    }
}

#[test]
fn face_zero_is_reserved_sentinel() {
    for d in 0..=3usize {
        let mesh = Ico::divs(d);
        assert!(mesh.face(0).is_none());
    }
}

#[test]
fn face_lookup_returns_matching_index() {
    let mesh = Ico::divs(2);
    for idx in 1..=mesh.faces.len() as u32 {
        let f = mesh.face(idx).expect("in-range index must resolve");
        assert_eq!(f.index, idx);
    }
    assert!(mesh.face(mesh.faces.len() as u32 + 1).is_none());
    assert!(mesh.face(u32::MAX).is_none());
}

fn count_back_references(f: &IcoFace, target: u32) -> usize {
    f.siblings.iter().filter(|s| **s == Some(target)).count()
}

#[test]
fn siblings_complete_and_symmetric() {
    for d in 0..=3usize {
        let mesh = Ico::divs(d);
        for f in &mesh.faces {
            assert_eq!(f.siblings.len(), 3);
            for s in &f.siblings {
                let sib_index = s.expect("a closed mesh leaves no sibling slot empty");
                assert_ne!(sib_index, f.index, "a face cannot neighbour itself");
                let sib = mesh.face(sib_index).expect("sibling index must resolve");
                assert_eq!(
                    count_back_references(sib, f.index),
                    1,
                    "depth {}: face {} must appear exactly once in the sibling list of {}",
                    d,
                    f.index,
                    sib_index
                );
            }
        }
    }
}

#[test]
fn depth_zero_face_five_scenario() {
    let mesh = Ico::divs(0);
    let f = mesh.face(5).expect("face 5 exists at depth 0");
    assert_eq!(f.index, 5);
    assert_eq!(f.siblings.len(), 3);
    for s in &f.siblings {
        let sib_index = s.expect("face 5 has three resolved siblings");
        let sib = mesh.face(sib_index).expect("sibling resolves");
        assert_eq!(count_back_references(sib, 5), 1);
    }
}

#[test]
fn rebuilding_same_depth_is_structurally_identical() {
    for d in 0..=2usize {
        let a = Ico::divs(d);
        let b = Ico::divs(d);
        assert_eq!(a.faces.len(), b.faces.len());
        assert_eq!(a.verts, b.verts);
        assert_eq!(a.midpoints, b.midpoints);
        for (fa, fb) in a.faces.iter().zip(b.faces.iter()) {
            assert_eq!(fa.index, fb.index);
            assert_eq!(fa.indices, fb.indices);
            assert_eq!(fa.siblings, fb.siblings);
            assert_eq!(fa.tex_seed, fb.tex_seed);
            // tex_index is randomized and may differ between builds
        }
    }
}

#[test]
fn midpoint_dedup_gives_manifold_corner_counts() {
    // A closed triangle mesh with F faces has F * 3 / 2 undirected edges;
    // each subdivision allocates one fresh corner per undirected edge, so
    // the corner count at depth d is 10 * 4^d + 2.
    for d in 0..=3u32 {
        let mesh = Ico::divs(d as usize);
        assert_eq!(mesh.verts as usize, 10 * pow4(d) + 2, "depth {}", d);
        assert_eq!(mesh.midpoints.len() + 12, mesh.verts as usize);
    }
}

#[test]
fn midpoints_derive_from_earlier_corners() {
    let mesh = Ico::divs(3);
    for (j, (hi, lo)) in mesh.midpoints.iter().enumerate() {
        assert!((*hi as usize) < 12 + j);
        assert!((*lo as usize) < 12 + j);
        assert!(hi > lo, "canonical order stores the higher corner first");
    }
}

#[test]
fn corners_stay_within_corner_space() {
    let mesh = Ico::divs(2);
    for f in &mesh.faces {
        for c in &f.indices {
            assert!(*c < mesh.verts);
        }
    }
}

#[test]
fn vertex_stream_is_three_per_face_in_order() {
    let mesh = Ico::divs(1);
    let data = mesh.vertex_data();
    assert_eq!(data.len(), 3 * mesh.faces.len());
    for (pos, v) in data.iter().enumerate() {
        let f = &mesh.faces[pos / 3];
        assert_eq!(v.face_index, f.index);
        assert_eq!(v.corner, f.indices[pos % 3]);
        assert_eq!(v.tex_seed, f.tex_seed);
        assert_eq!(v.tex_index, f.tex_index);
    }
}

#[test]
fn tex_seed_derives_from_corners() {
    let mesh = Ico::base();
    for f in &mesh.faces {
        let expected =
            (f.indices[0] as u64 + f.indices[1] as u64 * f.indices[2] as u64) % 0x1_0000_0000;
        assert_eq!(f.tex_seed as u64, expected);
    }
    // face 1 has corners [0, 11, 5]: seed 0 + 11 * 5
    assert_eq!(mesh.faces[0].tex_seed, 55);
}

#[test]
fn tex_index_stays_in_palette() {
    let mesh = Ico::divs(2);
    for f in &mesh.faces {
        assert!(f.tex_index <= 3);
    }
}

fn child_midpoint(faces: &[icosphere::mesh::IcoFace], parent_pos: usize, k: usize) -> u32 {
    match k {
        0 => faces[4 * parent_pos].indices[2],
        1 => faces[4 * parent_pos + 2].indices[2],
        _ => faces[4 * parent_pos].indices[0],
    }
}

#[test]
fn bordering_parents_share_each_edge_midpoint() {
    let parents = Ico::base();
    let mut mesh = Ico::base();
    mesh.subdivide();
    for (j1, p1) in parents.faces.iter().enumerate() {
        for k1 in 0..3usize {
            let edge = (p1.indices[k1], p1.indices[(k1 + 1) % 3]);
            let undirected = (edge.0.max(edge.1), edge.0.min(edge.1));
            for (j2, p2) in parents.faces.iter().enumerate() {
                for k2 in 0..3usize {
                    let other = (p2.indices[k2], p2.indices[(k2 + 1) % 3]);
                    if (other.0.max(other.1), other.0.min(other.1)) == undirected {
                        assert_eq!(
                            child_midpoint(&mesh.faces, j1, k1),
                            child_midpoint(&mesh.faces, j2, k2),
                            "parents {} and {} border one edge and must share its midpoint",
                            j1 + 1,
                            j2 + 1
                        );
                    }
                }
            }
        }
    }
}

#[test]
fn subdivision_keeps_midpoint_prefix_stable() {
    let mut mesh = Ico::base();
    mesh.subdivide();
    let first = mesh.midpoints.clone();
    mesh.subdivide();
    assert_eq!(&mesh.midpoints[..first.len()], &first[..]);
}
