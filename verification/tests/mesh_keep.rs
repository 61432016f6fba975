use aetherloom::detail::BodyDetail;
use aetherloom::keep::{
    banner_count, base_mana_cap, drawn_tier, keep_capacity, realm_target, tower_count,
    tower_flagged,
};
use aetherloom::mesh::{
    build_cone, build_cylinder, build_disc, build_faceted, build_sphere, Facet, Mesh,
    MeshLibrary, PrototypeGeometry, SHAPE_COUNT,
};

fn all_indices_valid<P: Copy>(m: &Mesh<P>) -> bool {
    m.indices.iter().all(|&k| (k as usize) < m.vertices.len())
}

fn quad(base: u32) -> Facet<u32> {
    Facet { corners: vec![base, base + 1, base + 2, base + 3], normal: 1000 + base }
}

fn tri(base: u32) -> Facet<u32> {
    Facet { corners: vec![base, base + 1, base + 2], normal: 2000 + base }
}

#[test]
fn sphere_topology() {
    let points: Vec<u32> = (0..150).collect();
    let m = build_sphere(&points);
    assert_eq!(m.vertex_count(), 150);
    assert_eq!(m.vertex_floats(), 900);
    assert_eq!(m.index_count(), 756);
    assert_eq!(&m.indices[0..6], &[0, 1, 15, 1, 16, 15]);
    assert_eq!(&m.indices[750..756], &[133, 134, 148, 134, 149, 148]);
    assert_eq!(m.vertices[37], (37, 37));
    assert!(all_indices_valid(&m));
}

#[test]
fn cone_topology() {
    let rim: Vec<u32> = (0..15).collect();
    let normals: Vec<u32> = (100..114).collect();
    let m = build_cone(&rim, &normals, 500, 600, 700);
    assert_eq!(m.vertex_count(), 84);
    assert_eq!(m.index_count(), 84);
    assert_eq!(&m.vertices[0..6], &[(0, 100), (1, 100), (500, 100), (600, 700), (1, 700), (0, 700)]);
    assert_eq!(&m.indices[0..6], &[0, 2, 1, 3, 5, 4]);
    assert_eq!(&m.indices[78..84], &[78, 80, 79, 81, 83, 82]);
    assert!(all_indices_valid(&m));
}

#[test]
fn disc_topology() {
    let rim: Vec<u32> = (1..18).collect();
    let m = build_disc(0, &rim, 9);
    assert_eq!(m.vertex_count(), 18);
    assert_eq!(m.index_count(), 48);
    assert_eq!(&m.indices[0..3], &[0, 2, 1]);
    assert_eq!(&m.indices[45..48], &[0, 17, 16]);
    assert!(m.vertices.iter().all(|v| v.1 == 9));
    assert!(all_indices_valid(&m));
}

#[test]
fn cylinder_topology() {
    let low: Vec<u32> = (0..17).collect();
    let high: Vec<u32> = (100..117).collect();
    let radial: Vec<u32> = (200..217).collect();
    let m = build_cylinder(&low, &high, &radial, 300, 400, 1, 2);
    assert_eq!(m.vertex_count(), 70);
    assert_eq!(m.index_count(), 192);
    assert_eq!(&m.vertices[0..4], &[(0, 200), (100, 200), (1, 201), (101, 201)]);
    assert_eq!(m.vertices[34], (300, 1));
    assert_eq!(m.vertices[35], (100, 1));
    assert_eq!(m.vertices[52], (400, 2));
    assert_eq!(m.vertices[69], (16, 2));
    assert_eq!(&m.indices[0..6], &[0, 1, 2, 1, 3, 2]);
    assert_eq!(&m.indices[96..99], &[34, 36, 35]);
    assert_eq!(&m.indices[144..147], &[52, 53, 54]);
    assert_eq!(&m.indices[189..192], &[52, 68, 69]);
    assert!(all_indices_valid(&m));
}

#[test]
fn faceted_topology() {
    let facets = vec![quad(0), tri(10), quad(20)];
    let m = build_faceted(&facets);
    assert_eq!(m.vertex_count(), 11);
    assert_eq!(m.index_count(), 15);
    assert_eq!(&m.indices[..], &[0, 1, 2, 0, 2, 3, 4, 5, 6, 7, 8, 9, 7, 9, 10]);
    assert_eq!(m.vertices[4], (10, 2010));
    assert_eq!(m.vertices[10], (23, 1020));
    assert!(all_indices_valid(&m));
}

#[test]
fn flat_faces_past_capacity_are_cut() {
    let mut m: Mesh<u32> = Mesh::new();
    for k in 0..3071u32 {
        m.add_vertex(k, 0);
    }
    m.add_facet(&vec![1, 2, 3, 4], 7);
    assert_eq!(m.vertex_count(), 3072);
    assert_eq!(m.index_count(), 6);
    m.add_vertex(9, 9);
    assert_eq!(m.vertex_count(), 3072);
}

#[test]
fn library_builds_every_prototype() {
    let facets = |n: u32| (0..n).map(|k| quad(k * 4)).collect::<Vec<_>>();
    let g = PrototypeGeometry {
        cuboid: facets(6),
        sphere: (0..150).collect(),
        cone_rim: (0..15).collect(),
        cone_normals: (0..14).collect(),
        cone_apex: 1,
        cone_base: 2,
        disc_centre: 3,
        disc_rim: (0..17).collect(),
        cylinder_low: (0..17).collect(),
        cylinder_high: (0..17).collect(),
        cylinder_radial: (0..17).collect(),
        cylinder_top: 4,
        cylinder_bottom: 5,
        up: 6,
        down: 7,
        frustum: facets(6),
        wedge: vec![quad(0), quad(4), tri(8), tri(11), quad(14)],
        frond: facets(48),
        boulder: (0..70).map(|k| if k < 10 || k >= 60 { tri(k * 4) } else { quad(k * 4) }).collect(),
        crenels: facets(64),
    };
    let mut lib: MeshLibrary<u32> = MeshLibrary::new();
    assert_eq!(lib.vertex_floats(0), 0);
    lib.build(&g);
    let expected = [(24, 36), (150, 756), (84, 84), (18, 48), (70, 192), (24, 36), (18, 24), (192, 288), (260, 360), (256, 384)];
    for s in 0..SHAPE_COUNT {
        assert_eq!(lib.vertex_floats(s), expected[s].0 * 6);
        assert_eq!(lib.index_count(s), expected[s].1);
        assert!(all_indices_valid(&lib.meshes[s]));
    }
}

#[test]
fn keep_towers_and_banners() {
    assert_eq!(drawn_tier(0), 1);
    assert_eq!(drawn_tier(9), 6);
    assert_eq!(drawn_tier(4), 4);
    assert_eq!(tower_count(1, false), 4);
    assert_eq!(tower_count(1, true), 5);
    assert_eq!(tower_count(4, false), 6);
    assert_eq!(tower_count(6, true), 8);
    assert_eq!(tower_count(100, false), 8);
    assert_eq!(tower_count(-20, false), 4);
    assert_eq!(banner_count(false, 6), 0);
    assert_eq!(banner_count(true, 1), 1);
    assert_eq!(banner_count(true, 3), 2);
    assert_eq!(banner_count(true, 6), 3);
    for towers in 4..=8usize {
        for banners in 0..=3usize {
            for offset in 0..20usize {
                let flagged = (0..towers).filter(|&i| tower_flagged(i, offset, towers, banners)).count();
                assert_eq!(flagged, banners);
            }
        }
    }
}

#[test]
fn keep_economy() {
    assert_eq!(keep_capacity(1), 240);
    assert_eq!(keep_capacity(6), 1440);
    assert_eq!(realm_target(1), 340);
    assert_eq!(realm_target(8), 1460);
    assert_eq!(base_mana_cap(1), 170);
}

#[test]
fn detail_tiers_order() {
    assert!(BodyDetail::Full.at_least(BodyDetail::Reduced));
    assert!(BodyDetail::Full.at_least(BodyDetail::Full));
    assert!(BodyDetail::Reduced.at_least(BodyDetail::Distant));
    assert!(!BodyDetail::Distant.at_least(BodyDetail::Reduced));
    assert!(!BodyDetail::Reduced.at_least(BodyDetail::Full));
    assert_eq!([BodyDetail::Distant.rank(), BodyDetail::Reduced.rank(), BodyDetail::Full.rank()], [0, 1, 2]);
}
