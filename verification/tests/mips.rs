use game_client::mesh::mips::rgba_mip_levels;

#[test]
fn mips_average_two_by_two() {
    let rgba: Vec<u8> = vec![
        0, 0, 0, 255, 4, 8, 12, 255, //
        8, 16, 24, 255, 12, 24, 36, 255,
    ];
    let levels = rgba_mip_levels(2, 2, rgba.clone());
    assert_eq!(levels.len(), 2);
    assert_eq!(levels[0], (2, 2, rgba));
    assert_eq!(levels[1], (1, 1, vec![6, 12, 18, 255]));
}

#[test]
fn mips_clamp_odd_edges() {
    let rgba: Vec<u8> = (0..12u8).collect();
    let levels = rgba_mip_levels(3, 1, rgba);
    assert_eq!(levels.len(), 2);
    assert_eq!(levels[1].0, 1);
    assert_eq!(levels[1].1, 1);
    assert_eq!(levels[1].2, vec![2, 3, 4, 5]);
}

#[test]
fn mips_chain_sizes() {
    let rgba = vec![7u8; 8 * 4 * 4];
    let levels = rgba_mip_levels(8, 4, rgba);
    let sizes: Vec<(u32, u32)> = levels.iter().map(|l| (l.0, l.1)).collect();
    assert_eq!(sizes, vec![(8, 4), (4, 2), (2, 1), (1, 1)]);
    assert!(levels.iter().all(|l| l.2.iter().all(|&b| b == 7)));
    assert_eq!(rgba_mip_levels(0, 0, vec![1, 2, 3, 4]), vec![(1, 1, vec![1, 2, 3, 4])]);
}
