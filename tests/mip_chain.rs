use orbit_render::mip::{
    bit_width, compute_mip_chain_cpu, downsample, get_max_mip_level_count, gpu_mip_passes,
    level_layout, mip_level_size, unpad_rows, workgroup_count, LevelLayout, MipDispatch,
};

fn solid(width: usize, height: usize, rgba: [u8; 4]) -> Vec<u8> {
    let mut data = Vec::new();
    for _ in 0..width * height {
        data.extend_from_slice(&rgba);
    }
    data
}

#[test]
fn bit_width_counts_binary_digits() {
    assert_eq!(bit_width(0), 0);
    assert_eq!(bit_width(1), 1);
    assert_eq!(bit_width(2), 2);
    assert_eq!(bit_width(255), 8);
    assert_eq!(bit_width(256), 9);
    assert_eq!(bit_width(u32::MAX), 32);
}

#[test]
fn level_count_of_square_256_is_nine() {
    assert_eq!(get_max_mip_level_count(256, 256), 9);
}

#[test]
fn level_count_follows_larger_side() {
    assert_eq!(get_max_mip_level_count(1024, 512), 11);
    assert_eq!(get_max_mip_level_count(512, 1024), 11);
    assert_eq!(get_max_mip_level_count(3, 1), 2);
    assert_eq!(get_max_mip_level_count(1, 1), 1);
    assert_eq!(get_max_mip_level_count(0, 0), 0);
    assert_eq!(get_max_mip_level_count(u32::MAX, 7), 32);
}

#[test]
fn level_sizes_halve_with_floor_of_one() {
    let sides: Vec<u32> = (0..9).map(|l| mip_level_size(256, l)).collect();
    assert_eq!(sides, vec![256, 128, 64, 32, 16, 8, 4, 2, 1]);
    assert_eq!(mip_level_size(5, 1), 2);
    assert_eq!(mip_level_size(5, 2), 1);
    assert_eq!(mip_level_size(5, 3), 1);
    assert_eq!(mip_level_size(1, 4), 1);
}

#[test]
fn box_filter_averages_four_pixels() {
    // one 2x2 image: the red channels are 10, 20, 30, 40
    let src = vec![10, 1, 1, 2, 20, 1, 1, 255, 30, 1, 1, 255, 40, 2, 1, 255];
    let dst = downsample(&src, 2, 2);
    assert_eq!(dst.len(), 4);
    assert_eq!(dst[0], 25);
    // 1 + 1 + 1 + 2 = 5, and 5 / 4 truncates to 1
    assert_eq!(dst[1], 1);
    assert_eq!(dst[2], 1);
    // (2 + 255 * 3) / 4 = 191.75, truncated
    assert_eq!(dst[3], 191);
}

#[test]
fn box_filter_keeps_uniform_quadrants() {
    let colors = [[255, 0, 0, 255], [0, 255, 0, 255], [0, 0, 255, 255], [9, 8, 7, 6]];
    let mut src = Vec::new();
    for y in 0..4 {
        for x in 0..4 {
            let quadrant = (y / 2) * 2 + x / 2;
            src.extend_from_slice(&colors[quadrant]);
        }
    }
    let dst = downsample(&src, 4, 4);
    let mut expected = Vec::new();
    for c in colors.iter() {
        expected.extend_from_slice(c);
    }
    assert_eq!(dst, expected);
}

#[test]
fn box_filter_output_is_row_major() {
    // 4x2 image, pixel value = x + 10 * y in every channel
    let mut src = Vec::new();
    for y in 0..2u8 {
        for x in 0..4u8 {
            src.extend_from_slice(&[x + 10 * y; 4]);
        }
    }
    let dst = downsample(&src, 4, 2);
    // output 2x1: first pixel mean of 0,1,10,11 = 5; second of 2,3,12,13 = 7
    assert_eq!(dst, vec![5, 5, 5, 5, 7, 7, 7, 7]);
}

#[test]
fn box_filter_repeats_a_single_column() {
    // 1x2 image: the single column is used twice
    let src = vec![10, 0, 0, 0, 21, 0, 0, 0];
    let dst = downsample(&src, 1, 2);
    // (10 + 10 + 21 + 21) / 4 = 15
    assert_eq!(dst, vec![15, 0, 0, 0]);
}

#[test]
fn cpu_chain_of_256_square_has_nine_levels() {
    let base = solid(256, 256, [200, 100, 50, 255]);
    let levels = compute_mip_chain_cpu(base.clone(), 256, 256).unwrap();
    assert_eq!(levels.len(), 9);
    assert_eq!(levels[0], base);
    let mut side = 256usize;
    for level in &levels {
        assert_eq!(level.len(), 4 * side * side);
        assert_eq!(&level[0..4], &[200, 100, 50, 255]);
        side /= 2;
    }
}

#[test]
fn cpu_chain_of_wide_image_keeps_one_row() {
    let base = vec![0, 0, 0, 0, 4, 4, 4, 4, 8, 8, 8, 8, 12, 12, 12, 12];
    let levels = compute_mip_chain_cpu(base, 4, 1).unwrap();
    assert_eq!(levels.len(), 3);
    assert_eq!(levels[1], vec![2, 2, 2, 2, 10, 10, 10, 10]);
    assert_eq!(levels[2], vec![6, 6, 6, 6]);
}

#[test]
fn cpu_chain_refuses_empty_or_short_data() {
    assert!(compute_mip_chain_cpu(Vec::new(), 0, 4).is_none());
    assert!(compute_mip_chain_cpu(Vec::new(), 4, 0).is_none());
    assert!(compute_mip_chain_cpu(vec![0; 15], 2, 2).is_none());
    assert!(compute_mip_chain_cpu(vec![0; 17], 2, 2).is_none());
    assert_eq!(compute_mip_chain_cpu(vec![7; 4], 1, 1), Some(vec![vec![7; 4]]));
}

#[test]
fn workgroups_cover_the_side() {
    assert_eq!(workgroup_count(0), 0);
    assert_eq!(workgroup_count(1), 1);
    assert_eq!(workgroup_count(8), 1);
    assert_eq!(workgroup_count(9), 2);
    assert_eq!(workgroup_count(2048), 256);
    assert_eq!(workgroup_count(u32::MAX), 536_870_912);
}

#[test]
fn gpu_passes_read_previous_level() {
    let passes = gpu_mip_passes(256, 256, 9);
    assert_eq!(passes.len(), 8);
    assert_eq!(
        passes[0],
        MipDispatch { source_level: 0, target_level: 1, width: 128, height: 128, groups_x: 16, groups_y: 16 }
    );
    assert_eq!(
        passes[7],
        MipDispatch { source_level: 7, target_level: 8, width: 1, height: 1, groups_x: 1, groups_y: 1 }
    );
    for (i, pass) in passes.iter().enumerate() {
        assert_eq!(pass.source_level as usize, i);
        assert_eq!(pass.target_level as usize, i + 1);
    }
}

#[test]
fn gpu_passes_of_single_level_texture_are_none() {
    assert!(gpu_mip_passes(64, 64, 1).is_empty());
    assert!(gpu_mip_passes(64, 64, 0).is_empty());
    let passes = gpu_mip_passes(20, 3, 3);
    assert_eq!(passes[0].width, 10);
    assert_eq!(passes[0].height, 1);
    assert_eq!(passes[0].groups_x, 2);
    assert_eq!(passes[1].width, 5);
    assert_eq!(passes[1].groups_y, 1);
}

#[test]
fn level_layout_pads_rows_to_256() {
    let layout = level_layout(100, 50, 0).unwrap();
    assert_eq!(
        layout,
        LevelLayout { width: 100, height: 50, bytes_per_row: 400, padded_bytes_per_row: 512 }
    );
    assert_eq!(layout.buffer_size(), 512 * 50);
    let small = level_layout(100, 50, 1).unwrap();
    assert_eq!(small.width, 50);
    assert_eq!(small.height, 25);
    assert_eq!(small.bytes_per_row, 200);
    assert_eq!(small.padded_bytes_per_row, 256);
    let aligned = level_layout(64, 64, 0).unwrap();
    assert_eq!(aligned.padded_bytes_per_row, 256);
    assert!(level_layout(u32::MAX, 1, 0).is_none());
}

#[test]
fn unpad_rows_drops_row_padding() {
    let layout = LevelLayout { width: 1, height: 2, bytes_per_row: 4, padded_bytes_per_row: 8 };
    let data = vec![1, 2, 3, 4, 0, 0, 0, 0, 5, 6, 7, 8, 0, 0, 0, 0];
    assert_eq!(unpad_rows(&data, &layout), Some(vec![1, 2, 3, 4, 5, 6, 7, 8]));
    assert_eq!(unpad_rows(&data[..15].to_vec(), &layout), None);
    let bad = LevelLayout { width: 1, height: 2, bytes_per_row: 9, padded_bytes_per_row: 8 };
    assert_eq!(unpad_rows(&data, &bad), None);
}
