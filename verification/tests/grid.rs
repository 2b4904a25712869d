use field_compute::grid::{
    buffer_byte_len, dispatch_size, workgroup_count, DispatchSize, BUFFER_SIZE, HEIGHT,
    LOCAL_GROUP_SIZE, PREVIEW_LEN, SAMPLE_BYTES, WIDTH,
};

#[test]
fn reference_grid_is_400_by_500() {
    assert_eq!(WIDTH, 400);
    assert_eq!(HEIGHT, 500);
    assert_eq!(SAMPLE_BYTES, 4);
    assert_eq!(LOCAL_GROUP_SIZE, 64);
    assert_eq!(PREVIEW_LEN, 12);
}

#[test]
fn buffer_size_is_width_times_height_times_four() {
    assert_eq!(BUFFER_SIZE, 800_000);
    assert_eq!(buffer_byte_len(WIDTH, HEIGHT), Some(BUFFER_SIZE as usize));
    assert_eq!(BUFFER_SIZE as usize, WIDTH * HEIGHT * std::mem::size_of::<f32>());
}

#[test]
fn byte_length_of_other_grids() {
    assert_eq!(buffer_byte_len(0, 0), Some(0));
    assert_eq!(buffer_byte_len(0, 17), Some(0));
    assert_eq!(buffer_byte_len(1, 1), Some(4));
    assert_eq!(buffer_byte_len(3, 5), Some(60));
    assert_eq!(buffer_byte_len(1024, 768), Some(3_145_728));
}

#[test]
fn byte_length_that_does_not_fit_is_none() {
    assert_eq!(buffer_byte_len(usize::MAX, 2), None);
    assert_eq!(buffer_byte_len(usize::MAX / 4 + 1, 1), None);
    assert_eq!(buffer_byte_len(usize::MAX / 4, 1), Some(usize::MAX / 4 * 4));
    assert_eq!(buffer_byte_len(usize::MAX, usize::MAX), None);
    assert_eq!(buffer_byte_len(usize::MAX, 0), Some(0));
}

#[test]
fn dispatch_for_reference_grid_is_3125_by_1_by_1() {
    assert_eq!(workgroup_count(WIDTH * HEIGHT, LOCAL_GROUP_SIZE), 3125);
    assert_eq!(dispatch_size(400 * 500), Some(DispatchSize { x: 3125, y: 1, z: 1 }));
}

#[test]
fn workgroup_count_rounds_up() {
    assert_eq!(workgroup_count(0, 64), 0);
    assert_eq!(workgroup_count(1, 64), 1);
    assert_eq!(workgroup_count(63, 64), 1);
    assert_eq!(workgroup_count(64, 64), 1);
    assert_eq!(workgroup_count(65, 64), 2);
    assert_eq!(workgroup_count(200_001, 64), 3126);
    assert_eq!(workgroup_count(7, 1), 7);
    assert_eq!(workgroup_count(usize::MAX, 1), usize::MAX);
    assert_eq!(workgroup_count(usize::MAX, usize::MAX), 1);
    assert_eq!(workgroup_count(usize::MAX, 2), usize::MAX / 2 + 1);
}

#[test]
fn workgroups_cover_the_cells_and_no_fewer_do() {
    for cells in 0..1000usize {
        for local in 1..70usize {
            let count = workgroup_count(cells, local);
            assert!(count * local >= cells);
            assert!(count == 0 || (count - 1) * local < cells);
        }
    }
}

#[test]
fn dispatch_size_that_does_not_fit_is_none() {
    assert_eq!(dispatch_size(0), Some(DispatchSize { x: 0, y: 1, z: 1 }));
    assert_eq!(dispatch_size(65), Some(DispatchSize { x: 2, y: 1, z: 1 }));
    let most = (u32::MAX as usize) * 64;
    assert_eq!(dispatch_size(most), Some(DispatchSize { x: u32::MAX, y: 1, z: 1 }));
    assert_eq!(dispatch_size(most + 1), None);
    assert_eq!(dispatch_size(usize::MAX), None);
}
