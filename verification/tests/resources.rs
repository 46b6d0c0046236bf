use asset_libraries::resources::compute_arches_indirect::{
    command_buffer_size, padded_points, points_count, DrawElementsIndirectCommand,
    COMMAND_BUFFER_SIZE, COMMAND_BYTES, CURVE_BUFFER_POINTS,
};

#[test]
fn command_buffer_holds_a_thousand_commands() {
    assert_eq!(COMMAND_BUFFER_SIZE, 1000);
    assert_eq!(COMMAND_BYTES, 20);
    assert_eq!(command_buffer_size(), 20_000);
}

#[test]
fn draw_command_is_five_words() {
    let command = DrawElementsIndirectCommand {
        _count: 6,
        _instance_count: 1,
        _first_index: 0,
        _base_vertex: 0,
        _base_instance: 0,
    };
    let copy = command;
    assert_eq!(copy, command);
    assert_eq!(copy._count, 6);
    assert_eq!(copy._instance_count, 1);
}

#[test]
fn points_count_keeps_the_low_word() {
    assert_eq!(points_count(0), 0);
    assert_eq!(points_count(5), 5);
    assert_eq!(points_count(1200), 1200);
    let wide = 0x1_0000_0007u64 as usize;
    assert_eq!(points_count(wide), 7);
}

#[test]
fn padded_points_fills_the_tail() {
    let points = vec![[1u32, 2, 3, 4], [5, 6, 7, 8], [9, 10, 11, 12]];
    let block = padded_points(&points, [0, 0, 0, 1]);
    assert_eq!(block.len(), CURVE_BUFFER_POINTS);
    assert_eq!(block[0], [1, 2, 3, 4]);
    assert_eq!(block[2], [9, 10, 11, 12]);
    assert_eq!(block[3], [0, 0, 0, 1]);
    assert_eq!(block[999], [0, 0, 0, 1]);
}

#[test]
fn padded_points_of_nothing_is_all_fill() {
    let block = padded_points(&Vec::new(), 7u8);
    assert_eq!(block, vec![7u8; 1000]);
}

#[test]
fn padded_points_drops_what_does_not_fit() {
    let points: Vec<u32> = (0..1200).collect();
    let block = padded_points(&points, 0);
    assert_eq!(block.len(), 1000);
    assert_eq!(block[0], 0);
    assert_eq!(block[999], 999);
    assert_eq!(block, points[..1000].to_vec());
}

#[test]
fn padded_points_takes_float_points() {
    let points = vec![[1.5f32, -2.0, 0.25, 1.0]];
    let block = padded_points(&points, [0.0, 0.0, 0.0, 1.0]);
    assert_eq!(block.len(), 1000);
    assert_eq!(block[0], [1.5, -2.0, 0.25, 1.0]);
    assert_eq!(block[1], [0.0, 0.0, 0.0, 1.0]);
}
