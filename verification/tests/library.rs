use std::io::Read;

use epar::arrayreader::ArrayReader;
use epar::collide::region_index;
use epar::level::{sweep_finished, LevelBuilder};
use epar::player::{resolve_hit, HitOutcome};
use epar::polygon::{drawable_triangles, fan_indices, none, spoke_indices, PolygonDecodeError};
use epar::provider::Constant;
use epar::schedule::{advance_while, palette_slot, shapes_to_fire, timing_slot};

#[test]
fn read_copies_the_front_of_the_array() {
    let data = [1u8, 2, 3, 4, 5];
    let mut reader = ArrayReader::new(&data);
    let mut buf = [0u8; 3];
    assert_eq!(reader.read(&mut buf).unwrap(), 3);
    assert_eq!(buf, [1, 2, 3]);
}

#[test]
fn read_into_a_larger_buffer_leaves_its_tail() {
    let data = [7u8, 8];
    let mut reader = ArrayReader::new(&data);
    let mut buf = [9u8; 5];
    assert_eq!(reader.read(&mut buf).unwrap(), 2);
    assert_eq!(buf, [7, 8, 9, 9, 9]);
}

#[test]
fn reads_take_successive_bytes_until_end_of_file() {
    let data = [1u8, 2, 3, 4, 5];
    let mut reader = ArrayReader::new(&data);
    let mut first = [0u8; 2];
    let mut second = [0u8; 2];
    let mut third = [0u8; 2];
    let mut fourth = [7u8; 2];
    assert_eq!(reader.read(&mut first).unwrap(), 2);
    assert_eq!(reader.read(&mut second).unwrap(), 2);
    assert_eq!(reader.read(&mut third).unwrap(), 1);
    assert_eq!(reader.read(&mut fourth).unwrap(), 0);
    assert_eq!(first, [1, 2]);
    assert_eq!(second, [3, 4]);
    assert_eq!(third, [5, 0]);
    assert_eq!(fourth, [7, 7]);
}

#[test]
fn read_from_an_empty_array_copies_nothing() {
    let data: [u8; 0] = [];
    let mut reader = ArrayReader::new(&data);
    let mut buf = [4u8; 2];
    assert_eq!(reader.read(&mut buf).unwrap(), 0);
    assert_eq!(buf, [4, 4]);
    let mut empty: [u8; 0] = [];
    let mut full = ArrayReader::new(&[1u8, 2]);
    assert_eq!(full.read(&mut empty).unwrap(), 0);
}

#[test]
fn fan_of_three_closes_on_the_first_rim_vertex() {
    assert_eq!(fan_indices(3), vec![0, 1, 2, 0, 2, 3, 0, 3, 1]);
}

#[test]
fn fan_edge_cases() {
    assert_eq!(fan_indices(0), Vec::<usize>::new());
    assert_eq!(fan_indices(1), vec![0, 1, 1]);
    assert_eq!(fan_indices(2), vec![0, 1, 2, 0, 2, 1]);
}

#[test]
fn spokes_make_two_triangles_per_quad() {
    assert_eq!(spoke_indices(0), Vec::<usize>::new());
    assert_eq!(
        spoke_indices(2),
        vec![0, 1, 2, 3, 1, 2, 4, 5, 6, 7, 5, 6]
    );
}

#[test]
fn drawable_triangles_skip_out_of_range_and_partial_chunks() {
    let indices = [0usize, 1, 2, 0, 5, 1, 2, 1, 0, 3, 4];
    assert_eq!(
        drawable_triangles(&indices, 4),
        vec![(0, 1, 2), (2, 1, 0)]
    );
    assert_eq!(drawable_triangles(&[], 3), vec![]);
    assert_eq!(drawable_triangles(&[0, 1], 3), vec![]);
}

#[test]
fn generated_fan_draws_every_triangle() {
    let fan = fan_indices(5);
    let triangles = drawable_triangles(&fan, 6);
    assert_eq!(triangles.len(), 5);
    assert_eq!(triangles[4], (0, 5, 1));
    let spokes = spoke_indices(3);
    assert_eq!(drawable_triangles(&spokes, 12).len(), 6);
}

#[test]
fn none_is_empty() {
    let (vertices, indices): ([(f32, f32); 0], [usize; 0]) = none();
    assert_eq!(vertices.len(), 0);
    assert_eq!(indices.len(), 0);
}

#[test]
fn decode_errors_convert_and_describe_themselves() {
    let io = std::io::Error::new(std::io::ErrorKind::UnexpectedEof, "short");
    let error: PolygonDecodeError = io.into();
    assert!(matches!(error, PolygonDecodeError::IoError(_)));
    assert_eq!(error.message(), "io error while decoding polygon");
    let slice: &[u8] = &[1, 2, 3];
    let failed: Result<[u8; 4], _> = slice.try_into();
    let error = PolygonDecodeError::from(failed.unwrap_err());
    assert!(matches!(error, PolygonDecodeError::SliceError(_)));
    assert_eq!(error.message(), "unreachable logic while decoding polygon");
}

#[test]
fn builder_keeps_order_and_pops_the_last() {
    let mut builder = LevelBuilder::new();
    builder.obstacle(1u32).obstacle(2).obstacle(3);
    assert_eq!(builder.pop_last_obstacle(), Some(3));
    builder.obstacle(4);
    assert_eq!(builder.into_obstacles(), vec![1, 2, 4]);
    let mut empty: LevelBuilder<u32> = LevelBuilder::new();
    assert_eq!(empty.pop_last_obstacle(), None);
    assert_eq!(empty.into_obstacles(), Vec::<u32>::new());
}

#[test]
fn sweep_swap_removes_finished_obstacles() {
    let mut items = vec![0u32, 1, 2, 3, 4];
    let removed = sweep_finished(&mut items, vec![true, false, true, false, true]);
    assert_eq!(items, vec![3, 1]);
    assert_eq!(removed, vec![0, 4, 2]);
}

#[test]
fn sweep_keeps_everything_when_nothing_is_finished() {
    let mut items = vec![5u32, 6, 7];
    let removed = sweep_finished(&mut items, vec![false, false, false]);
    assert_eq!(items, vec![5, 6, 7]);
    assert!(removed.is_empty());
    let mut all = vec![5u32, 6, 7];
    let removed = sweep_finished(&mut all, vec![true, true, true]);
    assert!(all.is_empty());
    assert_eq!(removed, vec![5, 7, 6]);
}

#[test]
fn regions_number_row_by_row() {
    assert_eq!(region_index(false, false, false, false), 0);
    assert_eq!(region_index(true, false, false, false), 1);
    assert_eq!(region_index(true, true, false, false), 2);
    assert_eq!(region_index(false, true, false, false), 0);
    assert_eq!(region_index(false, false, true, false), 3);
    assert_eq!(region_index(true, false, true, false), 4);
    assert_eq!(region_index(true, true, true, false), 5);
    assert_eq!(region_index(false, false, true, true), 6);
    assert_eq!(region_index(true, false, true, true), 7);
    assert_eq!(region_index(true, true, true, true), 8);
    assert_eq!(region_index(true, true, false, true), 2);
}

#[test]
fn advance_stops_at_the_first_unpassed_timing() {
    let timings = [0.0f64, 1.0, 2.0, 2.75, 3.5];
    let beat = 2.5;
    assert_eq!(advance_while(1, timings.len(), &|k: usize| beat > timings[k]), 3);
    assert_eq!(advance_while(3, timings.len(), &|k: usize| beat > timings[k]), 3);
    assert_eq!(advance_while(1, timings.len(), &|k: usize| 10.0 > timings[k]), 5);
    assert_eq!(advance_while(7, timings.len(), &|_k: usize| true), 7);
}

#[test]
fn palette_and_timing_slots() {
    assert_eq!(palette_slot(1, 10), 0);
    assert_eq!(palette_slot(10, 10), 9);
    assert_eq!(palette_slot(11, 10), 0);
    assert_eq!(palette_slot(25, 10), 4);
    assert_eq!(timing_slot(3, 0), None);
    assert_eq!(timing_slot(0, 4), Some(0));
    assert_eq!(timing_slot(1, 4), Some(0));
    assert_eq!(timing_slot(3, 4), Some(2));
    assert_eq!(timing_slot(9, 4), Some(3));
}

#[test]
fn hits_take_one_hp_and_only_when_allowed() {
    assert!(resolve_hit(3, true, false, true) == HitOutcome { hp: 2, hit: true });
    assert!(resolve_hit(3, false, false, true) == HitOutcome { hp: 3, hit: false });
    assert!(resolve_hit(3, true, true, true) == HitOutcome { hp: 3, hit: false });
    assert!(resolve_hit(3, true, false, false) == HitOutcome { hp: 3, hit: false });
    let last = resolve_hit(1, true, false, true);
    assert!(last.hit && last.hp == 0 && last.dead());
    let floor = resolve_hit(0, true, false, true);
    assert!(floor.hit && floor.hp == 0 && floor.dead());
    assert!(!resolve_hit(2, true, false, true).dead());
}

#[test]
fn constant_gives_its_value() {
    let constant = Constant((3.5f64, -1.0f64));
    assert_eq!(constant.get(), (3.5, -1.0));
    assert_eq!(Constant(String::from("beat")).get(), "beat");
}

#[test]
fn reader_works_as_an_io_reader() {
    let data = [10u8, 20, 30];
    let mut reader = ArrayReader::new(&data);
    let mut buf = [0u8; 2];
    assert_eq!(Read::read(&mut reader, &mut buf).unwrap(), 2);
    assert_eq!(buf, [10, 20]);
    let mut rest = Vec::new();
    assert_eq!(Read::read_to_end(&mut reader, &mut rest).unwrap(), 1);
    assert_eq!(rest, vec![30]);
    let mut past = [0u8; 1];
    assert!(Read::read_exact(&mut ArrayReader::new(&data), &mut [0u8; 4]).is_err());
    assert_eq!(Read::read(&mut reader, &mut past).unwrap(), 0);
}

#[test]
fn advancing_again_at_the_same_beat_moves_nothing() {
    let times = [0.0f64, 1.0, 2.0, 2.5, 3.5];
    let beat = 2.2;
    let stop = advance_while(1, times.len(), &|k: usize| beat > times[k]);
    assert_eq!(stop, 3);
    assert_eq!(advance_while(stop, times.len(), &|k: usize| beat > times[k]), stop);
    let done = advance_while(1, times.len(), &|_k: usize| true);
    assert_eq!(advance_while(done, times.len(), &|_k: usize| true), done);
}

#[test]
fn decode_errors_debug_print() {
    let error = PolygonDecodeError::IoError(std::io::Error::new(std::io::ErrorKind::Other, "x"));
    assert!(format!("{:?}", error).starts_with("IoError"));
}

#[test]
fn shapes_fire_first_once_then_those_passed() {
    assert_eq!(shapes_to_fire(true, 5, 1, 3), vec![0, 1, 2]);
    assert_eq!(shapes_to_fire(false, 5, 3, 3), Vec::<usize>::new());
    assert_eq!(shapes_to_fire(false, 5, 3, 5), vec![3, 4]);
    assert_eq!(shapes_to_fire(true, 0, 1, 1), Vec::<usize>::new());
    assert_eq!(shapes_to_fire(true, 1, 1, 1), vec![0]);
}
