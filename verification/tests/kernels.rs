use img_proc_demo::convolution::Convolution;
use img_proc_demo::morphology::{StructuringElement, THRESHOLD};
use img_proc_demo::pix_grid::PixGrid;

fn grid_from(rows: &[&[u8]]) -> PixGrid {
    let mut g = PixGrid::new(rows[0].len() as u32, rows.len() as u32, 0, 16);
    for (y, row) in rows.iter().enumerate() {
        for (x, v) in row.iter().enumerate() {
            assert!(g.try_set(x as i32, y as i32, *v));
        }
    }
    g
}

fn single(weight: i32, scale: u32, zero_centered: bool) -> Convolution {
    Convolution::new(0, 0, 0, 0, zero_centered, vec![weight], scale).unwrap()
}

#[test]
fn binomial_of_a_single_white_cell() {
    let g = grid_from(&[&[0, 0, 0], &[0, 255, 0], &[0, 0, 0]]);
    let k = Convolution::binomial();
    assert_eq!(k.sample(&g, 1, 1), 64);
}

#[test]
fn binomial_spreads_a_white_cell_by_its_weights() {
    let g = grid_from(&[&[0, 0, 0, 0, 0], &[0, 0, 0, 0, 0], &[0, 0, 255, 0, 0], &[0, 0, 0, 0, 0], &[0, 0, 0, 0, 0]]);
    let k = Convolution::binomial();
    assert_eq!(k.sample(&g, 1, 1), 16);
    assert_eq!(k.sample(&g, 2, 1), 32);
    assert_eq!(k.sample(&g, 2, 2), 64);
    assert_eq!(k.sample(&g, 0, 0), 0);
}

#[test]
fn normalized_smoothing_keeps_a_flat_image() {
    let k = Convolution::binomial();
    for v in [0u8, 1, 77, 127, 128, 180, 254, 255] {
        let g = PixGrid::new(4, 3, v, 16);
        for y in 0..3 {
            for x in 0..4 {
                assert_eq!(k.sample(&g, x, y), v);
            }
        }
    }
}

#[test]
fn window_reads_past_the_edge_take_the_border() {
    let g = grid_from(&[&[160, 0], &[0, 0]]);
    let k = Convolution::binomial();
    // At the corner the white cell is read four times: weights 1 + 2 + 2 + 4.
    assert_eq!(k.sample(&g, 0, 0), 90);
    assert_eq!(k.sample(&g, 1, 0), 30);
    assert_eq!(k.sample(&g, 1, 1), 10);
}

#[test]
fn weights_pair_with_their_offsets() {
    let g = grid_from(&[&[1, 2, 3], &[4, 5, 6], &[7, 8, 9]]);
    // One row, two columns: the cell itself and its right neighbor.
    let k = Convolution::new(0, 1, 0, 0, false, vec![10, 1], 1).unwrap();
    assert_eq!(k.sample(&g, 0, 0), 12);
    assert_eq!(k.sample(&g, 1, 1), 56);
    assert_eq!(k.sample(&g, 2, 2), 99);
    // Two rows, one column: the upper neighbor and the cell itself.
    let c = Convolution::new(0, 0, -1, 0, false, vec![10, 1], 1).unwrap();
    assert_eq!(c.sample(&g, 1, 1), 25);
    assert_eq!(c.sample(&g, 1, 0), 22);
}

#[test]
fn sums_round_to_the_nearest_value() {
    let g = PixGrid::new(2, 2, 5, 16);
    assert_eq!(single(1, 2, false).sample(&g, 0, 0), 3);
    assert_eq!(single(1, 4, false).sample(&g, 0, 0), 1);
    assert_eq!(single(3, 4, false).sample(&g, 0, 0), 4);
    assert_eq!(single(1, 10, false).sample(&g, 0, 0), 1);
    assert_eq!(single(1, 11, false).sample(&g, 0, 0), 0);
}

#[test]
fn sums_are_brought_into_range() {
    let g = PixGrid::new(2, 2, 200, 16);
    assert_eq!(single(2, 1, false).sample(&g, 1, 1), 255);
    assert_eq!(single(-1, 1, false).sample(&g, 1, 1), 0);
    assert_eq!(single(i32::MAX, 1, true).sample(&g, 1, 1), 255);
    assert_eq!(single(i32::MIN, 1, true).sample(&g, 1, 1), 0);
    assert_eq!(single(-1, 400, false).sample(&g, 1, 1), 0);
    assert_eq!(single(-1, 399, false).sample(&g, 1, 1), 0);
}

#[test]
fn zero_centered_kernels_start_from_mid_gray() {
    let flat = PixGrid::new(3, 3, 90, 16);
    assert_eq!(Convolution::v_sobel().sample(&flat, 1, 1), 127);
    assert_eq!(Convolution::h_sobel().sample(&flat, 0, 2), 127);
    assert_eq!(single(1, 1, true).sample(&flat, 0, 0), 217);
    assert_eq!(single(1, 2, true).sample(&flat, 0, 0), 172);
}

#[test]
fn sobel_answers_to_edges_with_its_sign() {
    let g = grid_from(&[&[0, 0, 10], &[0, 0, 10], &[0, 0, 10]]);
    assert_eq!(Convolution::v_sobel().sample(&g, 1, 1), 167);
    assert_eq!(Convolution::h_sobel().sample(&g, 1, 1), 127);
    let h = grid_from(&[&[10, 10, 10], &[0, 0, 0], &[0, 0, 0]]);
    assert_eq!(Convolution::h_sobel().sample(&h, 1, 1), 167);
    assert_eq!(Convolution::h_sobel().sample(&h, 1, 2), 127);
    let m = grid_from(&[&[10, 0, 0], &[10, 0, 0], &[10, 0, 0]]);
    assert_eq!(Convolution::v_sobel().sample(&m, 1, 1), 87);
}

#[test]
fn presets_have_their_weights() {
    let b = Convolution::binomial();
    assert_eq!((b.left(), b.right(), b.up(), b.down()), (-1, 1, -1, 1));
    assert_eq!(b.scale(), 16);
    assert!(!b.zero_centered());
    let want = [[1, 2, 1], [2, 4, 2], [1, 2, 1]];
    for r in 0..3u32 {
        for c in 0..3u32 {
            assert_eq!(b.weight_at(r, c), Some(want[r as usize][c as usize]));
        }
    }
    let v = Convolution::v_sobel();
    assert!(v.zero_centered());
    assert_eq!(v.scale(), 16);
    let want_v = [[-16, 0, 16], [-32, 0, 32], [-16, 0, 16]];
    let h = Convolution::h_sobel();
    assert!(h.zero_centered());
    assert_eq!(h.scale(), 16);
    let want_h = [[16, 32, 16], [0, 0, 0], [-16, -32, -16]];
    for r in 0..3u32 {
        for c in 0..3u32 {
            assert_eq!(v.weight_at(r, c), Some(want_v[r as usize][c as usize]));
            assert_eq!(h.weight_at(r, c), Some(want_h[r as usize][c as usize]));
        }
    }
}

#[test]
fn kernel_parts_must_fit_together() {
    assert!(Convolution::new(-1, 1, -1, 1, false, vec![0; 9], 1).is_some());
    assert!(Convolution::new(-1, 1, -1, 1, false, vec![0; 8], 1).is_none());
    assert!(Convolution::new(-1, 1, -1, 1, false, vec![0; 10], 1).is_none());
    assert!(Convolution::new(-2, 0, 0, 1, true, vec![0; 6], 3).is_some());
    assert!(Convolution::new(1, 1, 0, 0, false, vec![0; 1], 1).is_none());
    assert!(Convolution::new(-1, -1, 0, 0, false, vec![0; 1], 1).is_none());
    assert!(Convolution::new(0, 0, 1, 1, false, vec![0; 1], 1).is_none());
    assert!(Convolution::new(0, 0, -1, -1, false, vec![0; 1], 1).is_none());
    assert!(Convolution::new(0, 0, 0, 0, false, vec![0; 1], 0).is_none());
    assert!(Convolution::new(i32::MIN, i32::MAX, i32::MIN, i32::MAX, false, vec![0; 4], 1).is_none());
}

#[test]
fn weights_are_edited_inside_the_window_only() {
    let mut k = Convolution::new(-2, 0, 0, 1, false, vec![1, 2, 3, 4, 5, 6], 1).unwrap();
    assert_eq!(k.weight_at(1, 0), Some(4));
    assert_eq!(k.weight_at(2, 0), None);
    assert_eq!(k.weight_at(0, 3), None);
    assert!(k.set_weight(1, 2, 60));
    assert!(!k.set_weight(2, 0, 70));
    assert!(!k.set_weight(0, 3, 70));
    let mut got = Vec::new();
    for r in 0..2 {
        for c in 0..3 {
            got.push(k.weight_at(r, c).unwrap());
        }
    }
    assert_eq!(got, vec![1, 2, 3, 4, 5, 60]);
    k.set_zero_centered(true);
    assert!(k.zero_centered());
    assert_eq!((k.left(), k.right(), k.up(), k.down(), k.scale()), (-2, 0, 0, 1, 1));
}

#[test]
fn threshold_is_mid_gray() {
    assert_eq!(THRESHOLD, 127);
}

#[test]
fn erosion_of_white_is_white() {
    let g = PixGrid::new(4, 3, 255, 16);
    let center_only = StructuringElement::new([false, false, false, false, true, false, false, false, false], false);
    let full = StructuringElement::new([true; 9], false);
    let empty = StructuringElement::new([false; 9], false);
    for y in 0..3 {
        for x in 0..4 {
            assert_eq!(center_only.sample(&g, x, y), 255);
            assert_eq!(full.sample(&g, x, y), 255);
            assert_eq!(empty.sample(&g, x, y), 255);
        }
    }
}

#[test]
fn dilation_of_black_is_black() {
    let g = PixGrid::new(4, 3, 0, 16);
    let full = StructuringElement::new([true; 9], true);
    let empty = StructuringElement::new([false; 9], true);
    for y in 0..3 {
        for x in 0..4 {
            assert_eq!(full.sample(&g, x, y), 0);
            assert_eq!(empty.sample(&g, x, y), 0);
            assert_eq!(StructuringElement::cross().sample(&g, x, y), 0);
        }
    }
}

#[test]
fn values_count_as_on_above_the_threshold_only() {
    let center_only = [false, false, false, false, true, false, false, false, false];
    let at = PixGrid::new(1, 1, 127, 16);
    let above = PixGrid::new(1, 1, 128, 16);
    assert_eq!(StructuringElement::new(center_only, true).sample(&at, 0, 0), 0);
    assert_eq!(StructuringElement::new(center_only, false).sample(&at, 0, 0), 0);
    assert_eq!(StructuringElement::new(center_only, true).sample(&above, 0, 0), 255);
    assert_eq!(StructuringElement::new(center_only, false).sample(&above, 0, 0), 255);
}

#[test]
fn dilation_asks_for_one_neighbor_and_erosion_for_all() {
    let g = grid_from(&[&[0, 0, 0, 0], &[0, 200, 200, 0], &[0, 200, 200, 0], &[0, 0, 0, 0]]);
    let mut e = StructuringElement::cross();
    assert!(e.dilation());
    assert_eq!(e.sample(&g, 0, 0), 0);
    assert_eq!(e.sample(&g, 1, 0), 255);
    assert_eq!(e.sample(&g, 0, 1), 255);
    assert_eq!(e.sample(&g, 1, 1), 255);
    assert_eq!(e.sample(&g, 3, 3), 0);
    e.set_dilation(false);
    assert!(!e.dilation());
    assert_eq!(e.sample(&g, 1, 1), 0);
    assert_eq!(e.sample(&g, 1, 0), 0);
    let white = grid_from(&[&[200, 200, 200], &[200, 200, 200], &[200, 200, 0]]);
    assert_eq!(e.sample(&white, 1, 1), 255);
    assert_eq!(e.sample(&white, 0, 0), 255);
    assert_eq!(e.sample(&white, 2, 1), 0);
    assert_eq!(e.sample(&white, 2, 2), 0);
}

#[test]
fn neighbors_left_out_of_the_mask_take_no_part() {
    let g = grid_from(&[&[255, 0, 0], &[0, 0, 0], &[0, 0, 0]]);
    let upper_left = StructuringElement::new([true, false, false, false, false, false, false, false, false], true);
    let others = StructuringElement::new([false, true, true, true, true, true, true, true, true], true);
    assert_eq!(upper_left.sample(&g, 1, 1), 255);
    assert_eq!(others.sample(&g, 1, 1), 0);
    let lower_right = StructuringElement::new([false, false, false, false, false, false, false, false, true], true);
    assert_eq!(lower_right.sample(&g, 1, 1), 0);
    assert_eq!(lower_right.sample(&g, -1, -1), 255);
    assert_eq!(lower_right.sample(&g, -5, -5), 255);
}

#[test]
fn mask_cells_are_named_by_their_offsets() {
    let mut e = StructuringElement::cross();
    for dy in -1..=1 {
        for dx in -1..=1 {
            assert_eq!(e.is_included(dx, dy), dx == 0 || dy == 0);
        }
    }
    assert!(!e.is_included(0, 2));
    assert!(!e.is_included(-2, 0));
    assert!(e.set_included(1, -1, true));
    assert!(e.set_included(0, 0, false));
    assert!(!e.set_included(2, 0, true));
    assert!(!e.set_included(0, -2, true));
    assert!(e.is_included(1, -1));
    assert!(!e.is_included(0, 0));
    assert!(!e.is_included(-1, 1));
    assert!(e.is_included(-1, 0));
    assert!(e.dilation());
}

#[test]
fn morphology_reads_past_the_edge_take_the_border() {
    let g = grid_from(&[&[0, 0], &[0, 255]]);
    let right = StructuringElement::new([false, false, false, false, false, true, false, false, false], true);
    assert_eq!(right.sample(&g, 1, 1), 255);
    assert_eq!(right.sample(&g, 0, 1), 255);
    assert_eq!(right.sample(&g, 1, 0), 0);
    assert_eq!(right.sample(&g, i32::MAX, i32::MAX), 255);
    assert_eq!(right.sample(&g, i32::MIN, i32::MIN), 0);
}
