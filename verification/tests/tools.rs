use img_proc_demo::convolution::Convolution;
use img_proc_demo::demo::{ImgProcDemo, BACKGROUND};
use img_proc_demo::morphology::StructuringElement;
use img_proc_demo::pix_grid::PixGrid;
use img_proc_demo::tool::{Tool, ToolVars};

fn vars() -> ToolVars {
    ToolVars { pen_color: 50, conv: Convolution::binomial(), element: StructuringElement::cross() }
}

fn pattern(width: u32, height: u32) -> PixGrid {
    let mut g = PixGrid::new(width, height, 0, 16);
    for y in 0..height {
        for x in 0..width {
            assert!(g.try_set(x as i32, y as i32, ((x * 37 + y * 91) % 256) as u8));
        }
    }
    g
}

fn cells(g: &PixGrid) -> Vec<u8> {
    let mut out = Vec::new();
    for y in 0..g.height() {
        for x in 0..g.width() {
            out.push(g.get(x, y));
        }
    }
    out
}

fn hover(g: &mut PixGrid, ix: u32, iy: u32, pressed: bool) {
    let pitch = g.pix_size + g.margin;
    g.draw(Some((ix * pitch + g.margin, iy * pitch + g.margin)), pressed);
    assert_eq!(g.hovered_idx(), Some((ix, iy)));
}

#[test]
fn whole_image_copy_makes_the_target_equal_to_the_source() {
    let mut src = pattern(7, 5);
    let mut dst = PixGrid::new(7, 5, 3, 16);
    let before = cells(&src);
    Tool::Cpy.apply_to_whole_image(&vars(), &mut src, &mut dst);
    assert_eq!(cells(&dst), before);
    assert_eq!(cells(&src), before);
}

#[test]
fn whole_image_convolution_agrees_with_each_single_sample() {
    let mut src = pattern(7, 5);
    let mut dst = PixGrid::new(7, 5, 3, 16);
    let v = vars();
    Tool::Conv.apply_to_whole_image(&v, &mut src, &mut dst);
    for y in 0..5 {
        for x in 0..7 {
            assert_eq!(dst.get(x, y), Tool::convolution(x, y, &v.conv, &src));
            assert_eq!(dst.get(x, y), Tool::Conv.preview(&v, &src, x, y));
            assert_eq!(dst.get(x, y), v.conv.sample(&src, x, y));
        }
    }
    assert_eq!(cells(&src), cells(&pattern(7, 5)));
}

#[test]
fn whole_image_morphology_agrees_with_each_single_sample() {
    let mut src = pattern(7, 5);
    let mut dst = PixGrid::new(7, 5, 3, 16);
    let mut v = vars();
    for dilation in [true, false] {
        v.element.set_dilation(dilation);
        Tool::Boolean.apply_to_whole_image(&v, &mut src, &mut dst);
        for y in 0..5 {
            for x in 0..7 {
                assert_eq!(dst.get(x, y), Tool::bool_op(x as i32, y as i32, &v, &src));
                assert_eq!(dst.get(x, y), v.element.sample(&src, x as i32, y as i32));
            }
        }
    }
}

#[test]
fn whole_image_pen_fills_the_source_and_spares_the_target() {
    let mut src = pattern(7, 5);
    let mut dst = pattern(7, 5);
    Tool::Pen.apply_to_whole_image(&vars(), &mut src, &mut dst);
    assert_eq!(cells(&src), vec![50u8; 35]);
    assert_eq!(cells(&dst), cells(&pattern(7, 5)));
}

#[test]
fn whole_image_run_writes_only_where_both_images_have_a_cell() {
    let mut src = pattern(3, 2);
    let mut dst = PixGrid::new(5, 4, 9, 16);
    Tool::Cpy.apply_to_whole_image(&vars(), &mut src, &mut dst);
    for y in 0..4 {
        for x in 0..5 {
            let want = if x < 3 && y < 2 { src.get(x, y) } else { 9 };
            assert_eq!(dst.get(x, y), want);
        }
    }
    let mut small = PixGrid::new(2, 1, 9, 16);
    Tool::Cpy.apply_to_whole_image(&vars(), &mut src, &mut small);
    assert_eq!(cells(&small), vec![src.get(0, 0), src.get(1, 0)]);
}

#[test]
fn preview_gives_the_value_of_each_tool() {
    let src = pattern(7, 5);
    let v = vars();
    assert_eq!(Tool::Pen.preview(&v, &src, 2, 3), 50);
    assert_eq!(Tool::Cpy.preview(&v, &src, 2, 3), src.get(2, 3));
    assert_eq!(Tool::Conv.preview(&v, &src, 2, 3), v.conv.sample(&src, 2, 3));
    assert_eq!(Tool::Boolean.preview(&v, &src, 2, 3), v.element.sample(&src, 2, 3));
}

#[test]
fn interaction_without_a_hovered_cell_does_nothing() {
    let mut src = pattern(7, 5);
    let mut dst = PixGrid::new(7, 5, 3, 16);
    for tool in [Tool::Pen, Tool::Cpy, Tool::Conv, Tool::Boolean] {
        assert_eq!(tool.interact(&vars(), &mut src, &mut dst), None);
    }
    assert_eq!(cells(&src), cells(&pattern(7, 5)));
    assert_eq!(cells(&dst), vec![3u8; 35]);
}

#[test]
fn interaction_without_a_press_only_shows_the_value() {
    let mut src = pattern(7, 5);
    let mut dst = PixGrid::new(7, 5, 3, 16);
    hover(&mut src, 4, 1, false);
    let v = vars();
    assert_eq!(Tool::Pen.interact(&v, &mut src, &mut dst), Some(50));
    assert_eq!(Tool::Cpy.interact(&v, &mut src, &mut dst), Some(src.get(4, 1)));
    assert_eq!(Tool::Conv.interact(&v, &mut src, &mut dst), Some(v.conv.sample(&src, 4, 1)));
    assert_eq!(Tool::Boolean.interact(&v, &mut src, &mut dst), Some(v.element.sample(&src, 4, 1)));
    assert_eq!(cells(&src), cells(&pattern(7, 5)));
    assert_eq!(cells(&dst), vec![3u8; 35]);
}

#[test]
fn pressed_pen_paints_one_cell_of_the_source() {
    let mut src = pattern(7, 5);
    let mut dst = PixGrid::new(7, 5, 3, 16);
    hover(&mut src, 4, 1, true);
    assert_eq!(Tool::Pen.interact(&vars(), &mut src, &mut dst), Some(50));
    let mut want = cells(&pattern(7, 5));
    want[1 * 7 + 4] = 50;
    assert_eq!(cells(&src), want);
    assert_eq!(cells(&dst), vec![3u8; 35]);
}

#[test]
fn pressed_tools_write_one_cell_of_the_target() {
    let v = vars();
    for tool in [Tool::Cpy, Tool::Conv, Tool::Boolean] {
        let mut src = pattern(7, 5);
        let mut dst = PixGrid::new(7, 5, 3, 16);
        hover(&mut src, 6, 4, true);
        let want_value = tool.preview(&v, &src, 6, 4);
        assert_eq!(tool.interact(&v, &mut src, &mut dst), Some(want_value));
        let mut want = vec![3u8; 35];
        want[4 * 7 + 6] = want_value;
        assert_eq!(cells(&dst), want);
        assert_eq!(cells(&src), cells(&pattern(7, 5)));
    }
}

#[test]
fn pressed_tool_misses_a_smaller_target() {
    let mut src = pattern(7, 5);
    let mut dst = PixGrid::new(2, 2, 3, 16);
    hover(&mut src, 6, 4, true);
    assert_eq!(Tool::Cpy.interact(&vars(), &mut src, &mut dst), Some(src.get(6, 4)));
    assert_eq!(cells(&dst), vec![3u8; 4]);
}

#[test]
fn only_the_pen_writes_into_the_source() {
    assert!(Tool::Pen.targets_source());
    assert!(!Tool::Cpy.targets_source());
    assert!(!Tool::Conv.targets_source());
    assert!(!Tool::Boolean.targets_source());
}

#[test]
fn footprint_is_the_window_cut_down_to_the_grid() {
    let src = pattern(7, 5);
    let mut v = vars();
    assert_eq!(Tool::Pen.footprint(&v, &src, 3, 2), (3, 2, 3, 2));
    assert_eq!(Tool::Cpy.footprint(&v, &src, 0, 4), (0, 4, 0, 4));
    assert_eq!(Tool::Conv.footprint(&v, &src, 3, 2), (2, 1, 4, 3));
    assert_eq!(Tool::Conv.footprint(&v, &src, 0, 0), (0, 0, 1, 1));
    assert_eq!(Tool::Conv.footprint(&v, &src, 6, 4), (5, 3, 6, 4));
    assert_eq!(Tool::Boolean.footprint(&v, &src, 6, 0), (5, 0, 6, 1));
    v.conv = Convolution::new(-3, 0, 0, 2, false, vec![0; 12], 1).unwrap();
    assert_eq!(Tool::Conv.footprint(&v, &src, 2, 3), (0, 3, 2, 4));
}

#[test]
fn fresh_session_has_one_black_cell() {
    let s = ImgProcDemo::new();
    assert_eq!(BACKGROUND, 180);
    assert_eq!((s.src_grid.width(), s.src_grid.height()), (20, 12));
    assert_eq!((s.dst_grid.width(), s.dst_grid.height()), (20, 12));
    assert_eq!(s.src_grid.pix_size, 16);
    assert_eq!(s.dst_grid.pix_size, 16);
    for y in 0..12 {
        for x in 0..20 {
            let want = if x == 5 && y == 2 { 0 } else { 180 };
            assert_eq!(s.src_grid.get(x, y), want);
            assert_eq!(s.dst_grid.get(x, y), 180);
        }
    }
    assert!(s.tool == Tool::Pen);
    assert_eq!(s.tool_vars.pen_color, 50);
    assert_eq!(s.tool_vars.conv.scale(), 16);
    assert_eq!(s.tool_vars.conv.weight_at(1, 1), Some(4));
    assert!(s.tool_vars.element.dilation());
    assert!(s.tool_vars.element.is_included(0, 0));
    assert!(!s.tool_vars.element.is_included(1, 1));
}

#[test]
fn session_presets_replace_the_kernel_only() {
    let mut s = ImgProcDemo::new();
    s.conv_v_sobel();
    assert!(s.tool_vars.conv.zero_centered());
    assert_eq!(s.tool_vars.conv.weight_at(1, 0), Some(-32));
    assert!(s.tool == Tool::Pen);
    s.conv_h_sobel();
    assert_eq!(s.tool_vars.conv.weight_at(0, 1), Some(32));
    assert_eq!(s.tool_vars.conv.weight_at(1, 0), Some(0));
    s.conv_binomial();
    assert!(!s.tool_vars.conv.zero_centered());
    assert_eq!(s.tool_vars.conv.weight_at(1, 0), Some(2));
    assert_eq!(s.tool_vars.pen_color, 50);
    assert_eq!(s.src_grid.get(5, 2), 0);
}

#[test]
fn choosing_a_tool_keeps_the_parameters() {
    let mut s = ImgProcDemo::new();
    s.set_pen_color(200);
    s.select_tool(Tool::Boolean);
    assert!(s.tool == Tool::Boolean);
    assert_eq!(s.tool_vars.pen_color, 200);
    s.select_tool(Tool::Conv);
    s.set_pen_color(10);
    assert!(s.tool == Tool::Pen);
    assert_eq!(s.tool_vars.pen_color, 10);
    assert_eq!(s.tool_vars.conv.weight_at(1, 1), Some(4));
}

#[test]
fn session_runs_its_tool_over_the_whole_image() {
    let mut s = ImgProcDemo::new();
    s.select_tool(Tool::Conv);
    s.apply_to_whole_image();
    // Around the black cell the binomial filter takes away 180 times its weight.
    assert_eq!(s.dst_grid.get(5, 2), 135);
    assert_eq!(s.dst_grid.get(4, 2), 158);
    assert_eq!(s.dst_grid.get(4, 1), 169);
    assert_eq!(s.dst_grid.get(3, 2), 180);
    assert_eq!(s.src_grid.get(5, 2), 0);
    s.copy_target_to_source();
    assert_eq!(cells(&s.src_grid), cells(&s.dst_grid));
    s.select_tool(Tool::Pen);
    s.apply_to_whole_image();
    assert_eq!(cells(&s.src_grid), vec![50u8; 240]);
    assert_eq!(s.dst_grid.get(5, 2), 135);
    s.reset();
    assert_eq!(cells(&s.src_grid), vec![180u8; 240]);
    assert_eq!(cells(&s.dst_grid), vec![180u8; 240]);
}

#[test]
fn session_interaction_uses_the_tool_in_hand() {
    let mut s = ImgProcDemo::new();
    assert_eq!(s.interact(), None);
    hover(&mut s.src_grid, 5, 2, true);
    s.select_tool(Tool::Cpy);
    assert_eq!(s.interact(), Some(0));
    assert_eq!(s.dst_grid.get(5, 2), 0);
    s.select_tool(Tool::Pen);
    assert_eq!(s.interact(), Some(50));
    assert_eq!(s.src_grid.get(5, 2), 50);
    assert_eq!(s.dst_grid.get(5, 2), 0);
}
