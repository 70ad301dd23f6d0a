use ui_layout::{DebugColor, FlexDirection, Node, NodeData, Rect, UiScreen, ZIndex};

fn leaf(d: NodeData<DebugColor>) -> Node<DebugColor> {
    Node::new(d)
}

fn free(dir: FlexDirection) -> NodeData<DebugColor> {
    NodeData::empty(dir, DebugColor::blue())
}

fn width_of(r: &Rect<DebugColor>) -> i64 {
    r.x[1] - r.x[0]
}

fn height_of(r: &Rect<DebugColor>) -> i64 {
    r.y[2] - r.y[0]
}

#[test]
fn root_alone_covers_viewport() {
    let mut screen = UiScreen::new(800, 600, free(FlexDirection::Row));
    let rects = screen.into_rectangles(800, 600).unwrap();
    assert_eq!(rects.len(), 1);
    assert_eq!(rects[0].x, [0, 800, 0, 800]);
    assert_eq!(rects[0].y, [0, 0, 600, 600]);
    assert_eq!(rects[0].z, ZIndex { num: 1, den: 2 });
}

#[test]
fn root_takes_new_viewport() {
    let mut screen = UiScreen::new(800, 600, free(FlexDirection::Row));
    let rects = screen.into_rectangles(1024, 768).unwrap();
    assert_eq!(rects[0].x, [0, 1024, 0, 1024]);
    assert_eq!(rects[0].y, [0, 0, 768, 768]);
    assert_eq!(screen.root.data.width, Some(1024));
    assert_eq!(screen.root.data.height, Some(768));
}

#[test]
fn row_children_share_width_exactly() {
    let mut screen = UiScreen::new(200, 100, free(FlexDirection::Row));
    for _ in 0..3 {
        screen.root.append(leaf(free(FlexDirection::Row)));
    }
    let rects = screen.into_rectangles(200, 100).unwrap();
    assert_eq!(rects.len(), 4);
    let widths: Vec<i64> = rects[..3].iter().map(width_of).collect();
    assert_eq!(widths, vec![66, 67, 67]);
    assert_eq!(widths.iter().sum::<i64>(), 200);
    let mut left = 0;
    for r in &rects[..3] {
        assert_eq!(r.x[0], left);
        assert_eq!(height_of(r), 100);
        left += width_of(r);
    }
}

#[test]
fn exact_width_first_sibling_takes_rest() {
    let mut screen = UiScreen::new(200, 100, free(FlexDirection::Row));
    let fixed = NodeData::new(None, None, None, None, Some(50), None, FlexDirection::Row, DebugColor::red());
    screen.root.append(leaf(fixed));
    screen.root.append(leaf(free(FlexDirection::Row)));
    let rects = screen.into_rectangles(200, 100).unwrap();
    assert_eq!(width_of(&rects[0]), 50);
    assert_eq!(width_of(&rects[1]), 150);
    assert_eq!(rects[1].x[0], 50);
}

#[test]
fn exact_width_second_sibling_after_even_share() {
    let mut screen = UiScreen::new(200, 100, free(FlexDirection::Row));
    let fixed = NodeData::new(None, None, None, None, Some(50), None, FlexDirection::Row, DebugColor::red());
    screen.root.append(leaf(free(FlexDirection::Row)));
    screen.root.append(leaf(fixed));
    let rects = screen.into_rectangles(200, 100).unwrap();
    assert_eq!(width_of(&rects[0]), 100);
    assert_eq!(width_of(&rects[1]), 50);
    assert_eq!(rects[1].x[0], 100);
}

#[test]
fn max_width_clamps_down() {
    let mut screen = UiScreen::new(1000, 100, free(FlexDirection::Row));
    let capped = NodeData::new(None, None, Some(100), None, None, None, FlexDirection::Row, DebugColor::red());
    screen.root.append(leaf(capped));
    let rects = screen.into_rectangles(1000, 100).unwrap();
    assert_eq!(width_of(&rects[0]), 100);
    assert_eq!(height_of(&rects[0]), 100);
}

#[test]
fn min_width_applies_after_max() {
    let mut screen = UiScreen::new(1000, 100, free(FlexDirection::Row));
    let conflicting = NodeData::new(Some(300), None, Some(100), None, None, None, FlexDirection::Row, DebugColor::red());
    screen.root.append(leaf(conflicting));
    let rects = screen.into_rectangles(1000, 100).unwrap();
    assert_eq!(width_of(&rects[0]), 300);
}

#[test]
fn min_size_overflows_parent() {
    let mut screen = UiScreen::new(100, 100, free(FlexDirection::Row));
    let wide = NodeData::new(Some(150), None, None, None, None, None, FlexDirection::Row, DebugColor::red());
    screen.root.append(leaf(wide));
    screen.root.append(leaf(free(FlexDirection::Row)));
    let rects = screen.into_rectangles(100, 100).unwrap();
    assert_eq!(width_of(&rects[0]), 150);
    assert_eq!(rects[1].x[0], 150);
    assert_eq!(width_of(&rects[1]), -50);
}

#[test]
fn column_root_two_children() {
    let mut screen = UiScreen::new(800, 600, free(FlexDirection::Row)).with_root_as_column();
    assert_eq!(screen.root.data.flex_direction, FlexDirection::Column);
    screen.root.append(leaf(free(FlexDirection::Row)));
    screen.root.append(leaf(free(FlexDirection::Row)));
    let rects = screen.into_rectangles(800, 600).unwrap();
    assert_eq!(rects.len(), 3);
    assert_eq!(rects[0].x, [0, 800, 0, 800]);
    assert_eq!(rects[0].y, [0, 0, 300, 300]);
    assert_eq!(rects[1].x, [0, 800, 0, 800]);
    assert_eq!(rects[1].y, [300, 300, 600, 600]);
    assert_eq!(rects[0].z, ZIndex { num: 4, den: 6 });
    assert_eq!(rects[1].z, ZIndex { num: 5, den: 6 });
    assert_eq!(rects[2].z, ZIndex { num: 1, den: 2 });
}

#[test]
fn explorer_layout() {
    let mut screen = UiScreen::new(800, 600, free(FlexDirection::Row)).with_root_as_column();
    let mut top_bar = leaf(NodeData::new(None, None, None, None, None, Some(100), FlexDirection::Column, DebugColor::green()));
    top_bar.append(leaf(NodeData::new(None, None, None, None, None, Some(24), FlexDirection::Column, DebugColor::blue())));
    top_bar.append(leaf(NodeData::new(None, None, None, None, None, Some(76), FlexDirection::Column, DebugColor::yellow())));
    screen.root.append(top_bar);
    let mut explorer = leaf(free(FlexDirection::Row));
    explorer.append(leaf(NodeData::new(None, None, Some(200), None, None, None, FlexDirection::Column, DebugColor::red())));
    explorer.append(leaf(free(FlexDirection::Column)));
    screen.root.append(explorer);
    assert_eq!(screen.root.child_count(), 2);

    let rects = screen.into_rectangles(800, 600).unwrap();
    let boxes: Vec<(i64, i64, i64, i64)> =
        rects.iter().map(|r| (r.x[0], r.y[0], width_of(r), height_of(r))).collect();
    assert_eq!(
        boxes,
        vec![
            (0, 0, 800, 24),
            (0, 24, 800, 76),
            (0, 0, 800, 100),
            (0, 100, 200, 500),
            (200, 100, 600, 500),
            (0, 100, 800, 500),
            (0, 0, 800, 600),
        ]
    );
    assert_eq!(rects[3].data.data, DebugColor::red());
    assert_eq!(rects[6].data.data, DebugColor::blue());
}

#[test]
fn descendants_painted_after_ancestors() {
    let mut screen = UiScreen::new(300, 300, free(FlexDirection::Row));
    for _ in 0..3 {
        let mut mid = leaf(free(FlexDirection::Column));
        for _ in 0..2 {
            mid.append(leaf(free(FlexDirection::Row)));
        }
        screen.root.append(mid);
    }
    let rects = screen.into_rectangles(300, 300).unwrap();
    // post-order: (c, c, mid) three times, then the root
    assert_eq!(rects.len(), 10);
    let root_z = rects[9].z;
    for r in &rects[..9] {
        assert!(root_z.is_below(&r.z));
    }
    for block in 0..3 {
        let mid_z = rects[block * 3 + 2].z;
        assert!(mid_z.is_below(&rects[block * 3].z));
        assert!(mid_z.is_below(&rects[block * 3 + 1].z));
        if block < 2 {
            for later in &rects[(block + 1) * 3..9] {
                for earlier in &rects[block * 3..block * 3 + 3] {
                    assert!(earlier.z.is_below(&later.z));
                }
            }
        }
    }
}

#[test]
fn second_layout_is_identical() {
    let mut screen = UiScreen::new(640, 480, free(FlexDirection::Row));
    screen.root.append(leaf(free(FlexDirection::Column)));
    screen.root.append(leaf(NodeData::new(Some(10), Some(20), Some(400), None, None, Some(33), FlexDirection::Row, DebugColor::green())));
    let first = screen.into_rectangles(640, 480).unwrap();
    let second = screen.into_rectangles(640, 480).unwrap();
    assert_eq!(first.len(), second.len());
    for (a, b) in first.iter().zip(second.iter()) {
        assert_eq!(a.x, b.x);
        assert_eq!(a.y, b.y);
        assert_eq!(a.z, b.z);
        assert_eq!(a.data.data, b.data.data);
    }
}

#[test]
fn coordinates_out_of_range_give_none() {
    let mut screen = UiScreen::new(100, 100, free(FlexDirection::Row));
    let huge = NodeData::new(None, None, None, None, Some(i64::MAX), None, FlexDirection::Row, DebugColor::red());
    screen.root.append(leaf(huge));
    screen.root.append(leaf(huge));
    assert!(screen.into_rectangles(100, 100).is_none());
}

#[test]
fn largest_coordinates_that_fit() {
    let mut screen = UiScreen::new(100, 100, free(FlexDirection::Row));
    let huge = NodeData::new(None, None, None, None, Some(i64::MAX), None, FlexDirection::Row, DebugColor::red());
    screen.root.append(leaf(huge));
    let rects = screen.into_rectangles(100, 100).unwrap();
    assert_eq!(rects[0].x, [0, i64::MAX, 0, i64::MAX]);
}

#[test]
fn deep_tree_exhausts_paint_order() {
    let mut node = leaf(free(FlexDirection::Row));
    for _ in 0..70 {
        let mut parent = leaf(free(FlexDirection::Row));
        parent.append(node);
        node = parent;
    }
    let mut screen = UiScreen::new(10, 10, free(FlexDirection::Row));
    screen.root.append(node);
    assert!(screen.into_rectangles(10, 10).is_none());
}

#[test]
fn negative_exact_size_is_kept() {
    let mut screen = UiScreen::new(100, 100, free(FlexDirection::Column));
    let d = NodeData::new(None, None, None, None, Some(-5), None, FlexDirection::Row, DebugColor::red());
    screen.root.append(leaf(d));
    let rects = screen.into_rectangles(100, 100).unwrap();
    assert_eq!(width_of(&rects[0]), -5);
    assert_eq!(height_of(&rects[0]), 100);
}

#[test]
fn zero_viewport() {
    let mut screen = UiScreen::new(0, 0, free(FlexDirection::Row));
    screen.root.append(leaf(free(FlexDirection::Row)));
    let rects = screen.into_rectangles(0, 0).unwrap();
    assert_eq!(rects[0].x, [0, 0, 0, 0]);
    assert_eq!(rects[1].y, [0, 0, 0, 0]);
}
