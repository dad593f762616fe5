use sysmon::layout::{
    disk_net_areas, gauge_extents, halves, overview_areas, screen_areas, screen_extents, Area, Extent,
};

fn a(x: u16, y: u16, width: u16, height: u16) -> Area {
    Area { x, y, width, height }
}

#[test]
fn screen_rows() {
    let parts = screen_areas(a(0, 0, 80, 24));
    assert_eq!(parts, vec![a(0, 0, 80, 3), a(0, 3, 80, 3), a(0, 6, 80, 17), a(0, 23, 80, 1)]);
}

fn laid_out_vertically(area: Area, parts: &[Area]) -> bool {
    parts.iter().all(|p| {
        p.x == area.x
            && p.width == area.width
            && p.y >= area.y
            && p.y as u32 + p.height as u32 <= area.y as u32 + area.height as u32
    }) && parts.windows(2).all(|w| w[0].y as u32 + w[0].height as u32 <= w[1].y as u32)
}

#[test]
fn overview_columns() {
    let (left, right) = overview_areas(a(0, 6, 80, 17));
    assert_eq!(left.len(), 4);
    assert_eq!(right.len(), 2);
    assert_eq!((left[0].x, left[0].width), (0, 40));
    assert_eq!((right[0].x, right[0].width), (40, 40));
    assert!(laid_out_vertically(a(0, 6, 40, 17), &left));
    assert!(laid_out_vertically(a(40, 6, 40, 17), &right));
}

#[test]
fn screen_rows_on_short_terminal_stay_in_order() {
    let screen = a(0, 0, 30, 5);
    let parts = screen_areas(screen);
    assert_eq!(parts.len(), 4);
    assert!(laid_out_vertically(screen, &parts));
}

#[test]
fn disk_net_halves() {
    let (rows, graphs) = disk_net_areas(a(0, 0, 100, 20));
    assert_eq!(rows, vec![a(0, 0, 100, 10), a(0, 10, 100, 10)]);
    assert_eq!(graphs, vec![a(0, 10, 50, 10), a(50, 10, 50, 10)]);
}

#[test]
fn odd_halves_give_the_extra_cell_to_the_first() {
    let (rows, graphs) = disk_net_areas(a(2, 1, 101, 21));
    assert_eq!(rows, vec![a(2, 1, 101, 11), a(2, 12, 101, 10)]);
    assert_eq!(graphs, vec![a(2, 12, 51, 10), a(53, 12, 50, 10)]);
}

#[test]
fn overview_gauge_column_of_exact_height() {
    let (left, right) = overview_areas(a(0, 0, 81, 22));
    assert_eq!(left, vec![a(0, 0, 41, 3), a(0, 3, 41, 8), a(0, 11, 41, 3), a(0, 14, 41, 8)]);
    assert_eq!(right, vec![a(41, 0, 40, 11), a(41, 11, 40, 11)]);
}

#[test]
fn extent_lists() {
    assert_eq!(halves(), vec![Extent::Percentage(50), Extent::Percentage(50)]);
    assert_eq!(
        screen_extents(),
        vec![Extent::Length(3), Extent::Length(3), Extent::Min(0), Extent::Length(1)]
    );
    assert_eq!(
        gauge_extents(),
        vec![Extent::Length(3), Extent::Length(8), Extent::Length(3), Extent::Length(8)]
    );
}

#[test]
fn overview_gauge_column_on_tall_area_leaves_excess_below() {
    let (left, right) = overview_areas(a(0, 6, 80, 40));
    assert_eq!(left, vec![a(0, 6, 40, 3), a(0, 9, 40, 8), a(0, 17, 40, 3), a(0, 20, 40, 8)]);
    assert_eq!(right, vec![a(40, 6, 40, 20), a(40, 26, 40, 20)]);
}
