use port_finder::geometry::{centered_rect, Area};

#[test]
fn centered_rect_takes_the_middle_band_of_both_axes() {
    let screen = Area { x: 0, y: 0, width: 100, height: 50 };
    let popup = centered_rect(60, 60, screen);
    assert_eq!(popup, Area { x: 20, y: 10, width: 60, height: 30 });
}

#[test]
fn centered_rect_keeps_the_offset_of_the_outer_area() {
    let screen = Area { x: 10, y: 4, width: 200, height: 100 };
    let popup = centered_rect(50, 50, screen);
    assert_eq!(popup, Area { x: 60, y: 29, width: 100, height: 50 });
}

#[test]
fn centered_rect_of_full_percentages_is_the_whole_area() {
    let screen = Area { x: 3, y: 2, width: 40, height: 20 };
    let popup = centered_rect(100, 100, screen);
    assert_eq!(popup, screen);
}

#[test]
fn centered_rect_stays_inside_an_area_at_the_coordinate_limit() {
    let screen = Area { x: 65000, y: 65100, width: 1000, height: 1000 };
    let popup = centered_rect(52, 24, screen);
    assert!(screen.x <= popup.x && screen.y <= popup.y);
    assert!(popup.x as u32 + popup.width as u32 <= screen.x as u32 + screen.width as u32);
    assert!(popup.y as u32 + popup.height as u32 <= screen.y as u32 + screen.height as u32);
}
