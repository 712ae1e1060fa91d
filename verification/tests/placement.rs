use ledmatrix::placement::{
    validate_placement, validate_placements, Placement, PlacementFault,
};
use ledmatrix::widget::Shape;

fn place(panel: usize, x: usize, y: usize, w: usize, h: usize) -> Placement {
    Placement { panel, x, y, shape: Shape { x: w, y: h } }
}

#[test]
fn boundary_placement_is_accepted() {
    // Touching both panel edges exactly is allowed.
    let p = place(0, 4, 30, 5, 4);
    assert!(validate_placement(&p, 1).is_ok());
    let full = place(0, 0, 0, 9, 34);
    assert!(validate_placement(&full, 1).is_ok());
}

#[test]
fn one_past_the_edge_is_rejected() {
    // x + width == 10 > 9: one cell too wide.
    let wide = place(0, 5, 30, 5, 4);
    assert_eq!(validate_placement(&wide, 1), Err(PlacementFault::TooWide));
    // y + height == 35 > 34: one cell too tall.
    let tall = place(0, 4, 31, 5, 4);
    assert_eq!(validate_placement(&tall, 1), Err(PlacementFault::TooTall));
}

#[test]
fn unknown_panel_is_rejected() {
    let p = place(1, 0, 0, 9, 2);
    assert_eq!(validate_placement(&p, 1), Err(PlacementFault::UnknownPanel));
    assert!(validate_placement(&p, 2).is_ok());
}

#[test]
fn overflowing_coordinates_are_rejected() {
    let wide = place(0, usize::MAX, 0, 2, 2);
    assert_eq!(validate_placement(&wide, 1), Err(PlacementFault::TooWide));
    let tall = place(0, 0, usize::MAX, 2, 2);
    assert_eq!(validate_placement(&tall, 1), Err(PlacementFault::TooTall));
}

#[test]
fn empty_placement_list_is_accepted() {
    let ps: Vec<Placement> = Vec::new();
    assert!(validate_placements(&ps, 0).is_ok());
}

#[test]
fn first_offending_placement_is_reported() {
    let ps = vec![
        place(0, 0, 0, 9, 2),
        place(0, 5, 0, 5, 2),
        place(3, 0, 0, 9, 2),
    ];
    let err = validate_placements(&ps, 1).unwrap_err();
    assert_eq!(err.index, 1);
    assert_eq!(err.fault, PlacementFault::TooWide);
    assert_eq!(err.placement, ps[1]);
    assert_eq!(err.num_panels, 1);
}

#[test]
fn all_valid_placements_are_accepted() {
    let ps = vec![place(0, 0, 0, 9, 2), place(1, 0, 32, 9, 2)];
    assert!(validate_placements(&ps, 2).is_ok());
}

#[test]
fn placement_built_from_config_entry() {
    let cfg = ledmatrix::config::WidgetConfig {
        panel: 1,
        x: 2,
        y: 3,
        setup: ledmatrix::config::WidgetSetup::Battery,
    };
    let p = ledmatrix::config::placement_of(&cfg, Shape { x: 9, y: 2 });
    assert_eq!(p, place(1, 2, 3, 9, 2));
}
