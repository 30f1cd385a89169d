use conway_life::controller::Controller;
use conway_life::game_of_life::Point;

fn live(controller: &Controller) -> Vec<(usize, usize)> {
    let (_, mut iter) = controller.render();
    let mut cells = Vec::new();
    while let Some(cell) = iter.next() {
        if cell.alive {
            cells.push((cell.x, cell.y));
        }
    }
    cells
}

#[test]
fn new_controller_runs_and_does_not_paint() {
    let controller = Controller::new(4, 3, 5);
    assert!(controller.active());
    assert!(!controller.dragging());
    assert_eq!(controller.cell_size(), 5);
    assert_eq!(live(&controller), vec![]);
}

#[test]
fn render_hands_out_cell_size_and_every_cell() {
    let mut controller = Controller::new(3, 2, 7);
    controller.load(&[Point { x: 2, y: 1 }]);
    let (cell_size, mut iter) = controller.render();
    assert_eq!(cell_size, 7);
    let mut seen = Vec::new();
    while let Some(cell) = iter.next() {
        seen.push((cell.x, cell.y, cell.alive));
    }
    assert_eq!(
        seen,
        vec![
            (0, 0, false),
            (1, 0, false),
            (2, 0, false),
            (0, 1, false),
            (1, 1, false),
            (2, 1, true),
        ]
    );
}

#[test]
fn mouse_move_without_dragging_changes_nothing() {
    let mut controller = Controller::new(5, 5, 5);
    controller.mouse_move(10, 10);
    controller.mouse_move(0, 0);
    assert_eq!(live(&controller), vec![]);
}

#[test]
fn mouse_move_while_dragging_paints_the_cell_under_the_pixel() {
    let mut controller = Controller::new(5, 5, 5);
    controller.set_dragging(true);
    controller.mouse_move(10, 10);
    assert_eq!(live(&controller), vec![(2, 2)]);
}

#[test]
fn pixel_maps_to_cell_by_truncating_division() {
    let mut controller = Controller::new(4, 4, 3);
    controller.set_dragging(true);
    controller.mouse_move(0, 0);
    controller.mouse_move(2, 3);
    controller.mouse_move(11, 8);
    assert_eq!(live(&controller), vec![(0, 0), (0, 1), (3, 2)]);
}

#[test]
fn pixel_outside_the_grid_paints_nothing() {
    let mut controller = Controller::new(4, 4, 3);
    controller.set_dragging(true);
    controller.mouse_move(12, 0);
    controller.mouse_move(0, 12);
    controller.mouse_move(usize::MAX, usize::MAX);
    assert_eq!(live(&controller), vec![]);
}

#[test]
fn painting_stops_when_dragging_stops() {
    let mut controller = Controller::new(4, 4, 2);
    controller.set_dragging(true);
    controller.mouse_move(2, 2);
    controller.set_dragging(false);
    controller.mouse_move(6, 6);
    assert!(!controller.dragging());
    assert_eq!(live(&controller), vec![(1, 1)]);
}

#[test]
fn update_steps_while_active() {
    let mut controller = Controller::new(5, 5, 1);
    controller.load(&[Point { x: 1, y: 2 }, Point { x: 2, y: 2 }, Point { x: 3, y: 2 }]);
    controller.update();
    assert_eq!(live(&controller), vec![(2, 1), (2, 2), (2, 3)]);
}

#[test]
fn update_does_nothing_while_paused() {
    let mut controller = Controller::new(5, 5, 1);
    controller.load(&[Point { x: 1, y: 2 }, Point { x: 2, y: 2 }, Point { x: 3, y: 2 }]);
    controller.set_active(false);
    controller.update();
    assert!(!controller.active());
    assert_eq!(live(&controller), vec![(1, 2), (2, 2), (3, 2)]);
    controller.set_active(true);
    controller.update();
    assert_eq!(live(&controller), vec![(2, 1), (2, 2), (2, 3)]);
}

#[test]
fn flags_are_independent() {
    let mut controller = Controller::new(2, 2, 1);
    controller.set_dragging(true);
    assert!(controller.active());
    controller.set_active(false);
    assert!(controller.dragging());
    controller.set_dragging(false);
    assert!(!controller.active());
}

#[test]
fn load_replaces_what_was_painted() {
    let mut controller = Controller::new(4, 4, 2);
    controller.set_dragging(true);
    controller.mouse_move(0, 0);
    controller.load(&[Point { x: 3, y: 3 }, Point { x: 9, y: 9 }]);
    assert!(controller.dragging());
    assert_eq!(controller.cell_size(), 2);
    assert_eq!(live(&controller), vec![(3, 3)]);
}
