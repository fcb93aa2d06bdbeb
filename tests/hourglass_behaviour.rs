use hourglass::flow::MoveDirection;
use hourglass::grid::Grid;
use hourglass::hourglass::Hourglass;
use rand::rngs::StdRng;
use rand::SeedableRng;

const EMPTY_7_BY_12: &str = "=======\n\
|     |\n\
|     |\n\
\\     /\n \\   / \n  \\ /  \n  / \\  \n /   \\ \n/     \\\n\
|     |\n\
|     |\n\
=======";

fn total(glass: &Hourglass) -> usize {
    glass.count_sand(0..glass.width(), 0..glass.height())
}

fn all_down(glass: &Hourglass) -> Vec<MoveDirection> {
    vec![MoveDirection::Down; glass.width() * glass.height()]
}

#[test]
fn renders_empty_seven_by_twelve() {
    let glass = Hourglass::new(7, 12);
    assert_eq!(glass.render(), EMPTY_7_BY_12);
    assert_eq!(glass.width(), 7);
    assert_eq!(glass.height(), 12);
    assert!(!glass.pinched());
}

#[test]
fn renders_odd_height_with_neck_walls() {
    let glass = Hourglass::new(5, 9);
    let expected = "=====\n\
|   |\n\
\\   /\n \\ / \n | | \n / \\ \n/   \\\n\
|   |\n\
=====";
    assert_eq!(glass.render(), expected);
}

#[test]
fn layout_is_mirror_symmetric() {
    for (w, h) in [(7usize, 12usize), (5, 9), (9, 13), (3, 4), (1, 2), (1, 3), (11, 30)] {
        let text = Hourglass::new(w, h).render();
        let rows: Vec<Vec<char>> = text.split('\n').map(|r| r.chars().collect()).collect();
        assert_eq!(rows.len(), h);
        let mirror = |c: char| match c {
            '/' => '\\',
            '\\' => '/',
            other => other,
        };
        for y in 0..h {
            assert_eq!(rows[y].len(), w);
            for x in 0..w {
                assert_eq!(rows[y][w - 1 - x], mirror(rows[y][x]), "left-right at {},{}", x, y);
                assert_eq!(rows[h - 1 - y][x], mirror(rows[y][x]), "top-bottom at {},{}", x, y);
                assert_eq!(rows[h - 1 - y][w - 1 - x], rows[y][x], "half turn at {},{}", x, y);
            }
        }
    }
}

#[test]
fn interior_of_seven_by_twelve() {
    let glass = Hourglass::new(7, 12);
    let inside = glass.get_interior_positions();
    assert_eq!(inside.len(), 38);
    assert_eq!(inside[0], (1, 1));
    assert_eq!(inside[4], (5, 1));
    assert_eq!(inside[15], (2, 4));
    assert_eq!(inside[18], (3, 5));
    assert_eq!(inside[19], (3, 6));
    assert_eq!(inside[37], (5, 10));
    for pos in &inside {
        assert!(!glass.is_solid_at(*pos));
    }
}

#[test]
fn solidity_outside_wall_and_full_cell() {
    let mut glass = Hourglass::new(7, 12);
    assert!(glass.is_solid_at((7, 3)));
    assert!(glass.is_solid_at((3, 12)));
    assert!(glass.is_solid_at((0, 0)));
    assert!(glass.is_solid_at((0, 1)));
    assert!(!glass.is_solid_at((3, 2)));
    assert!(glass.try_place_sand((3, 2)));
    assert!(!glass.is_solid_at((3, 2)));
    assert!(glass.try_place_sand((3, 2)));
    assert!(glass.is_solid_at((3, 2)));
}

#[test]
fn place_on_full_cell_changes_nothing() {
    let mut glass = Hourglass::new(7, 12);
    assert!(glass.try_place_sand((2, 2)));
    assert!(glass.try_place_sand((2, 2)));
    let before = glass.render();
    let top = glass.count_top_sand();
    let bottom = glass.count_bottom_sand();
    assert!(!glass.try_place_sand((2, 2)));
    assert_eq!(glass.render(), before);
    assert_eq!(glass.count_top_sand(), top);
    assert_eq!(glass.count_bottom_sand(), bottom);
    assert_eq!(total(&glass), 2);
}

#[test]
fn placed_grains_show_as_dot_and_colon() {
    let mut glass = Hourglass::new(7, 12);
    assert!(glass.try_place_sand((1, 1)));
    assert!(glass.try_place_sand((2, 1)));
    assert!(glass.try_place_sand((2, 1)));
    let text = glass.render();
    assert_eq!(text.split('\n').nth(1), Some("|.:   |"));
}

#[test]
fn fill_with_nothing_leaves_inside_empty() {
    let mut glass = Hourglass::new(7, 12);
    glass.fill_with_sand_from_top(0, 1);
    assert_eq!(total(&glass), 0);
    assert_eq!(glass.render(), EMPTY_7_BY_12);
}

#[test]
fn fill_completely_saturates_inside() {
    let mut glass = Hourglass::new(7, 12);
    glass.fill_with_sand_from_top(1, 1);
    assert_eq!(total(&glass), 76);
    for pos in glass.get_interior_positions() {
        assert!(glass.is_solid_at(pos));
    }
    assert_eq!(glass.count_top_sand(), 38);
    assert_eq!(glass.count_bottom_sand(), 38);
}

#[test]
fn fill_three_eighths_fills_from_top() {
    let mut glass = Hourglass::new(7, 12);
    glass.fill_with_sand_from_top(3, 8);
    assert_eq!(total(&glass), 28);
    assert_eq!(glass.count_top_sand(), 28);
    assert_eq!(glass.count_bottom_sand(), 0);
    let text = glass.render();
    let rows: Vec<&str> = text.split('\n').collect();
    assert_eq!(rows[1], "|:::::|");
    assert_eq!(rows[2], "|:::::|");
    assert_eq!(rows[3], "\\:::: /");
    assert_eq!(rows[4], " \\   / ");
}

#[test]
fn fill_tops_up_a_partly_filled_cell() {
    let mut glass = Hourglass::new(7, 12);
    assert!(glass.try_place_sand((1, 1)));
    glass.fill_with_sand_from_top(1, 38);
    assert_eq!(glass.count_sand(1..2, 1..2), 2);
    assert_eq!(glass.count_sand(2..3, 1..2), 1);
    assert_eq!(total(&glass), 3);
}

#[test]
fn count_sand_over_rectangles() {
    let mut glass = Hourglass::new(7, 12);
    glass.fill_with_sand_from_top(1, 1);
    assert_eq!(glass.count_sand(1..3, 1..3), 8);
    assert_eq!(glass.count_sand(3..3, 0..12), 0);
    assert_eq!(glass.count_sand(0..7, 5..5), 0);
    assert_eq!(glass.count_sand(0..7, 5..7), 4);
}

#[test]
fn top_and_bottom_make_the_total() {
    let mut glass = Hourglass::new(9, 15);
    glass.fill_with_sand_from_top(1, 2);
    let mut rng = StdRng::seed_from_u64(7);
    for _ in 0..40 {
        glass.advance(&mut rng);
        assert_eq!(glass.count_top_sand() + glass.count_bottom_sand(), total(&glass));
    }
}

#[test]
fn advance_conserves_grains_and_bounds() {
    let mut glass = Hourglass::new(7, 12);
    glass.fill_with_sand_from_top(3, 4);
    let start = total(&glass);
    let mut rng = StdRng::seed_from_u64(11);
    let mut moved_any = false;
    for _ in 0..300 {
        if glass.advance(&mut rng) > 0 {
            moved_any = true;
        }
        assert_eq!(total(&glass), start);
        for c in glass.render().chars() {
            assert!("=|/\\ .:\n".contains(c));
        }
    }
    assert!(moved_any);
    assert!(glass.count_bottom_sand() > 0);
}

#[test]
fn grain_falls_one_row_per_tick() {
    let mut glass = Hourglass::new(7, 12);
    assert!(glass.try_place_sand((3, 1)));
    let dirs = all_down(&glass);
    assert_eq!(glass.advance_with(&dirs), 1);
    assert_eq!(glass.count_sand(3..4, 2..3), 1);
    assert_eq!(glass.advance_with(&dirs), 1);
    assert_eq!(glass.count_sand(3..4, 3..4), 1);
}

#[test]
fn grain_on_floor_does_not_fall() {
    let mut glass = Hourglass::new(7, 12);
    assert!(glass.try_place_sand((3, 10)));
    let dirs = all_down(&glass);
    assert_eq!(glass.advance_with(&dirs), 0);
    assert_eq!(glass.count_sand(3..4, 10..11), 1);
}

#[test]
fn pinched_neck_holds_grains() {
    let mut glass = Hourglass::new(7, 12);
    assert!(glass.try_place_sand((3, 5)));
    glass.pinch();
    assert!(glass.pinched());
    let dirs = all_down(&glass);
    assert_eq!(glass.advance_with(&dirs), 0);
    assert_eq!(glass.count_bottom_sand(), 0);
    glass.unpinch();
    assert!(!glass.pinched());
    assert_eq!(glass.advance_with(&dirs), 1);
    assert_eq!(glass.count_bottom_sand(), 1);
    assert_eq!(glass.count_sand(3..4, 6..7), 1);
}

#[test]
fn stack_levels_sideways() {
    let mut glass = Hourglass::new(7, 12);
    assert!(glass.try_place_sand((3, 10)));
    assert!(glass.try_place_sand((3, 10)));
    let right = vec![MoveDirection::Right; 7 * 12];
    assert_eq!(glass.advance_with(&right), 1);
    assert_eq!(glass.count_sand(3..4, 10..11), 1);
    assert_eq!(glass.count_sand(4..5, 10..11), 1);
    let left = vec![MoveDirection::Left; 7 * 12];
    assert_eq!(glass.advance_with(&left), 0);
}

#[test]
fn grain_spills_over_an_edge() {
    let mut glass = Hourglass::new(7, 12);
    assert!(glass.try_place_sand((3, 9)));
    assert!(glass.try_place_sand((3, 10)));
    assert!(glass.try_place_sand((3, 10)));
    let mut dirs = all_down(&glass);
    dirs[9 * 7 + 3] = MoveDirection::Left;
    assert_eq!(glass.advance_with(&dirs), 1);
    assert_eq!(glass.count_sand(2..3, 9..10), 1);
    assert_eq!(glass.count_sand(3..4, 9..10), 0);
    assert_eq!(glass.count_sand(3..4, 10..11), 2);
}

#[test]
fn resting_grain_levels_before_the_one_above_moves() {
    let mut glass = Hourglass::new(7, 12);
    assert!(glass.try_place_sand((3, 9)));
    assert!(glass.try_place_sand((3, 10)));
    assert!(glass.try_place_sand((3, 10)));
    let left = vec![MoveDirection::Left; 7 * 12];
    assert_eq!(glass.advance_with(&left), 1);
    assert_eq!(glass.count_sand(2..3, 10..11), 1);
    assert_eq!(glass.count_sand(3..4, 9..10), 1);
}

#[test]
fn settle_pinched_keeps_bottom_empty() {
    let mut glass = Hourglass::new(7, 12);
    glass.fill_with_sand_from_top(3, 8);
    glass.pinch();
    let mut rng = StdRng::seed_from_u64(2024);
    let ticks = glass.settle_state(&mut rng);
    assert!(ticks >= 16);
    assert!(ticks < 10_000);
    assert_eq!(glass.count_bottom_sand(), 0);
    assert_eq!(glass.count_top_sand(), 28);
    assert!(glass.pinched());
}

#[test]
fn settled_pinched_glass_stays_still() {
    let mut glass = Hourglass::new(7, 12);
    glass.fill_with_sand_from_top(3, 8);
    glass.pinch();
    let mut rng = StdRng::seed_from_u64(99);
    glass.settle_state(&mut rng);
    assert_eq!(glass.advance(&mut rng), 0);
    assert_eq!(glass.count_bottom_sand(), 0);
}

#[test]
fn flip_twice_restores() {
    let mut glass = Hourglass::new(7, 12);
    glass.fill_with_sand_from_top(1, 2);
    let mut rng = StdRng::seed_from_u64(5);
    for _ in 0..10 {
        glass.advance(&mut rng);
    }
    let before = glass.render();
    let top = glass.count_top_sand();
    let bottom = glass.count_bottom_sand();
    glass.flip();
    assert_eq!(glass.count_top_sand(), bottom);
    assert_eq!(glass.count_bottom_sand(), top);
    glass.flip();
    assert_eq!(glass.render(), before);
}

#[test]
fn flip_turns_sand_upside_down() {
    let mut glass = Hourglass::new(7, 12);
    assert!(glass.try_place_sand((1, 1)));
    glass.flip();
    assert_eq!(glass.count_sand(5..6, 10..11), 1);
    assert_eq!(glass.render().split('\n').nth(10), Some("|    .|"));
    let fresh = Hourglass::new(7, 12);
    let mut turned = Hourglass::new(7, 12);
    turned.flip();
    assert_eq!(turned.render(), fresh.render());
}

#[test]
fn grid_basics() {
    let mut grid = Grid::new(3, 2, || 5u8);
    assert_eq!(grid.width(), 3);
    assert_eq!(grid.height(), 2);
    assert!(grid.is_in_bounds((2, 1)));
    assert!(!grid.is_in_bounds((3, 0)));
    assert!(!grid.is_in_bounds((0, 2)));
    grid.set((0, 0), 1);
    grid.set((2, 1), 9);
    assert_eq!(*grid.get((0, 0)), 1);
    grid.flip();
    assert_eq!(*grid.get((0, 0)), 9);
    assert_eq!(*grid.get((2, 1)), 1);
    assert_eq!(*grid.get((1, 0)), 5);
}
