use flappy::layout::Rect;
use flappy::pages::game::bird::Bird;
use flappy::pages::game::boundary::{measure, split_layers, Boundary};
use flappy::pages::game::object::{
    collides_with, get_collision, interval_sec, BoundingBox, CollisionType, Object,
};
use flappy::pages::game::sprite::clip_layers;
use flappy::style::Color;

fn block(width: usize, height: usize, x: i32, y: i32) -> Boundary {
    let row = "#".repeat(width);
    let text = vec![row; height].join("\n");
    Boundary::new(vec![text.as_str()], vec![None], x, y)
}

fn canvas(width: u16, height: u16) -> Rect {
    Rect { x: 0, y: 0, width, height }
}

#[test]
fn an_entity_is_as_wide_and_as_high_as_its_layers() {
    let b = Boundary::new(vec!["\nab\n\ncdef\r\ng\n", "xy\nz\nw\n1\n2"], vec![None, Some(Color::Red)], 3, -4);
    assert_eq!(b.get_size(), (4, 5));
    assert_eq!(b.get_pos(), (3, -4));
    assert_eq!(
        b.get_layers(),
        vec![
            vec!["ab".to_string(), "cdef".to_string(), "g".to_string()],
            vec!["xy".to_string(), "z".to_string(), "w".to_string(), "1".to_string(), "2".to_string()]
        ]
    );
    assert_eq!(b.get_colors(), vec![None, Some(Color::Red)]);
}

#[test]
fn width_counts_characters() {
    let b = Boundary::new(vec!["\u{2588}\u{2588}\u{2588}\nab"], vec![None], 0, 0);
    assert_eq!(b.get_size(), (3, 2));
}

#[test]
fn empty_text_gives_an_entity_of_no_size() {
    let b = Boundary::new(vec!["", "\n\n\r\n"], vec![None, None], 5, 5);
    assert_eq!(b.get_size(), (0, 0));
    let none = Boundary::new(vec![], vec![], 5, 5);
    assert_eq!(none.get_size(), (0, 0));
    let other = block(20, 20, 0, 0);
    assert!(!collides_with(&b, &other));
    assert!(!collides_with(&other, &b));
    assert!(!b.visible(canvas(80, 24)));
    assert_eq!(get_collision(&b, &other), CollisionType::Apart);
    assert!(clip_layers(&b, canvas(80, 24)).is_none());
}

#[test]
fn lines_end_at_line_feeds_and_lose_the_carriage_return_before_one() {
    let layers = split_layers(&vec!["a\r\nb\rc\n\r\nd\r", "\n\n"]);
    assert_eq!(
        layers,
        vec![vec!["a".to_string(), "b\rc".to_string(), "d\r".to_string()], Vec::<String>::new()]
    );
    assert_eq!(measure(&layers), (3, 3));
}

#[test]
fn the_bounding_box_has_its_ends_included() {
    let b = block(4, 3, 10, 2);
    assert_eq!(b.bounding_box(), BoundingBox { left: 10, right: 13, bottom: 2, top: 4 });
    let far = block(1, 1, i32::MAX, i32::MIN);
    assert_eq!(
        far.bounding_box(),
        BoundingBox { left: i32::MAX as i64, right: i32::MAX as i64, bottom: i32::MIN as i64, top: i32::MIN as i64 }
    );
}

#[test]
fn overlap_needs_a_common_cell() {
    let a = block(4, 3, 10, 2);
    assert!(collides_with(&a, &block(1, 1, 13, 4)));
    assert!(!collides_with(&a, &block(1, 1, 14, 4)));
    assert!(!collides_with(&a, &block(1, 1, 13, 5)));
    assert!(collides_with(&a, &block(5, 5, 6, -2)));
    assert!(!collides_with(&a, &block(4, 5, 6, -2)));
    assert!(!collides_with(&a, &block(5, 4, 6, -2)));
    assert!(collides_with(&a, &block(100, 100, -50, -50)));
    assert!(collides_with(&a, &a));
}

#[test]
fn overlap_does_not_depend_on_who_is_asked() {
    let things = [block(4, 3, 10, 2), block(1, 1, 13, 4), block(2, 2, 0, 0), block(30, 1, -5, 3), block(0, 0, 11, 3)];
    for a in things.iter() {
        for b in things.iter() {
            assert_eq!(collides_with(a, b), collides_with(b, a));
        }
    }
}

#[test]
fn ranges_that_are_not_apart_intersect() {
    assert!(interval_sec(0, 5, 5, 9));
    assert!(!interval_sec(0, 5, 6, 9));
    assert!(interval_sec(6, 9, 0, 6));
    assert!(!interval_sec(7, 9, 0, 6));
    assert!(interval_sec(-3, -1, -1, -1));
    assert!(interval_sec(5, 4, 0, 10));
}

#[test]
fn sides_are_named_where_edges_coincide() {
    let a = block(4, 3, 10, 2);
    assert_eq!(get_collision(&a, &block(3, 3, 8, 2)), CollisionType::Left);
    assert_eq!(get_collision(&a, &block(3, 3, 13, 4)), CollisionType::Right);
    assert_eq!(get_collision(&a, &block(2, 2, 11, 1)), CollisionType::Bottom);
    assert_eq!(get_collision(&a, &block(2, 2, 11, 4)), CollisionType::Top);
    assert_eq!(get_collision(&a, &block(2, 1, 11, 3)), CollisionType::Apart);
    assert_eq!(get_collision(&a, &block(3, 3, 7, 2)), CollisionType::Apart);
    assert_eq!(get_collision(&a, &block(3, 3, 8, 5)), CollisionType::Apart);
    assert_eq!(get_collision(&a, &block(1, 3, 10, 4)), CollisionType::Left);
    assert_eq!(a.bounding_box().touching_side(&block(3, 3, 8, 2).bounding_box()), CollisionType::Left);
    assert!(a.bounding_box().meets(&block(3, 3, 8, 2).bounding_box()));
}

#[test]
fn an_entity_is_visible_while_it_covers_a_cell_of_the_canvas() {
    let c = canvas(80, 24);
    assert!(block(6, 5, 0, 0).visible(c));
    assert!(block(6, 5, -5, 0).visible(c));
    assert!(!block(6, 5, -6, 0).visible(c));
    assert!(block(6, 5, 79, 23).visible(c));
    assert!(!block(6, 5, 80, 23).visible(c));
    assert!(!block(6, 5, 79, 24).visible(c));
    assert!(block(6, 5, 0, -4).visible(c));
    assert!(!block(6, 5, 0, -5).visible(c));
    assert!(!block(6, 5, 0, 0).visible(canvas(0, 24)));
    assert!(!block(6, 5, 0, 0).visible(canvas(80, 0)));
}

#[test]
fn an_entity_further_left_than_its_width_is_never_visible() {
    for width in 0..8usize {
        for shift in 1..4i32 {
            let b = block(width, 3, -(width as i32) - shift, 2);
            assert!(!b.visible(canvas(80, 24)));
            assert!(!b.visible(canvas(1, 1)));
            assert!(!b.visible(Rect { x: 7, y: 7, width: 65535, height: 65535 }));
        }
    }
}

#[test]
fn the_screen_counts_rows_from_the_top() {
    let c = Rect { x: 3, y: 2, width: 80, height: 24 };
    assert_eq!(block(6, 5, 0, 0).transform_pos(c), (3, 2 + 24 - 5));
    assert_eq!(block(6, 5, 10, 19).transform_pos(c), (13, 2));
    assert_eq!(block(6, 5, -2, 22).transform_pos(c), (1, -1));
    assert_eq!(block(0, 0, 0, 0).transform_pos(canvas(80, 24)), (0, 24));
}

#[test]
fn an_entity_inside_the_canvas_is_shown_whole() {
    let b = Boundary::new(vec!["abc\ndef", " x\n"], vec![Some(Color::Red), None], 4, 5);
    let sprite = clip_layers(&b, Rect { x: 1, y: 1, width: 20, height: 10 }).unwrap();
    assert_eq!(sprite.area, Rect { x: 5, y: 1 + 10 - 1 - 6, width: 3, height: 2 });
    assert_eq!(
        sprite.layers,
        vec![vec!["abc".to_string(), "def".to_string()], vec![" x".to_string()]]
    );
    assert_eq!(sprite.colors, vec![Some(Color::Red), None]);
    assert!(!sprite.ignore_whitespace);
}

#[test]
fn columns_outside_the_canvas_are_cut_off() {
    let b = Boundary::new(vec!["abcdef\nghijkl", "12\n3456789"], vec![None, None], -2, 0);
    let sprite = clip_layers(&b, canvas(10, 10)).unwrap();
    assert_eq!(sprite.area, Rect { x: 0, y: 8, width: 5, height: 2 });
    assert_eq!(
        sprite.layers,
        vec![vec!["cdef".to_string(), "ijkl".to_string()], vec!["".to_string(), "56789".to_string()]]
    );

    let right = Boundary::new(vec!["abcdef\nghijkl"], vec![None], 7, 0);
    let sprite = clip_layers(&right, canvas(10, 10)).unwrap();
    assert_eq!(sprite.area, Rect { x: 7, y: 8, width: 3, height: 2 });
    assert_eq!(sprite.layers, vec![vec!["abc".to_string(), "ghi".to_string()]]);
}

#[test]
fn rows_outside_the_canvas_are_cut_off() {
    let b = Boundary::new(vec!["a\nb\nc\nd", "1\n2"], vec![None, None], 0, 8);
    let sprite = clip_layers(&b, canvas(10, 10)).unwrap();
    assert_eq!(sprite.area, Rect { x: 0, y: 0, width: 1, height: 2 });
    assert_eq!(sprite.layers, vec![vec!["c".to_string(), "d".to_string()], Vec::<String>::new()]);

    let low = Boundary::new(vec!["a\nb\nc\nd", "1\n2"], vec![None, None], 0, -3);
    let sprite = clip_layers(&low, canvas(10, 10)).unwrap();
    assert_eq!(sprite.area, Rect { x: 0, y: 9, width: 1, height: 1 });
    assert_eq!(sprite.layers, vec![vec!["a".to_string()], vec!["1".to_string()]]);
}

#[test]
fn an_entity_outside_the_canvas_is_not_shown() {
    assert!(clip_layers(&block(3, 3, -3, 0), canvas(10, 10)).is_none());
    assert!(clip_layers(&block(3, 3, 10, 0), canvas(10, 10)).is_none());
    assert!(clip_layers(&block(3, 3, 0, 10), canvas(10, 10)).is_none());
    assert!(clip_layers(&block(3, 3, 0, -3), canvas(10, 10)).is_none());
    assert!(clip_layers(&block(3, 3, 0, 0), canvas(0, 0)).is_none());
    assert!(clip_layers(&block(3, 3, 9, 9), canvas(10, 10)).is_some());
}

#[test]
fn boundaries_move_left_by_whole_cells() {
    let mut b = block(2, 2, 5, 1);
    b.move_left(1);
    assert_eq!(b.get_pos(), (4, 1));
    b.move_left(10);
    assert_eq!(b.get_pos(), (-6, 1));
    let mut far = block(2, 2, i32::MIN + 3, 0);
    far.move_left(10);
    assert_eq!(far.get_pos(), (i32::MIN, 0));
    b.set_pos(7, 9);
    assert_eq!(b.get_pos(), (7, 9));
    assert_eq!(b.get_size(), (2, 2));
    let copy = b.duplicate();
    assert_eq!(copy.get_pos(), (7, 9));
    assert_eq!(copy.get_layers(), b.get_layers());
}

#[test]
fn rectangles_are_cut_to_what_has_numbers() {
    assert_eq!(Rect::new(1, 2, 3, 4), Rect { x: 1, y: 2, width: 3, height: 4 });
    assert_eq!(Rect::new(65530, 65535, 10, 10), Rect { x: 65530, y: 65535, width: 5, height: 0 });
}

#[test]
fn velocity_stays_within_the_limit() {
    for limit in [0u32, 1, 20_000, u32::MAX] {
        for gravity in [0u32, 1, 70, u32::MAX] {
            for dt in [0u32, 1, 16, 1000, u32::MAX] {
                for start in [i32::MIN, -5, 0, 7, i32::MAX] {
                    let mut bird = Bird::new(vec!["xx\nxx"], vec![None], 3, 4, limit);
                    bird.up(start);
                    bird.update(gravity, dt);
                    assert!(bird.velocity() <= limit as i64);
                    assert!(bird.velocity() >= -(limit as i64));
                }
            }
        }
    }
}

#[test]
fn the_bird_falls_by_its_velocity() {
    let mut bird = Bird::new(vec!["xx\nxx"], vec![None], 3, 10, 20_000);
    assert_eq!((bird.velocity(), bird.fine_y()), (0, 10_000_000));
    bird.update(70, 16);
    assert_eq!(bird.velocity(), -1120);
    assert_eq!(bird.fine_y(), 10_000_000 - 1120 * 16);
    assert_eq!(bird.get_pos(), (3, 9));
    bird.update(70, 1000);
    assert_eq!(bird.velocity(), -20_000);
    assert_eq!(bird.fine_y(), 10_000_000 - 1120 * 16 - 20_000_000);
    assert_eq!(bird.get_pos(), (3, -10));
    bird.update(0, 0);
    assert_eq!(bird.velocity(), -20_000);
    assert_eq!(bird.get_pos(), (3, -10));
}

#[test]
fn the_row_of_the_bird_is_its_height_cut_towards_zero() {
    let mut bird = Bird::new(vec!["x"], vec![None], 0, 0, 1_000);
    bird.update(1, 1000);
    assert_eq!(bird.velocity(), -1000);
    assert_eq!(bird.fine_y(), -1_000_000);
    assert_eq!(bird.get_pos(), (0, -1));
    let mut bird = Bird::new(vec!["x"], vec![None], 0, 0, 999);
    bird.update(1, 1000);
    assert_eq!(bird.fine_y(), -999_000);
    assert_eq!(bird.get_pos(), (0, 0));
    bird.up(500);
    bird.update(0, 3000);
    assert_eq!(bird.fine_y(), 501_000);
    assert_eq!(bird.get_pos(), (0, 0));
}

#[test]
fn an_impulse_sets_the_velocity_and_does_not_add_to_it() {
    let mut bird = Bird::new(vec!["x"], vec![None], 0, 0, 20_000);
    bird.up(15_000);
    bird.up(15_000);
    assert_eq!(bird.velocity(), 15_000);
    bird.up(25_000);
    bird.up(25_000);
    assert_eq!(bird.velocity(), 20_000);
    bird.up(-30_000);
    assert_eq!(bird.velocity(), -30_000);
    bird.update(0, 1);
    assert_eq!(bird.velocity(), -20_000);
}

#[test]
fn a_paused_bird_stays_where_it_is() {
    let mut bird = Bird::new(vec!["x"], vec![None], 2, 5, 20_000);
    bird.pause();
    assert!(bird.is_paused());
    bird.update(70, 1000);
    assert_eq!((bird.velocity(), bird.fine_y()), (0, 5_000_000));
    bird.resume();
    assert!(!bird.is_paused());
    bird.update(70, 100);
    assert_eq!((bird.velocity(), bird.fine_y()), (-7000, 5_000_000 - 700_000));
    bird.set_pos(9, 8);
    assert_eq!(bird.get_pos(), (9, 8));
    assert_eq!(bird.velocity(), -7000);
    bird.place(1, 2);
    assert_eq!(bird.fine_y(), 2_000_000);
}

#[test]
fn the_height_of_the_bird_stops_where_heights_end() {
    let mut bird = Bird::new(vec!["x"], vec![None], 0, 65535, u32::MAX);
    bird.up(i32::MAX);
    for _ in 0..4 {
        bird.update(0, u32::MAX);
    }
    assert_eq!(bird.fine_y(), 2_147_483_647_000_000);
    assert_eq!(bird.get_pos(), (0, i32::MAX));
}

#[test]
fn the_bird_moves_as_it_would_with_fractions() {
    let gravity = 70.0f64;
    let limit = 20.0f64;
    let mut y = 12.0f64;
    let mut v = 0.0f64;
    let mut bird = Bird::new(vec!["x"], vec![None], 20, 12, 20_000);
    for tick in 0..600u32 {
        let dt_ms = 1 + (tick * 7) % 33;
        if tick % 25 == 24 {
            v = 20.0f64.min(limit);
            bird.up(20_000);
        }
        let dt = dt_ms as f64 / 1000.0;
        v -= gravity * dt;
        if v > limit {
            v = limit;
        }
        if v < -limit {
            v = -limit;
        }
        y += v * dt;
        bird.update(70, dt_ms);
        assert!((bird.velocity() as f64 / 1000.0 - v).abs() < 1e-6, "tick {}", tick);
        assert!((bird.fine_y() as f64 / 1_000_000.0 - y).abs() < 1e-6, "tick {}", tick);
        if (y - y.trunc()).abs() > 1e-6 && (y - y.trunc()).abs() < 1.0 - 1e-6 {
            assert_eq!(bird.get_pos().1, y as i32);
        }
    }
}
