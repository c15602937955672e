use rdwm::layout::horizontal_layout::HorizontalLayout;
use rdwm::layout::master_layout::MasterLayout;
use rdwm::layout::vertical_layout::VerticalLayout;
use rdwm::layout::{pad, Layout, LayoutManager, LayoutType, Rect};

fn area(w: u32, h: u32) -> Rect {
    Rect { x: 0, y: 0, w, h }
}

#[test]
fn pad_takes_border_from_both_ends() {
    assert_eq!(pad(600, 1), 598);
    assert_eq!(pad(10, 5), 1);
    assert_eq!(pad(3, 100), 1);
    assert_eq!(pad(0, 0), 1);
    assert_eq!(pad(u32::MAX, u32::MAX), 1);
}

#[test]
fn horizontal_layout_splits_by_weight() {
    let rects = HorizontalLayout.generate_layout(area(800, 600), &[1, 3], 1, 2);
    assert_eq!(rects.len(), 2);
    assert_eq!((rects[0].x, rects[0].y, rects[0].w, rects[0].h), (2, 2, 194, 594));
    assert_eq!((rects[1].x, rects[1].y, rects[1].w, rects[1].h), (202, 2, 594, 594));
}

#[test]
fn master_layout_halves_the_rest() {
    let rects = MasterLayout.generate_layout(area(800, 600), &[1, 1, 1], 1, 0);
    assert_eq!(rects.len(), 3);
    assert_eq!((rects[0].x, rects[0].y, rects[0].w, rects[0].h), (0, 0, 398, 598));
    assert_eq!((rects[1].x, rects[1].y, rects[1].w, rects[1].h), (400, 0, 398, 298));
    assert_eq!((rects[2].x, rects[2].y, rects[2].w, rects[2].h), (400, 300, 398, 298));
}

#[test]
fn layout_manager_cycles_and_wraps() {
    let mut manager = LayoutManager::new();
    let one = manager.get_current_layout().generate_layout(area(800, 600), &[1, 1], 0, 0);
    assert_eq!((one[1].x, one[1].y), (400, 0));
    manager.cycle_layout();
    manager.cycle_layout();
    let again = manager.get_current_layout().generate_layout(area(800, 600), &[1, 1], 0, 0);
    assert_eq!((again[1].x, again[1].w), (400, 400));
    manager.set_layout(LayoutType::MasterLayout);
    let master = manager.get_current_layout().generate_layout(area(800, 600), &[1, 1, 1], 0, 0);
    assert_eq!((master[2].x, master[2].y), (400, 300));
}

#[test]
fn layout_manager_starts_horizontal_and_cycles_to_master() {
    let mut manager = LayoutManager::new();
    let area = area(800, 600);
    let first = manager.get_current_layout().generate_layout(area, &[1, 1, 1], 0, 0);
    assert_eq!((first[2].x, first[2].y, first[2].w), (532, 0, 266));
    manager.cycle_layout();
    let second = manager.get_current_layout().generate_layout(area, &[1, 1, 1], 0, 0);
    assert_eq!((second[2].x, second[2].y, second[2].w, second[2].h), (400, 300, 400, 300));
    manager.set_layout(LayoutType::HorizontalLayout);
    let third = manager.get_current_layout().generate_layout(area, &[1, 1, 1], 0, 0);
    assert_eq!((third[2].x, third[2].y), (532, 0));
}

#[test]
fn layout_type_numbers() {
    assert_eq!(LayoutType::HorizontalLayout.id(), 0);
    assert_eq!(LayoutType::MasterLayout.id(), 1);
    assert_eq!(LayoutType::from_id(1), Some(LayoutType::MasterLayout));
    assert_eq!(LayoutType::from_id(2), None);
}

#[test]
fn layouts_are_total() {
    let tiny = Rect { x: 0, y: 0, w: 2, h: 2 };
    for rect in HorizontalLayout.generate_layout(tiny, &[1, 2, 3], 10, 10) {
        assert!(rect.w >= 1 && rect.h >= 1);
    }
    for rect in MasterLayout.generate_layout(tiny, &[1, 2, 3, 4], 10, 10) {
        assert!(rect.w >= 1 && rect.h >= 1);
    }
    assert!(HorizontalLayout.generate_layout(tiny, &[], 1, 1).is_empty());
    assert!(MasterLayout.generate_layout(tiny, &[], 1, 1).is_empty());
    let huge = Rect { x: 0, y: 0, w: u32::MAX, h: u32::MAX };
    let rects = HorizontalLayout.generate_layout(huge, &[u32::MAX, u32::MAX], u32::MAX, u32::MAX);
    assert_eq!(rects.len(), 2);
    assert_eq!((rects[1].x, rects[1].y, rects[1].w, rects[1].h), (i32::MAX, i32::MAX, 1, 1));
    let rects = MasterLayout.generate_layout(huge, &[1, 1], 0, u32::MAX);
    assert_eq!((rects[0].x, rects[0].w, rects[1].x), (i32::MAX, 1, i32::MAX));
}

#[test]
fn vertical_layout_is_the_horizontal_partition() {
    let a = area(800, 600);
    let v = VerticalLayout.generate_layout(a, &[2, 1], 1, 2);
    let h = HorizontalLayout.generate_layout(a, &[2, 1], 1, 2);
    assert_eq!(v.len(), 2);
    for i in 0..2 {
        assert_eq!((v[i].x, v[i].y, v[i].w, v[i].h), (h[i].x, h[i].y, h[i].w, h[i].h));
    }
    assert_eq!((v[0].x, v[0].w, v[1].x, v[1].w), (2, 527, 534, 260));
}

fn next_random(seed: &mut u64) -> u64 {
    *seed = seed.wrapping_mul(6364136223846793005).wrapping_add(1442695040888963407);
    *seed >> 33
}

#[test]
fn layouts_hold_their_properties_on_many_inputs() {
    let mut seed: u64 = 0x5eed;
    for _ in 0..500 {
        let count = 1 + (next_random(&mut seed) % 12) as usize;
        let weights: Vec<u32> = (0..count).map(|_| 1 + (next_random(&mut seed) % 9) as u32).collect();
        let border = (next_random(&mut seed) % 11) as u32;
        let gap = (next_random(&mut seed) % 11) as u32;
        let a = area(
            100 + (next_random(&mut seed) % 4000) as u32,
            100 + (next_random(&mut seed) % 3000) as u32,
        );

        let columns = HorizontalLayout.generate_layout(a, &weights, border, gap);
        assert_eq!(columns.len(), weights.len());
        let total: u32 = weights.iter().sum();
        let mut before: u32 = 0;
        for (i, column) in columns.iter().enumerate() {
            assert!(column.w >= 1 && column.h >= 1);
            assert_eq!(column.y, gap as i32);
            assert_eq!(column.h, (a.h - 2 * (border + gap)).max(1));
            assert_eq!(column.x, (before * (a.w / total) + gap) as i32);
            let cell = a.w * weights[i] / total;
            let inner = if cell > 2 * (border + gap) { cell - 2 * (border + gap) } else { 1 };
            assert_eq!(column.w, inner);
            if i > 0 {
                assert!(columns[i - 1].x < column.x);
            }
            before += weights[i];
        }

        let tiles = MasterLayout.generate_layout(a, &weights, border, gap);
        assert_eq!(tiles.len(), weights.len());
        for tile in &tiles {
            assert!(tile.w >= 1 && tile.h >= 1);
            assert!(tile.x >= gap as i32 && tile.y >= gap as i32);
            if tile.w > 1 && tile.h > 1 {
                assert!(tile.x as u32 + tile.w + 2 * border <= a.w);
                assert!(tile.y as u32 + tile.h + 2 * border <= a.h);
            }
        }
    }
}

#[test]
fn weights_of_nothing_get_a_pixel_each() {
    let a = area(800, 600);
    let columns = HorizontalLayout.generate_layout(a, &[0, 0], 1, 2);
    assert_eq!(columns.len(), 2);
    for column in &columns {
        assert_eq!((column.x, column.y, column.w, column.h), (2, 2, 1, 594));
    }
    let mixed = HorizontalLayout.generate_layout(a, &[0, 4], 0, 0);
    assert_eq!((mixed[0].x, mixed[0].w, mixed[1].x, mixed[1].w), (0, 1, 0, 800));
    let tiles = MasterLayout.generate_layout(a, &[0, 0], 1, 0);
    assert_eq!((tiles[0].w, tiles[1].x, tiles[1].w), (398, 400, 398));
}
