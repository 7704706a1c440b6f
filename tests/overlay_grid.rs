use glazebot::grid::{grid_plan, Blend, Rgba8};

const FG: Rgba8 = Rgba8 { r: 255, g: 255, b: 0, a: 220 };
const SHADOW: Rgba8 = Rgba8 { r: 0, g: 0, b: 0, a: 200 };
const LINE: Rgba8 = Rgba8 { r: 255, g: 255, b: 0, a: 120 };
const BG: Rgba8 = Rgba8 { r: 0, g: 0, b: 0, a: 160 };

fn count(plan: &[Blend], c: Rgba8) -> usize {
    plan.iter().filter(|b| b.color == c).count()
}

#[test]
fn empty_frame_gets_no_blends() {
    assert!(grid_plan(0, 0).is_empty());
    assert!(grid_plan(0, 500).is_empty());
}

#[test]
fn grid_blends_stay_inside_the_frame() {
    for (w, h) in [(400u32, 300u32), (7, 5), (1, 1), (1920, 1080)] {
        assert!(grid_plan(w, h).iter().all(|b| b.x < w && b.y < h));
    }
}

#[test]
fn grid_starts_with_the_first_top_tick() {
    let plan = grid_plan(400, 300);
    assert_eq!(plan[0], Blend { x: 40, y: 0, color: FG });
    assert_eq!(plan[1], Blend { x: 41, y: 0, color: FG });
    assert_eq!(plan[2], Blend { x: 40, y: 1, color: FG });
}

#[test]
fn grid_colour_counts_on_400_by_300() {
    let plan = grid_plan(400, 300);
    // 36 ticks of 24 pixels, then 4 pixels per set glyph cell
    assert_eq!(count(&plan, FG), 6000);
    assert_eq!(count(&plan, SHADOW), 5136);
    // two 32x14 corner backgrounds and nine 39x14 crossing backgrounds
    assert_eq!(count(&plan, BG), 5810);
    // dashes: 100 rows and 136 columns on, two pixels wide, three of each
    assert_eq!(count(&plan, LINE), 1416);
    assert_eq!(plan.len(), 18362);
}

#[test]
fn grid_ends_with_the_bottom_right_label() {
    let plan = grid_plan(400, 300);
    // last set cell of `1`: row 4, column 2 of the glyph at (368 + 14, 286)
    assert_eq!(*plan.last().unwrap(), Blend { x: 387, y: 295, color: FG });
}
