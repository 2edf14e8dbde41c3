use zk_img::tiling::grid_cells;
use zk_img::HDProcessor;

#[test]
fn tiles_of_640_by_480_at_256() {
    let processor = HDProcessor::new();
    assert_eq!(processor.tile_size, 256);
    assert_eq!(processor.max_tiles, 20);
    let tiles = processor.tile_hd_image(640, 480);
    assert_eq!(
        tiles,
        vec![
            (0, 0, 256, 256),
            (256, 0, 256, 256),
            (512, 0, 128, 256),
            (0, 256, 256, 224),
            (256, 256, 256, 224),
            (512, 256, 128, 224),
        ]
    );
    assert!(tiles.len() <= processor.max_tiles);
}

#[test]
fn tiles_cover_every_pixel_exactly_once() {
    let processor = HDProcessor { tile_size: 7, max_tiles: 1000 };
    let (width, height) = (30u32, 22u32);
    let tiles = processor.tile_hd_image(width, height);
    assert_eq!(tiles.len(), 5 * 4);
    let mut hits = vec![0u32; (width * height) as usize];
    for (x, y, w, h) in tiles {
        assert!(w >= 1 && w <= 7 && h >= 1 && h <= 7);
        assert!(x + w <= width && y + h <= height);
        for py in y..y + h {
            for px in x..x + w {
                hits[(py * width + px) as usize] += 1;
            }
        }
    }
    assert!(hits.iter().all(|&n| n == 1));
}

#[test]
fn tiles_stop_at_the_cap() {
    let processor = HDProcessor { tile_size: 256, max_tiles: 4 };
    assert_eq!(
        processor.tile_hd_image(640, 480),
        vec![(0, 0, 256, 256), (256, 0, 256, 256), (512, 0, 128, 256), (0, 256, 256, 224)]
    );
    let none = HDProcessor { tile_size: 256, max_tiles: 0 };
    assert_eq!(none.tile_hd_image(640, 480), vec![]);
}

#[test]
fn tiles_of_degenerate_images() {
    let processor = HDProcessor::new();
    assert_eq!(processor.tile_hd_image(0, 480), vec![]);
    assert_eq!(processor.tile_hd_image(640, 0), vec![]);
    assert_eq!(processor.tile_hd_image(1, 1), vec![(0, 0, 1, 1)]);
    assert_eq!(processor.tile_hd_image(256, 256), vec![(0, 0, 256, 256)]);
    assert_eq!(
        processor.tile_hd_image(257, 256),
        vec![(0, 0, 256, 256), (256, 0, 1, 256)]
    );
}

#[test]
fn tile_larger_than_any_image() {
    let processor = HDProcessor { tile_size: usize::MAX, max_tiles: 20 };
    assert_eq!(
        processor.tile_hd_image(u32::MAX, 3),
        vec![(0, 0, u32::MAX, 3)]
    );
}

#[test]
fn tile_count_tells_when_the_cap_leaves_tiles_out() {
    let processor = HDProcessor::new();
    assert_eq!(processor.tile_count(640, 480), 6);
    assert_eq!(processor.tile_count(1280, 720), 15);
    assert_eq!(processor.tile_count(1920, 1080), 40);
    assert_eq!(processor.tile_hd_image(1920, 1080).len(), 20);
    assert_eq!(processor.tile_count(0, 480), 0);
    assert_eq!(processor.tile_count(1, 1), 1);
    let fine = HDProcessor { tile_size: 1, max_tiles: 3 };
    assert_eq!(fine.tile_count(u32::MAX, u32::MAX), (u32::MAX as u64) * (u32::MAX as u64));
    assert_eq!(fine.tile_hd_image(u32::MAX, u32::MAX), vec![(0, 0, 1, 1), (1, 0, 1, 1), (2, 0, 1, 1)]);
}

#[test]
fn grid_cells_are_walked_row_by_row() {
    assert_eq!(
        grid_cells(10, 6, 3, 2, None),
        vec![
            (0, 0), (3, 0), (6, 0), (9, 0),
            (0, 2), (3, 2), (6, 2), (9, 2),
            (0, 4), (3, 4), (6, 4), (9, 4),
        ]
    );
    assert_eq!(grid_cells(10, 6, 3, 2, Some(5)), vec![(0, 0), (3, 0), (6, 0), (9, 0), (0, 2)]);
    assert_eq!(grid_cells(10, 6, 3, 2, Some(0)), vec![]);
    assert_eq!(grid_cells(10, 6, 3, 2, Some(100)).len(), 12);
    assert_eq!(grid_cells(0, 6, 3, 2, None), vec![]);
    assert_eq!(grid_cells(10, 0, 3, 2, None), vec![]);
    assert_eq!(grid_cells(4, 4, 4, 4, None), vec![(0, 0)]);
    assert_eq!(grid_cells(5, 4, 4, 4, None), vec![(0, 0), (4, 0)]);
    assert_eq!(grid_cells(usize::MAX, usize::MAX, usize::MAX, 1, Some(2)), vec![(0, 0), (0, 1)]);
}
