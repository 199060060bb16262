use raytracer::image::{scanline, Image};

#[test]
fn picture_has_ny_rows_of_nx_pixels() {
    for (nx, ny) in [(1, 1), (3, 2), (2, 3), (200, 100), (1, 17), (17, 1)] {
        let image = Image::compute(nx, ny, |x, y| (x, y));
        assert_eq!(image.width(), nx);
        assert_eq!(image.height(), ny);
        assert_eq!(image.rows().len(), ny);
        for row in image.rows() {
            assert_eq!(row.len(), nx);
        }
    }
}

#[test]
fn picture_without_rows_or_columns_is_empty() {
    let image = Image::compute(5, 0, |x, y| (x, y));
    assert_eq!((image.width(), image.height()), (5, 0));
    assert!(image.rows().is_empty());
    let image = Image::compute(0, 4, |x, y| (x, y));
    assert_eq!((image.width(), image.height()), (0, 4));
    assert_eq!(image.rows().len(), 4);
    assert!(image.rows().iter().all(|row| row.is_empty()));
    let image = Image::compute(0, 0, |x, y| (x, y));
    assert_eq!((image.width(), image.height()), (0, 0));
    assert!(image.into_rows().is_empty());
}

#[test]
fn top_row_is_the_highest_scanline() {
    let image = Image::compute(3, 2, |x, y| (x, y));
    assert_eq!(
        image.into_rows(),
        vec![vec![(0, 1), (1, 1), (2, 1)], vec![(0, 0), (1, 0), (2, 0)]]
    );
}

#[test]
fn every_pixel_is_shaded_at_its_own_place() {
    let (nx, ny) = (64, 48);
    let image = Image::compute(nx, ny, |x, y| 1000 * y + x);
    for row in 0..ny {
        for x in 0..nx {
            assert_eq!(image.get(row, x), Some(&(1000 * (ny - 1 - row) + x)));
            assert_eq!(image.rows()[row][x], 1000 * (ny - 1 - row) + x);
        }
    }
}

#[test]
fn pixel_outside_the_picture_is_none() {
    let image = Image::compute(3, 2, |x, y| (x, y));
    assert_eq!(image.get(0, 0), Some(&(0, 1)));
    assert_eq!(image.get(1, 2), Some(&(2, 0)));
    assert_eq!(image.get(2, 0), None);
    assert_eq!(image.get(0, 3), None);
    assert_eq!(image.get(usize::MAX, usize::MAX), None);
    let empty = Image::compute(3, 0, |x, y| (x, y));
    assert_eq!(empty.get(0, 0), None);
}

#[test]
fn picture_of_colours_keeps_its_shape() {
    let (nx, ny) = (8, 4);
    let image = Image::compute(nx, ny, |x, y| {
        (x as f32 / nx as f32, y as f32 / ny as f32, 0.2f32)
    });
    assert_eq!((image.width(), image.height()), (nx, ny));
    assert_eq!(image.get(0, 0), Some(&(0.0, 0.75, 0.2)));
    assert_eq!(image.get(3, 4), Some(&(0.5, 0.0, 0.2)));
    assert!(image.rows().iter().all(|row| row.len() == nx));
}

#[test]
fn scanline_runs_from_left_to_right() {
    let shade = |x: usize, y: usize| 10 * y + x;
    assert_eq!(scanline(4, 7, &shade), vec![70, 71, 72, 73]);
    assert_eq!(scanline(0, 7, &shade), Vec::<usize>::new());
}

#[test]
fn picture_is_the_scanlines_from_the_top_down() {
    let shade = |x: usize, y: usize| (y, x);
    let image = Image::compute(5, 6, shade);
    for row in 0..6 {
        assert_eq!(image.rows()[row], scanline(5, 5 - row, &shade));
    }
}
