use mandelbrot::escape::{after_step, divergence_index, start, Action};
use mandelbrot::frame::{encode_frame, grid_cell, shade};

// Drives the library's escape-time loop over an orbit computed here.
fn diverged(x0: f64, y0: f64, max_iter: usize) -> usize {
    let (mut x, mut y) = (0.0f64, 0.0f64);
    let mut a = start(max_iter);
    loop {
        match a {
            Action::Stop(r) => return r,
            Action::Step(i) => {
                let xn = x * x - y * y + x0;
                let yn = 2.0 * x * y + y0;
                x = xn;
                y = yn;
                a = after_step(i, max_iter, x * x + y * y > 4.0);
            }
        }
    }
}

fn generate(w: usize, h: usize, x_min: f64, x_max: f64, y_min: f64, y_max: f64, max_iter: usize) -> Vec<u8> {
    let mut results = Vec::new();
    for k in 0..w * h {
        let (i, j) = grid_cell(k, w);
        let y = y_min + (y_max - y_min) * (i as f64) / (h as f64);
        let x = x_min + (x_max - x_min) * (j as f64) / (w as f64);
        results.push(diverged(x, y, max_iter));
    }
    encode_frame(w, h, &results)
}

#[test]
fn test_get_n_diverged() {
    let max_iter = 10;
    assert_eq!(diverged(1.0, 0.0, max_iter), 3);
    assert_eq!(diverged(0.0, 0.0, max_iter), max_iter);
    assert_eq!(diverged(0.0, 1.0, max_iter), max_iter);
}

#[test]
fn test_generate_mandelbrot_set() {
    assert_eq!(
        generate(2, 2, -1.0, 1.0, -1.0, 1.0, 8),
        vec![96, 96, 96, 255, 0, 0, 0, 255, 0, 0, 0, 255, 0, 0, 0, 255]
    );
}

#[test]
fn origin_and_i_never_escape() {
    for n in 1..40 {
        assert_eq!(diverged(0.0, 0.0, n), n);
        assert_eq!(diverged(0.0, 1.0, n), n);
    }
}

#[test]
fn far_point_escapes_at_first_check() {
    assert_eq!(diverged(3.0, 0.0, 2), 1);
    assert_eq!(diverged(2.0, 2.0, 64), 1);
}

#[test]
fn small_budgets_stop_without_checks() {
    assert_eq!(start(0), Action::Stop(0));
    assert_eq!(start(1), Action::Stop(1));
    assert_eq!(diverged(100.0, 0.0, 1), 1);
    assert_eq!(start(2), Action::Step(1));
}

#[test]
fn escape_on_last_allowed_step_versus_budget() {
    assert_eq!(after_step(4, 5, true), Action::Stop(4));
    assert_eq!(after_step(4, 5, false), Action::Stop(5));
    assert_eq!(after_step(3, 5, false), Action::Step(4));
}

#[test]
fn divergence_index_over_outcomes() {
    assert_eq!(divergence_index(&vec![false, false, true, false], 5), 3);
    assert_eq!(divergence_index(&vec![false, false, false, false], 5), 5);
    assert_eq!(divergence_index(&vec![false, false, false, true], 4), 4);
    assert_eq!(divergence_index(&vec![], 1), 1);
    assert_eq!(divergence_index(&vec![], 0), 0);
}

#[test]
fn shade_bands_repeat_every_eight() {
    assert_eq!(shade(0), 0);
    assert_eq!(shade(3), 96);
    assert_eq!(shade(7), 224);
    for r in 0..300 {
        assert_eq!(shade(r), shade(r + 8));
    }
    assert_eq!(shade(64), 0);
    assert_eq!(shade(259), 96);
}

#[test]
fn frame_length_is_four_per_pixel() {
    for w in 0..5 {
        for h in 0..5 {
            let rs = vec![1usize; w * h];
            assert_eq!(encode_frame(w, h, &rs).len(), w * h * 4);
        }
    }
}

#[test]
fn empty_grid_gives_empty_buffer() {
    assert!(encode_frame(0, 3, &vec![]).is_empty());
    assert!(generate(3, 0, -1.5, 0.5, -1.0, 1.0, 64).is_empty());
}

#[test]
fn encode_is_row_major_and_deterministic() {
    let rs = vec![1usize, 2, 9, 8, 15, 0];
    let a = encode_frame(3, 2, &rs);
    assert_eq!(
        a,
        vec![32, 32, 32, 255, 64, 64, 64, 255, 32, 32, 32, 255, 0, 0, 0, 255, 224, 224, 224, 255, 0, 0, 0, 255]
    );
    assert_eq!(a, encode_frame(3, 2, &rs));
    assert_eq!(generate(4, 3, -1.5, 0.5, -1.0, 1.0, 64), generate(4, 3, -1.5, 0.5, -1.0, 1.0, 64));
}

#[test]
fn grid_cells_in_row_major_order() {
    assert_eq!(grid_cell(0, 3), (0, 0));
    assert_eq!(grid_cell(2, 3), (0, 2));
    assert_eq!(grid_cell(3, 3), (1, 0));
    assert_eq!(grid_cell(7, 3), (2, 1));
}
