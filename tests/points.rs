use cosmos::ode::integrate_at_points;

#[test]
fn empty_sequence_gives_initial_value() {
    let step = |x0: i64, x1: i64, y: i64, s: u32| (y + (x1 - x0), s + 1);
    let (ys, calls) = integrate_at_points(&step, &Vec::new(), 42, 0u32);
    assert_eq!(ys, vec![42]);
    assert_eq!(calls, 0);
}

#[test]
fn one_value_per_point_with_uneven_steps() {
    let step = |x0: i64, x1: i64, y: i64, s: u32| (y + 10 * (x1 - x0), s + 1);
    let xs = vec![0, 1, 4, 2, 2];
    let (ys, calls) = integrate_at_points(&step, &xs, 5, 0u32);
    assert_eq!(ys, vec![5, 15, 45, 25, 25]);
    assert_eq!(calls, 4);
}

#[test]
fn state_persists_across_steps() {
    // The state flips the sign of every later step once it has seen x = 3.
    let step = |_x0: i64, x1: i64, y: i64, flipped: bool| {
        let flipped = flipped || x1 == 3;
        (if flipped { y - 1 } else { y + 1 }, flipped)
    };
    let xs = vec![0, 1, 2, 3, 4, 5];
    let (ys, flipped) = integrate_at_points(&step, &xs, 0, false);
    assert_eq!(ys, vec![0, 1, 2, 1, 0, -1]);
    assert!(flipped);
}

#[test]
fn reversed_points_step_backward() {
    let step = |x0: i64, x1: i64, y: i64, s: ()| (y + (x1 - x0), s);
    let (ys, _) = integrate_at_points(&step, &vec![3, 2, 1, 0], 3, ());
    assert_eq!(ys, vec![3, 2, 1, 0]);
}

fn rk4_step(x0: f64, x1: f64, y: f64, s: ()) -> (f64, ()) {
    let h = x1 - x0;
    let k1 = y;
    let k2 = y + h / 2.0 * k1;
    let k3 = y + h / 2.0 * k2;
    let k4 = y + h * k3;
    (y + h * (k1 + 2.0 * k2 + 2.0 * k3 + k4) / 6.0, s)
}

fn uniform(n: usize) -> Vec<f64> {
    (0..=n).map(|i| i as f64 / n as f64).collect()
}

#[test]
fn rk4_exponential_fourth_order() {
    let (one, _) = integrate_at_points(&rk4_step, &vec![0.0, 0.1], 2.0, ());
    assert!((one[1] - 2.0 * 0.1f64.exp()).abs() < 2.0 * 0.1f64.powi(5) / 100.0);
    let (coarse, _) = integrate_at_points(&rk4_step, &uniform(10), 1.0, ());
    let (fine, _) = integrate_at_points(&rk4_step, &uniform(20), 1.0, ());
    let e_coarse = (coarse[10] - std::f64::consts::E).abs();
    let e_fine = (fine[20] - std::f64::consts::E).abs();
    let ratio = e_coarse / e_fine;
    assert!(ratio > 14.0 && ratio < 18.0, "ratio {ratio}");
}
