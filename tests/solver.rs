use verlet_sim::{map_colors, Grid, Rgba, Solver, SPAWN_BATCH};

fn rgb(r: u8, g: u8, b: u8) -> Rgba {
    Rgba { r, g, b, a: 255 }
}

#[test]
fn capacity_is_area_times_one_point_one_four() {
    assert_eq!(Solver::new(32, 32).max_objects(), 1167);
    assert_eq!(Solver::new(128, 128).max_objects(), 18677);
    assert_eq!(Solver::new(10, 10).max_objects(), 114);
    assert_eq!(Solver::new(0, 5).max_objects(), 0);
}

#[test]
fn population_grows_by_batch_until_capacity() {
    let mut s = Solver::new(32, 32);
    let mut prev = 0;
    for _ in 0..116 {
        let spawned = s.add_objects();
        assert_eq!(spawned.len(), SPAWN_BATCH);
        assert_eq!(s.population(), prev + SPAWN_BATCH);
        prev = s.population();
    }
    assert_eq!(s.population(), 1160);
    assert_eq!(s.add_objects().len(), 7);
    assert_eq!(s.population(), 1167);
    for _ in 0..480 {
        assert!(s.add_objects().is_empty());
        assert_eq!(s.population(), 1167);
    }
}

#[test]
fn short_palette_is_rejected() {
    let mut s = Solver::new(4, 4);
    assert_eq!(s.max_objects(), 18);
    s.set_colors(Some(vec![rgb(1, 2, 3); 17]));
    assert!(!s.has_colors());
    let spawned = s.add_objects();
    assert_eq!(spawned.len(), 10);
    assert!(spawned.iter().all(|c| c.is_none()));
}

#[test]
fn palette_colors_follow_spawn_order() {
    let mut s = Solver::new(4, 4);
    let palette: Vec<Rgba> = (0..18).map(|i| rgb(i as u8, 0, 0)).collect();
    s.set_colors(Some(palette));
    assert!(s.has_colors());
    let first = s.add_objects();
    let second = s.add_objects();
    assert_eq!(first.len(), 10);
    assert_eq!(second.len(), 8);
    for (i, c) in first.iter().chain(second.iter()).enumerate() {
        assert_eq!(*c, Some(rgb(i as u8, 0, 0)));
    }
}

#[test]
fn palette_must_also_cover_current_population() {
    let mut s = Solver::new(4, 4);
    s.add_objects();
    s.add_objects();
    assert_eq!(s.population(), 18);
    s.set_colors(Some(vec![rgb(9, 9, 9); 18]));
    assert!(s.has_colors());
    s.set_colors(None);
    assert!(!s.has_colors());
}

#[test]
fn reset_keeps_bounds_and_palette() {
    let mut s = Solver::new(4, 4);
    s.set_colors(Some(vec![rgb(1, 1, 1); 20]));
    s.add_objects();
    s.reset();
    assert_eq!(s.population(), 0);
    assert!(s.has_colors());
    assert_eq!(s.get_size(), (4, 4));
    assert_eq!(s.max_objects(), 18);
    assert_eq!(s.add_objects()[0], Some(rgb(1, 1, 1)));
}

#[test]
fn set_size_replaces_everything() {
    let mut s = Solver::new(4, 4);
    s.set_colors(Some(vec![rgb(1, 1, 1); 20]));
    s.add_objects();
    s.set_size(32, 16);
    assert_eq!(s.get_size(), (32, 16));
    assert_eq!(s.max_objects(), 583);
    assert_eq!(s.population(), 0);
    assert!(!s.has_colors());
    assert_eq!(s.get_grid().cell_count(), 512);
}

#[test]
fn update_grid_buckets_particles_by_cell() {
    let mut s = Solver::new(3, 2);
    let cells = vec![(0, 0), (2, 1), (0, 0), (0, 0), (0, 0), (0, 0), (1, 0)];
    s.update_grid(&cells);
    let g = s.get_grid();
    assert_eq!(g.cell(0).iter(), vec![0, 2, 3, 4]);
    assert_eq!(g.cell(5).iter(), vec![1]);
    assert_eq!(g.cell(1).iter(), vec![6]);
    assert!(g.cell(3).iter().is_empty());
    s.update_grid(&vec![(1, 1)]);
    let g = s.get_grid();
    assert!(g.cell(0).iter().is_empty());
    assert_eq!(g.cell(4).iter(), vec![0]);
}

#[test]
fn map_colors_paints_occupants_of_each_cell() {
    let mut g = Grid::new(2, 2);
    g.add_index(0, 0, 0);
    g.add_index(3, 0, 0);
    g.add_index(1, 1, 1);
    let pixels = vec![rgb(10, 0, 0), rgb(20, 0, 0), rgb(30, 0, 0), rgb(40, 0, 0)];
    let palette = map_colors(&pixels, &g, 5);
    assert_eq!(palette.len(), 5);
    assert_eq!(palette[0], rgb(10, 0, 0));
    assert_eq!(palette[3], rgb(10, 0, 0));
    assert_eq!(palette[1], rgb(40, 0, 0));
    assert_eq!(palette[2], Rgba::black());
    assert_eq!(palette[4], Rgba { r: 0, g: 0, b: 0, a: 255 });
}

#[test]
fn map_colors_ignores_slots_past_the_palette() {
    let mut g = Grid::new(1, 1);
    g.add_index(7, 0, 0);
    g.add_index(0, 0, 0);
    let palette = map_colors(&vec![rgb(5, 6, 7)], &g, 2);
    assert_eq!(palette, vec![rgb(5, 6, 7), Rgba::black()]);
}
