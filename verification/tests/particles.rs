use tenki::net::model::Condition;
use tenki::ui::particles::{particle_count, MAX_PARTICLES};

#[test]
fn clear_sky_has_no_particles() {
    assert_eq!(particle_count(Condition::Clear, 80, 24), 0);
}

#[test]
fn storm_has_more_particles_than_drizzle() {
    assert!(particle_count(Condition::Thunderstorm, 80, 24) > particle_count(Condition::Drizzle, 80, 24));
}

#[test]
fn resize_updates_bounds_and_repopulates() {
    let small = particle_count(Condition::Snow, 40, 10);
    assert!(particle_count(Condition::Snow, 400, 100) >= small);
}

#[test]
fn one_particle_per_so_many_cells() {
    assert_eq!(particle_count(Condition::Rain, 80, 24), 48);
    assert_eq!(particle_count(Condition::Thunderstorm, 80, 24), 60);
    assert_eq!(particle_count(Condition::Drizzle, 80, 24), 21);
    assert_eq!(particle_count(Condition::Snow, 80, 24), 34);
    assert_eq!(particle_count(Condition::Fog, 80, 24), 19);
    assert_eq!(particle_count(Condition::Overcast, 400, 100), 0);
}

#[test]
fn the_count_is_capped_and_an_empty_canvas_counts_as_one_cell() {
    assert_eq!(particle_count(Condition::Rain, 400, 100), MAX_PARTICLES);
    assert_eq!(particle_count(Condition::Rain, 0, 0), 0);
    assert_eq!(particle_count(Condition::Fog, 10, 10), 1);
}
