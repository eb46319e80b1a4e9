use tenki::net::model::Condition;
use tenki::ui::canvas::{hero_gradient, icon_for, particle_color};
use tenki::ui::theme::{CYAN, GOLD, LAVENDER, PALE, PEACH};

#[test]
fn maps_clear_sky() {
    assert_eq!(Condition::from_wmo_code(0), Condition::Clear);
}

#[test]
fn maps_thunderstorm_variants() {
    for code in [95, 96, 99] {
        assert_eq!(Condition::from_wmo_code(code), Condition::Thunderstorm);
    }
}

#[test]
fn maps_snow_variants() {
    for code in [71, 73, 75, 77] {
        assert_eq!(Condition::from_wmo_code(code), Condition::Snow);
    }
}

#[test]
fn maps_rain_showers_distinct_from_rain() {
    assert_eq!(Condition::from_wmo_code(61), Condition::Rain);
    assert_eq!(Condition::from_wmo_code(80), Condition::RainShowers);
}

#[test]
fn unknown_code_falls_back_to_partly_cloudy() {
    assert_eq!(Condition::from_wmo_code(9999), Condition::PartlyCloudy);
}

#[test]
fn every_documented_code_has_its_condition() {
    let table: [(u32, Condition); 28] = [
        (0, Condition::Clear),
        (1, Condition::PartlyCloudy),
        (2, Condition::PartlyCloudy),
        (3, Condition::Overcast),
        (45, Condition::Fog),
        (48, Condition::Fog),
        (51, Condition::Drizzle),
        (53, Condition::Drizzle),
        (55, Condition::Drizzle),
        (56, Condition::Freezing),
        (57, Condition::Freezing),
        (61, Condition::Rain),
        (63, Condition::Rain),
        (65, Condition::Rain),
        (66, Condition::Freezing),
        (67, Condition::Freezing),
        (71, Condition::Snow),
        (73, Condition::Snow),
        (75, Condition::Snow),
        (77, Condition::Snow),
        (80, Condition::RainShowers),
        (81, Condition::RainShowers),
        (82, Condition::RainShowers),
        (85, Condition::SnowShowers),
        (86, Condition::SnowShowers),
        (95, Condition::Thunderstorm),
        (96, Condition::Thunderstorm),
        (99, Condition::Thunderstorm),
    ];
    for (code, condition) in table {
        assert_eq!(Condition::from_wmo_code(code), condition, "code {code}");
    }
    assert_eq!(Condition::from_wmo_code(4), Condition::PartlyCloudy);
}

#[test]
fn labels_name_each_condition() {
    assert_eq!(Condition::Clear.label(), "CLEAR");
    assert_eq!(Condition::PartlyCloudy.label(), "CLOUDY");
    assert_eq!(Condition::RainShowers.label(), "SHOWERS");
    assert_eq!(Condition::SnowShowers.label(), "SNOW");
    assert_eq!(Condition::Thunderstorm.label(), "STORM");
}

#[test]
fn icons_and_colours_follow_the_condition() {
    assert_eq!(icon_for(Condition::Clear, true), "☀");
    assert_eq!(icon_for(Condition::Clear, false), "☾");
    assert_eq!(icon_for(Condition::Freezing, true), "☂");
    assert_eq!(icon_for(Condition::Thunderstorm, false), "⚡");
    assert_eq!(particle_color(Condition::Rain), CYAN);
    assert_eq!(particle_color(Condition::Drizzle), LAVENDER);
    assert_eq!(particle_color(Condition::Thunderstorm), PALE);
    assert_eq!(hero_gradient(Condition::Clear, true), (GOLD, PEACH));
    assert_eq!(hero_gradient(Condition::Clear, false), (LAVENDER, CYAN));
    assert_eq!(hero_gradient(Condition::Thunderstorm, true), (GOLD, LAVENDER));
}
