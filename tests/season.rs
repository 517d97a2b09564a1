use rustoa::{ApiError, Season};

#[test]
fn test_season() {
    let season = Season::SkyStone;
    assert_eq!(season.value(), 1920);
}

#[test]
fn season_codes() {
    assert_eq!(Season::RoverRuckus.value(), 1819);
    assert_eq!(Season::RelicRecovery.value(), 1718);
    assert_eq!(Season::VelocityVortex.value(), 1617);
}

#[test]
fn season_code_round_trip() {
    for season in [
        Season::SkyStone,
        Season::RoverRuckus,
        Season::RelicRecovery,
        Season::VelocityVortex,
    ] {
        assert_eq!(Season::value_of(season.value().to_string()), Ok(season));
    }
}

#[test]
fn unknown_season_code() {
    for code in ["2021", "", "192", "19200", " 1920", "1920 ", "one"] {
        assert_eq!(Season::value_of(code.to_string()), Err(ApiError::Lookup));
    }
}

#[test]
fn season_labels() {
    assert_eq!(Season::SkyStone.label(), "Season::SkyStone");
    assert_eq!(Season::RoverRuckus.label(), "Season::RoverRuckus");
    assert_eq!(Season::RelicRecovery.label(), "Season::RelicRecovery");
    assert_eq!(Season::VelocityVortex.label(), "Season::VelocityVortex");
}
