//! The competition seasons that the service knows, and their codes.

use vstd::prelude::*;

use crate::error::ApiError;
use crate::text::decimal;

verus! {

/// A season of the FIRST Tech Challenge.
#[derive(Clone, Copy, Debug, PartialEq, Eq, Structural)]
pub enum Season {
    SkyStone,
    RoverRuckus,
    RelicRecovery,
    VelocityVortex,
}

/// The four-digit code under which the service files a season.
pub open spec fn season_code(season: Season) -> i32 {
    match season {
        Season::SkyStone => 1920,
        Season::RoverRuckus => 1819,
        Season::RelicRecovery => 1718,
        Season::VelocityVortex => 1617,
    }
}

/// The season whose code is written `code`, if there is one.
pub open spec fn season_of(code: Seq<char>) -> Option<Season> {
    if code == "1920"@ {
        Some(Season::SkyStone)
    } else if code == "1819"@ {
        Some(Season::RoverRuckus)
    } else if code == "1718"@ {
        Some(Season::RelicRecovery)
    } else if code == "1617"@ {
        Some(Season::VelocityVortex)
    } else {
        None
    }
}

/// The label under which a season is shown.
pub open spec fn season_label(season: Season) -> Seq<char> {
    match season {
        Season::SkyStone => "Season::SkyStone"@,
        Season::RoverRuckus => "Season::RoverRuckus"@,
        Season::RelicRecovery => "Season::RelicRecovery"@,
        Season::VelocityVortex => "Season::VelocityVortex"@,
    }
}

/// Reads a season code: the season, or `Lookup` where no season has it.
pub open spec fn season_from_code(code: Seq<char>) -> Result<Season, ApiError> {
    match season_of(code) {
        Some(season) => Ok(season),
        None => Err(ApiError::Lookup),
    }
}

impl Season {
    /// The season's four-digit code.
    pub fn value(&self) -> (r: i32)
        ensures
            r == season_code(*self),
    {
        match self {
            Season::SkyStone => 1920,
            Season::RoverRuckus => 1819,
            Season::RelicRecovery => 1718,
            Season::VelocityVortex => 1617,
        }
    }

    /// The season whose code is written `s`; `Lookup` where there is none.
    pub fn value_of(s: String) -> (r: Result<Season, ApiError>)
        ensures
            r == season_from_code(s@),
    {
        let code = s.as_str();
        if crate::text::str_eq(code, "1920") {
            Ok(Season::SkyStone)
        } else if crate::text::str_eq(code, "1819") {
            Ok(Season::RoverRuckus)
        } else if crate::text::str_eq(code, "1718") {
            Ok(Season::RelicRecovery)
        } else if crate::text::str_eq(code, "1617") {
            Ok(Season::VelocityVortex)
        } else {
            Err(ApiError::Lookup)
        }
    }

    /// The label under which the season is shown.
    pub fn label(&self) -> (r: String)
        ensures
            r@ == season_label(*self),
    {
        match self {
            Season::SkyStone => "Season::SkyStone".to_string(),
            Season::RoverRuckus => "Season::RoverRuckus".to_string(),
            Season::RelicRecovery => "Season::RelicRecovery".to_string(),
            Season::VelocityVortex => "Season::VelocityVortex".to_string(),
        }
    }
}

/// Every season's code, written in decimal, reads back as that season.
pub proof fn lemma_season_code_round_trip(season: Season)
    ensures
        season_from_code(decimal(season_code(season) as nat)) == Ok::<Season, ApiError>(season),
{
    reveal_with_fuel(decimal, 5);
    reveal_strlit("1920");
    reveal_strlit("1819");
    reveal_strlit("1718");
    reveal_strlit("1617");
    let text = decimal(season_code(season) as nat);
    assert("1920"@[1] == '9' && "1920"@[2] == '2');
    assert("1819"@[1] == '8' && "1819"@[2] == '1');
    assert("1718"@[1] == '7' && "1718"@[2] == '1');
    match season {
        Season::SkyStone => assert(text =~= "1920"@),
        Season::RoverRuckus => assert(text =~= "1819"@),
        Season::RelicRecovery => assert(text =~= "1718"@),
        Season::VelocityVortex => assert(text =~= "1617"@),
    }
}

} // verus!
