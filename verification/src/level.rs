//! The data model: a level, its header and its objects.

use chrono::NaiveDateTime;
use vstd::prelude::*;

verus! {

/// `chrono::NaiveDateTime`: a date and a time of day, without a zone. A
/// level carries one along; nothing here looks into it.
#[verifier::external_type_specification]
#[verifier::external_body]
pub struct ExNaiveDateTime(NaiveDateTime);

/// The game whose look and rules a level uses.
#[derive(Clone, Copy, Debug, PartialEq, Eq, Structural)]
pub enum GameMode {
    SuperMarioBros,
    SuperMarioBros3,
    SuperMarioWorld,
    NewSuperMarioBrosU,
}

/// The scenery of a level.
#[derive(Clone, Copy, Debug, PartialEq, Eq, Structural)]
pub enum CourseTheme {
    Overworld,
    Underground,
    Castle,
    Airship,
    Water,
    GhostHouse,
}

/// How fast the camera moves on its own.
#[derive(Clone, Copy, Debug, PartialEq, Eq, Structural)]
pub enum AutoScroll {
    Off,
    Slow,
    Medium,
    Fast,
}

impl GameMode {
    /// The number a game mode is stored as.
    pub open spec fn spec_code(self) -> u8 {
        match self {
            GameMode::SuperMarioBros => 0,
            GameMode::SuperMarioBros3 => 1,
            GameMode::SuperMarioWorld => 2,
            GameMode::NewSuperMarioBrosU => 3,
        }
    }

    /// The game mode a number stands for. A number that stands for none
    /// gives the default.
    pub open spec fn spec_from_code(code: u8) -> GameMode {
        if code == 1 {
            GameMode::SuperMarioBros3
        } else if code == 2 {
            GameMode::SuperMarioWorld
        } else if code == 3 {
            GameMode::NewSuperMarioBrosU
        } else {
            GameMode::SuperMarioBros
        }
    }

    #[verifier::when_used_as_spec(spec_code)]
    pub fn code(self) -> (code: u8)
        ensures
            code == self.spec_code(),
            code < 4,
    {
        match self {
            GameMode::SuperMarioBros => 0,
            GameMode::SuperMarioBros3 => 1,
            GameMode::SuperMarioWorld => 2,
            GameMode::NewSuperMarioBrosU => 3,
        }
    }

    #[verifier::when_used_as_spec(spec_from_code)]
    pub fn from_code(code: u8) -> (mode: GameMode)
        ensures
            mode == GameMode::spec_from_code(code),
    {
        match code {
            1 => GameMode::SuperMarioBros3,
            2 => GameMode::SuperMarioWorld,
            3 => GameMode::NewSuperMarioBrosU,
            _ => GameMode::SuperMarioBros,
        }
    }
}

impl Default for GameMode {
    fn default() -> (mode: GameMode)
        ensures
            mode == GameMode::SuperMarioBros,
    {
        GameMode::SuperMarioBros
    }
}

impl CourseTheme {
    /// The number a theme is stored as.
    pub open spec fn spec_code(self) -> u8 {
        match self {
            CourseTheme::Overworld => 0,
            CourseTheme::Underground => 1,
            CourseTheme::Castle => 2,
            CourseTheme::Airship => 3,
            CourseTheme::Water => 4,
            CourseTheme::GhostHouse => 5,
        }
    }

    /// The theme a number stands for. A number that stands for none gives
    /// the default.
    pub open spec fn spec_from_code(code: u8) -> CourseTheme {
        if code == 1 {
            CourseTheme::Underground
        } else if code == 2 {
            CourseTheme::Castle
        } else if code == 3 {
            CourseTheme::Airship
        } else if code == 4 {
            CourseTheme::Water
        } else if code == 5 {
            CourseTheme::GhostHouse
        } else {
            CourseTheme::Overworld
        }
    }

    #[verifier::when_used_as_spec(spec_code)]
    pub fn code(self) -> (code: u8)
        ensures
            code == self.spec_code(),
            code < 6,
    {
        match self {
            CourseTheme::Overworld => 0,
            CourseTheme::Underground => 1,
            CourseTheme::Castle => 2,
            CourseTheme::Airship => 3,
            CourseTheme::Water => 4,
            CourseTheme::GhostHouse => 5,
        }
    }

    #[verifier::when_used_as_spec(spec_from_code)]
    pub fn from_code(code: u8) -> (theme: CourseTheme)
        ensures
            theme == CourseTheme::spec_from_code(code),
    {
        match code {
            1 => CourseTheme::Underground,
            2 => CourseTheme::Castle,
            3 => CourseTheme::Airship,
            4 => CourseTheme::Water,
            5 => CourseTheme::GhostHouse,
            _ => CourseTheme::Overworld,
        }
    }
}

impl Default for CourseTheme {
    fn default() -> (theme: CourseTheme)
        ensures
            theme == CourseTheme::Overworld,
    {
        CourseTheme::Overworld
    }
}

impl AutoScroll {
    /// The number a scroll speed is stored as.
    pub open spec fn spec_code(self) -> u8 {
        match self {
            AutoScroll::Off => 0,
            AutoScroll::Slow => 1,
            AutoScroll::Medium => 2,
            AutoScroll::Fast => 3,
        }
    }

    /// The scroll speed a number stands for. A number that stands for none
    /// gives the default.
    pub open spec fn spec_from_code(code: u8) -> AutoScroll {
        if code == 1 {
            AutoScroll::Slow
        } else if code == 2 {
            AutoScroll::Medium
        } else if code == 3 {
            AutoScroll::Fast
        } else {
            AutoScroll::Off
        }
    }

    #[verifier::when_used_as_spec(spec_code)]
    pub fn code(self) -> (code: u8)
        ensures
            code == self.spec_code(),
            code < 4,
    {
        match self {
            AutoScroll::Off => 0,
            AutoScroll::Slow => 1,
            AutoScroll::Medium => 2,
            AutoScroll::Fast => 3,
        }
    }

    #[verifier::when_used_as_spec(spec_from_code)]
    pub fn from_code(code: u8) -> (scroll: AutoScroll)
        ensures
            scroll == AutoScroll::spec_from_code(code),
    {
        match code {
            1 => AutoScroll::Slow,
            2 => AutoScroll::Medium,
            3 => AutoScroll::Fast,
            _ => AutoScroll::Off,
        }
    }
}

impl Default for AutoScroll {
    fn default() -> (scroll: AutoScroll)
        ensures
            scroll == AutoScroll::Off,
    {
        AutoScroll::Off
    }
}

/// The scalar fields of a level that the canvas stores.
#[derive(Clone, Copy, Debug, PartialEq, Eq, Structural)]
pub struct Header {
    pub game_mode: GameMode,
    pub course_theme: CourseTheme,
    pub time_limit: u16,
    pub auto_scroll: AutoScroll,
    pub flags: u8,
    pub width: u32,
}

/// One placed object.
#[derive(Clone, Copy, Debug, PartialEq, Eq, Structural)]
pub struct Object {
    pub x_position: u32,
    pub y_position: i16,
    pub z_position: i32,
    pub object_type: i8,
    pub transformation_id: i8,
    pub object_flags: u32,
    pub width: i8,
    pub height: i8,
    pub child_object_type: i8,
    pub child_object_transformation_id: i8,
    pub child_object_flags: u32,
    pub extended_object_data: u32,
    pub link_id: i16,
    pub effect_index: i16,
}

/// One placed sound effect. The canvas does not store these.
#[derive(Clone, Copy, Debug, PartialEq, Eq, Structural)]
pub struct SoundEffect {
    pub effect_type: i8,
    pub variation: i8,
    pub x_position: u8,
    pub y_position: u8,
}

/// A level: the header fields, the objects, and what travels with them.
#[derive(Debug)]
pub struct Level {
    pub game_mode: GameMode,
    pub course_theme: CourseTheme,
    pub time_limit: u16,
    pub auto_scroll: AutoScroll,
    pub flags: u8,
    pub width: u32,
    pub objects: Vec<Object>,
    pub version: u64,
    pub creation_time: NaiveDateTime,
    pub level_name: String,
    pub mii_data: [u8; 96],
    pub sound_effects: Vec<SoundEffect>,
}

/// What a level is to the contracts.
pub struct LevelView {
    pub header: Header,
    pub objects: Seq<Object>,
    pub version: u64,
    pub creation_time: NaiveDateTime,
    pub level_name: Seq<char>,
    pub mii_data: Seq<u8>,
    pub sound_effects: Seq<SoundEffect>,
}

impl View for Level {
    type V = LevelView;

    open spec fn view(&self) -> LevelView {
        LevelView {
            header: self.spec_header(),
            objects: self.objects@,
            version: self.version,
            creation_time: self.creation_time,
            level_name: self.level_name@,
            mii_data: self.mii_data@,
            sound_effects: self.sound_effects@,
        }
    }
}

/// A course: a level and the sub-level that its pipes and doors lead to.
#[derive(Debug)]
pub struct Course {
    pub level: Level,
    pub sub_level: Level,
}

impl Level {
    /// The header fields of a level.
    pub open spec fn spec_header(&self) -> Header {
        Header {
            game_mode: self.game_mode,
            course_theme: self.course_theme,
            time_limit: self.time_limit,
            auto_scroll: self.auto_scroll,
            flags: self.flags,
            width: self.width,
        }
    }

    #[verifier::when_used_as_spec(spec_header)]
    pub fn header(&self) -> (header: Header)
        ensures
            header == self.spec_header(),
    {
        Header {
            game_mode: self.game_mode,
            course_theme: self.course_theme,
            time_limit: self.time_limit,
            auto_scroll: self.auto_scroll,
            flags: self.flags,
            width: self.width,
        }
    }
}

} // verus!
