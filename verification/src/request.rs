//! Build requests as the front end hands them over: the option set, its
//! validation, and the request-to-artifact pipeline.

use vstd::prelude::*;
use crate::errors::{BuildError, ValidationError};
use crate::timestamp::BuildTime;
use crate::{GameRes, DATABASE_HEADER_SIZE};

verus! {

/// The game mode a request names.
#[derive(Debug, Clone, Copy, PartialEq, Eq, Structural)]
pub enum GameType {
    Login,
    AutoUpdate,
    Offline,
}

/// The options of one compile request, as submitted by the front end.
#[derive(Debug, Clone)]
pub struct CompileOption {
    pub name: String,
    pub filename: String,
    pub op_safedata: bool,
    pub op_delad: bool,
    pub op_statistics: bool,
    pub op_jiasu: bool,
    pub op_keywords: String,
    pub op_qudong: bool,
    pub op_login: GameType,
    pub ver: u32,
}

/// The supported option sets: offline mode, the ad-removal flag on, and at
/// least one of the three feature flags requested.
pub open spec fn options_supported(o: CompileOption) -> bool {
    &&& o.op_login == GameType::Offline
    &&& o.op_delad
    &&& (o.op_jiasu || o.op_qudong || o.op_safedata)
}

/// Check an option set against the supported combinations.
pub fn validate_options(option: &CompileOption) -> (r: Result<(), ValidationError>)
    ensures
        r is Ok <==> options_supported(*option),
        r matches Err(e) ==> e == ValidationError::UnsupportedOption,
{
    match option.op_login {
        GameType::Offline => {},
        _ => {
            return Err(ValidationError::UnsupportedOption);
        },
    }
    if !option.op_delad {
        return Err(ValidationError::UnsupportedOption);
    }
    if !option.op_jiasu && !option.op_qudong && !option.op_safedata {
        return Err(ValidationError::UnsupportedOption);
    }
    Ok(())
}

/// The wire form of a boolean flag: 1 for on, 0 for off.
pub fn flag_to_num(b: bool) -> (r: u8)
    ensures
        r == (if b {
            1u8
        } else {
            0u8
        }),
{
    if b {
        1
    } else {
        0
    }
}

/// Read a wire flag: only 0 and 1 are accepted.
pub fn num_to_flag(n: u8) -> (r: Option<bool>)
    ensures
        r == (if n == 0 {
            Some(false)
        } else if n == 1 {
            Some(true)
        } else {
            None::<bool>
        }),
{
    if n == 0 {
        Some(false)
    } else if n == 1 {
        Some(true)
    } else {
        None
    }
}

/// The wire number of a game mode.
pub fn game_type_to_num(t: GameType) -> (r: u32)
    ensures
        r == (match t {
            GameType::Login => 1u32,
            GameType::AutoUpdate => 2u32,
            GameType::Offline => 3u32,
        }),
{
    match t {
        GameType::Login => 1,
        GameType::AutoUpdate => 2,
        GameType::Offline => 3,
    }
}

/// Read a game mode from its wire number; other numbers are rejected.
pub fn game_type_from_num(n: u32) -> (r: Option<GameType>)
    ensures
        r == (if n == 1 {
            Some(GameType::Login)
        } else if n == 2 {
            Some(GameType::AutoUpdate)
        } else if n == 3 {
            Some(GameType::Offline)
        } else {
            None::<GameType>
        }),
{
    if n == 1 {
        Some(GameType::Login)
    } else if n == 2 {
        Some(GameType::AutoUpdate)
    } else if n == 3 {
        Some(GameType::Offline)
    } else {
        None
    }
}

/// Run one compile request end to end: validate the options, then build the
/// artifact from the stored database payload.
///
/// An unsupported option set is rejected before anything else; a database
/// shorter than the header floor is rejected next; afterwards the pipeline
/// runs, and the artifact on success is the container-ciphered image of the
/// compiled loader.
pub fn compile_request(file: &Vec<u8>, option: &CompileOption, build_time: BuildTime) -> (r:
    Result<Vec<u8>, BuildError>)
    requires
        build_time.wf(),
    ensures
        !options_supported(*option) ==> (r matches Err(e) && e == BuildError::Validation(
            ValidationError::UnsupportedOption,
        )),
        options_supported(*option) && file@.len() < DATABASE_HEADER_SIZE ==> (r matches Err(e)
            && e == BuildError::Validation(ValidationError::TooSmall)),
        r is Ok ==> options_supported(*option) && file@.len() >= DATABASE_HEADER_SIZE,
{
    match validate_options(option) {
        Err(e) => {
            return Err(BuildError::Validation(e));
        },
        Ok(()) => {},
    }
    let mut res = GameRes::new().illegal_keywords(option.op_keywords.as_str());
    // The guard confirmations only apply to guards the request turned on.
    if option.op_safedata {
        res = res.anti_memory_cheat(true);
    }
    if option.op_jiasu {
        res = res.anti_speed_hack(true);
    }
    let res = res
        .statistics(option.op_statistics)
        .build_time(build_time)
        .filename(option.filename.as_str())
        .game_lua(file.clone());
    res.build()
}

} // verus!
