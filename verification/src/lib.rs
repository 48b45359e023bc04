//! Packaging pipeline for named script resources.
//!
//! A build request carries a raw "database" script and a handful of options.
//! The pipeline validates the request, compiles the database and a small
//! generated "adaptor" patch script, gathers the compiled pieces into an
//! ordered bundle, renders the bundle as a loader script of registration
//! statements, compiles that script, and finally hides the resulting bytecode
//! under a stream cipher.  An inverse path recovers every named payload from
//! such an artifact.

pub mod bundle;

pub mod crypto;

pub mod errors;

pub mod extract;

pub mod hexcode;

pub mod ident;

pub mod lua;

pub mod request;

pub mod timestamp;

pub mod upload;

use vstd::prelude::*;
use vstd::slice::{slice_subrange, slice_to_vec};
use crate::bundle::Bundles;
use crate::errors::{BuildError, CompileError, ValidationError};
use crate::ident::gbk_bytes_of;
use crate::timestamp::{render_time, time_text_spec, BuildTime};

verus! {

/// The byte floor of an uploaded database payload: a fixed-size header
/// region of this many bytes is stripped before compilation.
pub const DATABASE_HEADER_SIZE: usize = 0x200;

/// The keyword text a request carries, or empty when none was given.
pub open spec fn spec_keywords(g: GameRes) -> Seq<char> {
    match g.keywords {
        Some(k) => k@,
        None => Seq::empty(),
    }
}

/// The generated adaptor patch script: a fixed two-hook template with the
/// four parameters substituted verbatim into literal positions.  When
/// `statistics` is false the statistics hook swallows the call.
pub open spec fn adaptor_text_spec(
    statistics: bool,
    filename: Seq<char>,
    time: Seq<char>,
    keywords: Seq<char>,
) -> Seq<char> {
    "\n        local f1 = 核心.数据统计\n        核心.数据统计 = function(uid, gid, unk, hash, time)\n            if "@
        + (if statistics {
        "true"@
    } else {
        "false"@
    }) + " then\n                f1(0, 0, 1, \""@ + filename + "\", \""@ + time
        + "\")\n            end\n        end\n        local f2 = 核心.anti_hacking\n        核心.anti_hacking = function(enabled, keywords)\n            f2(1, \""@
        + keywords + "\")\n        end\n        "@
}

/// A build request under assembly: the database payload, the build options,
/// and the adaptor parameters.
#[derive(Debug, Clone)]
pub struct GameRes {
    pub keywords: Option<String>,
    pub database: Option<Vec<u8>>,
    pub statistics: bool,
    pub build_time: Option<BuildTime>,
    pub filename: Option<String>,
}

impl Default for GameRes {
    /// An empty request: nothing set, statistics off.
    fn default() -> (r: GameRes)
        ensures
            r.keywords is None,
            r.database is None,
            r.statistics == false,
            r.build_time is None,
            r.filename is None,
    {
        GameRes {
            keywords: None,
            database: None,
            statistics: false,
            build_time: None,
            filename: None,
        }
    }
}

impl GameRes {
    /// A fresh, empty request.
    pub fn new() -> (r: GameRes)
        ensures
            r.keywords is None,
            r.database is None,
            r.statistics == false,
            r.build_time is None,
            r.filename is None,
    {
        GameRes {
            keywords: None,
            database: None,
            statistics: false,
            build_time: None,
            filename: None,
        }
    }

    /// Set the anti-cheat keyword list the adaptor injects.
    pub fn illegal_keywords(self, keywords: &str) -> (r: Self)
        ensures
            r.keywords matches Some(k) && k@ == keywords@,
            r.database == self.database,
            r.statistics == self.statistics,
            r.build_time == self.build_time,
            r.filename == self.filename,
    {
        GameRes { keywords: Some(keywords.to_owned()), ..self }
    }

    /// Confirm the memory-cheat guard; the guard cannot be switched off.
    pub fn anti_memory_cheat(self, switch: bool) -> (r: Self)
        requires
            switch,
        ensures
            r == self,
    {
        self
    }

    /// Choose whether the statistics hook forwards the original call.
    pub fn statistics(self, switch: bool) -> (r: Self)
        ensures
            r.statistics == switch,
            r.keywords == self.keywords,
            r.database == self.database,
            r.build_time == self.build_time,
            r.filename == self.filename,
    {
        GameRes { statistics: switch, ..self }
    }

    /// Set the build timestamp the adaptor embeds.
    pub fn build_time(self, time: BuildTime) -> (r: Self)
        ensures
            r.build_time == Some(time),
            r.keywords == self.keywords,
            r.database == self.database,
            r.statistics == self.statistics,
            r.filename == self.filename,
    {
        GameRes { build_time: Some(time), ..self }
    }

    /// Set the filename the statistics hook reports.
    pub fn filename(self, name: &str) -> (r: Self)
        ensures
            r.filename matches Some(f) && f@ == name@,
            r.keywords == self.keywords,
            r.database == self.database,
            r.statistics == self.statistics,
            r.build_time == self.build_time,
    {
        GameRes { filename: Some(name.to_owned()), ..self }
    }

    /// Confirm the speed-hack guard; the guard cannot be switched off.
    pub fn anti_speed_hack(self, switch: bool) -> (r: Self)
        requires
            switch,
        ensures
            r == self,
    {
        self
    }

    /// Set the raw database payload, header still in front.
    pub fn game_lua(self, data: Vec<u8>) -> (r: Self)
        ensures
            r.database matches Some(d) && d@ == data@,
            r.keywords == self.keywords,
            r.statistics == self.statistics,
            r.build_time == self.build_time,
            r.filename == self.filename,
    {
        GameRes { database: Some(data), ..self }
    }

    /// Render the adaptor patch script and transcode it for the runtime.
    pub fn create_adaptor(&self) -> (r: Vec<u8>)
        requires
            self.build_time matches Some(t) && t.wf(),
            self.filename is Some,
        ensures
            r@ == gbk_bytes_of(
                adaptor_text_spec(
                    self.statistics,
                    self.filename.unwrap()@,
                    time_text_spec(self.build_time.unwrap()),
                    spec_keywords(*self),
                ),
            ),
    {
        match (&self.build_time, &self.filename) {
            (Some(t), Some(fname)) => {
                let mut s = String::new();
                s.append(
                    "\n        local f1 = 核心.数据统计\n        核心.数据统计 = function(uid, gid, unk, hash, time)\n            if ",
                );
                if self.statistics {
                    s.append("true");
                } else {
                    s.append("false");
                }
                s.append(" then\n                f1(0, 0, 1, \"");
                s.append(fname.as_str());
                s.append("\", \"");
                let ts = render_time(t);
                s.append(ts.as_str());
                s.append(
                    "\")\n            end\n        end\n        local f2 = 核心.anti_hacking\n        核心.anti_hacking = function(enabled, keywords)\n            f2(1, \"",
                );
                match &self.keywords {
                    Some(k) => s.append(k.as_str()),
                    None => {},
                }
                s.append("\")\n        end\n        ");
                proof {
                    assert(s@ =~= adaptor_text_spec(
                        self.statistics,
                        self.filename.unwrap()@,
                        time_text_spec(self.build_time.unwrap()),
                        spec_keywords(*self),
                    ));
                }
                crate::ident::gbk_encode(s.as_str())
            },
            _ => {
                proof {
                    assert(false);
                }
                Vec::new()
            },
        }
    }

    /// Run the whole build: validate the database floor, strip the header,
    /// compile the database and the generated adaptor, assemble the bundle,
    /// render and compile the loader script, and cipher the result.
    ///
    /// The artifact on success is the container-ciphered image of the
    /// compiled loader; a database shorter than the header floor is the one
    /// validation failure this step raises.
    pub fn build(&self) -> (r: Result<Vec<u8>, BuildError>)
        requires
            self.database is Some,
            self.build_time matches Some(t) && t.wf(),
            self.filename is Some,
        ensures
            self.database.unwrap()@.len() < DATABASE_HEADER_SIZE ==> (r matches Err(e) && e
                == BuildError::Validation(ValidationError::TooSmall)),
            r matches Err(BuildError::Validation(v)) ==> v == ValidationError::TooSmall
                && self.database.unwrap()@.len() < DATABASE_HEADER_SIZE,
            r is Ok ==> self.database.unwrap()@.len() >= DATABASE_HEADER_SIZE,
    {
        let database = match &self.database {
            Some(d) => d,
            None => {
                proof {
                    assert(false);
                }
                return Err(BuildError::Validation(ValidationError::TooSmall));
            },
        };
        if database.len() < DATABASE_HEADER_SIZE {
            return Err(BuildError::Validation(ValidationError::TooSmall));
        }
        // The leading header region is opaque upload metadata, not script.
        let stripped = slice_to_vec(
            slice_subrange(database.as_slice(), DATABASE_HEADER_SIZE, database.len()),
        );
        let database_bc = match crate::lua::compile("database.lua", &stripped) {
            Ok(bc) => bc,
            Err(e) => {
                return Err(BuildError::DatabaseCompile(e));
            },
        };
        if database_bc.len() as u64 >= 0x1_0000_0000u64 {
            return Err(
                BuildError::DatabaseCompile(
                    CompileError {
                        message: String::from_str("bytecode exceeds the container size field"),
                    },
                ),
            );
        }
        let adaptor = self.create_adaptor();
        let adaptor_bc = match crate::lua::compile("adaptor.lua", &adaptor) {
            Ok(bc) => bc,
            Err(e) => {
                return Err(BuildError::AdaptorCompile(e));
            },
        };
        if adaptor_bc.len() as u64 >= 0x1_0000_0000u64 {
            return Err(
                BuildError::AdaptorCompile(
                    CompileError {
                        message: String::from_str("bytecode exceeds the container size field"),
                    },
                ),
            );
        }
        let mut bundles = Bundles::with_adaptor(adaptor_bc);
        bundles.set_database(database_bc);
        match bundles.pack() {
            Ok(packed) => Ok(packed),
            Err(e) => Err(BuildError::LoaderCompile(e)),
        }
    }
}

} // verus!
