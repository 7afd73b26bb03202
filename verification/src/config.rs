//! The settings that a run of the client starts from.

use vstd::prelude::*;

verus! {

/// The host of the inference server where none is given.
pub const DEFAULT_HOST: &'static str = "localhost";

/// The port of the inference server where none is given.
pub const DEFAULT_PORT: u16 = 11434;

/// The model that answers with tools where none is given.
pub const DEFAULT_TOOL_MODEL: &'static str = "qwen3:30b-a3b";

/// The model that writes titles where none is given.
pub const DEFAULT_VISION_MODEL: &'static str = "gemma3:27b-it-qat";

/// Where the inference server is and which models to ask.
#[derive(Debug)]
pub struct Args {
    pub host: String,
    pub port: u16,
    pub tool_model: String,
    pub vision_model: String,
}

impl Args {
    /// The settings that hold `host`, `port` and the two models where they
    /// are given, and the defaults in place of those that are not.
    pub fn with_defaults(
        host: Option<String>,
        port: Option<u16>,
        tool_model: Option<String>,
        vision_model: Option<String>,
    ) -> (args: Args)
        ensures
            args.host@ == (match host {
                Some(h) => h@,
                None => DEFAULT_HOST@,
            }),
            args.port == (match port {
                Some(p) => p,
                None => DEFAULT_PORT,
            }),
            args.tool_model@ == (match tool_model {
                Some(m) => m@,
                None => DEFAULT_TOOL_MODEL@,
            }),
            args.vision_model@ == (match vision_model {
                Some(m) => m@,
                None => DEFAULT_VISION_MODEL@,
            }),
    {
        Args {
            host: match host {
                Some(h) => h,
                None => DEFAULT_HOST.to_owned(),
            },
            port: match port {
                Some(p) => p,
                None => DEFAULT_PORT,
            },
            tool_model: match tool_model {
                Some(m) => m,
                None => DEFAULT_TOOL_MODEL.to_owned(),
            },
            vision_model: match vision_model {
                Some(m) => m,
                None => DEFAULT_VISION_MODEL.to_owned(),
            },
        }
    }
}

impl Default for Args {
    fn default() -> (args: Args)
        ensures
            args.host@ == DEFAULT_HOST@,
            args.port == DEFAULT_PORT,
            args.tool_model@ == DEFAULT_TOOL_MODEL@,
            args.vision_model@ == DEFAULT_VISION_MODEL@,
    {
        Args::with_defaults(None, None, None, None)
    }
}

} // verus!
