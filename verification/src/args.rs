//! Turning an argument list into one request.
use vstd::prelude::*;

use crate::check_string;
use crate::chunk_type::{spec_text_bytes, spec_text_ok, ChunkType};
use crate::commands::{Commands, DataCommand, EncodeCommand};
use crate::error::FormatError;
use vstd::slice::slice_index_get;
use vstd::string::StringExecFns;

verus! {

/// What can go wrong while building a request from arguments.
#[derive(Clone, Copy, Debug, PartialEq, Eq, Structural)]
pub enum ConfigError {
    /// Fewer than 4 arguments were given.
    NotEnoughArguments,
    /// The chunk type argument is malformed; carries the codec's report.
    InvalidType(FormatError),
}

/// A parsed request, ready to run.
#[derive(Debug)]
pub struct Config {
    pub command: Commands,
}

impl Config {
    /// Builds a request from the argument list and the bytes of the file
    /// the request names: the command word, the file, the chunk type,
    /// and for encode the message and an output name. A command word
    /// other than the four known ones, or an encode call with fewer than
    /// 6 arguments, is outside this function's contract: the caller
    /// tests for both and aborts before calling.
    pub fn build(args: &[String], data: Vec<u8>) -> (r: Result<Config, ConfigError>)
        requires
            (args@.len() >= 4 && spec_text_ok(args@[3]@)) ==> (args@[1]@ == "encode"@ || args@[1]@
                == "decode"@ || args@[1]@ == "remove"@ || args@[1]@ == "print"@),
            (args@.len() >= 4 && spec_text_ok(args@[3]@) && args@[1]@ == "encode"@) ==> args@.len()
                >= 6,
        ensures
            match r {
                Ok(c) => {
                    &&& args@.len() >= 4
                    &&& spec_text_ok(args@[3]@)
                    &&& match c.command {
                        Commands::Encode(e) => {
                            &&& args@[1]@ == "encode"@
                            &&& args@.len() >= 6
                            &&& e.data@ == data@
                            &&& e.chunk_type@ == spec_text_bytes(args@[3]@)
                            &&& e.message@ == args@[4]@
                            &&& e.output@ == (if args@[5]@.len() > 0 {
                                args@[5]@
                            } else {
                                Seq::<char>::empty()
                            })
                        },
                        Commands::Decode(d) => args@[1]@ == "decode"@ && d.data@ == data@
                            && d.chunk_type@ == spec_text_bytes(args@[3]@),
                        Commands::Remove(d) => args@[1]@ == "remove"@ && d.data@ == data@
                            && d.chunk_type@ == spec_text_bytes(args@[3]@),
                        Commands::Print(d) => args@[1]@ == "print"@ && d.data@ == data@
                            && d.chunk_type@ == spec_text_bytes(args@[3]@),
                    }
                },
                Err(ConfigError::NotEnoughArguments) => args@.len() < 4,
                Err(ConfigError::InvalidType(e)) => args@.len() >= 4 && match e {
                    FormatError::InvalidLength => args@[3]@.len() != 4,
                    FormatError::InvalidCharacter => args@[3]@.len() == 4 && !spec_text_ok(
                        args@[3]@,
                    ),
                    _ => false,
                },
            },
    {
        if args.len() < 4 {
            return Err(ConfigError::NotEnoughArguments);
        }
        let chunk_type = match ChunkType::from_str(slice_index_get(args, 3).as_str()) {
            Ok(t) => t,
            Err(e) => {
                return Err(ConfigError::InvalidType(e));
            },
        };
        let cmd = slice_index_get(args, 1);
        let command: Commands = if *cmd == String::from_str("encode") {
            let message = slice_index_get(args, 4).clone();
            let output: String = match check_string(slice_index_get(args, 5).as_str()) {
                Some(arg) => String::from_str(arg),
                None => String::new(),
            };
            Commands::Encode(EncodeCommand::new(data, chunk_type, message, output))
        } else if *cmd == String::from_str("decode") {
            Commands::Decode(DataCommand::new(data, chunk_type))
        } else if *cmd == String::from_str("remove") {
            Commands::Remove(DataCommand::new(data, chunk_type))
        } else if *cmd == String::from_str("print") {
            Commands::Print(DataCommand::new(data, chunk_type))
        } else {
            proof {
                assert(false);
            }
            vstd::pervasive::unreached()
        };
        Ok(Config { command })
    }
}

} // verus!
