//! The `INFO` command: information and statistics about the server, in a
//! form that is simple to parse and easy to read.

use vstd::prelude::*;
use vstd::string::StringExecFns;
use vstd::string::StrSliceExecFns;
use vstd::utf8::encode_utf8;
use crate::text::{decimal, decimal_text};

verus! {

/// One frame of the protocol.
#[derive(Debug, PartialEq, Eq)]
pub enum Frame {
    Simple(String),
    Error(String),
    Integer(u64),
    Bulk(Vec<u8>),
    Null,
    Array(Vec<Frame>),
}

/// A cursor over the parts of a command that was received.
#[derive(Debug)]
pub struct Parse {
    parts: Vec<Frame>,
    next: usize,
}

impl Parse {
    /// How many parts have not been read.
    pub closed spec fn remaining(&self) -> nat {
        if self.next <= self.parts@.len() {
            (self.parts@.len() - self.next) as nat
        } else {
            0
        }
    }

    /// A cursor in front of the first of `parts`.
    pub fn new(parts: Vec<Frame>) -> (parse: Parse)
        ensures
            parse.remaining() == parts@.len(),
    {
        Parse { parts, next: 0 }
    }

    /// Skips one part, if there is one.
    pub fn skip(&mut self)
        ensures
            final(self).remaining() == if old(self).remaining() > 0 {
                (old(self).remaining() - 1) as nat
            } else {
                0
            },
    {
        if self.next < self.parts.len() {
            self.next = self.next + 1;
        }
    }

    /// Makes sure that every part was read.
    pub fn finish(&mut self) -> (result: Result<(), String>)
        ensures
            final(self).remaining() == old(self).remaining(),
            match result {
                Ok(()) => old(self).remaining() == 0,
                Err(message) => old(self).remaining() > 0 && message@
                    == "protocol error; expected end of frame, but there was more"@,
            },
    {
        if self.next < self.parts.len() {
            Err(String::from_str("protocol error; expected end of frame, but there was more"))
        } else {
            Ok(())
        }
    }
}

/// The descriptions of the commands that the server knows.
#[derive(Debug)]
pub struct CommandDescs {}

/// The counters of a database.
#[derive(Clone, Copy, Debug, PartialEq, Eq, Structural)]
pub struct DbStats {
    pub evicted_keys: u64,
    pub expired_keys: u64,
    pub keyspace_hits: u64,
    pub keyspace_misses: u64,
    pub num_keys: u64,
}

/// The `INFO` command.
#[derive(Debug, PartialEq, Eq, Structural)]
pub struct Info {}

/// The text that `INFO` answers with.
pub open spec fn info_text(used_memory: u64, stats: DbStats) -> Seq<char> {
    "# Memory\nused_memory:"@ + decimal_text(used_memory as nat) + "\n# Stats\nevicted_keys:"@
        + decimal_text(stats.evicted_keys as nat) + "\nexpired_keys:"@ + decimal_text(
        stats.expired_keys as nat,
    ) + "\nkeyspace_hits:"@ + decimal_text(stats.keyspace_hits as nat) + "\nkeyspace_misses:"@
        + decimal_text(stats.keyspace_misses as nat) + "\n# Keyspace\nkeys:"@ + decimal_text(
        stats.num_keys as nat,
    ) + "\n"@
}

impl Info {
    /// The command.
    pub fn new() -> (info: Info)
        ensures
            info == (Info {  }),
    {
        Info {  }
    }

    /// Answers with the memory in use and the counters of the database, as
    /// a bulk frame that holds the text in UTF-8.
    pub fn apply(&self, used_memory: u64, stats: &DbStats) -> (response: Frame)
        ensures
            response matches Frame::Bulk(content) && content@ == encode_utf8(info_text(used_memory, *stats)),
    {
        let mut content = String::from_str("# Memory\nused_memory:");
        content.append(decimal(used_memory).as_str());
        content.append("\n# Stats\nevicted_keys:");
        content.append(decimal(stats.evicted_keys).as_str());
        content.append("\nexpired_keys:");
        content.append(decimal(stats.expired_keys).as_str());
        content.append("\nkeyspace_hits:");
        content.append(decimal(stats.keyspace_hits).as_str());
        content.append("\nkeyspace_misses:");
        content.append(decimal(stats.keyspace_misses).as_str());
        content.append("\n# Keyspace\nkeys:");
        content.append(decimal(stats.num_keys).as_str());
        content.append("\n");
        Frame::Bulk(content.as_str().as_bytes_vec())
    }

    /// The name of the command.
    pub fn get_name(&self) -> (name: &'static str)
        ensures
            name@ == "info"@,
    {
        "info"
    }
}

/// Reads an `INFO` command from the parts that follow its name: there must
/// be none.
pub fn parse_frames(descs: &CommandDescs, parse: &mut Parse) -> (result: Result<Info, String>)
    ensures
        final(parse).remaining() == old(parse).remaining(),
        match result {
            Ok(info) => old(parse).remaining() == 0 && info == (Info {  }),
            Err(message) => old(parse).remaining() > 0 && message@
                == "wrong number of arguments for 'info' command"@,
        },
{
    match parse.finish() {
        Ok(()) => Ok(Info {  }),
        Err(_) => Err(String::from_str("wrong number of arguments for 'info' command")),
    }
}

} // verus!
