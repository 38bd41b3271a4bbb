//! Settings: the immutable snapshot of listen host, listen port and
//! read-buffer size that the server runs on. The raw values arrive from
//! the environment; turning them into a snapshot, with defaults and a
//! lenient number parse, is the logic verified here.

use crate::bytes::parse_usize_str;
use crate::bytes::spec_parse_usize_str;
use vstd::prelude::*;
use vstd::string::StringExecFns;

verus! {

/// An immutable settings snapshot. A reload builds a brand-new instance;
/// no instance is ever mutated in place.
#[derive(Debug, Clone, PartialEq, Eq)]
pub struct Settings {
    pub hostname: String,
    pub port: String,
    pub buffer_size: usize,
}

/// The read-buffer size a raw setting denotes: the parsed value when it
/// is a positive number, and the default otherwise. A zero would make
/// every read empty, so it falls back exactly like an unparsable value.
pub open spec fn spec_buffer_size(raw: Option<Seq<char>>) -> usize {
    match raw {
        Option::None => 1024,
        Option::Some(t) => match spec_parse_usize_str(t) {
            Option::None => 1024,
            Option::Some(v) => if v >= 1 {
                v
            } else {
                1024
            },
        },
    }
}

impl Settings {
    /// The snapshot is usable: reads make progress.
    pub open spec fn wf(self) -> bool {
        self.buffer_size >= 1
    }

    /// Builds the snapshot from the raw environment values, absent ones
    /// and unparsable buffer sizes falling back to the documented
    /// defaults: host `127.0.0.1`, port `4221`, buffer size `1024`.
    pub fn resolve(
        hostname: Option<String>,
        port: Option<String>,
        buffer_size: Option<String>,
    ) -> (s: Settings)
        ensures
            s.hostname@ == (match hostname {
                Option::Some(h) => h@,
                Option::None => "127.0.0.1"@,
            }),
            s.port@ == (match port {
                Option::Some(p) => p@,
                Option::None => "4221"@,
            }),
            s.buffer_size == spec_buffer_size(match buffer_size {
                Option::Some(b) => Option::Some(b@),
                Option::None => Option::None,
            }),
            s.wf(),
    {
        let hostname = match hostname {
            Option::Some(h) => h,
            Option::None => String::from_str("127.0.0.1"),
        };
        let port = match port {
            Option::Some(p) => p,
            Option::None => String::from_str("4221"),
        };
        let buffer_size: usize = match buffer_size {
            Option::Some(b) => match parse_usize_str(b.as_str()) {
                Option::Some(v) => if v >= 1 {
                    v
                } else {
                    1024
                },
                Option::None => 1024,
            },
            Option::None => 1024,
        };
        Settings { hostname, port, buffer_size }
    }
}

} // verus!
