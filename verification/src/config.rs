//! Configuration: defaults, overrides taken from the environment, and the
//! signaling address.
//!
//! Reading the configuration file and the environment variables is done by
//! the caller; this module decides what the values become.

use std::path::PathBuf;

use vstd::prelude::*;
use vstd::string::{StrSliceExecFns, StringExecFns, StringSliceAdditionalSpecFns};
use vstd::utf8::encode_utf8;

use crate::protocol::messages::SocketAddress;

verus! {

#[verifier::external_type_specification]
#[verifier::external_body]
pub struct ExPathBuf(PathBuf);

/// Top-level configuration for both client and server binaries.
#[derive(Debug)]
pub struct Config {
    pub signaling_port: u16,
    pub turn_port: u16,
    pub log_filter: String,
    pub identity_dir: PathBuf,
}

/// The contents of a path: the bytes of its OS string, in the platform's
/// encoding (a superset of UTF-8). Capacity plays no part in it.
pub uninterp spec fn path_bytes(p: PathBuf) -> Seq<u8>;

/// The contents of the path that `PathBuf::push` makes when the component
/// `component` is pushed onto a path whose contents are `base`, by the path
/// rules of the target the crate is compiled for.
pub uninterp spec fn pushed_path_bytes(base: Seq<u8>, component: Seq<char>) -> Seq<u8>;

/// `<PathBuf as Clone>::clone`: a path with the same contents.
pub assume_specification[ <PathBuf as Clone>::clone ](p: &PathBuf) -> (r: PathBuf)
    ensures
        path_bytes(r) == path_bytes(*p),
;

/// `dirs::home_dir`: the current user's home directory, if it can be found.
/// Nothing is stated of the result: it depends on the environment and the
/// user database of the machine.
#[verifier::external_body]
pub fn home_dir() -> Option<PathBuf> {
    dirs::home_dir()
}

/// `PathBuf::from` on a string: a path whose contents are the string's UTF-8
/// bytes (the encoding of OS strings is a superset of UTF-8).
#[verifier::external_body]
fn path_from(s: &str) -> (p: PathBuf)
    ensures
        path_bytes(p) == s.spec_bytes(),
{
    PathBuf::from(s)
}

/// `PathBuf::push`: extends a path with a component. What the contents
/// become is named by `pushed_path_bytes`, a function of the old contents
/// and the component alone.
#[verifier::external_body]
fn path_push(path: &mut PathBuf, component: &str)
    ensures
        path_bytes(*final(path)) == pushed_path_bytes(path_bytes(*old(path)), component@),
{
    path.push(component)
}

impl Clone for Config {
    /// A configuration with the same ports, log filter and identity directory.
    fn clone(&self) -> (c: Self)
        ensures
            c.signaling_port == self.signaling_port,
            c.turn_port == self.turn_port,
            c.log_filter@ == self.log_filter@,
            path_bytes(c.identity_dir) == path_bytes(self.identity_dir),
    {
        Config {
            signaling_port: self.signaling_port,
            turn_port: self.turn_port,
            log_filter: self.log_filter.clone(),
            identity_dir: self.identity_dir.clone(),
        }
    }
}

/// The default signaling port.
pub const DEFAULT_SIGNALING_PORT: u16 = 38901;

/// The default TURN port.
pub const DEFAULT_TURN_PORT: u16 = 38902;

/// The contents of the identity directory for a home directory `home`:
/// `.openpeer` pushed onto the home directory, or onto `.` when there is none.
pub open spec fn identity_dir_bytes(home: Option<PathBuf>) -> Seq<u8> {
    let base = match home {
        Some(h) => path_bytes(h),
        None => encode_utf8("."@),
    };
    pushed_path_bytes(base, ".openpeer"@)
}

/// The identity directory under the home directory `home`: `.openpeer`
/// pushed onto it, or onto `.` when there is no home directory.
pub fn identity_dir_for(home: Option<PathBuf>) -> (d: PathBuf)
    ensures
        path_bytes(d) == identity_dir_bytes(home),
{
    let mut dir = match home {
        Some(p) => p,
        None => path_from("."),
    };
    path_push(&mut dir, ".openpeer");
    dir
}

impl Default for Config {
    /// Ports 38901 and 38902, log filter `info`, and the identity directory
    /// `.openpeer` under the home directory (or under `.` when there is none).
    fn default() -> (c: Self)
        ensures
            c.signaling_port == DEFAULT_SIGNALING_PORT,
            c.turn_port == DEFAULT_TURN_PORT,
            c.log_filter@ == "info"@,
            exists|home: Option<PathBuf>| path_bytes(c.identity_dir) == identity_dir_bytes(home),
    {
        let home = home_dir();
        let ghost found = home;
        let dir = identity_dir_for(home);
        let c = Config {
            signaling_port: DEFAULT_SIGNALING_PORT,
            turn_port: DEFAULT_TURN_PORT,
            log_filter: String::from_str("info"),
            identity_dir: dir,
        };
        assert(path_bytes(c.identity_dir) == identity_dir_bytes(found));
        c
    }
}

/// Whether `c` is an ASCII decimal digit.
pub open spec fn is_digit(c: char) -> bool {
    0x30 <= (c as u32) <= 0x39
}

/// The value of the decimal digits `d`.
pub open spec fn digits_value(d: Seq<char>) -> nat
    decreases d.len(),
{
    if d.len() == 0 {
        0
    } else {
        digits_value(d.drop_last()) * 10 + ((d.last() as u32) - 0x30) as nat
    }
}

/// Whether every character of `d` is an ASCII decimal digit.
pub open spec fn all_digits(d: Seq<char>) -> bool {
    forall|i: int| 0 <= i < d.len() ==> is_digit(#[trigger] d[i])
}

/// The characters of `s` after an optional leading `+`.
pub open spec fn unsigned_digits(s: Seq<char>) -> Seq<char> {
    if s.len() > 0 && s[0] == '+' {
        s.skip(1)
    } else {
        s
    }
}

/// What parsing `s` as a `u16` gives: an optional `+`, then one or more
/// decimal digits whose value is at most 65535.
pub open spec fn spec_parse_u16(s: Seq<char>) -> Option<u16> {
    let d = unsigned_digits(s);
    if d.len() == 0 || !all_digits(d) || digits_value(d) > u16::MAX {
        None
    } else {
        Some(digits_value(d) as u16)
    }
}

/// Parses a port number the way `str::parse::<u16>` does.
pub fn parse_port(s: &str) -> (r: Option<u16>)
    ensures
        r == spec_parse_u16(s@),
{
    let n = s.unicode_len();
    if n == 0 {
        return None;
    }
    let mut start: usize = 0;
    if s.get_char(0) == '+' {
        start = 1;
    }
    let ghost d = unsigned_digits(s@);
    assert(d =~= s@.skip(start as int));
    if start == n {
        return None;
    }
    let mut acc: u32 = 0;
    let mut i: usize = start;
    while i < n
        invariant
            start <= i <= n,
            n == s@.len(),
            d == s@.skip(start as int),
            d == unsigned_digits(s@),
            forall|j: int| 0 <= j < i - start ==> is_digit(#[trigger] d[j]),
            acc <= 65536,
            acc == if digits_value(d.take(i - start)) > 65535 {
                65536
            } else {
                digits_value(d.take(i - start))
            },
        decreases n - i,
    {
        let c = s.get_char(i);
        let code = c as u32;
        if code < 0x30 || code > 0x39 {
            assert(d[i - start] == c);
            assert(!is_digit(d[i - start]));
            assert(!all_digits(d));
            return None;
        }
        let ghost prefix = d.take(i - start);
        let ghost next = d.take(i + 1 - start);
        assert(next.drop_last() =~= prefix);
        assert(next.last() == c);
        acc = acc * 10 + (code - 0x30);
        if acc > 65535 {
            acc = 65536;
        }
        i = i + 1;
    }
    assert(d.take(n - start) =~= d);
    if acc > 65535 {
        None
    } else {
        Some(acc as u16)
    }
}

impl Config {
    /// Applies the overrides taken from the environment: a port replaces the
    /// configured one only when it parses as a `u16`; a log filter or an
    /// identity directory, when given, replaces the configured one.
    pub fn apply_env(
        &mut self,
        signaling_port: Option<&str>,
        turn_port: Option<&str>,
        log_filter: Option<String>,
        identity_dir: Option<PathBuf>,
    )
        ensures
            final(self).signaling_port == match signaling_port {
                Some(v) => match spec_parse_u16(v@) {
                    Some(p) => p,
                    None => old(self).signaling_port,
                },
                None => old(self).signaling_port,
            },
            final(self).turn_port == match turn_port {
                Some(v) => match spec_parse_u16(v@) {
                    Some(p) => p,
                    None => old(self).turn_port,
                },
                None => old(self).turn_port,
            },
            final(self).log_filter@ == match log_filter {
                Some(l) => l@,
                None => old(self).log_filter@,
            },
            final(self).identity_dir == match identity_dir {
                Some(d) => d,
                None => old(self).identity_dir,
            },
    {
        if let Some(v) = signaling_port {
            self.signaling_port = match parse_port(v) {
                Some(p) => p,
                None => self.signaling_port,
            };
        }
        if let Some(v) = turn_port {
            self.turn_port = match parse_port(v) {
                Some(p) => p,
                None => self.turn_port,
            };
        }
        if let Some(v) = log_filter {
            self.log_filter = v;
        }
        if let Some(v) = identity_dir {
            self.identity_dir = v;
        }
    }

    /// The signaling address: the IP address of `bind` with the configured
    /// signaling port.
    pub fn signaling_addr(&self, bind: SocketAddress) -> (a: SocketAddress)
        ensures
            a.ip == bind.ip,
            a.port == self.signaling_port,
    {
        SocketAddress { ip: bind.ip, port: self.signaling_port }
    }
}

} // verus!
