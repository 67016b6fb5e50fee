//! `key=value` arguments.

use std::str::FromStr;
use vstd::prelude::*;
use vstd::string::{StrSliceExecFns, StringExecFns};

verus! {

/// The character that parts a key from its value.
pub const SEPARATOR: char = '=';

/// A key and its value, as written in `key=value`.
#[derive(Debug)]
pub struct KvPair {
    pub k: String,
    pub v: String,
}

/// The text that is no `key=value`.
#[derive(Debug)]
pub struct KvParseError {
    pub input: String,
}

/// The position of the first separator in `text` at or after `from`, or the
/// length of `text` if there is none.
pub open spec fn separator_from(text: Seq<char>, from: int) -> int
    decreases text.len() - from,
{
    if from >= text.len() {
        text.len() as int
    } else if text[from] == SEPARATOR {
        from
    } else {
        separator_from(text, from + 1)
    }
}

/// The key and the value that `text` spells: what stands before the first
/// separator, and what stands between it and the second separator or the
/// end. `None` if `text` holds no separator.
pub open spec fn kv_parts(text: Seq<char>) -> Option<(Seq<char>, Seq<char>)> {
    let first = separator_from(text, 0);
    if first >= text.len() {
        None
    } else {
        Some(
            (
                text.subrange(0, first),
                text.subrange(first + 1, separator_from(text, first + 1)),
            ),
        )
    }
}

/// Finds the first separator at or after `from`.
fn find_separator(text: &str, len: usize, from: usize) -> (at: usize)
    requires
        len == text@.len(),
        from <= len,
    ensures
        at == separator_from(text@, from as int),
        from <= at <= len,
{
    let mut at: usize = from;
    while at < len
        invariant
            len == text@.len(),
            from <= at <= len,
            separator_from(text@, from as int) == separator_from(text@, at as int),
        decreases len - at,
    {
        if text.get_char(at) == SEPARATOR {
            return at;
        }
        at += 1;
    }
    at
}

impl KvParseError {
    /// A sentence that names the text.
    pub fn message(&self) -> (text: String)
        ensures
            text@ == "Failed to parse "@ + self.input@,
    {
        let mut text = "Failed to parse ".to_owned();
        text.append(self.input.as_str());
        text
    }
}

impl KvPair {
    /// Reads a pair from `text`.
    ///
    /// Succeeds exactly when `text` holds a separator. The key is what
    /// stands before the first one; the value is what follows it, up to the
    /// next separator if there is one.
    pub fn parse(text: &str) -> (r: Result<KvPair, KvParseError>)
        ensures
            match kv_parts(text@) {
                Some((k, v)) => r is Ok && r.unwrap().k@ == k && r.unwrap().v@ == v,
                None => r is Err && r.unwrap_err().input@ == text@,
            },
    {
        let len = text.unicode_len();
        let first = find_separator(text, len, 0);
        if first >= len {
            return Err(KvParseError { input: text.to_owned() });
        }
        let second = find_separator(text, len, first + 1);
        let k = text.substring_char(0, first).to_owned();
        let v = text.substring_char(first + 1, second).to_owned();
        Ok(KvPair { k, v })
    }
}

impl FromStr for KvPair {
    type Err = KvParseError;

    /// Reads a pair from `text`, as `KvPair::parse` does.
    fn from_str(text: &str) -> (r: Result<KvPair, KvParseError>)
        ensures
            match kv_parts(text@) {
                Some((k, v)) => r is Ok && r.unwrap().k@ == k && r.unwrap().v@ == v,
                None => r is Err && r.unwrap_err().input@ == text@,
            },
    {
        KvPair::parse(text)
    }
}

/// Reads a `key=value` argument.
pub fn parse_kv_pair(s: &str) -> (r: Result<KvPair, KvParseError>)
    ensures
        match kv_parts(s@) {
            Some((k, v)) => r is Ok && r.unwrap().k@ == k && r.unwrap().v@ == v,
            None => r is Err && r.unwrap_err().input@ == s@,
        },
{
    KvPair::parse(s)
}

} // verus!
