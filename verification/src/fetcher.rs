//! Reading candidates from the text that a source publishes: one candidate
//! to a line, as an address, a colon and a port.

use crate::model::proxy::ProxyBasic;
use vstd::prelude::*;
use vstd::string::StrSliceExecFns;

verus! {

/// The position of the first colon in `line` at or after `from`, or the
/// length of `line` if there is none.
pub open spec fn colon_from(line: Seq<char>, from: int) -> int
    decreases line.len() - from,
{
    if from >= line.len() {
        line.len() as int
    } else if line[from] == ':' {
        from
    } else {
        colon_from(line, from + 1)
    }
}

/// The address and the port that a line holds: what stands before its first
/// colon, and what stands between that colon and the next one or the end of
/// the line. A line without a colon holds no candidate.
pub open spec fn spec_parse_line(line: Seq<char>) -> Option<(Seq<char>, Seq<char>)> {
    let first = colon_from(line, 0);
    if first >= line.len() {
        None
    } else {
        Some((line.subrange(0, first), line.subrange(first + 1, colon_from(line, first + 1))))
    }
}

/// Finds the first colon in `line` at or after `from`.
pub fn find_colon(line: &str, from: usize) -> (at: usize)
    requires
        from <= line@.len(),
    ensures
        at == colon_from(line@, from as int),
        from <= at <= line@.len(),
{
    let n: usize = line.unicode_len();
    let mut i: usize = from;
    while i < n
        invariant
            n == line@.len(),
            from <= i <= n,
            colon_from(line@, from as int) == colon_from(line@, i as int),
        decreases n - i,
    {
        if line.get_char(i) == ':' {
            return i;
        }
        i = i + 1;
    }
    i
}

/// Reads the candidate that a line holds, if it holds one.
pub fn parse_proxy_line(line: &str) -> (r: Option<ProxyBasic>)
    ensures
        match r {
            Some(proxy) => spec_parse_line(line@) == Some(proxy.key()),
            None => spec_parse_line(line@) is None,
        },
{
    let n: usize = line.unicode_len();
    let first: usize = find_colon(line, 0);
    if first >= n {
        None
    } else {
        let second: usize = find_colon(line, first + 1);
        let ip = line.substring_char(0, first);
        let port = line.substring_char(first + 1, second);
        Some(ProxyBasic::new(ip, port))
    }
}

} // verus!
