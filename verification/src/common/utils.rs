use crate::model::proxy::{ProxyBasic, ONE};
use vstd::arithmetic::div_mod::lemma_fundamental_div_mod_converse;
use vstd::prelude::*;
use vstd::string::{StrSliceExecFns, StringExecFns};

verus! {

/// `n / d` rounded to the nearest integer, halves upwards.
pub open spec fn round_div(n: nat, d: nat) -> nat
    recommends
        d > 0,
{
    (2 * n + d) / (2 * d)
}

/// Rounding by quotient and remainder: the quotient goes up by one exactly
/// when twice the remainder reaches the divisor.
pub proof fn lemma_round_div(n: nat, d: nat, q: nat, r: nat)
    requires
        d > 0,
        r < d,
        n == q * d + r,
    ensures
        round_div(n, d) == if 2 * r >= d {
            q + 1
        } else {
            q
        },
{
    let x: int = (2 * n + d) as int;
    let dd: int = (2 * d) as int;
    if 2 * r >= d {
        assert(x == (q + 1) * dd + (2 * r - d)) by (nonlinear_arith)
            requires
                x == 2 * n + d,
                dd == 2 * d,
                n == q * d + r,
        ;
        lemma_fundamental_div_mod_converse(x, dd, (q + 1) as int, (2 * r - d) as int);
    } else {
        assert(x == q * dd + (2 * r + d)) by (nonlinear_arith)
            requires
                x == 2 * n + d,
                dd == 2 * d,
                n == q * d + r,
        ;
        lemma_fundamental_div_mod_converse(x, dd, q as int, (2 * r + d) as int);
    }
}

/// A quotient of at most `bound` is still at most `bound` after rounding.
pub proof fn lemma_round_div_le(n: nat, d: nat, bound: nat)
    requires
        d > 0,
        n <= bound * d,
    ensures
        round_div(n, d) <= bound,
{
    let q = n / d;
    let r = n % d;
    vstd::arithmetic::div_mod::lemma_fundamental_div_mod(n as int, d as int);
    assert(n == q * d + r) by (nonlinear_arith)
        requires
            n == d * q + r,
    ;
    lemma_round_div(n, d, q, r);
    if q >= bound {
        assert(q == bound && r == 0) by (nonlinear_arith)
            requires
                q >= bound,
                d > 0,
                n == q * d + r,
                n <= bound * d,
        ;
    }
}

/// Divides and rounds to the nearest integer, halves upwards.
pub fn round_div_exec(n: u128, d: u128) -> (res: u128)
    requires
        d > 0,
    ensures
        res == round_div(n as nat, d as nat),
{
    let q: u128 = n / d;
    let r: u128 = n % d;
    proof {
        vstd::arithmetic::div_mod::lemma_fundamental_div_mod(n as int, d as int);
        assert(n == q * d + r) by (nonlinear_arith)
            requires
                n == d * q + r,
        ;
        lemma_round_div(n as nat, d as nat, q as nat, r as nat);
    }
    if r >= d - r {
        assert(q < u128::MAX) by (nonlinear_arith)
            requires
                n == q * d + r,
                r >= d - r,
                r < d,
                n <= u128::MAX,
        ;
        q + 1
    } else {
        q
    }
}

/// The sub-score of a mean latency, as a step function of the latency in
/// hundredths of a second: under 0.1 s it is 1.0, under 0.5 s 0.8, under 1 s
/// 0.5, under 2 s 0.3, and 0.1 from there on.
pub open spec fn speed_score(speed: u64) -> u64 {
    if speed < 10 {
        1_000_000
    } else if speed < 50 {
        800_000
    } else if speed < 100 {
        500_000
    } else if speed < 200 {
        300_000
    } else {
        100_000
    }
}

/// Maps a mean latency, in hundredths of a second, to its sub-score in
/// millionths.
pub fn speed_to_score(speed: u64) -> (r: u64)
    ensures
        r == speed_score(speed),
        100_000 <= r <= ONE,
{
    if speed < 10 {
        1_000_000
    } else if speed < 50 {
        800_000
    } else if speed < 100 {
        500_000
    } else if speed < 200 {
        300_000
    } else {
        100_000
    }
}

/// A slower proxy never gets a better sub-score.
pub proof fn lemma_speed_score_monotone(a: u64, b: u64)
    requires
        a <= b,
    ensures
        speed_score(a) >= speed_score(b),
{
}

/// True when some candidate in `list` has the identity `key`.
pub open spec fn has_key(list: Seq<ProxyBasic>, key: (Seq<char>, Seq<char>)) -> bool {
    exists|i: int| 0 <= i < list.len() && (#[trigger] list[i]).key() == key
}

/// `list` without the candidates whose identity occurred earlier in it: of
/// each identity the first occurrence stays, in its place.
pub open spec fn dedup_spec(list: Seq<ProxyBasic>) -> Seq<ProxyBasic>
    decreases list.len(),
{
    if list.len() == 0 {
        Seq::empty()
    } else {
        let front = dedup_spec(list.drop_last());
        if has_key(front, list.last().key()) {
            front
        } else {
            front.push(list.last())
        }
    }
}

/// No two candidates in `list` share an identity.
pub open spec fn distinct_keys(list: Seq<ProxyBasic>) -> bool {
    forall|i: int, j: int|
        0 <= i < j < list.len() ==> (#[trigger] list[i]).key() != (#[trigger] list[j]).key()
}

/// The position at which the identity `key` first occurs in `list`, where it
/// occurs at all.
pub open spec fn first_index(list: Seq<ProxyBasic>, key: (Seq<char>, Seq<char>)) -> int
    decreases list.len(),
{
    if list.len() == 0 {
        0
    } else if has_key(list.drop_last(), key) {
        first_index(list.drop_last(), key)
    } else {
        list.len() - 1
    }
}

/// An identity occurs in a list with one more candidate at its end when it
/// occurred before or is that of the new candidate.
pub proof fn lemma_has_key_push(list: Seq<ProxyBasic>, last: ProxyBasic, key: (Seq<char>, Seq<char>))
    ensures
        has_key(list.push(last), key) == (has_key(list, key) || last.key() == key),
{
    let longer = list.push(last);
    if has_key(list, key) {
        let i = choose|i: int| 0 <= i < list.len() && (#[trigger] list[i]).key() == key;
        assert(longer[i].key() == key);
    }
    if last.key() == key {
        assert(longer[list.len() as int].key() == key);
    }
    if has_key(longer, key) {
        let i = choose|i: int| 0 <= i < longer.len() && (#[trigger] longer[i]).key() == key;
        if i < list.len() {
            assert(list[i].key() == key);
        }
    }
}

/// Deduplication drops no identity and invents none, leaves no identity
/// twice, and never makes the list longer.
pub proof fn lemma_dedup_keeps_keys(list: Seq<ProxyBasic>)
    ensures
        forall|key: (Seq<char>, Seq<char>)|
            has_key(dedup_spec(list), key) == has_key(list, key),
        distinct_keys(dedup_spec(list)),
        dedup_spec(list).len() <= list.len(),
    decreases list.len(),
{
    if list.len() > 0 {
        let shorter = list.drop_last();
        let front = dedup_spec(shorter);
        lemma_dedup_keeps_keys(shorter);
        assert(list == shorter.push(list.last()));
        assert forall|key: (Seq<char>, Seq<char>)|
            has_key(dedup_spec(list), key) == has_key(list, key) by {
            lemma_has_key_push(shorter, list.last(), key);
            lemma_has_key_push(front, list.last(), key);
        }
        if !has_key(front, list.last().key()) {
            let out = front.push(list.last());
            assert forall|i: int, j: int| 0 <= i < j < out.len() implies (#[trigger] out[i]).key()
                != (#[trigger] out[j]).key() by {
                if j == front.len() {
                    assert(front[i].key() != list.last().key());
                } else {
                    assert(front[i].key() != front[j].key());
                }
            }
        }
    }
}

/// A list in which no identity occurs twice is left as it is.
pub proof fn lemma_dedup_fixes_distinct(list: Seq<ProxyBasic>)
    requires
        distinct_keys(list),
    ensures
        dedup_spec(list) == list,
    decreases list.len(),
{
    if list.len() > 0 {
        let shorter = list.drop_last();
        assert forall|i: int, j: int| 0 <= i < j < shorter.len() implies (#[trigger] shorter[i]).key()
            != (#[trigger] shorter[j]).key() by {
            assert(list[i].key() != list[j].key());
        }
        lemma_dedup_fixes_distinct(shorter);
        if has_key(shorter, list.last().key()) {
            let i = choose|i: int|
                0 <= i < shorter.len() && (#[trigger] shorter[i]).key() == list.last().key();
            assert(list[i].key() != list[list.len() - 1].key());
        }
        assert(shorter.push(list.last()) == list);
    } else {
        assert(list == Seq::<ProxyBasic>::empty());
    }
}

/// Deduplicating twice gives the same list as deduplicating once, and the
/// result is never longer than the input.
pub proof fn lemma_dedup_idempotent(list: Seq<ProxyBasic>)
    ensures
        dedup_spec(dedup_spec(list)) == dedup_spec(list),
        dedup_spec(list).len() <= list.len(),
{
    lemma_dedup_keeps_keys(list);
    lemma_dedup_fixes_distinct(dedup_spec(list));
}

/// Where an identity occurs in a list, its first position holds it and no
/// earlier position does.
pub proof fn lemma_first_index(list: Seq<ProxyBasic>, key: (Seq<char>, Seq<char>))
    requires
        has_key(list, key),
    ensures
        0 <= first_index(list, key) < list.len(),
        list[first_index(list, key)].key() == key,
        forall|j: int| 0 <= j < first_index(list, key) ==> (#[trigger] list[j]).key() != key,
    decreases list.len(),
{
    let shorter = list.drop_last();
    assert(list == shorter.push(list.last()));
    lemma_has_key_push(shorter, list.last(), key);
    if has_key(shorter, key) {
        lemma_first_index(shorter, key);
        let at = first_index(shorter, key);
        assert(list[at] == shorter[at]);
        assert forall|j: int| 0 <= j < at implies (#[trigger] list[j]).key() != key by {
            assert(shorter[j].key() != key);
        }
    } else {
        assert forall|j: int| 0 <= j < list.len() - 1 implies (#[trigger] list[j]).key() != key by {
            assert(shorter[j].key() == list[j].key());
        }
    }
}

/// Deduplication keeps what was seen first, in the order in which it was
/// seen: each candidate of the result is the one at the first position of the
/// input that has its identity, no earlier position has that identity, and
/// of two candidates of the result the earlier one also came first in the
/// input.
pub proof fn lemma_dedup_first_seen(list: Seq<ProxyBasic>)
    ensures
        forall|k: int|
            0 <= k < dedup_spec(list).len() ==> {
                let at = first_index(list, (#[trigger] dedup_spec(list)[k]).key());
                &&& 0 <= at < list.len()
                &&& list[at] == dedup_spec(list)[k]
            },
        forall|k: int, j: int|
            0 <= k < dedup_spec(list).len() && 0 <= j < first_index(
                list,
                (#[trigger] dedup_spec(list)[k]).key(),
            ) ==> (#[trigger] list[j]).key() != dedup_spec(list)[k].key(),
        forall|a: int, b: int|
            0 <= a < b < dedup_spec(list).len() ==> first_index(
                list,
                (#[trigger] dedup_spec(list)[a]).key(),
            ) < first_index(list, (#[trigger] dedup_spec(list)[b]).key()),
    decreases list.len(),
{
    lemma_dedup_keeps_keys(list);
    assert forall|k: int, j: int|
        0 <= k < dedup_spec(list).len() && 0 <= j < first_index(
            list,
            (#[trigger] dedup_spec(list)[k]).key(),
        ) implies (#[trigger] list[j]).key() != dedup_spec(list)[k].key() by {
        let key = dedup_spec(list)[k].key();
        assert(has_key(dedup_spec(list), key));
        lemma_first_index(list, key);
    }
    if list.len() > 0 {
        let shorter = list.drop_last();
        let front = dedup_spec(shorter);
        let out = dedup_spec(list);
        lemma_dedup_first_seen(shorter);
        lemma_dedup_keeps_keys(shorter);
        assert forall|k: int| 0 <= k < front.len() implies {
            &&& first_index(list, (#[trigger] front[k]).key()) == first_index(
                shorter,
                front[k].key(),
            )
            &&& first_index(shorter, front[k].key()) < shorter.len()
            &&& list[first_index(shorter, front[k].key())] == front[k]
        } by {
            assert(has_key(front, front[k].key()));
            assert(has_key(shorter, front[k].key()));
            let at = first_index(shorter, front[k].key());
            assert(list[at] == shorter[at]);
        }
        if !has_key(front, list.last().key()) {
            assert(!has_key(shorter, list.last().key()));
            assert(out == front.push(list.last()));
            assert(first_index(list, list.last().key()) == list.len() - 1);
            assert forall|k: int| 0 <= k < out.len() implies {
                let at = first_index(list, (#[trigger] out[k]).key());
                &&& 0 <= at < list.len()
                &&& list[at] == out[k]
            } by {
                if k < front.len() {
                    assert(out[k] == front[k]);
                }
            }
            assert forall|a: int, b: int| 0 <= a < b < out.len() implies first_index(
                list,
                (#[trigger] out[a]).key(),
            ) < first_index(list, (#[trigger] out[b]).key()) by {
                assert(out[a] == front[a]);
                if b < front.len() {
                    assert(out[b] == front[b]);
                }
            }
        } else {
            assert(out == front);
        }
    }
}

/// True when `list` holds a candidate with the identity of `candidate`.
pub fn contains_key(list: &Vec<ProxyBasic>, candidate: &ProxyBasic) -> (found: bool)
    ensures
        found == has_key(list@, candidate.key()),
{
    let mut i: usize = 0;
    while i < list.len()
        invariant
            i <= list@.len(),
            forall|j: int| 0 <= j < i ==> (#[trigger] list@[j]).key() != candidate.key(),
        decreases list@.len() - i,
    {
        if list[i].same_key(candidate) {
            return true;
        }
        i = i + 1;
    }
    false
}

/// Removes the candidates whose address and port occurred earlier in the
/// batch; the first occurrence of each identity stays, in its place.
pub fn dedup_proxies(proxies: Vec<ProxyBasic>) -> (result: Vec<ProxyBasic>)
    ensures
        result@ == dedup_spec(proxies@),
        result@.len() <= proxies@.len(),
        distinct_keys(result@),
{
    let mut result: Vec<ProxyBasic> = Vec::new();
    let mut i: usize = 0;
    while i < proxies.len()
        invariant
            i <= proxies@.len(),
            result@ == dedup_spec(proxies@.subrange(0, i as int)),
        decreases proxies@.len() - i,
    {
        proof {
            assert(proxies@.subrange(0, i + 1).drop_last() == proxies@.subrange(0, i as int));
        }
        if !contains_key(&result, &proxies[i]) {
            result.push(proxies[i].clone());
        }
        i = i + 1;
    }
    proof {
        assert(proxies@.subrange(0, i as int) == proxies@);
        lemma_dedup_keeps_keys(proxies@);
    }
    result
}

/// An ASCII letter.
pub open spec fn is_ascii_letter(c: char) -> bool {
    ('a' <= c && c <= 'z') || ('A' <= c && c <= 'Z')
}

/// An ASCII digit.
pub open spec fn is_ascii_digit(c: char) -> bool {
    '0' <= c && c <= '9'
}

/// A character that may occur in the name of a table.
pub open spec fn is_name_char(c: char) -> bool {
    is_ascii_letter(c) || is_ascii_digit(c) || c == '_'
}

/// A name that may be used for a table: it starts with an ASCII letter, and
/// all its characters are ASCII letters, ASCII digits or underscores.
pub open spec fn valid_table_name(name: Seq<char>) -> bool {
    &&& name.len() > 0
    &&& is_ascii_letter(name[0])
    &&& forall|i: int| 0 <= i < name.len() ==> is_name_char(#[trigger] name[i])
}

/// Checks the configured name of a table before it is put into a statement.
pub fn validate_table_name(name: &str) -> (valid: bool)
    ensures
        valid == valid_table_name(name@),
{
    let n: usize = name.unicode_len();
    if n == 0 {
        return false;
    }
    let head: char = name.get_char(0);
    if !((head >= 'a' && head <= 'z') || (head >= 'A' && head <= 'Z')) {
        return false;
    }
    let mut i: usize = 0;
    while i < n
        invariant
            n == name@.len(),
            i <= n,
            forall|j: int| 0 <= j < i ==> is_name_char(#[trigger] name@[j]),
        decreases n - i,
    {
        let c: char = name.get_char(i);
        let ok: bool = (c >= 'a' && c <= 'z') || (c >= 'A' && c <= 'Z') || (c >= '0' && c <= '9')
            || c == '_';
        if !ok {
            assert(!is_name_char(name@[i as int]));
            return false;
        }
        i = i + 1;
    }
    true
}

/// The severity of a log message.
#[derive(Clone, Copy, Debug, PartialEq, Eq, Structural)]
pub enum LogLevel {
    Error,
    Warn,
    Info,
    Debug,
    Trace,
}

/// What `str::to_uppercase` returns for a string with these characters.
pub uninterp spec fn uppercase_of(text: Seq<char>) -> Seq<char>;

/// `str::to_uppercase` of the standard library: the upper-case form of `text`
/// under the Unicode case mapping. The contract gives that result a name and
/// claims nothing else of it.
#[verifier::external_body]
fn to_uppercase(text: &str) -> (upper: String)
    ensures
        upper@ == uppercase_of(text@),
{
    text.to_uppercase()
}

/// The level that an upper-case name stands for, if any.
pub open spec fn level_of(upper: Seq<char>) -> Option<LogLevel> {
    if upper == "ERROR"@ {
        Some(LogLevel::Error)
    } else if upper == "WARN"@ || upper == "WARNING"@ {
        Some(LogLevel::Warn)
    } else if upper == "INFO"@ {
        Some(LogLevel::Info)
    } else if upper == "DEBUG"@ {
        Some(LogLevel::Debug)
    } else if upper == "TRACE"@ {
        Some(LogLevel::Trace)
    } else {
        None
    }
}

/// Reads a level from its name in upper case; a name that stands for no
/// level gives `None`.
pub fn level_from_upper(upper: &str) -> (level: Option<LogLevel>)
    ensures
        level == level_of(upper@),
{
    let name = String::from_str(upper);
    if name == String::from_str("ERROR") {
        Some(LogLevel::Error)
    } else if name == String::from_str("WARN") || name == String::from_str("WARNING") {
        Some(LogLevel::Warn)
    } else if name == String::from_str("INFO") {
        Some(LogLevel::Info)
    } else if name == String::from_str("DEBUG") {
        Some(LogLevel::Debug)
    } else if name == String::from_str("TRACE") {
        Some(LogLevel::Trace)
    } else {
        None
    }
}

/// Reads a level from its name, whatever the case of its letters; a name that
/// stands for no level gives `None`.
pub fn parse_level(s: &str) -> (level: Option<LogLevel>)
    ensures
        level == level_of(uppercase_of(s@)),
{
    let upper = to_uppercase(s);
    level_from_upper(upper.as_str())
}

} // verus!
