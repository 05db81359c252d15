//! How the index's store is opened.
use vstd::prelude::*;
use vstd::string::StringExecFns;

verus! {

/// Represents the Sqlite connection options that are
/// used to establish a database connection.
#[derive(Debug)]
pub struct SqliteBackendConfig<'a> {
    pub path: &'a str,
    pub create_if_missing: bool,
    pub thread_count: u32,
    pub cache_size: u64,
}

/// Represents the backend configurations.
#[derive(Debug)]
pub enum BackendConfig<'a> {
    Sqlite(SqliteBackendConfig<'a>),
}

/// Seconds a connection waits on a locked store before it fails.
pub const BUSY_TIMEOUT_SECS: u64 = 8;

/// Statistics rows the query planner's analyser reads per index.
pub const ANALYSIS_LIMIT: u32 = 1000;

/// The character of a decimal digit.
pub open spec fn digit_char(d: int) -> char {
    if d == 0 { '0' } else if d == 1 { '1' } else if d == 2 { '2' } else if d == 3 { '3' } else if d == 4 { '4' }
    else if d == 5 { '5' } else if d == 6 { '6' } else if d == 7 { '7' } else if d == 8 { '8' } else { '9' }
}

/// The decimal numeral of `n`, without leading zeros.
pub open spec fn decimal(n: nat) -> Seq<char>
    decreases n,
{
    if n < 10 {
        seq![digit_char(n as int)]
    } else {
        decimal(n / 10).push(digit_char((n % 10) as int))
    }
}

fn push_digit(s: &mut String, d: u64)
    requires
        d < 10,
    ensures
        final(s)@ == old(s)@.push(digit_char(d as int)),
{
    proof {
        reveal_strlit("0");
        reveal_strlit("1");
        reveal_strlit("2");
        reveal_strlit("3");
        reveal_strlit("4");
        reveal_strlit("5");
        reveal_strlit("6");
        reveal_strlit("7");
        reveal_strlit("8");
        reveal_strlit("9");
    }
    let digit = if d == 0 { "0" } else if d == 1 { "1" } else if d == 2 { "2" } else if d == 3 { "3" }
        else if d == 4 { "4" } else if d == 5 { "5" } else if d == 6 { "6" } else if d == 7 { "7" }
        else if d == 8 { "8" } else { "9" };
    s.append(digit);
    assert(s@ =~= old(s)@.push(digit_char(d as int)));
}

/// Appends the decimal numeral of `n`.
pub fn push_decimal(s: &mut String, n: u64)
    ensures
        final(s)@ == old(s)@ + decimal(n as nat),
    decreases n,
{
    if n >= 10 {
        push_decimal(s, n / 10);
    }
    push_digit(s, n % 10);
    assert(s@ =~= old(s)@ + decimal(n as nat));
}

/// The value of the `cache_size` pragma for a page cache of `cache_size`
/// KiB: the engine reads a negative value as a size in KiB.
pub fn cache_size_pragma(cache_size: u64) -> (r: String)
    ensures
        r@ == seq!['-'] + decimal(cache_size as nat),
{
    proof {
        reveal_strlit("-");
    }
    let mut s = String::from_str("-");
    push_decimal(&mut s, cache_size);
    s
}

/// The value of the `threads` pragma: the worker-thread count, in decimal.
pub fn threads_pragma(thread_count: u32) -> (r: String)
    ensures
        r@ == decimal(thread_count as nat),
{
    let mut s = String::new();
    push_decimal(&mut s, thread_count as u64);
    assert(s@ =~= decimal(thread_count as nat));
    s
}

} // verus!
