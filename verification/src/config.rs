//! Startup configuration: three tunable values read from a small key-value
//! document, with hard-coded defaults for anything absent or malformed.
//!
//! The document is plain text, one `key=value` setting per line (separated
//! by the newline byte).  The keys are `starting_length`,
//! `initial_interval` and `minimum_interval`; a value is a run of decimal
//! digits.  A line that is not such a setting, or whose value is zero or
//! too large, is ignored; of several well-formed lines for one key the last
//! wins.

use vstd::prelude::*;

verus! {

/// The three tunables: how long the snake starts out, the tick interval at
/// the start of a game, and the floor the interval shrinks toward as the
/// score grows.  Intervals are in milliseconds.
#[derive(Debug, Clone, Copy, PartialEq, Eq, Structural)]
pub struct Config {
    pub snake_starting_length: usize,
    pub start_refresh_in_ms: u64,
    pub max_refresh_in_ms: u64,
}

/// The fallback values: length 3, 100 ms starting interval, 50 ms floor.
pub open spec fn spec_default_config() -> Config {
    Config { snake_starting_length: 3, start_refresh_in_ms: 100, max_refresh_in_ms: 50 }
}

impl Default for Config {
    fn default() -> (c: Config)
        ensures
            c == spec_default_config(),
    {
        Config { snake_starting_length: 3, start_refresh_in_ms: 100, max_refresh_in_ms: 50 }
    }
}

pub open spec fn is_digit(b: u8) -> bool {
    48 <= b <= 57
}

/// The number a run of decimal digit bytes denotes, most significant first.
pub open spec fn digits_val(s: Seq<u8>) -> int
    decreases s.len(),
{
    if s.len() == 0 {
        0
    } else {
        10 * digits_val(s.drop_last()) + (s.last() as int - 48)
    }
}

pub open spec fn all_digits(s: Seq<u8>) -> bool {
    forall|i: int| 0 <= i < s.len() ==> is_digit(#[trigger] s[i])
}

/// A value field parses iff it is a non-empty run of digits whose number
/// fits in a `u64`.
pub open spec fn parsed_number(s: Seq<u8>) -> Option<u64> {
    if s.len() >= 1 && all_digits(s) && digits_val(s) <= u64::MAX as int {
        Some(digits_val(s) as u64)
    } else {
        None
    }
}

pub open spec fn key_starting_length() -> Seq<u8> {
    seq![115u8, 116, 97, 114, 116, 105, 110, 103, 95, 108, 101, 110, 103, 116, 104]
}

pub open spec fn key_initial_interval() -> Seq<u8> {
    seq![105u8, 110, 105, 116, 105, 97, 108, 95, 105, 110, 116, 101, 114, 118, 97, 108]
}

pub open spec fn key_minimum_interval() -> Seq<u8> {
    seq![109u8, 105, 110, 105, 109, 117, 109, 95, 105, 110, 116, 101, 114, 118, 97, 108]
}

/// The value a line assigns to the given key: the line must be the key, the
/// `=` byte, and a parsable number, in full.
pub open spec fn line_value(line: Seq<u8>, key: Seq<u8>) -> Option<u64> {
    if line.len() > key.len() && line.subrange(0, key.len() as int) == key && line[key.len() as int]
        == 61 {
        parsed_number(line.subrange(key.len() as int + 1, line.len() as int))
    } else {
        None
    }
}

/// One line applied to a configuration: a well-formed setting with a
/// positive (and, for the length, address-sized) value replaces that field,
/// anything else changes nothing.
pub open spec fn apply_line(c: Config, line: Seq<u8>) -> Config {
    match line_value(line, key_starting_length()) {
        Some(v) => if 1 <= v && v as int <= usize::MAX as int {
            Config {
                snake_starting_length: v as usize,
                start_refresh_in_ms: c.start_refresh_in_ms,
                max_refresh_in_ms: c.max_refresh_in_ms,
            }
        } else {
            c
        },
        None => match line_value(line, key_initial_interval()) {
            Some(v) => if 1 <= v {
                Config {
                    snake_starting_length: c.snake_starting_length,
                    start_refresh_in_ms: v,
                    max_refresh_in_ms: c.max_refresh_in_ms,
                }
            } else {
                c
            },
            None => match line_value(line, key_minimum_interval()) {
                Some(v) => if 1 <= v {
                    Config {
                        snake_starting_length: c.snake_starting_length,
                        start_refresh_in_ms: c.start_refresh_in_ms,
                        max_refresh_in_ms: v,
                    }
                } else {
                    c
                },
                None => c,
            },
        },
    }
}

/// The position of the first newline byte at or after `i`, or the end of
/// the document.
pub open spec fn line_end(s: Seq<u8>, i: int) -> int
    decreases s.len() - i,
{
    if i < 0 || i >= s.len() {
        s.len() as int
    } else if s[i] == 10 {
        i
    } else {
        line_end(s, i + 1)
    }
}

pub proof fn lemma_line_end_bounds(s: Seq<u8>, i: int)
    requires
        0 <= i <= s.len(),
    ensures
        i <= line_end(s, i) <= s.len(),
    decreases s.len() - i,
{
    if i < s.len() && s[i] != 10 {
        lemma_line_end_bounds(s, i + 1);
    }
}

/// The whole document folded into a configuration, line by line from
/// position `i` on.
pub open spec fn scan_config(s: Seq<u8>, i: int, c: Config) -> Config
    decreases s.len() - i,
    when 0 <= i
{
    if i >= s.len() {
        c
    } else {
        let e = line_end(s, i);
        let c2 = apply_line(c, s.subrange(i, e));
        if e >= s.len() {
            c2
        } else {
            proof {
                lemma_line_end_bounds(s, i);
            }
            scan_config(s, e + 1, c2)
        }
    }
}

/// Finds the end of the line starting at `start`.
fn find_line_end(text: &Vec<u8>, start: usize) -> (e: usize)
    requires
        start <= text@.len(),
    ensures
        start <= e <= text@.len(),
        e == line_end(text@, start as int),
        e < text@.len() ==> text@[e as int] == 10,
{
    let mut j: usize = start;
    while j < text.len()
        invariant
            start <= j <= text@.len(),
            line_end(text@, start as int) == line_end(text@, j as int),
        decreases text@.len() - j,
    {
        if text[j] == 10 {
            return j;
        }
        j = j + 1;
    }
    j
}

proof fn lemma_digits_val_nonneg(s: Seq<u8>)
    requires
        all_digits(s),
    ensures
        digits_val(s) >= 0,
    decreases s.len(),
{
    if s.len() > 0 {
        assert(all_digits(s.drop_last()));
        lemma_digits_val_nonneg(s.drop_last());
    }
}

/// Appending digits never makes the denoted number smaller.
proof fn lemma_digits_val_monotone(s: Seq<u8>, i: int, j: int)
    requires
        0 <= i <= j <= s.len(),
        all_digits(s.subrange(0, j)),
    ensures
        digits_val(s.subrange(0, i)) <= digits_val(s.subrange(0, j)),
    decreases j - i,
{
    if i < j {
        assert(all_digits(s.subrange(0, j - 1))) by {
            assert(forall|t: int|
                0 <= t < j - 1 ==> s.subrange(0, j - 1)[t] == #[trigger] s.subrange(0, j)[t]);
        }
        lemma_digits_val_monotone(s, i, j - 1);
        assert(s.subrange(0, j).drop_last() =~= s.subrange(0, j - 1));
        lemma_digits_val_nonneg(s.subrange(0, j - 1));
        assert(is_digit(s.subrange(0, j)[j - 1]));
    }
}

/// Parses the digit run `text[start..end]` into a number, if it is one and
/// it fits.
fn parse_number(text: &Vec<u8>, start: usize, end: usize) -> (r: Option<u64>)
    requires
        start <= end <= text@.len(),
    ensures
        r == parsed_number(text@.subrange(start as int, end as int)),
{
    let ghost s = text@.subrange(start as int, end as int);
    if start == end {
        return None;
    }
    let mut val: u64 = 0;
    let mut j: usize = start;
    while j < end
        invariant
            start <= j <= end <= text@.len(),
            s == text@.subrange(start as int, end as int),
            all_digits(s.subrange(0, j - start)),
            val as int == digits_val(s.subrange(0, j - start)),
        decreases end - j,
    {
        let b = text[j];
        if b < 48 || b > 57 {
            proof {
                assert(!is_digit(s[j - start]));
            }
            return None;
        }
        let d: u64 = (b - 48) as u64;
        proof {
            assert((val > (u64::MAX - d) / 10) == (10 * (val as int) + d as int > u64::MAX as int))
                by (nonlinear_arith)
                requires
                    0 <= val as int,
                    0 <= d as int <= 9,
            ;
            assert(s.subrange(0, j + 1 - start).drop_last() =~= s.subrange(0, j - start));
            assert(s.subrange(0, j + 1 - start).last() == b);
        }
        if val > (u64::MAX - d) / 10 {
            proof {
                if all_digits(s) {
                    lemma_digits_val_monotone(s, j + 1 - start, s.len() as int);
                    assert(s.subrange(0, s.len() as int) =~= s);
                }
            }
            return None;
        }
        val = val * 10 + d;
        j = j + 1;
    }
    proof {
        assert(s.subrange(0, end - start) =~= s);
    }
    Some(val)
}

/// True iff the line `text[start..end]` assigns a value to `key`, and the
/// value if so.
fn parse_line_value(text: &Vec<u8>, start: usize, end: usize, key: &Vec<u8>) -> (r: Option<u64>)
    requires
        start <= end <= text@.len(),
    ensures
        r == line_value(text@.subrange(start as int, end as int), key@),
{
    let ghost line = text@.subrange(start as int, end as int);
    let klen = key.len();
    if end - start <= klen {
        return None;
    }
    let mut j: usize = 0;
    while j < klen
        invariant
            0 <= j <= klen,
            klen < end - start,
            start <= end <= text@.len(),
            klen == key@.len(),
            line == text@.subrange(start as int, end as int),
            forall|t: int| 0 <= t < j ==> line[t] == key@[t],
        decreases klen - j,
    {
        if text[start + j] != key[j] {
            proof {
                assert(line[j as int] != key@[j as int]);
            }
            return None;
        }
        j = j + 1;
    }
    if text[start + klen] != 61 {
        return None;
    }
    proof {
        assert(line.subrange(0, klen as int) =~= key@);
        assert(line.subrange(klen as int + 1, line.len() as int) =~= text@.subrange(
            (start + klen + 1) as int,
            end as int,
        ));
    }
    parse_number(text, start + klen + 1, end)
}

/// One line applied to a configuration, as `apply_line` says.
fn apply_line_exec(c: Config, text: &Vec<u8>, start: usize, end: usize) -> (r: Config)
    requires
        start <= end <= text@.len(),
    ensures
        r == apply_line(c, text@.subrange(start as int, end as int)),
{
    let key_len: Vec<u8> = vec![
        115u8, 116, 97, 114, 116, 105, 110, 103, 95, 108, 101, 110, 103, 116, 104,
    ];
    proof {
        assert(key_len@ =~= key_starting_length());
    }
    if let Some(v) = parse_line_value(text, start, end, &key_len) {
        if 1 <= v && v <= usize::MAX as u64 {
            return Config {
                snake_starting_length: v as usize,
                start_refresh_in_ms: c.start_refresh_in_ms,
                max_refresh_in_ms: c.max_refresh_in_ms,
            };
        } else {
            return c;
        }
    }
    let key_init: Vec<u8> = vec![
        105u8, 110, 105, 116, 105, 97, 108, 95, 105, 110, 116, 101, 114, 118, 97, 108,
    ];
    proof {
        assert(key_init@ =~= key_initial_interval());
    }
    if let Some(v) = parse_line_value(text, start, end, &key_init) {
        if 1 <= v {
            return Config {
                snake_starting_length: c.snake_starting_length,
                start_refresh_in_ms: v,
                max_refresh_in_ms: c.max_refresh_in_ms,
            };
        } else {
            return c;
        }
    }
    let key_min: Vec<u8> = vec![
        109u8, 105, 110, 105, 109, 117, 109, 95, 105, 110, 116, 101, 114, 118, 97, 108,
    ];
    proof {
        assert(key_min@ =~= key_minimum_interval());
    }
    if let Some(v) = parse_line_value(text, start, end, &key_min) {
        if 1 <= v {
            return Config {
                snake_starting_length: c.snake_starting_length,
                start_refresh_in_ms: c.start_refresh_in_ms,
                max_refresh_in_ms: v,
            };
        } else {
            return c;
        }
    }
    c
}

/// Every configuration the scan can produce keeps all three values
/// positive, since a zero value never replaces a field.
proof fn lemma_scan_config_positive(s: Seq<u8>, i: int, c: Config)
    requires
        0 <= i,
        c.snake_starting_length >= 1,
        c.start_refresh_in_ms >= 1,
        c.max_refresh_in_ms >= 1,
    ensures
        scan_config(s, i, c).snake_starting_length >= 1,
        scan_config(s, i, c).start_refresh_in_ms >= 1,
        scan_config(s, i, c).max_refresh_in_ms >= 1,
    decreases s.len() - i,
{
    if i < s.len() {
        let e = line_end(s, i);
        lemma_line_end_bounds(s, i);
        let c2 = apply_line(c, s.subrange(i, e));
        if e < s.len() {
            lemma_scan_config_positive(s, e + 1, c2);
        }
    }
}

impl Config {
    /// The configuration a document denotes: the defaults, overridden by
    /// each well-formed setting in order.  A missing or garbled document
    /// therefore simply yields the defaults, and every value that comes out
    /// is positive.
    pub fn from_document(text: &Vec<u8>) -> (c: Config)
        ensures
            c == scan_config(text@, 0, spec_default_config()),
            c.snake_starting_length >= 1,
            c.start_refresh_in_ms >= 1,
            c.max_refresh_in_ms >= 1,
    {
        let mut c = Config {
            snake_starting_length: 3,
            start_refresh_in_ms: 100,
            max_refresh_in_ms: 50,
        };
        let mut i: usize = 0;
        while i < text.len()
            invariant
                0 <= i <= text@.len(),
                scan_config(text@, 0, spec_default_config()) == scan_config(text@, i as int, c),
            decreases text@.len() - i,
        {
            let e = find_line_end(text, i);
            c = apply_line_exec(c, text, i, e);
            if e < text.len() {
                i = e + 1;
            } else {
                i = e;
            }
        }
        proof {
            lemma_scan_config_positive(text@, 0, spec_default_config());
        }
        c
    }
}

} // verus!
