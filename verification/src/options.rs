//! Command-line options of the ground-station run mode:
//! `--ground-station [--port N] [--loop] [--rerun]`.

use vstd::prelude::*;

verus! {

/// UDP port the vehicle listens on when `--port` is not given (or cannot be read).
pub const DEFAULT_VEHICLE_PORT: u16 = 8888;

/// Options of the ground-station mode.
pub struct Options {
    pub port: u16,
    /// After a flight, rebuild the sim and go back to Standby instead of exiting
    pub repeat: bool,
    /// Also log to the rerun viewer; needs a running viewer
    pub rerun: bool,
}

/// The value of a character that is an ASCII decimal digit.
pub open spec fn digit_value(c: char) -> nat {
    (c as nat - '0' as nat) as nat
}

pub open spec fn is_digit(c: char) -> bool {
    '0' <= c && c <= '9'
}

/// The number written by a sequence of decimal digits (0 for the empty sequence).
pub open spec fn decimal_value(s: Seq<char>) -> nat
    decreases s.len(),
{
    if s.len() == 0 {
        0
    } else {
        decimal_value(s.drop_last()) * 10 + digit_value(s.last())
    }
}

/// The digits that follow an optional leading `+`.
pub open spec fn unsigned_digits(s: Seq<char>) -> Seq<char> {
    if s.len() > 0 && s[0] == '+' {
        s.drop_first()
    } else {
        s
    }
}

/// What reading `s` as a decimal `u16` gives: an optional `+`, then one or more decimal
/// digits whose value fits in 16 bits. Anything else (empty text, a lone `+`, a sign `-`,
/// spaces, other characters, an overflowing value) reads as nothing.
pub open spec fn spec_parse_u16(s: Seq<char>) -> Option<u16> {
    let d = unsigned_digits(s);
    if d.len() > 0 && (forall|i: int| 0 <= i < d.len() ==> is_digit(#[trigger] d[i]))
        && decimal_value(d) <= u16::MAX {
        Some(decimal_value(d) as u16)
    } else {
        None
    }
}

/// Index of the first argument equal to `flag`, if any.
pub open spec fn first_index_of(args: Seq<String>, flag: Seq<char>) -> Option<int> {
    if exists|i: int| 0 <= i < args.len() && #[trigger] args[i]@ == flag {
        let i = choose|i: int|
            0 <= i < args.len() && args[i]@ == flag && forall|j: int|
                0 <= j < i ==> #[trigger] args[j]@ != flag;
        Some(i)
    } else {
        None
    }
}

/// Whether some argument equals `flag`.
pub open spec fn has_flag(args: Seq<String>, flag: Seq<char>) -> bool {
    exists|i: int| 0 <= i < args.len() && #[trigger] args[i]@ == flag
}

/// The port that `args` select: the value read from the argument right after the first
/// `--port`, or the default port when there is no such argument or it does not read as a
/// `u16`.
pub open spec fn spec_port(args: Seq<String>) -> u16 {
    match first_index_of(args, "--port"@) {
        Some(i) => if i + 1 < args.len() {
            match spec_parse_u16(args[i + 1]@) {
                Some(p) => p,
                None => DEFAULT_VEHICLE_PORT,
            }
        } else {
            DEFAULT_VEHICLE_PORT
        },
        None => DEFAULT_VEHICLE_PORT,
    }
}

proof fn lemma_decimal_value_push(s: Seq<char>, c: char)
    ensures
        decimal_value(s.push(c)) == decimal_value(s) * 10 + digit_value(c),
{
    assert(s.push(c).drop_last() =~= s);
}

/// Reads `s` as a decimal `u16`, as `str::parse::<u16>` does.
pub fn parse_u16(s: &str) -> (res: Option<u16>)
    ensures
        res == spec_parse_u16(s@),
{
    let n = s.unicode_len();
    let mut start: usize = 0;
    if n > 0 && s.get_char(0) == '+' {
        start = 1;
    }
    let ghost d = unsigned_digits(s@);
    assert(d =~= s@.subrange(start as int, n as int));
    if start >= n {
        return None;
    }
    let mut value: u32 = 0;
    let mut i: usize = start;
    while i < n
        invariant
            n == s@.len(),
            start <= i <= n,
            d == unsigned_digits(s@),
            d =~= s@.subrange(start as int, n as int),
            forall|k: int| start <= k < i ==> is_digit(#[trigger] s@[k]),
            value as nat == decimal_value(s@.subrange(start as int, i as int)),
            value <= u16::MAX,
        decreases n - i,
    {
        let c = s.get_char(i);
        if !('0' <= c && c <= '9') {
            assert(d[i - start] == c);
            return None;
        }
        let dv: u32 = (c as u32) - ('0' as u32);
        proof {
            lemma_decimal_value_push(s@.subrange(start as int, i as int), c);
            assert(s@.subrange(start as int, i as int).push(c) =~= s@.subrange(
                start as int,
                i + 1,
            ));
        }
        let next: u32 = value * 10 + dv;
        if next > 65535 {
            proof {
                lemma_decimal_value_prefix_le(d, (i + 1 - start) as int);
                assert(d.subrange(0, (i + 1 - start) as int) =~= s@.subrange(
                    start as int,
                    i + 1,
                ));
            }
            return None;
        }
        value = next;
        i = i + 1;
    }
    assert(d =~= s@.subrange(start as int, i as int));
    assert forall|k: int| 0 <= k < d.len() implies is_digit(#[trigger] d[k]) by {
        assert(d[k] == s@[k + start]);
    }
    Some(value as u16)
}

/// A prefix of a digit string reads as at most the whole string.
proof fn lemma_decimal_value_prefix_le(d: Seq<char>, k: int)
    requires
        0 <= k <= d.len(),
    ensures
        decimal_value(d.subrange(0, k)) <= decimal_value(d),
    decreases d.len() - k,
{
    if k < d.len() {
        lemma_decimal_value_prefix_le(d, k + 1);
        lemma_decimal_value_push(d.subrange(0, k), d[k]);
        assert(d.subrange(0, k).push(d[k]) =~= d.subrange(0, k + 1));
        assert(decimal_value(d.subrange(0, k)) <= decimal_value(d.subrange(0, k)) * 10);
    } else {
        assert(d.subrange(0, k) =~= d);
    }
}

/// The decimal digit character for a digit value below ten.
pub open spec fn digit_char(d: nat) -> char {
    if d == 0 {
        '0'
    } else if d == 1 {
        '1'
    } else if d == 2 {
        '2'
    } else if d == 3 {
        '3'
    } else if d == 4 {
        '4'
    } else if d == 5 {
        '5'
    } else if d == 6 {
        '6'
    } else if d == 7 {
        '7'
    } else if d == 8 {
        '8'
    } else {
        '9'
    }
}

/// How a number is written in decimal, without leading zeros.
pub open spec fn decimal_text(n: nat) -> Seq<char>
    decreases n,
{
    if n < 10 {
        seq![digit_char(n)]
    } else {
        decimal_text(n / 10).push(digit_char(n % 10))
    }
}

proof fn lemma_decimal_text(n: nat)
    ensures
        decimal_text(n).len() > 0,
        forall|i: int| 0 <= i < decimal_text(n).len() ==> '0' <= #[trigger] decimal_text(n)[i] <= '9',
        decimal_text(n)[0] != '+',
        decimal_value(decimal_text(n)) == n,
    decreases n,
{
    assert(digit_value(digit_char(n % 10)) == n % 10);
    if n < 10 {
        assert(decimal_text(n).drop_last() =~= Seq::<char>::empty());
        assert(decimal_value(Seq::<char>::empty()) == 0);
        assert(digit_value(digit_char(n)) == n);
        assert(decimal_text(n).last() == digit_char(n));
        assert(decimal_value(decimal_text(n)) == decimal_value(Seq::<char>::empty()) * 10
            + digit_value(digit_char(n)));
    } else {
        lemma_decimal_text(n / 10);
        let t = decimal_text(n / 10);
        lemma_decimal_value_push(t, digit_char(n % 10));
        assert(decimal_text(n).drop_last() =~= t);
        assert(decimal_text(n) == t.push(digit_char(n % 10)));
        assert(decimal_value(t) * 10 == (n / 10) * 10);
        assert(n == (n / 10) * 10 + n % 10);
    }
}

/// Reading the decimal text of a number gives back the number when it fits in 16 bits,
/// with or without a leading `+`, and nothing when it does not fit.
pub proof fn lemma_parse_reads_decimal_text(n: nat)
    ensures
        n <= u16::MAX ==> spec_parse_u16(decimal_text(n)) == Some(n as u16),
        n <= u16::MAX ==> spec_parse_u16(seq!['+'] + decimal_text(n)) == Some(n as u16),
        n > u16::MAX ==> spec_parse_u16(decimal_text(n)) is None,
{
    lemma_decimal_text(n);
    let t = decimal_text(n);
    assert(unsigned_digits(t) == t);
    assert((seq!['+'] + t).drop_first() =~= t);
    assert(forall|i: int| 0 <= i < t.len() ==> is_digit(#[trigger] t[i]));
}

/// Text that is empty, or holds a character other than a decimal digit (a single leading
/// `+` aside), reads as nothing.
pub proof fn lemma_parse_rejects_non_digits(s: Seq<char>, i: int)
    requires
        0 <= i < s.len(),
        s[i] < '0' || s[i] > '9',
        !(i == 0 && s[i] == '+'),
    ensures
        spec_parse_u16(s) is None,
        spec_parse_u16(Seq::<char>::empty()) is None,
{
    let d = unsigned_digits(s);
    if s.len() > 0 && s[0] == '+' {
        assert(d[i - 1] == s[i]);
    } else {
        assert(d[i] == s[i]);
    }
}

/// The port: the number written right after the first `--port`, when it is the decimal
/// text of a 16-bit number; the default port when there is no `--port`.
pub proof fn lemma_port_from_args(args: Seq<String>, i: int, n: nat)
    requires
        0 <= i,
        i + 1 < args.len(),
        args[i]@ == "--port"@,
        forall|j: int| 0 <= j < i ==> #[trigger] args[j]@ != "--port"@,
        args[i + 1]@ == decimal_text(n),
        n <= u16::MAX,
    ensures
        spec_port(args) == n,
{
    lemma_parse_reads_decimal_text(n);
    let k = choose|k: int|
        0 <= k < args.len() && args[k]@ == "--port"@ && forall|j: int|
            0 <= j < k ==> #[trigger] args[j]@ != "--port"@;
    assert(exists|k: int| 0 <= k < args.len() && #[trigger] args[k]@ == "--port"@) by {
        assert(args[i]@ == "--port"@);
    }
    assert(args[i]@ == "--port"@ && forall|j: int| 0 <= j < i ==> #[trigger] args[j]@ != "--port"@);
    if k < i {
        assert(args[k]@ != "--port"@);
    } else if k > i {
        assert(args[i]@ != "--port"@);
    }
}

/// Without a `--port` argument the default port is used.
pub proof fn lemma_default_port(args: Seq<String>)
    requires
        forall|j: int| 0 <= j < args.len() ==> #[trigger] args[j]@ != "--port"@,
    ensures
        spec_port(args) == DEFAULT_VEHICLE_PORT,
{
}

/// Index of the first argument equal to `flag`.
fn position_of(args: &[String], flag: &String) -> (res: Option<usize>)
    ensures
        res matches Some(i) ==> Some(i as int) == first_index_of(args@, flag@),
        res is None ==> first_index_of(args@, flag@) is None,
{
    let mut i: usize = 0;
    while i < args.len()
        invariant
            i <= args@.len(),
            forall|j: int| 0 <= j < i ==> #[trigger] args@[j]@ != flag@,
        decreases args@.len() - i,
    {
        if args[i] == *flag {
            assert(args@[i as int]@ == flag@);
            let ghost w = choose|k: int|
                0 <= k < args@.len() && args@[k]@ == flag@ && forall|j: int|
                    0 <= j < k ==> #[trigger] args@[j]@ != flag@;
            proof {
                if w < i {
                } else if w > i {
                    assert(args@[i as int]@ != flag@);
                }
            }
            return Some(i);
        }
        i = i + 1;
    }
    None
}

impl Options {
    /// Reads the options from the command-line arguments (program name excluded or not:
    /// only the flags matter). `--port` takes the next argument as the port; `--loop` sets
    /// `repeat`; `--rerun` sets `rerun`.
    pub fn from_args(args: &[String]) -> (res: Self)
        ensures
            res.port == spec_port(args@),
            res.repeat == has_flag(args@, "--loop"@),
            res.rerun == has_flag(args@, "--rerun"@),
    {
        let port_flag = String::from_str("--port");
        let loop_flag = String::from_str("--loop");
        let rerun_flag = String::from_str("--rerun");
        let port = match position_of(args, &port_flag) {
            Some(i) => if i < args.len() - 1 {
                match parse_u16(args[i + 1].as_str()) {
                    Some(p) => p,
                    None => DEFAULT_VEHICLE_PORT,
                }
            } else {
                DEFAULT_VEHICLE_PORT
            },
            None => DEFAULT_VEHICLE_PORT,
        };
        let repeat = position_of(args, &loop_flag).is_some();
        let rerun = position_of(args, &rerun_flag).is_some();
        Options { port, repeat, rerun }
    }
}

} // verus!
