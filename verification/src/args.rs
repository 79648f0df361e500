//! Command-line parsing: the file name, the follow flag, the retry flag and
//! the requested line count, with exact conditions for each usage error.

use vstd::prelude::*;
use crate::tail::lemma_deep_view_points;

verus! {

/// The follow flag, spelled "-f".
pub open spec fn flag_follow() -> Seq<u8> {
    seq![45u8, 102u8]
}

/// The line-count flag, spelled "-n".
pub open spec fn flag_count() -> Seq<u8> {
    seq![45u8, 110u8]
}

/// The retry flag, spelled "--retry".
pub open spec fn flag_retry() -> Seq<u8> {
    seq![45u8, 45u8, 114u8, 101u8, 116u8, 114u8, 121u8]
}

/// An ASCII decimal digit.
pub open spec fn is_digit(b: u8) -> bool {
    48 <= b <= 57
}

/// Every byte is a decimal digit.
pub open spec fn all_digits(s: Seq<u8>) -> bool {
    forall|i: int| 0 <= i < s.len() ==> is_digit(#[trigger] s[i])
}

/// The number a digit string denotes in base ten.
pub open spec fn digits_value(s: Seq<u8>) -> int
    decreases s.len(),
{
    if s.len() == 0 {
        0
    } else {
        digits_value(s.drop_last()) * 10 + (s.last() - 48)
    }
}

/// The digits of a count argument: one optional leading plus sign stripped.
pub open spec fn count_digits(s: Seq<u8>) -> Seq<u8> {
    if s.len() > 0 && s[0] == 43u8 {
        s.skip(1)
    } else {
        s
    }
}

/// A well-formed count argument: an optional plus sign, then at least one
/// digit and nothing else, denoting a value that fits in a usize.
pub open spec fn is_valid_count(s: Seq<u8>) -> bool {
    let d = count_digits(s);
    d.len() > 0 && all_digits(d) && digits_value(d) <= usize::MAX
}

proof fn lemma_digits_value_nonneg(s: Seq<u8>)
    requires
        all_digits(s),
    ensures
        digits_value(s) >= 0,
    decreases s.len(),
{
    if s.len() > 0 {
        assert(all_digits(s.drop_last())) by {
            assert(forall|i: int|
                0 <= i < s.len() - 1 ==> #[trigger] s.drop_last()[i] == s[i]);
        }
        lemma_digits_value_nonneg(s.drop_last());
        assert(is_digit(s[s.len() - 1]));
    }
}

/// A digit string is worth at least any of its prefixes.
proof fn lemma_digits_value_prefix_le(s: Seq<u8>, k: int)
    requires
        all_digits(s),
        0 <= k <= s.len(),
    ensures
        digits_value(s.take(k)) <= digits_value(s),
    decreases s.len() - k,
{
    assert(all_digits(s.take(k))) by {
        assert(forall|i: int| 0 <= i < k ==> #[trigger] s.take(k)[i] == s[i]);
    }
    if k == s.len() {
        assert(s.take(k) =~= s);
    } else {
        assert(s.take(k + 1).drop_last() =~= s.take(k));
        assert(s.take(k + 1).last() == s[k]);
        assert(is_digit(s[k]));
        lemma_digits_value_nonneg(s.take(k));
        assert(digits_value(s.take(k + 1)) == digits_value(s.take(k)) * 10 + (s[k] - 48));
        assert(digits_value(s.take(k)) <= digits_value(s.take(k + 1)));
        lemma_digits_value_prefix_le(s, k + 1);
    }
}

/// Parses a count argument. Returns its value exactly when the argument is
/// well formed and fits in a usize; anything else — an empty argument, a
/// stray character, or a value too large — is rejected.
pub fn parse_count(s: &Vec<u8>) -> (r: Option<usize>)
    ensures
        is_valid_count(s@) ==> r == Some(digits_value(count_digits(s@)) as usize),
        !is_valid_count(s@) ==> r is None,
{
    let n = s.len();
    let start: usize = if n > 0 && s[0] == 43u8 {
        1
    } else {
        0
    };
    let ghost d = count_digits(s@);
    proof {
        assert(d =~= s@.skip(start as int));
    }
    if start == n {
        return None;
    }
    let mut acc: usize = 0;
    let mut i: usize = start;
    proof {
        assert(d.take(0) =~= Seq::<u8>::empty());
    }
    while i < n
        invariant
            start <= i <= n,
            n == s@.len(),
            start < n,
            d == count_digits(s@),
            d =~= s@.skip(start as int),
            d.len() == n - start,
            all_digits(d.take(i - start)),
            acc == digits_value(d.take(i - start)),
        decreases n - i,
    {
        let b = s[i];
        proof {
            assert(d[i - start] == b);
        }
        if b < 48 || b > 57 {
            proof {
                assert(all_digits(d) ==> is_digit(d[i - start]));
            }
            return None;
        }
        let digit = (b - 48) as usize;
        let ghost k = i - start;
        proof {
            assert(d.take(k + 1).drop_last() =~= d.take(k));
            assert(d.take(k + 1).last() == d[k]);
            assert(digits_value(d.take(k + 1)) == acc * 10 + digit);
            assert(all_digits(d.take(k + 1))) by {
                assert(forall|j: int| 0 <= j < k + 1 ==> #[trigger] d.take(k + 1)[j] == d[j]);
            }
            assert(usize::MAX as int == 10 * (usize::MAX as int / 10) + (usize::MAX as int % 10));
            assert(usize::MAX as int % 10 <= 9);
        }
        if acc > usize::MAX / 10 || (acc == usize::MAX / 10 && digit > usize::MAX % 10) {
            proof {
                assert(acc * 10 + digit > usize::MAX);
                if all_digits(d) {
                    lemma_digits_value_prefix_le(d, k + 1);
                    assert(digits_value(d) > usize::MAX);
                }
            }
            return None;
        }
        proof {
            assert(acc * 10 + digit <= usize::MAX);
        }
        acc = acc * 10 + digit;
        i = i + 1;
    }
    proof {
        assert(d.take(i - start) =~= d);
    }
    Some(acc)
}

/// The parsed options in the specification's terms.
pub ghost struct OptionsSpec {
    pub filename: Seq<u8>,
    pub follow: bool,
    pub num_lines: int,
    pub retry: bool,
}

/// The abstract outcome of parsing a command line.
pub ghost enum ParseSpec {
    Usage,
    Run(OptionsSpec),
    InvalidCount(Seq<u8>),
    MissingCount,
    UnknownFlag(Seq<u8>),
}

/// Parses the flags from position `i` on, given the options collected so
/// far. A later `-n` overrides an earlier one.
pub open spec fn parse_flags(args: Seq<Seq<u8>>, i: int, o: OptionsSpec) -> ParseSpec
    decreases args.len() - i,
{
    if i >= args.len() {
        ParseSpec::Run(o)
    } else if args[i] == flag_follow() {
        parse_flags(
            args,
            i + 1,
            OptionsSpec { filename: o.filename, follow: true, num_lines: o.num_lines, retry: o.retry },
        )
    } else if args[i] == flag_retry() {
        parse_flags(
            args,
            i + 1,
            OptionsSpec { filename: o.filename, follow: o.follow, num_lines: o.num_lines, retry: true },
        )
    } else if args[i] == flag_count() {
        if i + 1 < args.len() {
            if is_valid_count(args[i + 1]) {
                parse_flags(
                    args,
                    i + 2,
                    OptionsSpec {
                        filename: o.filename,
                        follow: o.follow,
                        num_lines: digits_value(count_digits(args[i + 1])),
                        retry: o.retry,
                    },
                )
            } else {
                ParseSpec::InvalidCount(args[i + 1])
            }
        } else {
            ParseSpec::MissingCount
        }
    } else {
        ParseSpec::UnknownFlag(args[i])
    }
}

/// What a whole command line means. The first argument is the program name;
/// with fewer than two arguments the usage text is printed; otherwise the
/// second argument is the file name and the rest are flags, ten trailing
/// lines being the default.
pub open spec fn parse_spec(args: Seq<Seq<u8>>) -> ParseSpec {
    if args.len() < 2 {
        ParseSpec::Usage
    } else {
        parse_flags(
            args,
            2,
            OptionsSpec { filename: args[1], follow: false, num_lines: 10, retry: false },
        )
    }
}

/// The options a run of the program was invoked with.
pub struct Options {
    pub filename: Vec<u8>,
    pub follow: bool,
    pub num_lines: usize,
    pub retry: bool,
}

/// The outcome of parsing the command line.
pub enum ArgsResult {
    /// Fewer than two arguments: print the usage text and exit cleanly.
    Usage,
    /// A well-formed command line: run with these options.
    Run(Options),
    /// `-n` was given this non-numeric or too large value.
    InvalidCount(Vec<u8>),
    /// `-n` was the last argument, with no value after it.
    MissingCount,
    /// This argument is no known flag.
    UnknownFlag(Vec<u8>),
}

/// The options read abstractly.
pub open spec fn options_spec(o: Options) -> OptionsSpec {
    OptionsSpec {
        filename: o.filename@,
        follow: o.follow,
        num_lines: o.num_lines as int,
        retry: o.retry,
    }
}

/// The exec parsing outcome read abstractly.
pub open spec fn args_result_spec(r: ArgsResult) -> ParseSpec {
    match r {
        ArgsResult::Usage => ParseSpec::Usage,
        ArgsResult::Run(o) => ParseSpec::Run(options_spec(o)),
        ArgsResult::InvalidCount(v) => ParseSpec::InvalidCount(v@),
        ArgsResult::MissingCount => ParseSpec::MissingCount,
        ArgsResult::UnknownFlag(v) => ParseSpec::UnknownFlag(v@),
    }
}

/// True exactly when the argument is spelled "-f".
fn is_flag_follow(a: &Vec<u8>) -> (r: bool)
    ensures
        r == (a@ == flag_follow()),
{
    let r = a.len() == 2 && a[0] == 45u8 && a[1] == 102u8;
    proof {
        if r {
            assert(a@ =~= flag_follow());
        }
    }
    r
}

/// True exactly when the argument is spelled "-n".
fn is_flag_count(a: &Vec<u8>) -> (r: bool)
    ensures
        r == (a@ == flag_count()),
{
    let r = a.len() == 2 && a[0] == 45u8 && a[1] == 110u8;
    proof {
        if r {
            assert(a@ =~= flag_count());
        }
    }
    r
}

/// True exactly when the argument is spelled "--retry".
fn is_flag_retry(a: &Vec<u8>) -> (r: bool)
    ensures
        r == (a@ == flag_retry()),
{
    let r = a.len() == 7 && a[0] == 45u8 && a[1] == 45u8 && a[2] == 114u8 && a[3] == 101u8
        && a[4] == 116u8 && a[5] == 114u8 && a[6] == 121u8;
    proof {
        if r {
            assert(a@ =~= flag_retry());
        }
    }
    r
}

/// Duplicates a byte vector.
fn clone_bytes(a: &Vec<u8>) -> (r: Vec<u8>)
    ensures
        r@ == a@,
{
    let r = a.clone();
    proof {
        assert(r@ =~= a@);
    }
    r
}

/// Parses the full argument list, program name first, exactly as
/// `parse_spec` reads it.
pub fn parse_args(args: &Vec<Vec<u8>>) -> (r: ArgsResult)
    ensures
        args_result_spec(r) == parse_spec(args.deep_view()),
{
    proof {
        lemma_deep_view_points(*args);
    }
    let ghost av = args.deep_view();
    if args.len() < 2 {
        return ArgsResult::Usage;
    }
    let mut opts = Options {
        filename: clone_bytes(&args[1]),
        follow: false,
        num_lines: 10,
        retry: false,
    };
    let mut i: usize = 2;
    while i < args.len()
        invariant
            2 <= i <= args@.len(),
            av == args.deep_view(),
            av.len() == args@.len(),
            forall|k: int| 0 <= k < args@.len() ==> #[trigger] av[k] == args@[k]@,
            parse_spec(av) == parse_flags(av, i as int, options_spec(opts)),
        decreases args@.len() - i,
    {
        let a = &args[i];
        proof {
            assert(av[i as int] == a@);
        }
        if is_flag_follow(a) {
            opts.follow = true;
            i = i + 1;
        } else if is_flag_retry(a) {
            opts.retry = true;
            i = i + 1;
        } else if is_flag_count(a) {
            if i + 1 < args.len() {
                proof {
                    assert(av[i as int + 1] == args@[i as int + 1]@);
                }
                match parse_count(&args[i + 1]) {
                    Some(v) => {
                        proof {
                            lemma_digits_value_nonneg(count_digits(av[i as int + 1]));
                            assert(v as int == digits_value(count_digits(av[i as int + 1])));
                        }
                        opts.num_lines = v;
                        i = i + 2;
                    },
                    None => {
                        return ArgsResult::InvalidCount(clone_bytes(&args[i + 1]));
                    },
                }
            } else {
                return ArgsResult::MissingCount;
            }
        } else {
            return ArgsResult::UnknownFlag(clone_bytes(&args[i]));
        }
    }
    ArgsResult::Run(opts)
}

} // verus!
