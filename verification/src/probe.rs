//! The helper that makes one system call and tells how it went.

use crate::text;
use crate::text::ParseIntError;
use vstd::prelude::*;

verus! {

/// The number that a text writes: hexadecimal behind `0x` or `0X`, else
/// decimal.
pub open spec fn integer_in(s: Seq<char>) -> Result<int, ParseIntError> {
    if text::begins(s, "0x"@) || text::begins(s, "0X"@) {
        text::number_value(s.skip(2), 16, i64::MIN as int, i64::MAX as int)
    } else {
        text::number_value(s, 10, i64::MIN as int, i64::MAX as int)
    }
}

/// A number that is written in decimal reads back as itself, and so does one
/// that is written in hexadecimal behind `0x` or `0X`.
pub proof fn numbers_read_back(n: int, m: nat)
    requires
        i64::MIN <= n <= i64::MAX,
        m <= i64::MAX,
    ensures
        integer_in(text::signed_decimal(n)) == Ok::<int, ParseIntError>(n),
        integer_in(seq!['0', 'x'] + text::numeral(m, 16)) == Ok::<int, ParseIntError>(m as int),
        integer_in(seq!['0', 'X'] + text::numeral(m, 16)) == Ok::<int, ParseIntError>(m as int),
{
    reveal_strlit("0x");
    reveal_strlit("0X");
    let plain = text::signed_decimal(n);
    text::integers_read_back(n, i64::MIN as int, i64::MAX as int);
    if plain.len() > 1 {
        if text::begins(plain, "0x"@) {
            assert(plain[1] == plain.take(2)[1]);
        }
        if text::begins(plain, "0X"@) {
            assert(plain[1] == plain.take(2)[1]);
        }
        text::numbers_are_made_of_digits(plain, 10, i64::MIN as int, i64::MAX as int, 1);
    }
    let hex = text::numeral(m, 16);
    text::hexadecimals_read_back(m, i64::MIN as int, i64::MAX as int);
    let small = seq!['0', 'x'] + hex;
    let large = seq!['0', 'X'] + hex;
    assert(small.take(2) =~= "0x"@);
    assert(large.take(2) =~= "0X"@);
    assert(small.skip(2) =~= hex);
    assert(large.skip(2) =~= hex);
}

/// Reads a number, hexadecimal behind `0x` or `0X`, else decimal.
pub fn parse_i64(s: &str) -> (r: Result<i64, ParseIntError>)
    ensures
        integer_in(s@) == match r {
            Ok(n) => Ok(n as int),
            Err(e) => Err(e),
        },
{
    proof {
        reveal_strlit("0x");
        reveal_strlit("0X");
    }
    let chars = text::chars_of(s);
    if text::starts_with(s, "0x") || text::starts_with(s, "0X") {
        let rest = text::chars_of(text::string_from(&chars, 2, chars.len()).as_str());
        assert(rest@ =~= s@.skip(2));
        text::parse_i64_radix(&rest, 16)
    } else {
        text::parse_i64_radix(&chars, 10)
    }
}

/// The value of an argument: `NULL` is zero, anything else a number.
pub open spec fn argument_in(s: Seq<char>) -> Result<int, ParseIntError> {
    if s == "NULL"@ {
        Ok(0)
    } else {
        integer_in(s)
    }
}

/// `NULL` is zero; every other argument is read as a number.
pub proof fn null_is_zero(s: Seq<char>)
    ensures
        argument_in(seq!['N', 'U', 'L', 'L']) == Ok::<int, ParseIntError>(0),
        s != seq!['N', 'U', 'L', 'L'] ==> argument_in(s) == integer_in(s),
{
    reveal_strlit("NULL");
    assert("NULL"@ =~= seq!['N', 'U', 'L', 'L']);
}

/// Reads an argument.
pub fn parse_argument(s: &str) -> (r: Result<i64, ParseIntError>)
    ensures
        argument_in(s@) == match r {
            Ok(n) => Ok(n as int),
            Err(e) => Err(e),
        },
{
    if text::same(s, "NULL") {
        Ok(0)
    } else {
        parse_i64(s)
    }
}

/// The greatest number of arguments of a system call.
pub const MAX_ARGS: usize = 6;

/// What a command line asks of the helper.
#[derive(Debug, Clone, PartialEq, Eq)]
pub enum ProbeRequest {
    /// Nothing: there is no system call number.
    Usage,
    /// The system call number is no number.
    BadNumber(ParseIntError),
    /// There are too many arguments.
    TooMany { count: usize },
    /// The argument with this index is no number.
    BadArgument { index: usize, error: ParseIntError },
    /// A system call.
    Call { nr: i64, args: Vec<i64> },
}

/// Whether `r` is what the words behind the program's name ask for.
pub open spec fn asks_for(words: Seq<String>, r: ProbeRequest) -> bool {
    if words.len() == 0 {
        r is Usage
    } else {
        match integer_in(words[0]@) {
            Err(e) => r == ProbeRequest::BadNumber(e),
            Ok(nr) => if words.len() - 1 > MAX_ARGS {
                r == (ProbeRequest::TooMany { count: (words.len() - 1) as usize })
            } else {
                match r {
                    ProbeRequest::Call { nr: number, args } => {
                        &&& number == nr
                        &&& args@.len() == words.len() - 1
                        &&& forall|i: int|
                            0 <= i < args@.len() ==> argument_in(words[i + 1]@) == Ok::<
                                int,
                                ParseIntError,
                            >(#[trigger] args@[i] as int)
                    },
                    ProbeRequest::BadArgument { index, error } => {
                        &&& index < words.len() - 1
                        &&& argument_in(words[index + 1]@) == Err::<int, ParseIntError>(error)
                        &&& forall|j: int|
                            1 <= j <= index ==> argument_in((#[trigger] words[j])@) is Ok
                    },
                    _ => false,
                }
            },
        }
    }
}

/// The words make a call where the first is a number and at most six arguments
/// follow that are numbers too: the number of the call, and each argument in its
/// place. Without words nothing is asked for.
pub proof fn words_make_a_call(words: Seq<String>, nr: int, values: Seq<int>, r: ProbeRequest)
    requires
        asks_for(words, r),
        0 < words.len() <= 7,
        values.len() == words.len() - 1,
        integer_in(words[0]@) == Ok::<int, ParseIntError>(nr),
        forall|i: int|
            0 <= i < values.len() ==> argument_in(words[i + 1]@) == Ok::<int, ParseIntError>(
                #[trigger] values[i],
            ),
    ensures
        r matches ProbeRequest::Call { nr: number, args } && number == nr && args@.len()
            == values.len() && forall|i: int|
            0 <= i < values.len() ==> (#[trigger] args@[i]) as int == values[i],
{
    match r {
        ProbeRequest::Call { nr: number, args } => {
            assert forall|i: int| 0 <= i < values.len() implies (#[trigger] args@[i]) as int
                == values[i] by {
                assert(argument_in(words[i + 1]@) == Ok::<int, ParseIntError>(values[i]));
            }
        },
        ProbeRequest::BadArgument { index, .. } => {
            assert(argument_in(words[index + 1]@) == Ok::<int, ParseIntError>(values[index as int]));
        },
        _ => {},
    }
}

/// Words that make no call are refused: none at all, a number that is none, more
/// than six arguments, an argument that is none.
pub proof fn other_words_are_refused(words: Seq<String>, r: ProbeRequest, i: int)
    requires
        asks_for(words, r),
    ensures
        r is Usage <==> words.len() == 0,
        r is BadNumber <==> words.len() > 0 && integer_in(words[0]@) is Err,
        r is TooMany <==> words.len() > 7 && integer_in(words[0]@) is Ok,
        1 <= i < words.len() && argument_in(words[i]@) is Err ==> !(r is Call),
        r is Call ==> refusal_code(r) is None,
        r is Usage || r is TooMany ==> refusal_code(r) == Some(2u8),
        r is BadNumber || r is BadArgument ==> refusal_code(r) == Some(1u8),
{
    if let ProbeRequest::Call { args, .. } = r {
        if 1 <= i < words.len() {
            assert(argument_in(words[(i - 1) + 1]@) == Ok::<int, ParseIntError>(
                args@[i - 1] as int,
            ));
        }
    }
}

/// Reads the words behind the program's name.
pub fn parse_request(words: &Vec<String>) -> (r: ProbeRequest)
    ensures
        asks_for(words@, r),
{
    if words.len() == 0 {
        return ProbeRequest::Usage;
    }
    let nr: i64 = match parse_i64(words[0].as_str()) {
        Ok(nr) => nr,
        Err(e) => {
            return ProbeRequest::BadNumber(e);
        },
    };
    if words.len() - 1 > MAX_ARGS {
        return ProbeRequest::TooMany { count: words.len() - 1 };
    }
    let mut args: Vec<i64> = Vec::new();
    let mut i: usize = 1;
    while i < words.len()
        invariant
            1 <= i <= words@.len(),
            words@.len() - 1 <= MAX_ARGS,
            integer_in(words@[0]@) == Ok::<int, ParseIntError>(nr as int),
            args@.len() == i - 1,
            forall|j: int|
                0 <= j < args@.len() ==> argument_in(words@[j + 1]@) == Ok::<int, ParseIntError>(
                    #[trigger] args@[j] as int,
                ),
            forall|j: int| 1 <= j < i ==> argument_in((#[trigger] words@[j])@) is Ok,
        decreases words.len() - i,
    {
        match parse_argument(words[i].as_str()) {
            Ok(n) => {
                args.push(n);
            },
            Err(e) => {
                return ProbeRequest::BadArgument { index: i - 1, error: e };
            },
        }
        i += 1;
    }
    ProbeRequest::Call { nr, args }
}

/// The exit code for a system call that returned `result` with `errno`: zero
/// for success, else 100 and the error, and 125 at most.
pub open spec fn exit_code_spec(result: int, errno: int) -> int {
    if result >= 0 {
        0
    } else if 100 + errno > 125 {
        125
    } else {
        100 + errno
    }
}

/// A call that succeeds exits with zero; one that fails with a hundred and the
/// error, up to 125, which stands for all greater errors.
pub proof fn exit_codes_of_calls(result: int, errno: int)
    ensures
        result >= 0 ==> exit_code_spec(result, errno) == 0,
        result < 0 && errno <= 25 ==> exit_code_spec(result, errno) == 100 + errno,
        result < 0 && errno >= 25 ==> exit_code_spec(result, errno) == 125,
{
}

/// The exit code for a system call that returned `result` with `errno`.
pub fn probe_exit_code(result: i64, errno: i32) -> (r: u8)
    requires
        0 <= errno,
    ensures
        r == exit_code_spec(result as int, errno as int),
{
    if result >= 0 {
        0
    } else if errno > 25 {
        125
    } else {
        (100 + errno) as u8
    }
}

/// The exit code of the helper where it makes no call.
pub open spec fn refusal_code(request: ProbeRequest) -> Option<u8> {
    match request {
        ProbeRequest::Usage | ProbeRequest::TooMany { .. } => Some(2),
        ProbeRequest::BadNumber(_) | ProbeRequest::BadArgument { .. } => Some(1),
        ProbeRequest::Call { .. } => None,
    }
}

/// The exit code of the helper where it makes no call.
pub fn request_exit_code(request: &ProbeRequest) -> (r: Option<u8>)
    ensures
        r == refusal_code(*request),
{
    match request {
        ProbeRequest::Usage | ProbeRequest::TooMany { .. } => Some(2),
        ProbeRequest::BadNumber(_) | ProbeRequest::BadArgument { .. } => Some(1),
        ProbeRequest::Call { .. } => None,
    }
}

} // verus!
