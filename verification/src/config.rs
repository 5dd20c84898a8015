//! The relay's one input: the port of the upstream source, given on the
//! command line.

use vstd::prelude::*;
use vstd::string::StringExecFns;
use vstd::string::StrSliceExecFns;

verus! {

/// Whether `c` is one of the decimal digits `0` to `9`.
pub open spec fn is_digit(c: char) -> bool {
    '0' as int <= c as int <= '9' as int
}

/// Whether `s` consists of decimal digits only.
pub open spec fn all_digits(s: Seq<char>) -> bool {
    forall|i: int| 0 <= i < s.len() ==> is_digit(#[trigger] s[i])
}

/// The number that the decimal digits `digits` write.
pub open spec fn decimal_value(digits: Seq<char>) -> nat
    decreases digits.len(),
{
    if digits.len() == 0 {
        0
    } else {
        (10 * decimal_value(digits.drop_last()) + (digits.last() as int - '0' as int)) as nat
    }
}

/// Whether `digits` is a non-empty run of decimal digits that writes a
/// number of at most `limit`.
pub open spec fn is_decimal_up_to(digits: Seq<char>, limit: nat) -> bool {
    digits.len() > 0 && all_digits(digits) && decimal_value(digits) <= limit
}

/// Whether `s` writes a 32-bit signed integer in decimal: an optional sign,
/// `+` or `-`, then one or more digits, the number within
/// -2147483648 ..= 2147483647. Nothing else is allowed around them.
pub open spec fn is_i32_text(s: Seq<char>) -> bool {
    if s.len() > 0 && s[0] == '-' {
        is_decimal_up_to(s.drop_first(), 2147483648)
    } else if s.len() > 0 && s[0] == '+' {
        is_decimal_up_to(s.drop_first(), 2147483647)
    } else {
        is_decimal_up_to(s, 2147483647)
    }
}

/// The digits read so far never write more than all of them do.
proof fn lemma_decimal_value_prefix(digits: Seq<char>, k: int)
    requires
        all_digits(digits),
        0 <= k <= digits.len(),
    ensures
        decimal_value(digits.subrange(0, k)) <= decimal_value(digits),
    decreases digits.len(),
{
    if k == digits.len() {
        assert(digits.subrange(0, k) =~= digits);
    } else {
        let init = digits.drop_last();
        assert(is_digit(digits.last()));
        assert(all_digits(init)) by {
            assert forall|i: int| 0 <= i < init.len() implies is_digit(#[trigger] init[i]) by {
                assert(init[i] == digits[i]);
            }
        }
        lemma_decimal_value_prefix(init, k);
        assert(init.subrange(0, k) =~= digits.subrange(0, k));
    }
}

/// Whether `text` writes a 32-bit signed integer in decimal.
pub fn is_port_number(text: &str) -> (numeric: bool)
    ensures
        numeric == is_i32_text(text@),
{
    let len: usize = text.unicode_len();
    if len == 0 {
        return false;
    }
    let first = text.get_char(0);
    let start: usize = if first == '-' || first == '+' {
        1
    } else {
        0
    };
    let limit: u64 = if first == '-' {
        2147483648
    } else {
        2147483647
    };
    let ghost digits = text@.subrange(start as int, len as int);
    assert(digits =~= if start == 1 {
        text@.drop_first()
    } else {
        text@
    });
    assert(is_i32_text(text@) == is_decimal_up_to(digits, limit as nat));
    if start == len {
        return false;
    }
    let mut value: u64 = 0;
    let mut i: usize = start;
    assert(digits.subrange(0, 0) =~= Seq::<char>::empty());
    while i < len
        invariant
            start <= i <= len,
            len == text@.len(),
            digits == text@.subrange(start as int, len as int),
            is_i32_text(text@) == is_decimal_up_to(digits, limit as nat),
            limit <= 2147483648,
            value <= limit,
            all_digits(digits.subrange(0, i - start)),
            value == decimal_value(digits.subrange(0, i - start)),
        decreases len - i,
    {
        let c = text.get_char(i);
        let code: u32 = c as u32;
        if code < 48 || code > 57 {
            assert(!is_digit(digits[i - start]));
            return false;
        }
        let ghost read = digits.subrange(0, i + 1 - start);
        proof {
            assert(read.drop_last() =~= digits.subrange(0, i - start));
            assert(read.last() == c);
            assert(all_digits(read)) by {
                assert forall|j: int| 0 <= j < read.len() implies is_digit(#[trigger] read[j]) by {
                    if j < i - start {
                        assert(digits.subrange(0, i - start)[j] == read[j]);
                    }
                }
            }
        }
        value = value * 10 + (code - 48) as u64;
        if value > limit {
            proof {
                if all_digits(digits) {
                    lemma_decimal_value_prefix(digits, i + 1 - start);
                }
            }
            return false;
        }
        i += 1;
    }
    assert(digits.subrange(0, len - start) =~= digits);
    true
}

/// Why the command line was refused.
#[derive(Clone, Copy, Debug, PartialEq, Eq, Structural)]
pub enum ConfigError {
    /// The command line does not consist of the program's name and one
    /// argument.
    Usage,
    /// The argument is not a number.
    NotANumber,
}

impl ConfigError {
    /// What the operator is told.
    pub open spec fn message_spec(self) -> Seq<char> {
        match self {
            ConfigError::Usage => "USAGE: websocket-relay-server [listening on server port]"@,
            ConfigError::NotANumber => "Error: port is not a number"@,
        }
    }

    /// What the operator is told.
    pub fn message(&self) -> (message: String)
        ensures
            message@ == self.message_spec(),
    {
        match self {
            ConfigError::Usage => String::from_str(
                "USAGE: websocket-relay-server [listening on server port]",
            ),
            ConfigError::NotANumber => String::from_str("Error: port is not a number"),
        }
    }
}

/// The upstream port named on the command line `args`, which holds the
/// program's name and then its arguments. The port is returned as it was
/// written. Anything but exactly one argument is a usage error; an argument
/// that does not write a 32-bit signed integer is refused as not a number.
pub fn port_from_args(args: &Vec<String>) -> (port: Result<String, ConfigError>)
    ensures
        match port {
            Ok(port) => args@.len() == 2 && is_i32_text(args@[1]@) && port@ == args@[1]@,
            Err(ConfigError::Usage) => args@.len() != 2,
            Err(ConfigError::NotANumber) => args@.len() == 2 && !is_i32_text(args@[1]@),
        },
{
    if args.len() != 2 {
        return Err(ConfigError::Usage);
    }
    if is_port_number(args[1].as_str()) {
        Ok(args[1].clone())
    } else {
        Err(ConfigError::NotANumber)
    }
}

} // verus!
