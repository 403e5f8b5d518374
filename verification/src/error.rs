//! Card types and errors.

use vstd::prelude::*;
use vstd::string::StringExecFns;

verus! {

/// SD card type determined during initialization.
#[derive(Debug, Clone, Copy, PartialEq, Eq, Structural)]
pub enum CardType {
    /// Standard Capacity (at most 2 GB), byte-addressed.
    Sdsc,
    /// High Capacity (more than 2 GB), block-addressed.
    Sdhc,
}

/// Errors that can occur during SD card operations.
#[derive(Debug, Clone, Copy, PartialEq, Eq, Structural)]
pub enum SdError {
    /// Command or data timeout.
    Timeout,
    /// CRC check failed.
    CrcError,
    /// No card detected or card failed to initialize.
    NoCard,
    /// Command returned error status bits; carries them for diagnosis.
    CommandFailed(u32),
}

/// Nibble `k` of `value`, nibble 0 being the least significant.
pub open spec fn nibble(value: u32, k: int) -> u32 {
    (value >> ((4 * k) as u32)) & 0xF
}

/// The lower-case hexadecimal digit of `d`.
pub open spec fn hex_digit(d: u32) -> char {
    if d < 10 {
        (d + 48) as char
    } else {
        (d + 87) as char
    }
}

/// The eight hexadecimal digits of `value`, most significant first.
pub open spec fn hex_digits(value: u32) -> Seq<char> {
    Seq::new(8, |i: int| hex_digit(nibble(value, 7 - i)))
}

impl SdError {
    /// The text that describes the error to a user.
    pub open spec fn text(self) -> Seq<char> {
        match self {
            SdError::Timeout => "SD timeout"@,
            SdError::CrcError => "SD CRC error"@,
            SdError::NoCard => "No SD card"@,
            SdError::CommandFailed(status) => "SD command failed: 0x"@ + hex_digits(status),
        }
    }

    /// Describe the error. The status of a failed command is written as `0x`
    /// and eight lower-case hexadecimal digits.
    pub fn to_string(&self) -> (s: String)
        ensures
            s@ == self.text(),
    {
        match self {
            SdError::Timeout => "SD timeout".to_owned(),
            SdError::CrcError => "SD CRC error".to_owned(),
            SdError::NoCard => "No SD card".to_owned(),
            SdError::CommandFailed(status) => {
                let mut s = "SD command failed: 0x".to_owned();
                let ghost head = s@;
                let mut i: u32 = 0;
                while i < 8
                    invariant
                        i <= 8,
                        head == "SD command failed: 0x"@,
                        s@ == head + hex_digits(*status).take(i as int),
                    decreases 8 - i,
                {
                    let shift: u32 = 28 - 4 * i;
                    let d: u32 = (*status >> shift) & 0xF;
                    assert(d < 16) by (bit_vector)
                        requires
                            d == (*status >> shift) & 0xF,
                    ;
                    let ghost before = s@;
                    s.append(digit_str(d));
                    proof {
                        assert(shift == 4 * (7 - i as int));
                        assert(hex_digits(*status)[i as int] == hex_digit(d));
                        assert(hex_digits(*status).take(i + 1) =~= hex_digits(*status).take(
                            i as int,
                        ).push(hex_digit(d)));
                        assert(s@ =~= head + hex_digits(*status).take(i + 1));
                    }
                    i = i + 1;
                }
                assert(hex_digits(*status).take(8) =~= hex_digits(*status));
                s
            },
        }
    }
}

/// The hexadecimal digit of `d` as a one-character string.
fn digit_str(d: u32) -> (s: &'static str)
    requires
        d < 16,
    ensures
        s@ == seq![hex_digit(d)],
{
    proof {
        reveal_strlit("0");
        reveal_strlit("1");
        reveal_strlit("2");
        reveal_strlit("3");
        reveal_strlit("4");
        reveal_strlit("5");
        reveal_strlit("6");
        reveal_strlit("7");
        reveal_strlit("8");
        reveal_strlit("9");
        reveal_strlit("a");
        reveal_strlit("b");
        reveal_strlit("c");
        reveal_strlit("d");
        reveal_strlit("e");
        reveal_strlit("f");
    }
    match d {
        0 => "0",
        1 => "1",
        2 => "2",
        3 => "3",
        4 => "4",
        5 => "5",
        6 => "6",
        7 => "7",
        8 => "8",
        9 => "9",
        10 => "a",
        11 => "b",
        12 => "c",
        13 => "d",
        14 => "e",
        _ => "f",
    }
}

/// The value of a lower-case hexadecimal digit.
pub open spec fn digit_value(c: char) -> int {
    if '0' <= c && c <= '9' {
        c as int - '0' as int
    } else if 'a' <= c && c <= 'f' {
        c as int - 'a' as int + 10
    } else {
        -1
    }
}

/// The number that `digits` write in hexadecimal.
pub open spec fn written_value(digits: Seq<char>) -> int
    decreases digits.len(),
{
    if digits.len() == 0 {
        0
    } else {
        16 * written_value(digits.drop_last()) + digit_value(digits.last())
    }
}

/// The text of a failed command names its status: behind `0x` stand eight lower-case
/// hexadecimal digits, which read as that very number.
pub proof fn law_text_tells_status(status: u32, s: String)
    requires
        call_ensures(SdError::to_string, (&SdError::CommandFailed(status),), s),
    ensures
        ({
            let text = s@;
            let head = "SD command failed: 0x"@;
            let digits = text.skip(head.len() as int);
            &&& text.len() == head.len() + 8
            &&& text.take(head.len() as int) == head
            &&& forall|i: int| 0 <= i < 8 ==> 0 <= #[trigger] digit_value(digits[i]) < 16
            &&& written_value(digits) == status
        }),
{
    let head = "SD command failed: 0x"@;
    let text = s@;
    let digits = hex_digits(status);
    assert(text.skip(head.len() as int) =~= digits);
    assert(text.take(head.len() as int) =~= head);
    let n = |k: int| nibble(status, k);
    assert(((status >> 0u32) & 0xF) + 0x10 * ((status >> 4u32) & 0xF) + 0x100 * ((status >> 8u32)
        & 0xF) + 0x1000 * ((status >> 12u32) & 0xF) + 0x1_0000 * ((status >> 16u32) & 0xF)
        + 0x10_0000 * ((status >> 20u32) & 0xF) + 0x100_0000 * ((status >> 24u32) & 0xF)
        + 0x1000_0000 * ((status >> 28u32) & 0xF) == status && (status >> 0u32) & 0xF < 16 && (
    status >> 4u32) & 0xF < 16 && (status >> 8u32) & 0xF < 16 && (status >> 12u32) & 0xF < 16 && (
    status >> 16u32) & 0xF < 16 && (status >> 20u32) & 0xF < 16 && (status >> 24u32) & 0xF < 16 && (
    status >> 28u32) & 0xF < 16) by (bit_vector);
    assert(n(0) < 16 && n(1) < 16 && n(2) < 16 && n(3) < 16 && n(4) < 16 && n(5) < 16 && n(6) < 16
        && n(7) < 16);
    assert forall|i: int| 0 <= i < 8 implies digit_value(#[trigger] digits[i]) == n(7 - i) && 0
        <= digit_value(digits[i]) < 16 by {
        let d = nibble(status, 7 - i);
        assert(digits[i] == hex_digit(d));
        assert(d < 16);
    }
    reveal_with_fuel(written_value, 9);
}

/// Each kind of error has its own text.
pub proof fn law_texts(error: SdError, s: String)
    requires
        call_ensures(SdError::to_string, (&error,), s),
    ensures
        error is Timeout ==> s@ == "SD timeout"@,
        error is CrcError ==> s@ == "SD CRC error"@,
        error is NoCard ==> s@ == "No SD card"@,
{
}

} // verus!
