//! The text that describes an error.
use crate::error::{ErrorCode, Expected, SizedKind};
use crate::marker::Marker;
use crate::ser::char_text;
use vstd::prelude::*;
use vstd::std_specs::iter::IteratorSpec;
use vstd::string::StringExecFns;

verus! {

/// The character of a digit below sixteen: `0`-`9`, then `a`-`f`.
pub open spec fn digit_char(d: nat) -> char {
    if d < 10 {
        ((d + 48) as u8) as char
    } else {
        ((d + 87) as u8) as char
    }
}

/// The decimal digits of `n`.
pub open spec fn decimal_text(n: nat) -> Seq<char>
    decreases n,
{
    if n < 10 {
        seq![digit_char(n)]
    } else {
        decimal_text(n / 10).push(digit_char(n % 10))
    }
}

/// The decimal text of `v`, with a minus sign where it is negative.
pub open spec fn int_text(v: int) -> Seq<char> {
    if v < 0 {
        seq!['-'] + decimal_text((-v) as nat)
    } else {
        decimal_text(v as nat)
    }
}

/// The byte as `0x` and two hexadecimal digits.
pub open spec fn byte_text(b: u8) -> Seq<char> {
    seq!['0', 'x', digit_char((b / 16) as nat), digit_char((b % 16) as nat)]
}

/// The lowercase hexadecimal digits of `n`, without a prefix.
pub open spec fn hex_text(n: nat) -> Seq<char>
    decreases n,
{
    if n < 16 {
        seq![digit_char(n)]
    } else {
        hex_text(n / 16).push(digit_char(n % 16))
    }
}

/// A marker as its variant and its content. A float shows its IEEE 754
/// bits in decimal.
pub open spec fn marker_text(m: Marker) -> Seq<char> {
    match m {
        Marker::I64(v) => "Marker::I64("@ + int_text(v as int) + ")"@,
        Marker::F64(bits) => "Marker::F64("@ + decimal_text(bits as nat) + ")"@,
        Marker::String(n) => "Marker::String("@ + decimal_text(n as nat) + ")"@,
        Marker::List(n) => "Marker::List("@ + decimal_text(n as nat) + ")"@,
        Marker::Bytes(n) => "Marker::Bytes("@ + decimal_text(n as nat) + ")"@,
        Marker::Dictionary(n) => "Marker::Map("@ + decimal_text(n as nat) + ")"@,
        Marker::Struct(n) => "Marker::Struct("@ + decimal_text(n as nat) + ")"@,
        Marker::Null => "Marker::Null"@,
        Marker::True => "Marker::True"@,
        Marker::False => "Marker::False"@,
        Marker::EOS => "Marker::EOS"@,
    }
}

/// What a step expected, in words.
pub open spec fn expected_text(e: Expected) -> Seq<char> {
    match e {
        Expected::Boolean => "Marker::Boolean"@,
        Expected::I64 => "Marker::I64"@,
        Expected::F64 => "Marker::F64"@,
        Expected::String1 => "Marker::String(1)"@,
        Expected::String => "Marker::String"@,
        Expected::Bytes => "Marker::Bytes"@,
        Expected::Null => "Marker::Null"@,
        Expected::List => "Marker::List"@,
        Expected::Dictionary => "Marker::Map"@,
        Expected::DictionaryOrStructure => "Marker::Map or Marker::Structure"@,
        Expected::Dictionary1 => "Marker::Map(1)"@,
        Expected::NotEndOfStream => "not Marker::EOS"@,
        Expected::SizedMarker => "a sized marker"@,
    }
}

/// Different expected kinds read differently.
proof fn lemma_expected_text_differ(e1: Expected, e2: Expected)
    requires
        e1 != e2,
    ensures
        expected_text(e1) != expected_text(e2),
{
    reveal_strlit("Marker::Boolean");
    reveal_strlit("Marker::I64");
    reveal_strlit("Marker::F64");
    reveal_strlit("Marker::String(1)");
    reveal_strlit("Marker::String");
    reveal_strlit("Marker::Bytes");
    reveal_strlit("Marker::Null");
    reveal_strlit("Marker::List");
    reveal_strlit("Marker::Map");
    reveal_strlit("Marker::Map or Marker::Structure");
    reveal_strlit("Marker::Map(1)");
    reveal_strlit("not Marker::EOS");
    reveal_strlit("a sized marker");
    let a = expected_text(e1);
    let b = expected_text(e2);
    if a.len() == b.len() {
        assert(a[0] != b[0] || a[8] != b[8] || a[9] != b[9]);
    }
}

/// Law: a marker of one kind, met where two different kinds were expected,
/// gives two different messages: each names the kind it expected.
pub proof fn lemma_unexpected_marker_messages_differ(e1: Expected, e2: Expected, m: Marker)
    requires
        e1 != e2,
    ensures
        message_text(ErrorCode::UnexpectedMarker { expected: e1, actual: m }) != message_text(
            ErrorCode::UnexpectedMarker { expected: e2, actual: m },
        ),
{
    let t1 = message_text(ErrorCode::UnexpectedMarker { expected: e1, actual: m });
    let t2 = message_text(ErrorCode::UnexpectedMarker { expected: e2, actual: m });
    reveal_strlit("Expected ");
    reveal_strlit("Unexpected Marker ");
    if e1 == Expected::SizedMarker || e2 == Expected::SizedMarker {
        assert(t1[0] != t2[0]);
    } else {
        let p = "Expected "@;
        let tail = ", got "@ + marker_text(m) + " instead."@;
        let a = expected_text(e1);
        let b = expected_text(e2);
        lemma_expected_text_differ(e1, e2);
        assert(t1 == p + a + tail);
        assert(t2 == p + b + tail);
        if t1 == t2 {
            assert(a.len() == b.len());
            assert forall|i: int| 0 <= i < a.len() implies a[i] == b[i] by {
                assert(t1[p.len() + i] == a[i]);
                assert(t2[p.len() + i] == b[i]);
            }
            assert(a =~= b);
        }
    }
}

/// The kind of a sized marker, in words.
pub open spec fn kind_text(k: SizedKind) -> Seq<char> {
    match k {
        SizedKind::String => "String"@,
        SizedKind::Bytes => "Bytes"@,
        SizedKind::Struct => "Struct"@,
    }
}

/// The text that describes the error.
pub open spec fn message_text(c: ErrorCode) -> Seq<char> {
    match c {
        ErrorCode::Message(m) => m@,
        ErrorCode::ImplementationError(m) => m@ + "\n. This is an implementation error, submit issue at: <address>"@,
        ErrorCode::UnexpectedMarker { expected, actual } => if expected == Expected::SizedMarker {
            "Unexpected Marker "@ + marker_text(actual) + ", expected Marker with size"@
        } else {
            "Expected "@ + expected_text(expected) + ", got "@ + marker_text(actual) + " instead."@
        },
        ErrorCode::TypeSizeExceeded { kind, len, max_len } => "Cannot pack "@ + kind_text(kind)
            + " marker with size "@ + decimal_text(len as nat)
            + ". Maximum size available for this data type is "@ + decimal_text(max_len as nat),
        ErrorCode::IntegerOutOfRange(_) => "out of range integral type conversion attempted"@,
        ErrorCode::U64OutOfRange(v) => "Attempt to convert "@ + decimal_text(v as nat) + "u64 into i64 failed"@,
        ErrorCode::NotAMarker(b) => "Peek error: byte "@ + hex_text(b as nat) + " is not a marker."@,
        ErrorCode::InvalidUtf8 => "String bytes are not valid UTF-8."@,
        ErrorCode::UnexpectedEndOfBytes => "Unexpected end of bytes."@,
        ErrorCode::UnexpectedTrailingBytes => "Unexpected trailing bytes left in the input."@,
        ErrorCode::VirtualIllegalAssignment => "Virtual marker and value must be consumed before setting new one."@,
        ErrorCode::UnexpectedSignature { expected_signature, actual_signature } => "Expected "@ + byte_text(
            expected_signature,
        ) + " signature. Got "@ + byte_text(actual_signature) + " instead."@,
        ErrorCode::UnknownSignature(s) => "Expected signature of a known Structure, got "@ + decimal_text(
            s as nat,
        ),
        ErrorCode::UnexpectedFieldCount { expected_len, actual_len } => "Expected structure fields length to be "@
            + decimal_text(expected_len as nat) + ", got "@ + decimal_text(actual_len as nat),
        ErrorCode::UnexpectedValue => "Unexpected type of value."@,
        ErrorCode::MissingKey => "Expected key to exist."@,
        ErrorCode::UnexpectedKey => "Unexpected key."@,
    }
}

/// Appends the text.
pub(crate) fn push_str(out: &mut String, s: &str)
    ensures
        final(out)@ == old(out)@ + s@,
{
    out.append(s);
}

/// Appends the character of a digit below sixteen.
fn push_digit(out: &mut String, d: u64)
    requires
        d < 16,
    ensures
        final(out)@ == old(out)@.push(digit_char(d as nat)),
{
    let c: char = if d < 10 {
        (d as u8 + 48) as char
    } else {
        (d as u8 + 87) as char
    };
    let s = char_text(c);
    out.append(s.as_str());
    assert(final(out)@ =~= old(out)@.push(digit_char(d as nat)));
}

/// Appends the decimal digits of `n`.
fn push_decimal(out: &mut String, n: u64)
    ensures
        final(out)@ == old(out)@ + decimal_text(n as nat),
    decreases n,
{
    if n >= 10 {
        push_decimal(out, n / 10);
        push_digit(out, n % 10);
    } else {
        push_digit(out, n);
    }
    assert(final(out)@ =~= old(out)@ + decimal_text(n as nat));
}

/// Appends the decimal text of `v`.
fn push_int(out: &mut String, v: i64)
    ensures
        final(out)@ == old(out)@ + int_text(v as int),
{
    if v < 0 {
        push_str(out, "-");
        proof {
            reveal_strlit("-");
        }
        let a: u64 = ((-(v + 1)) as u64) + 1;
        push_decimal(out, a);
    } else {
        push_decimal(out, v as u64);
    }
    assert(final(out)@ =~= old(out)@ + int_text(v as int));
}

/// Appends the lowercase hexadecimal digits of `n`.
fn push_hex(out: &mut String, n: u64)
    ensures
        final(out)@ == old(out)@ + hex_text(n as nat),
    decreases n,
{
    if n >= 16 {
        push_hex(out, n / 16);
        push_digit(out, n % 16);
    } else {
        push_digit(out, n);
    }
    assert(final(out)@ =~= old(out)@ + hex_text(n as nat));
}

/// Appends the byte as `0x` and two hexadecimal digits.
fn push_byte(out: &mut String, b: u8)
    ensures
        final(out)@ == old(out)@ + byte_text(b),
{
    push_str(out, "0x");
    proof {
        reveal_strlit("0x");
    }
    push_digit(out, (b / 16) as u64);
    push_digit(out, (b % 16) as u64);
    assert(final(out)@ =~= old(out)@ + byte_text(b));
}

/// Appends the variant's name, then a number in brackets.
fn push_sized(out: &mut String, name: &str, n: u64)
    ensures
        final(out)@ == old(out)@ + name@ + decimal_text(n as nat) + ")"@,
{
    push_str(out, name);
    push_decimal(out, n);
    push_str(out, ")");
    assert(final(out)@ =~= old(out)@ + name@ + decimal_text(n as nat) + ")"@);
}

/// Appends the marker as its variant and its content.
fn push_marker(out: &mut String, m: Marker)
    ensures
        final(out)@ == old(out)@ + marker_text(m),
{
    match m {
        Marker::I64(v) => {
            push_str(out, "Marker::I64(");
            push_int(out, v);
            push_str(out, ")");
        },
        Marker::F64(bits) => push_sized(out, "Marker::F64(", bits),
        Marker::String(n) => push_sized(out, "Marker::String(", n as u64),
        Marker::List(n) => push_sized(out, "Marker::List(", n as u64),
        Marker::Bytes(n) => push_sized(out, "Marker::Bytes(", n as u64),
        Marker::Dictionary(n) => push_sized(out, "Marker::Map(", n as u64),
        Marker::Struct(n) => push_sized(out, "Marker::Struct(", n as u64),
        Marker::Null => push_str(out, "Marker::Null"),
        Marker::True => push_str(out, "Marker::True"),
        Marker::False => push_str(out, "Marker::False"),
        Marker::EOS => push_str(out, "Marker::EOS"),
    }
    assert(final(out)@ =~= old(out)@ + marker_text(m));
}

/// What a step expected, in words.
fn expected_str(e: Expected) -> (s: &'static str)
    ensures
        s@ == expected_text(e),
{
    match e {
        Expected::Boolean => "Marker::Boolean",
        Expected::I64 => "Marker::I64",
        Expected::F64 => "Marker::F64",
        Expected::String1 => "Marker::String(1)",
        Expected::String => "Marker::String",
        Expected::Bytes => "Marker::Bytes",
        Expected::Null => "Marker::Null",
        Expected::List => "Marker::List",
        Expected::Dictionary => "Marker::Map",
        Expected::DictionaryOrStructure => "Marker::Map or Marker::Structure",
        Expected::Dictionary1 => "Marker::Map(1)",
        Expected::NotEndOfStream => "not Marker::EOS",
        Expected::SizedMarker => "a sized marker",
    }
}

/// The kind of a sized marker, in words.
fn kind_str(k: SizedKind) -> (s: &'static str)
    ensures
        s@ == kind_text(k),
{
    match k {
        SizedKind::String => "String",
        SizedKind::Bytes => "Bytes",
        SizedKind::Struct => "Struct",
    }
}

/// A character as a quoted text shows it: a quote, a backslash, a line
/// feed, a carriage return, a tab and a nul are escaped with a backslash;
/// every other character stands for itself.
pub open spec fn escape_char(c: char) -> Seq<char> {
    if c == '"' {
        seq!['\\', '"']
    } else if c == '\\' {
        seq!['\\', '\\']
    } else if c == '\n' {
        seq!['\\', 'n']
    } else if c == '\r' {
        seq!['\\', 'r']
    } else if c == '\t' {
        seq!['\\', 't']
    } else if c == '\0' {
        seq!['\\', '0']
    } else {
        seq![c]
    }
}

/// The characters, each escaped.
pub open spec fn escaped_text(s: Seq<char>) -> Seq<char>
    decreases s.len(),
{
    if s.len() == 0 {
        Seq::empty()
    } else {
        escaped_text(s.drop_last()) + escape_char(s.last())
    }
}

/// The text in double quotes, escaped.
pub open spec fn quoted_text(s: Seq<char>) -> Seq<char> {
    seq!['"'] + escaped_text(s) + seq!['"']
}

/// Appends the character, escaped.
fn push_escaped(out: &mut String, c: char)
    ensures
        final(out)@ == old(out)@ + escape_char(c),
{
    let e: &str = if c == '"' {
        "\\\""
    } else if c == '\\' {
        "\\\\"
    } else if c == '\n' {
        "\\n"
    } else if c == '\r' {
        "\\r"
    } else if c == '\t' {
        "\\t"
    } else if c == '\0' {
        "\\0"
    } else {
        let t = char_text(c);
        out.append(t.as_str());
        return;
    };
    proof {
        reveal_strlit("\\\"");
        reveal_strlit("\\\\");
        reveal_strlit("\\n");
        reveal_strlit("\\r");
        reveal_strlit("\\t");
        reveal_strlit("\\0");
    }
    push_str(out, e);
}

/// Appends the text in double quotes, escaped.
pub(crate) fn push_quoted(out: &mut String, s: &str)
    ensures
        final(out)@ == old(out)@ + quoted_text(s@),
{
    broadcast use vstd::string::axiom_spec_iter, vstd::string::next_postcondition;

    push_str(out, "\"");
    proof {
        reveal_strlit("\"");
    }
    let ghost start = out@;
    let mut chars = s.chars();
    let ghost mut done: Seq<char> = Seq::empty();
    loop
        invariant_except_break
            done.len() <= s@.len(),
            done == s@.subrange(0, done.len() as int),
            chars.remaining() == s@.subrange(done.len() as int, s@.len() as int),
            out@ == start + escaped_text(done),
        ensures
            out@ == start + escaped_text(s@),
        decreases s@.len() - done.len(),
    {
        match chars.next() {
            Some(c) => {
                push_escaped(out, c);
                proof {
                    let d2 = done.push(c);
                    assert(d2.drop_last() =~= done);
                    assert(d2 =~= s@.subrange(0, d2.len() as int));
                    done = d2;
                }
                assert(chars.remaining() =~= s@.subrange(done.len() as int, s@.len() as int));
            },
            None => {
                assert(done =~= s@);
                break;
            },
        }
    }
    push_str(out, "\"");
    assert(final(out)@ =~= old(out)@ + quoted_text(s@));
}

impl ErrorCode {
    /// The text that describes the error.
    pub fn message(&self) -> (s: String)
        ensures
            s@ == message_text(*self),
    {
        let mut out = String::new();
        match self {
            ErrorCode::Message(m) => push_str(&mut out, m.as_str()),
            ErrorCode::ImplementationError(m) => {
                push_str(&mut out, m.as_str());
                push_str(&mut out, "\n. This is an implementation error, submit issue at: <address>");
            },
            ErrorCode::UnexpectedMarker { expected, actual } => {
                if *expected == Expected::SizedMarker {
                    push_str(&mut out, "Unexpected Marker ");
                    push_marker(&mut out, *actual);
                    push_str(&mut out, ", expected Marker with size");
                } else {
                    push_str(&mut out, "Expected ");
                    push_str(&mut out, expected_str(*expected));
                    push_str(&mut out, ", got ");
                    push_marker(&mut out, *actual);
                    push_str(&mut out, " instead.");
                }
            },
            ErrorCode::TypeSizeExceeded { kind, len, max_len } => {
                push_str(&mut out, "Cannot pack ");
                push_str(&mut out, kind_str(*kind));
                push_str(&mut out, " marker with size ");
                push_decimal(&mut out, *len as u64);
                push_str(&mut out, ". Maximum size available for this data type is ");
                push_decimal(&mut out, *max_len as u64);
            },
            ErrorCode::IntegerOutOfRange(_) => push_str(&mut out, "out of range integral type conversion attempted"),
            ErrorCode::U64OutOfRange(v) => {
                push_str(&mut out, "Attempt to convert ");
                push_decimal(&mut out, *v);
                push_str(&mut out, "u64 into i64 failed");
            },
            ErrorCode::NotAMarker(b) => {
                push_str(&mut out, "Peek error: byte ");
                push_hex(&mut out, *b as u64);
                push_str(&mut out, " is not a marker.");
            },
            ErrorCode::InvalidUtf8 => push_str(&mut out, "String bytes are not valid UTF-8."),
            ErrorCode::UnexpectedEndOfBytes => push_str(&mut out, "Unexpected end of bytes."),
            ErrorCode::UnexpectedTrailingBytes => push_str(
                &mut out,
                "Unexpected trailing bytes left in the input.",
            ),
            ErrorCode::VirtualIllegalAssignment => push_str(
                &mut out,
                "Virtual marker and value must be consumed before setting new one.",
            ),
            ErrorCode::UnexpectedSignature { expected_signature, actual_signature } => {
                push_str(&mut out, "Expected ");
                push_byte(&mut out, *expected_signature);
                push_str(&mut out, " signature. Got ");
                push_byte(&mut out, *actual_signature);
                push_str(&mut out, " instead.");
            },
            ErrorCode::UnknownSignature(s) => {
                push_str(&mut out, "Expected signature of a known Structure, got ");
                push_decimal(&mut out, *s as u64);
            },
            ErrorCode::UnexpectedFieldCount { expected_len, actual_len } => {
                push_str(&mut out, "Expected structure fields length to be ");
                push_decimal(&mut out, *expected_len as u64);
                push_str(&mut out, ", got ");
                push_decimal(&mut out, *actual_len as u64);
            },
            ErrorCode::UnexpectedValue => push_str(&mut out, "Unexpected type of value."),
            ErrorCode::MissingKey => push_str(&mut out, "Expected key to exist."),
            ErrorCode::UnexpectedKey => push_str(&mut out, "Unexpected key."),
        }
        assert(out@ =~= message_text(*self));
        out
    }
}

} // verus!
