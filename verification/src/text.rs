//! Bytes as text.
use vstd::prelude::*;
use vstd::string::StringExecFns;

verus! {

/// The character of a decimal digit.
pub open spec fn digit(n: int) -> char {
    ('0' as u32 + n) as char
}

/// A byte in decimal, without leading zeros.
pub open spec fn decimal(byte: u8) -> Seq<char> {
    if byte >= 100 {
        seq![digit(byte as int / 100), digit(byte as int / 10 % 10), digit(byte as int % 10)]
    } else if byte >= 10 {
        seq![digit(byte as int / 10), digit(byte as int % 10)]
    } else {
        seq![digit(byte as int)]
    }
}

/// Bytes in decimal, with a comma and a blank between two of them.
pub open spec fn decimals(bytes: Seq<u8>) -> Seq<char>
    decreases bytes.len(),
{
    if bytes.len() == 0 {
        Seq::empty()
    } else if bytes.len() == 1 {
        decimal(bytes[0])
    } else {
        decimals(bytes.drop_last()) + ", "@ + decimal(bytes.last())
    }
}

/// Bytes in decimal, each on a line of its own behind eight blanks and before a
/// comma.
pub open spec fn decimal_lines(bytes: Seq<u8>) -> Seq<char>
    decreases bytes.len(),
{
    if bytes.len() == 0 {
        Seq::empty()
    } else {
        decimal_lines(bytes.drop_last()) + "        "@ + decimal(bytes.last()) + ",\n"@
    }
}

/// What is left of bytes when they are read as UTF-8 and every malformed
/// sequence is replaced.
pub uninterp spec fn lossy(bytes: Seq<u8>) -> Seq<char>;

/// A text between quotes, with what cannot be shown as it is escaped.
pub uninterp spec fn quoted(text: Seq<char>) -> Seq<char>;

/// Calls `String::from_utf8_lossy`. The result is a function of the bytes
/// alone and is called `lossy`.
#[verifier::external_body]
pub(crate) fn to_lossy(bytes: &[u8]) -> (text: String)
    ensures
        text@ == lossy(bytes@),
{
    String::from_utf8_lossy(bytes).into_owned()
}

/// Formats a text with `{:?}`. The result is a function of the text alone and
/// is called `quoted`.
#[verifier::external_body]
pub(crate) fn to_quoted(text: &str) -> (shown: String)
    ensures
        shown@ == quoted(text@),
{
    format!("{:?}", text)
}

fn digit_text(n: u8) -> (text: &'static str)
    requires
        n < 10,
    ensures
        text@ == seq![digit(n as int)],
{
    proof {
        reveal_strlit("0");
        reveal_strlit("1");
        reveal_strlit("2");
        reveal_strlit("3");
        reveal_strlit("4");
        reveal_strlit("5");
        reveal_strlit("6");
        reveal_strlit("7");
        reveal_strlit("8");
        reveal_strlit("9");
    }
    match n {
        0 => "0",
        1 => "1",
        2 => "2",
        3 => "3",
        4 => "4",
        5 => "5",
        6 => "6",
        7 => "7",
        8 => "8",
        _ => "9",
    }
}

fn append_decimal(text: &mut String, byte: u8)
    ensures
        final(text)@ == old(text)@ + decimal(byte),
{
    if byte >= 100 {
        text.append(digit_text(byte / 100));
    }
    if byte >= 10 {
        text.append(digit_text(byte / 10 % 10));
    }
    text.append(digit_text(byte % 10));
    assert(text@ =~= old(text)@ + decimal(byte));
}

/// Appends `bytes` in decimal, with a comma and a blank between two of them.
pub fn append_decimals(text: &mut String, bytes: &[u8])
    ensures
        final(text)@ == old(text)@ + decimals(bytes@),
{
    let ghost start = text@;
    let n: usize = bytes.len();
    let mut i: usize = 0;
    assert(text@ =~= start + decimals(bytes@.take(0)));
    while i < n
        invariant
            i <= n,
            n == bytes@.len(),
            text@ == start + decimals(bytes@.take(i as int)),
        decreases n - i,
    {
        if i > 0 {
            text.append(", ");
        }
        append_decimal(text, bytes[i]);
        proof {
            let done = bytes@.take(i as int);
            let more = bytes@.take(i + 1);
            assert(more.drop_last() =~= done);
            assert(text@ =~= start + decimals(more));
        }
        i = i + 1;
    }
    assert(bytes@.take(n as int) =~= bytes@);
}

/// Appends `bytes` in decimal, each on a line of its own behind eight blanks
/// and before a comma.
pub fn append_decimal_lines(text: &mut String, bytes: &[u8])
    ensures
        final(text)@ == old(text)@ + decimal_lines(bytes@),
{
    let ghost start = text@;
    let n: usize = bytes.len();
    let mut i: usize = 0;
    assert(text@ =~= start + decimal_lines(bytes@.take(0)));
    while i < n
        invariant
            i <= n,
            n == bytes@.len(),
            text@ == start + decimal_lines(bytes@.take(i as int)),
        decreases n - i,
    {
        text.append("        ");
        append_decimal(text, bytes[i]);
        text.append(",\n");
        proof {
            let more = bytes@.take(i + 1);
            assert(more.drop_last() =~= bytes@.take(i as int));
            assert(text@ =~= start + decimal_lines(more));
        }
        i = i + 1;
    }
    assert(bytes@.take(n as int) =~= bytes@);
}

/// The number that decimal digits spell.
pub open spec fn spelled(digits: Seq<char>) -> int
    decreases digits.len(),
{
    if digits.len() == 0 {
        0
    } else {
        spelled(digits.drop_last()) * 10 + (digits.last() as int - '0' as int)
    }
}

/// The decimal form of a byte consists of digits, spells the byte, and has no
/// leading zero.
pub proof fn law_decimal_spells_the_byte(byte: u8)
    ensures
        spelled(decimal(byte)) == byte,
        decimal(byte).len() >= 1,
        decimal(byte).len() > 1 ==> decimal(byte)[0] != '0',
        forall|i: int|
            0 <= i < decimal(byte).len() ==> '0' as int <= #[trigger] decimal(byte)[i] as int <= '9' as int,
{
    let text = decimal(byte);
    let n = byte as int;
    reveal_with_fuel(spelled, 4);
    if n >= 100 {
        assert(text.drop_last() =~= seq![digit(n / 100), digit(n / 10 % 10)]);
        assert(text.drop_last().drop_last() =~= seq![digit(n / 100)]);
        assert(text.drop_last().drop_last().drop_last() =~= Seq::empty());
        assert(n == n / 100 * 100 + n / 10 % 10 * 10 + n % 10);
    } else if n >= 10 {
        assert(text.drop_last() =~= seq![digit(n / 10)]);
        assert(text.drop_last().drop_last() =~= Seq::empty());
    } else {
        assert(text.drop_last() =~= Seq::empty());
    }
}

/// Lists of bytes are shown one behind the other, with a comma and a blank
/// between them.
pub proof fn law_decimals_join(a: Seq<u8>, b: Seq<u8>, byte: u8)
    requires
        a.len() > 0,
        b.len() > 0,
    ensures
        decimals(a + b) == decimals(a) + ", "@ + decimals(b),
        decimals(seq![byte]) == decimal(byte),
        decimals(Seq::empty()) == Seq::<char>::empty(),
    decreases b.len(),
{
    assert((a + b).drop_last() =~= a + b.drop_last());
    if b.len() == 1 {
        assert(a + b.drop_last() =~= a);
    } else {
        law_decimals_join(a, b.drop_last(), byte);
        assert(decimals(a) + ", "@ + (decimals(b.drop_last()) + ", "@ + decimal(b.last()))
            =~= decimals(a) + ", "@ + decimals(b.drop_last()) + ", "@ + decimal(b.last()));
    }
}

/// Bytes that are shown on lines of their own follow each other, each behind
/// eight blanks and before a comma.
pub proof fn law_decimal_lines_join(a: Seq<u8>, b: Seq<u8>, byte: u8)
    ensures
        decimal_lines(a + b) == decimal_lines(a) + decimal_lines(b),
        decimal_lines(seq![byte]) == "        "@ + decimal(byte) + ",\n"@,
    decreases b.len(),
{
    assert(seq![byte].drop_last() =~= Seq::<u8>::empty());
    assert(decimal_lines(Seq::<u8>::empty()) =~= Seq::<char>::empty());
    assert(decimal_lines(seq![byte]) =~= "        "@ + decimal(byte) + ",\n"@);
    if b.len() == 0 {
        assert(a + b =~= a);
        assert(decimal_lines(a) + decimal_lines(b) =~= decimal_lines(a));
    } else {
        assert((a + b).drop_last() =~= a + b.drop_last());
        law_decimal_lines_join(a, b.drop_last(), byte);
        assert(decimal_lines(a + b) =~= decimal_lines(a) + decimal_lines(b));
    }
}

} // verus!
