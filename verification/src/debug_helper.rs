use vstd::prelude::*;
use vstd::string::StringExecFns;

verus! {

/// The character of a decimal digit.
pub open spec fn digit_char(d: nat) -> char
    recommends
        d < 10,
{
    if d == 0 {
        '0'
    } else if d == 1 {
        '1'
    } else if d == 2 {
        '2'
    } else if d == 3 {
        '3'
    } else if d == 4 {
        '4'
    } else if d == 5 {
        '5'
    } else if d == 6 {
        '6'
    } else if d == 7 {
        '7'
    } else if d == 8 {
        '8'
    } else {
        '9'
    }
}

/// A number in decimal, without leading zeros.
pub open spec fn decimal(n: nat) -> Seq<char>
    decreases n,
{
    if n < 10 {
        seq![digit_char(n)]
    } else {
        decimal(n / 10).push(digit_char(n % 10))
    }
}

/// Bytes in decimal, with a comma and a space between one and the next.
pub open spec fn listed(bytes: Seq<u8>) -> Seq<char>
    decreases bytes.len(),
{
    if bytes.len() == 0 {
        Seq::empty()
    } else if bytes.len() == 1 {
        decimal(bytes[0] as nat)
    } else {
        listed(bytes.drop_last()) + seq![',', ' '] + decimal(bytes.last() as nat)
    }
}

/// What is shown of a run of bytes: all of them in square brackets where there
/// are at most 16, and else the first 16, a mark that more follow, and how
/// many there are in all.
pub open spec fn truncated_debug(bytes: Seq<u8>) -> Seq<char> {
    if bytes.len() <= 16 {
        seq!['['] + listed(bytes) + seq![']']
    } else {
        seq!['['] + listed(bytes.take(16)) + seq![',', ' ', '.', '.', '.', ']', ' ', '(']
            + decimal(bytes.len()) + seq![' ', 'b', 'y', 't', 'e', 's', ')']
    }
}

/// The text of one decimal digit.
fn digit_str(d: usize) -> (s: &'static str)
    requires
        d < 10,
    ensures
        s@ == seq![digit_char(d as nat)],
{
    proof {
        reveal_strlit("0");
        reveal_strlit("1");
        reveal_strlit("2");
        reveal_strlit("3");
        reveal_strlit("4");
        reveal_strlit("5");
        reveal_strlit("6");
        reveal_strlit("7");
        reveal_strlit("8");
        reveal_strlit("9");
    }
    let s = if d == 0 {
        "0"
    } else if d == 1 {
        "1"
    } else if d == 2 {
        "2"
    } else if d == 3 {
        "3"
    } else if d == 4 {
        "4"
    } else if d == 5 {
        "5"
    } else if d == 6 {
        "6"
    } else if d == 7 {
        "7"
    } else if d == 8 {
        "8"
    } else {
        "9"
    };
    assert(s@ =~= seq![digit_char(d as nat)]);
    s
}

/// Writes a number in decimal at the end of a text.
fn append_decimal(text: &mut String, n: usize)
    ensures
        final(text)@ == old(text)@ + decimal(n as nat),
    decreases n,
{
    if n >= 10 {
        append_decimal(text, n / 10);
    }
    text.append(digit_str(n % 10));
    proof {
        if n >= 10 {
            assert(final(text)@ =~= old(text)@ + decimal(n as nat));
        } else {
            assert(final(text)@ =~= old(text)@ + decimal(n as nat));
        }
    }
}

/// A run of bytes that is shown in full only where it is short.
pub struct TruncatedBytes<'a>(pub &'a [u8]);

impl<'a> TruncatedBytes<'a> {
    /// The bytes as a reader of a log sees them.
    pub fn debug_string(&self) -> (text: String)
        ensures
            text@ == truncated_debug(self.0@),
    {
        let bytes = self.0;
        let total: usize = bytes.len();
        let shown: usize = if total <= 16 {
            total
        } else {
            16
        };
        let mut text = String::from_str("[");
        proof {
            reveal_strlit("[");
            assert(text@ =~= seq!['['] + listed(bytes@.take(0)));
        }
        let mut i: usize = 0;
        while i < shown
            invariant
                i <= shown <= total,
                total == bytes@.len(),
                text@ == seq!['['] + listed(bytes@.take(i as int)),
            decreases shown - i,
        {
            if i > 0 {
                text.append(", ");
            }
            let ghost before = text@;
            append_decimal(&mut text, bytes[i] as usize);
            proof {
                reveal_strlit(", ");
                let next = bytes@.take(i + 1);
                assert(next.drop_last() =~= bytes@.take(i as int));
                assert(next.last() == bytes@[i as int]);
                if i > 0 {
                    assert(text@ =~= seq!['['] + listed(next));
                } else {
                    assert(listed(bytes@.take(0)) =~= Seq::<char>::empty());
                    assert(text@ =~= seq!['['] + listed(next));
                }
            }
            i += 1;
        }
        if total <= 16 {
            text.append("]");
            proof {
                reveal_strlit("]");
                assert(bytes@.take(total as int) =~= bytes@);
            }
        } else {
            text.append(", ...] (");
            append_decimal(&mut text, total);
            text.append(" bytes)");
            proof {
                reveal_strlit(", ...] (");
                reveal_strlit(" bytes)");
                assert(", ...] ("@ =~= seq![',', ' ', '.', '.', '.', ']', ' ', '(']);
                assert(" bytes)"@ =~= seq![' ', 'b', 'y', 't', 'e', 's', ')']);
            }
        }
        text
    }
}

} // verus!
