use vstd::prelude::*;
use vstd::string::StringExecFns;

verus! {

/// The lowercase hexadecimal digit character for a value below sixteen.
pub open spec fn hex_char(n: int) -> char {
    if n == 0 {
        '0'
    } else if n == 1 {
        '1'
    } else if n == 2 {
        '2'
    } else if n == 3 {
        '3'
    } else if n == 4 {
        '4'
    } else if n == 5 {
        '5'
    } else if n == 6 {
        '6'
    } else if n == 7 {
        '7'
    } else if n == 8 {
        '8'
    } else if n == 9 {
        '9'
    } else if n == 10 {
        'a'
    } else if n == 11 {
        'b'
    } else if n == 12 {
        'c'
    } else if n == 13 {
        'd'
    } else if n == 14 {
        'e'
    } else {
        'f'
    }
}

/// The lowercase hexadecimal rendering of a byte sequence: two digit
/// characters per byte, high nibble first, no separators.
pub open spec fn hex_of(s: Seq<u8>) -> Seq<char>
    decreases s.len(),
{
    if s.len() == 0 {
        Seq::empty()
    } else {
        hex_of(s.drop_last()).push(hex_char(s.last() as int / 16)).push(
            hex_char(s.last() as int % 16),
        )
    }
}

/// Whether a character is a lowercase hexadecimal digit.
pub open spec fn is_lower_hex_char(c: char) -> bool {
    c == '0' || c == '1' || c == '2' || c == '3' || c == '4' || c == '5' || c == '6' || c == '7'
        || c == '8' || c == '9' || c == 'a' || c == 'b' || c == 'c' || c == 'd' || c == 'e'
        || c == 'f'
}

/// A hex rendering is twice as long as its input.
pub proof fn lemma_hex_of_len(s: Seq<u8>)
    ensures
        hex_of(s).len() == 2 * s.len(),
    decreases s.len(),
{
    if s.len() > 0 {
        lemma_hex_of_len(s.drop_last());
    }
}

/// Every character of a hex rendering is a lowercase hexadecimal digit.
pub proof fn lemma_hex_of_chars(s: Seq<u8>)
    ensures
        forall|i: int| 0 <= i < hex_of(s).len() ==> is_lower_hex_char(#[trigger] hex_of(s)[i]),
    decreases s.len(),
{
    if s.len() > 0 {
        lemma_hex_of_chars(s.drop_last());
        lemma_hex_of_len(s.drop_last());
    }
}

fn push_hex_digit(out: &mut String, n: u8)
    requires
        n < 16,
    ensures
        final(out)@ == old(out)@.push(hex_char(n as int)),
{
    match n {
        0 => {
            proof {
                reveal_strlit("0");
            }
            out.append("0");
            assert(out@ =~= old(out)@.push('0'));
        },
        1 => {
            proof {
                reveal_strlit("1");
            }
            out.append("1");
            assert(out@ =~= old(out)@.push('1'));
        },
        2 => {
            proof {
                reveal_strlit("2");
            }
            out.append("2");
            assert(out@ =~= old(out)@.push('2'));
        },
        3 => {
            proof {
                reveal_strlit("3");
            }
            out.append("3");
            assert(out@ =~= old(out)@.push('3'));
        },
        4 => {
            proof {
                reveal_strlit("4");
            }
            out.append("4");
            assert(out@ =~= old(out)@.push('4'));
        },
        5 => {
            proof {
                reveal_strlit("5");
            }
            out.append("5");
            assert(out@ =~= old(out)@.push('5'));
        },
        6 => {
            proof {
                reveal_strlit("6");
            }
            out.append("6");
            assert(out@ =~= old(out)@.push('6'));
        },
        7 => {
            proof {
                reveal_strlit("7");
            }
            out.append("7");
            assert(out@ =~= old(out)@.push('7'));
        },
        8 => {
            proof {
                reveal_strlit("8");
            }
            out.append("8");
            assert(out@ =~= old(out)@.push('8'));
        },
        9 => {
            proof {
                reveal_strlit("9");
            }
            out.append("9");
            assert(out@ =~= old(out)@.push('9'));
        },
        10 => {
            proof {
                reveal_strlit("a");
            }
            out.append("a");
            assert(out@ =~= old(out)@.push('a'));
        },
        11 => {
            proof {
                reveal_strlit("b");
            }
            out.append("b");
            assert(out@ =~= old(out)@.push('b'));
        },
        12 => {
            proof {
                reveal_strlit("c");
            }
            out.append("c");
            assert(out@ =~= old(out)@.push('c'));
        },
        13 => {
            proof {
                reveal_strlit("d");
            }
            out.append("d");
            assert(out@ =~= old(out)@.push('d'));
        },
        14 => {
            proof {
                reveal_strlit("e");
            }
            out.append("e");
            assert(out@ =~= old(out)@.push('e'));
        },
        _ => {
            proof {
                reveal_strlit("f");
            }
            out.append("f");
            assert(out@ =~= old(out)@.push('f'));
        },
    }
}

/// Renders a byte vector as lowercase hexadecimal, two digits per byte.
pub fn to_hex(bytes: &Vec<u8>) -> (r: String)
    ensures
        r@ == hex_of(bytes@),
{
    let mut out = String::new();
    let mut i: usize = 0;
    while i < bytes.len()
        invariant
            i <= bytes@.len(),
            out@ == hex_of(bytes@.take(i as int)),
        decreases bytes@.len() - i,
    {
        let b = bytes[i];
        push_hex_digit(&mut out, b / 16);
        push_hex_digit(&mut out, b % 16);
        proof {
            let t = bytes@.take(i + 1 as int);
            assert(t.drop_last() =~= bytes@.take(i as int));
            assert(t.last() == bytes@[i as int]);
        }
        i = i + 1;
    }
    proof {
        assert(bytes@.take(bytes@.len() as int) =~= bytes@);
    }
    out
}

} // verus!
