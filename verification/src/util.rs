//! Small text helpers: hexadecimal previews of byte buffers and a
//! readable rendering of the container header's flag bits.

use vstd::prelude::*;
use vstd::string::StringExecFns;

verus! {

/// The lower-case hexadecimal digit for a value below 16.
pub open spec fn hex_digit(n: u8) -> char
    recommends
        n < 16,
{
    if n == 0 {
        '0'
    } else if n == 1 {
        '1'
    } else if n == 2 {
        '2'
    } else if n == 3 {
        '3'
    } else if n == 4 {
        '4'
    } else if n == 5 {
        '5'
    } else if n == 6 {
        '6'
    } else if n == 7 {
        '7'
    } else if n == 8 {
        '8'
    } else if n == 9 {
        '9'
    } else if n == 10 {
        'a'
    } else if n == 11 {
        'b'
    } else if n == 12 {
        'c'
    } else if n == 13 {
        'd'
    } else if n == 14 {
        'e'
    } else {
        'f'
    }
}

/// Two hexadecimal digits for one byte.
pub open spec fn hex_byte(b: u8) -> Seq<char> {
    seq![hex_digit(b / 16), hex_digit(b % 16)]
}

/// The bytes of `data`, two digits each, joined with single spaces.
pub open spec fn hex_join(data: Seq<u8>) -> Seq<char>
    decreases data.len(),
{
    if data.len() == 0 {
        Seq::empty()
    } else if data.len() == 1 {
        hex_byte(data[0])
    } else {
        hex_byte(data[0]) + seq![' '] + hex_join(data.drop_first())
    }
}

/// What a preview of `data` capped at `max` bytes reads.
pub open spec fn spec_hex_preview(data: Seq<u8>, max: int) -> Seq<char> {
    if data.len() <= max {
        hex_join(data)
    } else {
        hex_join(data.take(max))
    }
}

/// Appending one byte to a joined rendering.
proof fn lemma_hex_join_snoc(data: Seq<u8>, b: u8)
    ensures
        hex_join(data.push(b)) == if data.len() == 0 {
            hex_byte(b)
        } else {
            hex_join(data) + seq![' '] + hex_byte(b)
        },
    decreases data.len(),
{
    if data.len() == 0 {
        assert(data.push(b)[0] == b);
        assert(data.push(b).len() == 1);
    } else {
        assert(data.push(b)[0] == data[0]);
        assert(data.push(b).drop_first() =~= data.drop_first().push(b));
        lemma_hex_join_snoc(data.drop_first(), b);
        if data.len() == 1 {
            assert(data.drop_first().len() == 0);
            assert(hex_join(data.drop_first().push(b)) == hex_byte(b));
            assert(hex_join(data) == hex_byte(data[0]));
        } else {
            assert(hex_byte(data[0]) + seq![' '] + (hex_join(data.drop_first()) + seq![' ']
                + hex_byte(b)) =~= (hex_byte(data[0]) + seq![' '] + hex_join(data.drop_first()))
                + seq![' '] + hex_byte(b));
        }
    }
}

/// Appends the lower-case hexadecimal digit of a value below 16.
pub fn push_hex_digit(out: &mut String, n: u8)
    requires
        n < 16,
    ensures
        final(out)@ == old(out)@ + seq![hex_digit(n)],
{
    proof {
        reveal_strlit("0");
        reveal_strlit("1");
        reveal_strlit("2");
        reveal_strlit("3");
        reveal_strlit("4");
        reveal_strlit("5");
        reveal_strlit("6");
        reveal_strlit("7");
        reveal_strlit("8");
        reveal_strlit("9");
        reveal_strlit("a");
        reveal_strlit("b");
        reveal_strlit("c");
        reveal_strlit("d");
        reveal_strlit("e");
        reveal_strlit("f");
    }
    match n {
        0u8 => out.append("0"),
        1u8 => out.append("1"),
        2u8 => out.append("2"),
        3u8 => out.append("3"),
        4u8 => out.append("4"),
        5u8 => out.append("5"),
        6u8 => out.append("6"),
        7u8 => out.append("7"),
        8u8 => out.append("8"),
        9u8 => out.append("9"),
        10u8 => out.append("a"),
        11u8 => out.append("b"),
        12u8 => out.append("c"),
        13u8 => out.append("d"),
        14u8 => out.append("e"),
        _ => out.append("f"),
    }
    proof {
        assert(final(out)@ =~= old(out)@ + seq![hex_digit(n)]);
    }
}

/// Renders the first `max` bytes of `data` in hexadecimal, two digits
/// a byte, separated by spaces: the preview the server logs.
pub fn hex_preview(data: &[u8], max: usize) -> (r: String)
    ensures
        r@ == spec_hex_preview(data@, max as int),
{
    let n = if data.len() <= max {
        data.len()
    } else {
        max
    };
    let ghost shown = if data@.len() <= max as int {
        data@
    } else {
        data@.take(max as int)
    };
    proof {
        assert(shown =~= data@.take(n as int));
    }
    let mut out = String::new();
    let mut i: usize = 0;
    while i < n
        invariant
            n <= data@.len(),
            i <= n,
            out@ == hex_join(data@.take(n as int).take(i as int)),
        decreases n - i,
    {
        let b = data[i];
        if i > 0 {
            proof {
                reveal_strlit(" ");
            }
            out.append(" ");
        }
        push_hex_digit(&mut out, b / 16);
        push_hex_digit(&mut out, b % 16);
        proof {
            let pref = data@.take(n as int).take(i as int);
            lemma_hex_join_snoc(pref, b);
            assert(data@.take(n as int).take(i as int + 1) =~= pref.push(b));
            if i > 0 {
                assert(out@ =~= hex_join(pref) + seq![' '] + hex_byte(b));
            } else {
                assert(pref.len() == 0);
                assert(out@ =~= hex_byte(b));
            }
        }
        i = i + 1;
    }
    proof {
        assert(data@.take(n as int).take(n as int) =~= data@.take(n as int));
    }
    out
}

/// Whether `data` opens with `prefix`, byte for byte.
pub fn starts_with_bytes(data: &[u8], prefix: &[u8]) -> (r: bool)
    ensures
        r == (prefix@.len() <= data@.len() && data@.take(prefix@.len() as int) == prefix@),
{
    if data.len() < prefix.len() {
        proof {
            assert(prefix@.len() > data@.len());
        }
        return false;
    }
    let n = prefix.len();
    let mut i: usize = 0;
    while i < n
        invariant
            n == prefix@.len(),
            n <= data@.len(),
            i <= n,
            forall|j: int| 0 <= j < i ==> data@[j] == prefix@[j],
        decreases n - i,
    {
        if data[i] != prefix[i] {
            proof {
                assert(data@.take(n as int)[i as int] != prefix@[i as int]);
            }
            return false;
        }
        i = i + 1;
    }
    proof {
        assert(data@.take(n as int) =~= prefix@);
    }
    true
}

/// What the flag rendering reads: audio, reserved and video bits as
/// `A`, `R`, `V`, a dash for each bit that is clear.
pub open spec fn spec_flag_bits(b: u8) -> Seq<char> {
    seq![
        if b & 0x01 != 0 {
            'A'
        } else {
            '-'
        },
        if b & 0x02 != 0 {
            'R'
        } else {
            '-'
        },
        if b & 0x04 != 0 {
            'V'
        } else {
            '-'
        },
    ]
}

/// Renders a container header's flags byte as three characters:
/// audio, reserved, video.
pub fn flag_bits(b: u8) -> (r: String)
    ensures
        r@ == spec_flag_bits(b),
{
    proof {
        reveal_strlit("A");
        reveal_strlit("R");
        reveal_strlit("V");
        reveal_strlit("-");
    }
    let mut out = String::new();
    if b & 0x01 != 0 {
        out.append("A");
    } else {
        out.append("-");
    }
    if b & 0x02 != 0 {
        out.append("R");
    } else {
        out.append("-");
    }
    if b & 0x04 != 0 {
        out.append("V");
    } else {
        out.append("-");
    }
    proof {
        assert(out@ =~= spec_flag_bits(b));
    }
    out
}

} // verus!
