use vstd::prelude::*;
use vstd::string::StrSliceExecFns;

verus! {

/// String slice equality, by characters.
pub fn str_eq(a: &str, b: &str) -> (r: bool)
    ensures
        r == (a@ == b@),
{
    let an = a.unicode_len();
    let bn = b.unicode_len();
    if an != bn {
        return false;
    }
    for i in 0..an
        invariant
            an == a@.len(),
            an == b@.len(),
            forall|k: int| 0 <= k < i ==> a@[k] == b@[k],
    {
        if a.get_char(i) != b.get_char(i) {
            return false;
        }
    }
    proof {
        assert(a@ =~= b@);
    }
    true
}

/// Whether `p` is a prefix of `s`, by characters.
pub fn str_starts_with(s: &str, p: &str) -> (r: bool)
    ensures
        r == p@.is_prefix_of(s@),
{
    let sn = s.unicode_len();
    let pn = p.unicode_len();
    if pn > sn {
        return false;
    }
    for i in 0..pn
        invariant
            sn == s@.len(),
            pn == p@.len(),
            pn <= sn,
            forall|k: int| 0 <= k < i ==> s@[k] == p@[k],
    {
        if s.get_char(i) != p.get_char(i) {
            proof {
                if p@.is_prefix_of(s@) {
                    assert(p@[i as int] == s@.subrange(0, pn as int)[i as int]);
                }
            }
            return false;
        }
    }
    proof {
        assert(p@ =~= s@.subrange(0, pn as int));
    }
    true
}

/// The characters of a string slice, as a vector.
pub fn to_char_vec(s: &str) -> (r: Vec<char>)
    ensures
        r@ == s@,
{
    let n = s.unicode_len();
    let mut out: Vec<char> = Vec::new();
    for i in 0..n
        invariant
            n == s@.len(),
            out@ =~= s@.take(i as int),
    {
        out.push(s.get_char(i));
        assert(out@ =~= s@.take(i + 1));
    }
    assert(s@.take(n as int) =~= s@);
    out
}


/// The base64 alphabet character for a six-bit value.
pub open spec fn b64_char(n: u8) -> char
    recommends
        n < 64,
{
    if n < 26 {
        (65 + n) as char
    } else if n < 52 {
        (97 + (n - 26)) as char
    } else if n < 62 {
        (48 + (n - 52)) as char
    } else if n == 62 {
        '+'
    } else {
        '/'
    }
}

/// Standard base64 with padding, three input bytes to four output
/// characters.
pub open spec fn spec_base64(data: Seq<u8>) -> Seq<char>
    decreases data.len(),
{
    if data.len() == 0 {
        Seq::empty()
    } else if data.len() == 1 {
        seq![
            b64_char(data[0] >> 2),
            b64_char(((data[0] & 3) << 4) as u8),
            '=',
            '=',
        ]
    } else if data.len() == 2 {
        seq![
            b64_char(data[0] >> 2),
            b64_char((((data[0] & 3) << 4) | (data[1] >> 4)) as u8),
            b64_char(((data[1] & 15) << 2) as u8),
            '=',
        ]
    } else {
        seq![
            b64_char(data[0] >> 2),
            b64_char((((data[0] & 3) << 4) | (data[1] >> 4)) as u8),
            b64_char((((data[1] & 15) << 2) | (data[2] >> 6)) as u8),
            b64_char((data[2] & 63) as u8),
        ] + spec_base64(data.skip(3))
    }
}

/// The alphabet character of a six-bit value.
fn b64_char_exec(n: u8) -> (r: char)
    requires
        n < 64,
    ensures
        r == b64_char(n),
{
    if n < 26 {
        (65 + n) as char
    } else if n < 52 {
        (97 + (n - 26)) as char
    } else if n < 62 {
        (48 + (n - 52)) as char
    } else if n == 62 {
        '+'
    } else {
        '/'
    }
}

/// Encodes bytes as standard base64 with padding.
pub fn base64_encode(data: &Vec<u8>) -> (r: String)
    ensures
        r@ == spec_base64(data@),
{
    let n = data.len();
    let mut s = String::new();
    let mut i: usize = 0;
    proof {
        assert(data@.skip(0) =~= data@);
    }
    while i < n
        invariant
            n == data@.len(),
            i <= n,
            s@ + spec_base64(data@.skip(i as int)) =~= spec_base64(data@),
        decreases n - i,
    {
        let ghost rest = data@.skip(i as int);
        let ghost before = s@;
        let b0 = data[i];
        proof {
            assert(rest[0] == data@[i as int]);
            assert((b0 >> 2) < 64 && ((b0 & 3) << 4) < 64) by (bit_vector);
        }
        if n - i >= 3 {
            let b1 = data[i + 1];
            let b2 = data[i + 2];
            proof {
                assert(rest[1] == data@[i + 1]);
                assert(rest[2] == data@[i + 2]);
                assert((((b1 & 15) << 2) | (b2 >> 6)) < 64 && (b2 & 63) < 64 && (((b0 & 3) << 4) | (
                b1 >> 4)) < 64) by (bit_vector);
            }
            crate::digest::push_char(&mut s, b64_char_exec(b0 >> 2));
            crate::digest::push_char(&mut s, b64_char_exec(((b0 & 3) << 4) | (b1 >> 4)));
            crate::digest::push_char(&mut s, b64_char_exec(((b1 & 15) << 2) | (b2 >> 6)));
            crate::digest::push_char(&mut s, b64_char_exec(b2 & 63));
            proof {
                assert(rest.skip(3) =~= data@.skip(i + 3));
                assert(s@ =~= before + seq![
                    b64_char(rest[0] >> 2),
                    b64_char((((rest[0] & 3) << 4) | (rest[1] >> 4)) as u8),
                    b64_char((((rest[1] & 15) << 2) | (rest[2] >> 6)) as u8),
                    b64_char((rest[2] & 63) as u8),
                ]);
                assert(s@ + spec_base64(data@.skip(i + 3)) =~= spec_base64(data@));
            }
            i = i + 3;
        } else if n - i == 2 {
            let b1 = data[i + 1];
            proof {
                assert(rest[1] == data@[i + 1]);
                assert(rest.len() == 2);
                assert(((b1 & 15) << 2) < 64 && (((b0 & 3) << 4) | (b1 >> 4)) < 64) by (bit_vector);
            }
            crate::digest::push_char(&mut s, b64_char_exec(b0 >> 2));
            crate::digest::push_char(&mut s, b64_char_exec(((b0 & 3) << 4) | (b1 >> 4)));
            crate::digest::push_char(&mut s, b64_char_exec((b1 & 15) << 2));
            crate::digest::push_char(&mut s, '=');
            proof {
                assert(s@ =~= before + spec_base64(rest));
                assert(s@ + spec_base64(data@.skip(n as int)) =~= spec_base64(data@)) by {
                    assert(data@.skip(n as int) =~= Seq::<u8>::empty());
                }
            }
            i = n;
        } else {
            proof {
                assert(rest.len() == 1);
            }
            crate::digest::push_char(&mut s, b64_char_exec(b0 >> 2));
            crate::digest::push_char(&mut s, b64_char_exec((b0 & 3) << 4));
            crate::digest::push_char(&mut s, '=');
            crate::digest::push_char(&mut s, '=');
            proof {
                assert(s@ =~= before + spec_base64(rest));
                assert(s@ + spec_base64(data@.skip(n as int)) =~= spec_base64(data@)) by {
                    assert(data@.skip(n as int) =~= Seq::<u8>::empty());
                }
            }
            i = n;
        }
    }
    proof {
        assert(data@.skip(n as int) =~= Seq::<u8>::empty());
        assert(s@ + Seq::<char>::empty() =~= s@);
    }
    s
}

} // verus!
