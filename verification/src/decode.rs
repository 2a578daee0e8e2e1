//! Decoding of the restricted `\uXXXX` unicode-escape text encoding.
//!
//! A backslash not followed by `u` passes through literally (together
//! with the following character); a lone trailing backslash is kept; a
//! backslash followed by `u` must be followed by exactly four hex
//! digits naming one UTF-16 code unit, which must not be a surrogate.
//! Truncated or malformed escapes are rejected.

use vstd::prelude::*;

use crate::errors::TransformError;
use crate::textio::char_from_code;
use crate::textio::push_char;

verus! {

/// Whether `c` is an ASCII hexadecimal digit.
pub open spec fn is_hex_digit(c: char) -> bool {
    ('0' <= c && c <= '9') || ('a' <= c && c <= 'f') || ('A' <= c && c <= 'F')
}

/// The numeric value of a hexadecimal digit.
pub open spec fn hex_val(c: char) -> int {
    if '0' <= c && c <= '9' {
        c as int - '0' as int
    } else if 'a' <= c && c <= 'f' {
        c as int - 'a' as int + 10
    } else {
        c as int - 'A' as int + 10
    }
}

/// The 16-bit code unit named by the four hex digits at `s[i..i+4]`.
pub open spec fn escape_code(s: Seq<char>, i: int) -> int {
    hex_val(s[i]) * 0x1000 + hex_val(s[i + 1]) * 0x100 + hex_val(s[i + 2]) * 0x10 + hex_val(
        s[i + 3],
    )
}

/// Whether `v` is a UTF-16 surrogate code unit, which a single escape
/// cannot represent.
pub open spec fn is_surrogate(v: int) -> bool {
    0xD800 <= v && v <= 0xDFFF
}

/// The decoding of `s`: `None` exactly when `s` holds a malformed,
/// truncated or surrogate escape.
pub open spec fn decode_spec(s: Seq<char>) -> Option<Seq<char>>
    decreases s.len(),
{
    if s.len() == 0 {
        Some(Seq::empty())
    } else if s[0] != '\\' {
        match decode_spec(s.skip(1)) {
            Some(t) => Some(seq![s[0]] + t),
            None => None,
        }
    } else if s.len() == 1 {
        Some(seq!['\\'])
    } else if s[1] != 'u' {
        match decode_spec(s.skip(2)) {
            Some(t) => Some(seq!['\\', s[1]] + t),
            None => None,
        }
    } else if s.len() < 6 {
        None
    } else if !(is_hex_digit(s[2]) && is_hex_digit(s[3]) && is_hex_digit(s[4]) && is_hex_digit(
        s[5],
    )) {
        None
    } else if is_surrogate(escape_code(s, 2)) {
        None
    } else {
        match decode_spec(s.skip(6)) {
            Some(t) => Some(seq![(escape_code(s, 2) as u32) as char] + t),
            None => None,
        }
    }
}

/// The continuation invariant of the decoding loop: whatever the tail
/// from `i` decodes to, the whole input decodes to `acc` followed by
/// it, and a failing tail fails the whole input.
spec fn decode_inv(whole: Seq<char>, i: int, acc: Seq<char>) -> bool {
    &&& 0 <= i <= whole.len()
    &&& forall|t: Seq<char>|
        decode_spec(whole.skip(i)) == Some(t) ==> decode_spec(whole) == Some(acc + t)
    &&& (decode_spec(whole.skip(i)) is None ==> decode_spec(whole) is None)
}

/// One step of the loop: consuming `k` characters at `i` that decode to
/// `emitted` carries the invariant from `i` to `i + k`.
proof fn lemma_decode_step(whole: Seq<char>, i: int, k: int, acc: Seq<char>, emitted: Seq<char>)
    requires
        decode_inv(whole, i, acc),
        0 < k,
        i + k <= whole.len(),
        forall|t: Seq<char>|
            decode_spec(whole.skip(i).skip(k)) == Some(t) ==> decode_spec(whole.skip(i)) == Some(
                emitted + t,
            ),
        decode_spec(whole.skip(i).skip(k)) is None ==> decode_spec(whole.skip(i)) is None,
    ensures
        decode_inv(whole, i + k, acc + emitted),
{
    assert(whole.skip(i + k) =~= whole.skip(i).skip(k));
    assert forall|t: Seq<char>| decode_spec(whole.skip(i + k)) == Some(t) implies decode_spec(
        whole,
    ) == Some((acc + emitted) + t) by {
        assert(decode_spec(whole.skip(i)) == Some(emitted + t));
        assert(decode_spec(whole) == Some(acc + (emitted + t)));
        assert(acc + (emitted + t) =~= (acc + emitted) + t);
    }
}

/// The numeric value of an ASCII hex digit, or `None` for any other
/// character.
fn hex_digit_value(c: char) -> (r: Option<u16>)
    ensures
        r is Some <==> is_hex_digit(c),
        r matches Some(v) ==> v == hex_val(c) && v < 16,
{
    if '0' <= c && c <= '9' {
        Some((c as u32 - '0' as u32) as u16)
    } else if 'a' <= c && c <= 'f' {
        Some((c as u32 - 'a' as u32 + 10) as u16)
    } else if 'A' <= c && c <= 'F' {
        Some((c as u32 - 'A' as u32 + 10) as u16)
    } else {
        None
    }
}

/// Decodes the escape encoding of `text`, left to right, exactly as
/// `decode_spec` describes; fails with `InvalidEscape` exactly when the
/// spec decodes to nothing.
pub fn decode_escapes(text: &Vec<char>) -> (r: Result<String, TransformError>)
    ensures
        r matches Ok(out) ==> decode_spec(text@) == Some(out@),
        r is Err <==> decode_spec(text@) is None,
        r matches Err(e) ==> e == TransformError::InvalidEscape,
{
    let n = text.len();
    let mut out = String::new();
    let mut i: usize = 0;
    proof {
        assert(text@.skip(0) =~= text@);
        assert forall|t: Seq<char>| decode_spec(text@.skip(0)) == Some(t) implies decode_spec(
            text@,
        ) == Some(out@ + t) by {
            assert(out@ + t =~= t);
        }
    }
    while i < n
        invariant
            n == text@.len(),
            decode_inv(text@, i as int, out@),
        decreases n - i,
    {
        let ghost acc = out@;
        let ghost rest = text@.skip(i as int);
        let c = text[i];
        proof {
            assert(rest.len() == n - i);
            assert(rest[0] == text@[i as int]);
        }
        if c != '\\' {
            push_char(&mut out, c);
            proof {
                lemma_decode_step(text@, i as int, 1, acc, seq![c]);
                assert(acc + seq![c] =~= out@);
            }
            i = i + 1;
        } else if i + 1 == n {
            push_char(&mut out, '\\');
            proof {
                assert(decode_spec(rest) == Some(seq!['\\']));
                assert(decode_spec(text@) == Some(acc + seq!['\\']));
                assert(acc + seq!['\\'] =~= out@);
            }
            i = i + 1;
            proof {
                assert(text@.skip(i as int) =~= Seq::<char>::empty());
                assert(decode_spec(text@.skip(i as int)) == Some(Seq::<char>::empty()));
                assert(out@ + Seq::<char>::empty() =~= out@);
                assert(decode_inv(text@, i as int, out@));
            }
        } else {
            let c1 = text[i + 1];
            proof {
                assert(rest[1] == text@[i as int + 1]);
            }
            if c1 != 'u' {
                push_char(&mut out, '\\');
                push_char(&mut out, c1);
                proof {
                    lemma_decode_step(text@, i as int, 2, acc, seq!['\\', c1]);
                    assert(acc + seq!['\\', c1] =~= out@);
                }
                i = i + 2;
            } else if n - i < 6 {
                proof {
                    assert(rest.len() < 6);
                    assert(decode_spec(rest) is None);
                }
                return Err(TransformError::InvalidEscape);
            } else {
                proof {
                    assert(rest.len() >= 6);
                    assert(rest[2] == text@[i as int + 2]);
                    assert(rest[3] == text@[i as int + 3]);
                    assert(rest[4] == text@[i as int + 4]);
                    assert(rest[5] == text@[i as int + 5]);
                }
                let d0 = hex_digit_value(text[i + 2]);
                let d1 = hex_digit_value(text[i + 3]);
                let d2 = hex_digit_value(text[i + 4]);
                let d3 = hex_digit_value(text[i + 5]);
                match (d0, d1, d2, d3) {
                    (Some(v0), Some(v1), Some(v2), Some(v3)) => {
                        let code: u16 = v0 * 0x1000 + v1 * 0x100 + v2 * 0x10 + v3;
                        proof {
                            assert(code == escape_code(rest, 2));
                        }
                        if 0xD800 <= code && code <= 0xDFFF {
                            proof {
                                assert(decode_spec(rest) is None);
                            }
                            return Err(TransformError::InvalidEscape);
                        } else {
                            let decoded = char_from_code(code);
                            push_char(&mut out, decoded);
                            proof {
                                lemma_decode_step(text@, i as int, 6, acc, seq![decoded]);
                                assert(acc + seq![decoded] =~= out@);
                            }
                            i = i + 6;
                        }
                    },
                    _ => {
                        proof {
                            assert(!(is_hex_digit(rest[2]) && is_hex_digit(rest[3]) && is_hex_digit(
                                rest[4],
                            ) && is_hex_digit(rest[5])));
                            assert(decode_spec(rest) is None);
                        }
                        return Err(TransformError::InvalidEscape);
                    },
                }
            }
        }
    }
    proof {
        assert(text@.skip(n as int) =~= Seq::<char>::empty());
        assert(decode_spec(text@) == Some(out@ + Seq::<char>::empty()));
        assert(out@ + Seq::<char>::empty() =~= out@);
    }
    Ok(out)
}

/// Text free of backslashes decodes to itself.
pub proof fn lemma_decode_plain_identity(s: Seq<char>)
    requires
        forall|i: int| 0 <= i < s.len() ==> s[i] != '\\',
    ensures
        decode_spec(s) == Some(s),
    decreases s.len(),
{
    if s.len() == 0 {
        assert(decode_spec(s) == Some(Seq::<char>::empty()));
        assert(Seq::<char>::empty() =~= s);
    } else {
        assert(s[0] != '\\');
        lemma_decode_plain_identity(s.skip(1));
        assert(decode_spec(s) == Some(seq![s[0]] + s.skip(1)));
        assert(seq![s[0]] + s.skip(1) =~= s);
    }
}

/// Round trip at the byte level: valid UTF-8 bytes whose text holds no
/// backslash decode to that same text, and re-encoding it as plain
/// UTF-8 reproduces the bytes exactly.
pub proof fn lemma_decode_reencode_identity(b: Seq<u8>)
    requires
        vstd::utf8::valid_utf8(b),
        forall|i: int|
            0 <= i < vstd::utf8::decode_utf8(b).len() ==> vstd::utf8::decode_utf8(b)[i] != '\\',
    ensures
        decode_spec(vstd::utf8::decode_utf8(b)) == Some(vstd::utf8::decode_utf8(b)),
        vstd::utf8::encode_utf8(vstd::utf8::decode_utf8(b)) == b,
{
    lemma_decode_plain_identity(vstd::utf8::decode_utf8(b));
    vstd::utf8::decode_utf8_encode_utf8(b);
}

} // verus!
