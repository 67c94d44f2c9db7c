//! Authentication helpers: the permission check on the identity provider's
//! permission bits, percent-encoding of redirect parameters, and the
//! decoder of the base64-carried state parameter.

use vstd::prelude::*;

use vstd::string::StrSliceExecFns;
use vstd::string::StringSliceAdditionalSpecFns;
use vstd::string::StringExecFns;
use vstd::utf8::decode_utf8;
use vstd::utf8::is_leading_byte_width_1;
use vstd::utf8::partial_valid_utf8;
use vstd::utf8::partial_valid_utf8_extend_ascii_block;
use vstd::utf8::valid_utf8;

verus! {

// ── Decimal permission strings ──────────────────────────────────────────────

/// True when every byte is an ASCII digit.
pub open spec fn all_digits(b: Seq<u8>) -> bool {
    forall|i: int| 0 <= i < b.len() ==> 48 <= #[trigger] b[i] <= 57
}

/// The number the digit string spells, most significant digit first.
pub open spec fn digits_val(b: Seq<u8>) -> int
    decreases b.len(),
{
    if b.len() == 0 {
        0
    } else {
        digits_val(b.drop_last()) * 10 + (b.last() - 48)
    }
}

/// A digit string spells a non-negative number.
proof fn lemma_digits_val_nonneg(b: Seq<u8>)
    requires
        all_digits(b),
    ensures
        digits_val(b) >= 0,
    decreases b.len(),
{
    if b.len() > 0 {
        lemma_digits_val_nonneg(b.drop_last());
    }
}

/// Extending a digit string never shrinks its value.
proof fn lemma_digits_prefix_le(b: Seq<u8>, i: int)
    requires
        all_digits(b),
        0 <= i <= b.len(),
    ensures
        digits_val(b.subrange(0, i)) <= digits_val(b),
    decreases b.len() - i,
{
    if i == b.len() {
        assert(b.subrange(0, i) =~= b);
    } else {
        lemma_digits_prefix_le(b, i + 1);
        let sub = b.subrange(0, i + 1);
        assert(sub.drop_last() =~= b.subrange(0, i));
        lemma_digits_val_nonneg(sub.drop_last());
        assert(digits_val(sub) == digits_val(b.subrange(0, i)) * 10 + (b[i] - 48));
    }
}

/// Parse a decimal `u64`. Fails exactly on the empty string, on any
/// non-digit byte, and on a value that does not fit.
#[verifier::loop_isolation(false)]
pub fn parse_u64(s: &str) -> (r: Option<u64>)
    ensures
        r is Some <==> (s.spec_bytes().len() > 0 && all_digits(s.spec_bytes()) && digits_val(
            s.spec_bytes(),
        ) <= u64::MAX),
        r is Some ==> r->0 == digits_val(s.spec_bytes()),
{
    let bytes = s.as_bytes_vec();
    let n = bytes.len();
    if n == 0 {
        return None;
    }
    let ghost full = s.spec_bytes();
    let mut acc: u64 = 0;
    let mut k: usize = 0;
    while k < n
        invariant
            k <= n,
            bytes@ == full,
            n == full.len(),
            all_digits(full.subrange(0, k as int)),
            acc == digits_val(full.subrange(0, k as int)),
        decreases n - k,
    {
        proof {
            let sub = full.subrange(0, k as int + 1);
            assert(sub.drop_last() =~= full.subrange(0, k as int));
            assert(sub.last() == full[k as int]);
        }
        let d = bytes[k];
        if d < 48 || d > 57 {
            return None;
        }
        let step = match acc.checked_mul(10) {
            Some(t) => t.checked_add((d - 48) as u64),
            None => None,
        };
        match step {
            Some(next) => {
                acc = next;
            },
            None => {
                proof {
                    if all_digits(full) {
                        lemma_digits_val_nonneg(full.subrange(0, k as int));
                        lemma_digits_prefix_le(full, k as int + 1);
                    }
                }
                return None;
            },
        }
        k = k + 1;
    }
    proof {
        assert(full.subrange(0, n as int) =~= full);
    }
    Some(acc)
}

/// True when the permission bits grant dashboard access: the string is a
/// decimal number and carries the administrator bit (0x8) or the
/// manage-guild bit (0x20).
pub open spec fn spec_has_guild_access(b: Seq<u8>) -> bool {
    if b.len() > 0 && all_digits(b) && digits_val(b) <= u64::MAX {
        let p = digits_val(b) as u64;
        (p & 0x8u64) != 0 || (p & 0x20u64) != 0
    } else {
        false
    }
}

/// Whether a permission string grants dashboard access: administrator
/// (0x8) or manage-guild (0x20). An unparsable string grants nothing.
pub fn has_guild_access(permissions: &str) -> (r: bool)
    ensures
        r == spec_has_guild_access(permissions.spec_bytes()),
{
    match parse_u64(permissions) {
        Some(p) => {
            proof {
                lemma_digits_val_nonneg(permissions.spec_bytes());
            }
            (p & 0x8) != 0 || (p & 0x20) != 0
        },
        None => false,
    }
}

// ── Percent-encoding ────────────────────────────────────────────────────────

/// Bytes that pass through percent-encoding unescaped.
pub open spec fn is_unreserved_byte(b: u8) -> bool {
    ||| 65 <= b <= 90
    ||| 97 <= b <= 122
    ||| 48 <= b <= 57
    ||| b == 45
    ||| b == 95
    ||| b == 46
    ||| b == 126
}

/// The upper-case hexadecimal digit of a value below 16.
pub open spec fn spec_hex_digit(n: u8) -> u8 {
    if n < 10 {
        (48 + n) as u8
    } else {
        (55 + n) as u8
    }
}

/// The percent-encoding of a byte string: unreserved bytes kept, every
/// other byte written as `%` and two upper-case hexadecimal digits.
pub open spec fn percent_encode(b: Seq<u8>) -> Seq<u8>
    decreases b.len(),
{
    if b.len() == 0 {
        Seq::empty()
    } else {
        let rest = percent_encode(b.drop_last());
        let c = b.last();
        if is_unreserved_byte(c) {
            rest.push(c)
        } else {
            rest + seq![37u8, spec_hex_digit(c >> 4u8), spec_hex_digit(c & 15u8)]
        }
    }
}

/// An all-ASCII byte string is valid UTF-8.
proof fn lemma_ascii_valid_utf8(b: Seq<u8>)
    requires
        forall|i: int| 0 <= i < b.len() ==> #[trigger] b[i] < 128,
    ensures
        valid_utf8(b),
{
    assert(b.subrange(0, 0) =~= Seq::<u8>::empty());
    assert(valid_utf8(b.subrange(0, 0)));
    assert(partial_valid_utf8(b, 0));
    assert forall|i: int| 0 <= 0 <= i < b.len() <= b.len() implies #[trigger] is_leading_byte_width_1(
        b[i],
    ) by {
        assert(b[i] < 128);
    }
    partial_valid_utf8_extend_ascii_block(b, 0, b.len() as int);
    assert(b.subrange(0, b.len() as int) =~= b);
}

/// Percent-encode a string for use in a URL: unreserved ASCII bytes stay,
/// every other byte of its UTF-8 form becomes `%` and two upper-case
/// hexadecimal digits.
#[verifier::loop_isolation(false)]
pub fn encode(input: &str) -> (r: String)
    ensures
        r@ == decode_utf8(percent_encode(input.spec_bytes())),
{
    let bytes = input.as_bytes_vec();
    let n = bytes.len();
    let ghost full = input.spec_bytes();
    let mut out: Vec<u8> = Vec::new();
    let mut k: usize = 0;
    while k < n
        invariant
            k <= n,
            bytes@ == full,
            n == full.len(),
            out@ == percent_encode(full.subrange(0, k as int)),
            forall|i: int| 0 <= i < out@.len() ==> #[trigger] out@[i] < 128,
        decreases n - k,
    {
        proof {
            let sub = full.subrange(0, k as int + 1);
            assert(sub.drop_last() =~= full.subrange(0, k as int));
            assert(sub.last() == full[k as int]);
        }
        let c = bytes[k];
        let unreserved = (c >= 65 && c <= 90) || (c >= 97 && c <= 122) || (c >= 48 && c <= 57) || c
            == 45 || c == 95 || c == 46 || c == 126;
        if unreserved {
            out.push(c);
        } else {
            out.push(37);
            proof {
                assert((c >> 4u8) < 16 && (c & 15u8) < 16) by (bit_vector);
            }
            let hi = c >> 4;
            let lo = c & 15;
            out.push(if hi < 10 {
                48 + hi
            } else {
                55 + hi
            });
            out.push(if lo < 10 {
                48 + lo
            } else {
                55 + lo
            });
            proof {
                assert(out@ =~= percent_encode(full.subrange(0, k as int)) + seq![
                    37u8,
                    spec_hex_digit(full[k as int] >> 4u8),
                    spec_hex_digit(full[k as int] & 15u8),
                ]);
            }
        }
        k = k + 1;
    }
    proof {
        assert(full.subrange(0, n as int) =~= full);
        lemma_ascii_valid_utf8(out@);
    }
    match bytes_to_string(out) {
        Some(s) => s,
        None => {
            proof {
                assert(false);
            }
            String::new()
        },
    }
}

/// Relies on String::from_utf8: it succeeds exactly on valid UTF-8 and the
/// resulting string spells the decoded characters of those bytes.
#[verifier::external_body]
fn bytes_to_string(bytes: Vec<u8>) -> (r: Option<String>)
    ensures
        r is Some <==> valid_utf8(bytes@),
        r is Some ==> r->0@ == decode_utf8(bytes@),
{
    String::from_utf8(bytes).ok()
}

// ── Base64 state parameter ──────────────────────────────────────────────────

/// The value of one base64 alphabet byte, or -1 for a byte outside the
/// alphabet.
pub open spec fn b64_val(c: u8) -> int {
    if 65 <= c <= 90 {
        c - 65
    } else if 97 <= c <= 122 {
        c - 71
    } else if 48 <= c <= 57 {
        c + 4
    } else if c == 43 {
        62
    } else if c == 47 {
        63
    } else {
        -1
    }
}

/// The input without its trailing padding bytes.
pub open spec fn trim_eq(b: Seq<u8>) -> Seq<u8>
    decreases b.len(),
{
    if b.len() > 0 && b.last() == 61 {
        trim_eq(b.drop_last())
    } else {
        b
    }
}

/// The decoder's walk over the trimmed input: six bits are shifted into a
/// buffer for each alphabet byte and a byte is emitted whenever eight have
/// accumulated; `None` once a byte outside the alphabet is seen.
pub open spec fn b64_state(b: Seq<u8>) -> Option<(u32, u32, Seq<u8>)>
    decreases b.len(),
{
    if b.len() == 0 {
        Some((0u32, 0u32, Seq::empty()))
    } else {
        match b64_state(b.drop_last()) {
            None => None,
            Some(st) => {
                if b64_val(b.last()) < 0 {
                    None
                } else {
                    let buf = (st.0 << 6u32) | (b64_val(b.last()) as u32);
                    let bits = (st.1 + 6) as u32;
                    if bits >= 8 {
                        let rem = (bits - 8) as u32;
                        let emitted = (buf >> rem) as u8;
                        Some(((buf & (((1u32 << rem) - 1) as u32)), rem, st.2.push(emitted)))
                    } else {
                        Some((buf, bits, st.2))
                    }
                }
            },
        }
    }
}

/// Once a prefix of the input has refused, the whole input refuses.
proof fn lemma_b64_none_absorbs(b: Seq<u8>, i: int)
    requires
        0 <= i <= b.len(),
        b64_state(b.subrange(0, i)) is None,
    ensures
        b64_state(b) is None,
    decreases b.len() - i,
{
    if i == b.len() {
        assert(b.subrange(0, i) =~= b);
    } else {
        let sub = b.subrange(0, i + 1);
        assert(sub.drop_last() =~= b.subrange(0, i));
        lemma_b64_none_absorbs(b, i + 1);
    }
}

/// Decode the base64-carried state parameter: strip trailing padding, map
/// each alphabet byte to six bits, and read the emitted bytes as UTF-8.
/// Fails exactly on a byte outside the alphabet and on emitted bytes that
/// are not valid UTF-8.
#[verifier::loop_isolation(false)]
pub fn base64_decode(data: &str) -> (r: Result<String, String>)
    ensures
        ({
            let t = trim_eq(data.spec_bytes());
            &&& b64_state(t) is None ==> r is Err && r->Err_0@ == "Invalid base64"@
            &&& b64_state(t) is Some ==> {
                let out = (b64_state(t)->0).2;
                &&& !valid_utf8(out) ==> r is Err && r->Err_0@ == "Invalid UTF-8"@
                &&& valid_utf8(out) ==> r is Ok && r->Ok_0@ == decode_utf8(out)
            }
        }),
{
    let bytes = data.as_bytes_vec();
    let ghost full = data.spec_bytes();
    let mut end: usize = bytes.len();
    proof {
        assert(full.subrange(0, full.len() as int) =~= full);
    }
    while end > 0 && bytes[end - 1] == 61
        invariant
            end <= full.len(),
            bytes@ == full,
            trim_eq(full) == trim_eq(full.subrange(0, end as int)),
        decreases end,
    {
        proof {
            let sub = full.subrange(0, end as int);
            assert(sub.drop_last() =~= full.subrange(0, end as int - 1));
            assert(sub.last() == full[end as int - 1]);
        }
        end = end - 1;
    }
    proof {
        if end > 0 {
            assert(full.subrange(0, end as int).last() == full[end as int - 1]);
        }
        assert(trim_eq(full.subrange(0, end as int)) == full.subrange(0, end as int));
    }
    let ghost t = trim_eq(full);
    let mut buf: u32 = 0;
    let mut bits: u32 = 0;
    let mut out: Vec<u8> = Vec::new();
    let mut k: usize = 0;
    while k < end
        invariant
            k <= end,
            end <= full.len(),
            bytes@ == full,
            t == full.subrange(0, end as int),
            b64_state(full.subrange(0, k as int)) == Some((buf, bits, out@)),
            bits <= 7,
        decreases end - k,
    {
        proof {
            let sub = full.subrange(0, k as int + 1);
            assert(sub.drop_last() =~= full.subrange(0, k as int));
            assert(sub.last() == full[k as int]);
        }
        let c = bytes[k];
        let valid = (c >= 65 && c <= 90) || (c >= 97 && c <= 122) || (c >= 48 && c <= 57) || c == 43
            || c == 47;
        if !valid {
            proof {
                assert(t.subrange(0, k as int + 1) =~= full.subrange(0, k as int + 1));
                lemma_b64_none_absorbs(t, k as int + 1);
            }
            return Err(String::from_str("Invalid base64"));
        }
        let v: u32 = if c >= 65 && c <= 90 {
            (c - 65) as u32
        } else if c >= 97 && c <= 122 {
            (c - 71) as u32
        } else if c >= 48 && c <= 57 {
            (c + 4) as u32
        } else if c == 43 {
            62
        } else {
            63
        };
        buf = (buf << 6) | v;
        bits = bits + 6;
        if bits >= 8 {
            bits = bits - 8;
            out.push(#[verifier::truncate] ((buf >> bits) as u8));
            proof {
                assert((1u32 << bits) >= 1) by (bit_vector)
                    requires
                        bits <= 7u32,
                ;
            }
            buf = buf & ((1u32 << bits) - 1);
        }
        k = k + 1;
    }
    proof {
        assert(full.subrange(0, end as int) =~= t);
    }
    match bytes_to_string(out) {
        Some(s) => Ok(s),
        None => Err(String::from_str("Invalid UTF-8")),
    }
}

} // verus!
