//! Masking of secrets for display.
use vstd::prelude::*;
use vstd::utf8::encode_utf8;
use vstd::string::StringSliceAdditionalSpecFns;

verus! {

/// Whether `mask_token` can cut the token: short tokens are never cut; long
/// ones are cut after their 7th byte and before their last 6, which must be
/// character boundaries.
pub open spec fn maskable(token: Seq<char>) -> bool {
    let b = encode_utf8(token);
    b.len() <= 15 || (vstd::utf8::is_char_boundary(b, 7) && vstd::utf8::is_char_boundary(
        b,
        b.len() - 6,
    ))
}

/// Whether `r` is the masked form of `token`: one `'●'` per byte of a token
/// of at most 15 bytes, otherwise the token's first 7 bytes, `"..."` and its
/// last 6 bytes.
pub open spec fn masked_form(token: Seq<char>, r: Seq<char>) -> bool {
    let b = encode_utf8(token);
    if b.len() <= 15 {
        r == Seq::new(b.len(), |i: int| '●')
    } else {
        exists|first: Seq<char>, last: Seq<char>|
            encode_utf8(first) == b.take(7) && encode_utf8(last) == b.skip(b.len() - 6) && r
                == first + "..."@ + last
    }
}

/// Hides a token for display: one `'●'` per byte when it has at most 15
/// bytes, otherwise its first 7 bytes, `"..."` and its last 6 bytes.
pub fn mask_token(token: &str) -> (r: String)
    requires
        maskable(token@),
    ensures
        masked_form(token@, r@),
{
    let len = token.as_bytes().len();
    if len <= 15 {
        let mut v: Vec<char> = Vec::new();
        let mut i: usize = 0;
        while i < len
            invariant
                i <= len,
                v@ == Seq::new(i as nat, |j: int| '●'),
            decreases len - i,
        {
            v.push('●');
            i = i + 1;
            assert(v@ =~= Seq::new(i as nat, |j: int| '●'));
        }
        return crate::text::string_from_chars(v.as_slice());
    }
    let (first, _) = token.split_at(7);
    let (_, last) = token.split_at(len - 6);
    let mut v = crate::text::chars_of(first);
    let dots = crate::text::chars_of("...");
    crate::text::push_all(&mut v, dots.as_slice());
    let l = crate::text::chars_of(last);
    crate::text::push_all(&mut v, l.as_slice());
    let r = crate::text::string_from_chars(v.as_slice());
    proof {
        assert(first.spec_bytes() =~= token.spec_bytes().take(7));
        assert(last.spec_bytes() =~= token.spec_bytes().skip(len - 6));
        assert(encode_utf8(first@) == token.spec_bytes().take(7));
        assert(encode_utf8(last@) == token.spec_bytes().skip(token.spec_bytes().len() - 6));
        assert(r@ == first@ + "..."@ + last@);
        assert(masked_form(token@, r@));
    }
    r
}

/// Decides `maskable(token)`.
pub fn is_maskable(token: &str) -> (r: bool)
    ensures
        r == maskable(token@),
{
    let len = token.as_bytes().len();
    proof {
        assert(token.spec_bytes() == encode_utf8(token@));
    }
    len <= 15 || (token.is_char_boundary(7) && token.is_char_boundary(len - 6))
}

/// Law: the masked form of a token depends only on its length in bytes and,
/// when it is longer than 15 bytes, on its first 7 and last 6 bytes: tokens
/// that agree on those are masked alike.
pub proof fn law_mask_depends_on_ends(a: Seq<char>, b: Seq<char>, ra: Seq<char>, rb: Seq<char>)
    requires
        encode_utf8(a).len() == encode_utf8(b).len(),
        encode_utf8(a).len() <= 15 || (encode_utf8(a).take(7) == encode_utf8(b).take(7) && encode_utf8(
            a,
        ).skip(encode_utf8(a).len() - 6) == encode_utf8(b).skip(encode_utf8(b).len() - 6)),
        masked_form(a, ra),
        masked_form(b, rb),
    ensures
        ra == rb,
        encode_utf8(a).len() <= 15 ==> ra.len() == encode_utf8(a).len(),
{
    let ba = encode_utf8(a);
    if ba.len() > 15 {
        let (fa, la) = choose|first: Seq<char>, last: Seq<char>|
            encode_utf8(first) == ba.take(7) && encode_utf8(last) == ba.skip(ba.len() - 6) && ra
                == first + "..."@ + last;
        let bb = encode_utf8(b);
        let (fb, lb) = choose|first: Seq<char>, last: Seq<char>|
            encode_utf8(first) == bb.take(7) && encode_utf8(last) == bb.skip(bb.len() - 6) && rb
                == first + "..."@ + last;
        vstd::utf8::encode_utf8_decode_utf8(fa);
        vstd::utf8::encode_utf8_decode_utf8(fb);
        vstd::utf8::encode_utf8_decode_utf8(la);
        vstd::utf8::encode_utf8_decode_utf8(lb);
    }
}

} // verus!
