//! Percent decoding (`application/x-www-form-urlencoded` style) and URL
//! absolutization.
//!
//! `url_decode_strict` rejects malformed `%` escapes and invalid UTF-8;
//! `url_decode` falls back to a forgiving decode that keeps a stray `%`
//! as-is and replaces invalid UTF-8 lossily.  `url_normalize` absolutizes
//! an `href` against a base origin.

use vstd::prelude::*;
use vstd::utf8::{valid_utf8, decode_utf8};
use vstd::string::StringSliceAdditionalSpecFns;
use vstd::string::StringExecFns;
use vstd::string::StrSliceExecFns;

verus! {

/// Value of an ASCII hex digit, `None` for any other byte.
pub open spec fn spec_hex_val(b: u8) -> Option<u8> {
    if 0x30u8 <= b && b <= 0x39u8 {
        Some((b - 0x30u8) as u8)
    } else if 0x61u8 <= b && b <= 0x66u8 {
        Some((b - 0x61u8 + 10) as u8)
    } else if 0x41u8 <= b && b <= 0x46u8 {
        Some((b - 0x41u8 + 10) as u8)
    } else {
        None
    }
}

/// Hex digit decoder used by the percent decoders.
pub fn from_hex(b: u8) -> (r: Option<u8>)
    ensures
        r == spec_hex_val(b),
{
    if 0x30u8 <= b && b <= 0x39u8 {
        Some(b - 0x30u8)
    } else if 0x61u8 <= b && b <= 0x66u8 {
        Some(b - 0x61u8 + 10)
    } else if 0x41u8 <= b && b <= 0x46u8 {
        Some(b - 0x41u8 + 10)
    } else {
        None
    }
}

/// Strict percent decode of the byte tail starting at `i`: `+` becomes a
/// space, `%HH` becomes the byte it names, and a malformed escape makes the
/// whole decode fail.
pub open spec fn strict_from(s: Seq<u8>, i: int) -> Option<Seq<u8>>
    decreases s.len() - i,
{
    if i < 0 || i >= s.len() {
        Some(Seq::empty())
    } else if s[i] == 0x2Bu8 {
        match strict_from(s, i + 1) {
            Some(t) => Some(seq![0x20u8] + t),
            None => None,
        }
    } else if s[i] == 0x25u8 {
        if i + 2 >= s.len() {
            None
        } else {
            match (spec_hex_val(s[i + 1]), spec_hex_val(s[i + 2])) {
                (Some(hi), Some(lo)) => match strict_from(s, i + 3) {
                    Some(t) => Some(seq![(hi * 16 + lo) as u8] + t),
                    None => None,
                },
                _ => None,
            }
        }
    } else {
        match strict_from(s, i + 1) {
            Some(t) => Some(seq![s[i]] + t),
            None => None,
        }
    }
}

/// Strict percent decode of a whole byte string.
pub open spec fn strict_decoded(s: Seq<u8>) -> Option<Seq<u8>> {
    strict_from(s, 0)
}

/// Forgiving percent decode of the byte tail starting at `i`: a malformed
/// escape keeps its `%` byte as-is instead of failing.
pub open spec fn lossy_from(s: Seq<u8>, i: int) -> Seq<u8>
    decreases s.len() - i,
{
    if i < 0 || i >= s.len() {
        Seq::empty()
    } else if s[i] == 0x2Bu8 {
        seq![0x20u8] + lossy_from(s, i + 1)
    } else if s[i] == 0x25u8 {
        if i + 2 < s.len() && spec_hex_val(s[i + 1]) is Some && spec_hex_val(s[i + 2]) is Some {
            seq![(spec_hex_val(s[i + 1])->0 * 16 + spec_hex_val(s[i + 2])->0) as u8]
                + lossy_from(s, i + 3)
        } else {
            seq![0x25u8] + lossy_from(s, i + 1)
        }
    } else {
        seq![s[i]] + lossy_from(s, i + 1)
    }
}

/// Forgiving percent decode of a whole byte string.
pub open spec fn lossy_decoded(s: Seq<u8>) -> Seq<u8> {
    lossy_from(s, 0)
}

/// What `String::from_utf8_lossy` makes of a byte string: invalid UTF-8
/// sequences are replaced with U+FFFD.  The exact replacement policy is the
/// standard library's; only its behaviour on valid UTF-8 is stated below.
pub uninterp spec fn lossy_utf8_chars(bytes: Seq<u8>) -> Seq<char>;

/// Relies on `String::from_utf8`: returns the decoded string exactly when
/// the bytes are valid UTF-8.
#[verifier::external_body]
fn bytes_to_string(v: Vec<u8>) -> (r: Option<String>)
    ensures
        r is Some <==> valid_utf8(v@),
        r is Some ==> r->0@ == decode_utf8(v@),
{
    match String::from_utf8(v) {
        Ok(s) => Some(s),
        Err(_) => None,
    }
}

/// Relies on `String::from_utf8_lossy`: valid UTF-8 comes back unchanged,
/// invalid sequences are replaced with U+FFFD; the result depends on the
/// bytes alone.
#[verifier::external_body]
fn bytes_to_string_lossy(v: &Vec<u8>) -> (r: String)
    ensures
        r@ == lossy_utf8_chars(v@),
        valid_utf8(v@) ==> r@ == decode_utf8(v@),
{
    String::from_utf8_lossy(v.as_slice()).into_owned()
}

/// View of decoded bytes as a string, lossily where they are not UTF-8.
pub open spec fn spec_lossy_view(d: Seq<u8>) -> Seq<char> {
    if valid_utf8(d) {
        decode_utf8(d)
    } else {
        lossy_utf8_chars(d)
    }
}

/// The characters `url_decode` owes for the given input bytes.
pub open spec fn spec_url_decode(s: Seq<u8>) -> Seq<char> {
    match strict_decoded(s) {
        Some(d) => if valid_utf8(d) {
            decode_utf8(d)
        } else {
            spec_lossy_view(lossy_decoded(s))
        },
        None => spec_lossy_view(lossy_decoded(s)),
    }
}

/// Byte-level strict decoding loop shared by both decoders.
fn strict_decode_bytes(bytes: &[u8]) -> (r: Option<Vec<u8>>)
    ensures
        r is Some <==> strict_decoded(bytes@) is Some,
        r is Some ==> Some(r->0@) == strict_decoded(bytes@),
{
    let n: usize = bytes.len();
    let mut out: Vec<u8> = Vec::new();
    let mut i: usize = 0;
    while i < n
        invariant
            n == bytes@.len(),
            i <= n,
            match strict_from(bytes@, i as int) {
                Some(t) => strict_from(bytes@, 0) == Some(out@ + t),
                None => strict_from(bytes@, 0) is None,
            },
        decreases n - i,
    {
        let ghost out0 = out@;
        let ghost i0 = i as int;
        let b = bytes[i];
        if b == 0x2Bu8 {
            out.push(0x20u8);
            i = i + 1;
        } else if b == 0x25u8 {
            if n - i < 3 {
                assert(strict_from(bytes@, i0) is None);
                return None;
            }
            let hi = from_hex(bytes[i + 1]);
            let lo = from_hex(bytes[i + 2]);
            match (hi, lo) {
                (Some(h), Some(l)) => {
                    out.push(h * 16 + l);
                    i = i + 3;
                },
                _ => {
                    assert(strict_from(bytes@, i0) is None);
                    return None;
                },
            }
        } else {
            out.push(b);
            i = i + 1;
        }
        proof {
            if strict_from(bytes@, i as int) is Some {
                let t2 = strict_from(bytes@, i as int)->0;
                assert(out@ + t2 =~= out0 + (seq![out@[out0.len() as int]] + t2));
            }
        }
    }
    assert(strict_from(bytes@, n as int) == Some(Seq::<u8>::empty()));
    assert(out@ + Seq::<u8>::empty() =~= out@);
    Some(out)
}

/// Byte-level forgiving decoding loop.
fn lossy_decode_bytes(bytes: &[u8]) -> (r: Vec<u8>)
    ensures
        r@ == lossy_decoded(bytes@),
{
    let n: usize = bytes.len();
    let mut out: Vec<u8> = Vec::new();
    let mut i: usize = 0;
    while i < n
        invariant
            n == bytes@.len(),
            i <= n,
            lossy_from(bytes@, 0) == out@ + lossy_from(bytes@, i as int),
        decreases n - i,
    {
        let ghost out0 = out@;
        let ghost i0 = i as int;
        let b = bytes[i];
        if b == 0x2Bu8 {
            out.push(0x20u8);
            i = i + 1;
        } else if b == 0x25u8 {
            if n - i >= 3 {
                let hi = from_hex(bytes[i + 1]);
                let lo = from_hex(bytes[i + 2]);
                match (hi, lo) {
                    (Some(h), Some(l)) => {
                        out.push(h * 16 + l);
                        i = i + 3;
                    },
                    _ => {
                        out.push(0x25u8);
                        i = i + 1;
                    },
                }
            } else {
                out.push(0x25u8);
                i = i + 1;
            }
        } else {
            out.push(b);
            i = i + 1;
        }
        proof {
            assert(out@ + lossy_from(bytes@, i as int)
                =~= out0 + (seq![out@[out0.len() as int]] + lossy_from(bytes@, i as int)));
        }
    }
    proof {
        assert(out@ + lossy_from(bytes@, n as int) =~= out@);
    }
    out
}

/// Strict decoder: `Ok` exactly when every `%` escape is well formed and the
/// decoded bytes are valid UTF-8; `Err` carries a diagnostic message.
pub fn url_decode_strict(input: &str) -> (r: Result<String, String>)
    ensures
        r is Ok <==> (strict_decoded(input.spec_bytes()) is Some
            && valid_utf8(strict_decoded(input.spec_bytes())->0)),
        r is Ok ==> r->Ok_0@ == decode_utf8(strict_decoded(input.spec_bytes())->0),
        strict_decoded(input.spec_bytes()) is None ==> (r matches Err(m)
            && m@ == "malformed percent-escape"@),
        (strict_decoded(input.spec_bytes()) matches Some(d) && !valid_utf8(d)) ==> (r matches Err(m)
            && m@ == "invalid utf8 after decoding"@),
{
    let bytes = input.as_bytes();
    match strict_decode_bytes(bytes) {
        Some(decoded) => match bytes_to_string(decoded) {
            Some(s) => Ok(s),
            None => Err(String::from_str("invalid utf8 after decoding")),
        },
        None => Err(String::from_str("malformed percent-escape")),
    }
}

/// Forgiving decoder: strict when possible, otherwise the fallback that
/// keeps a stray `%` and replaces invalid UTF-8 lossily.
pub fn url_decode(input: &str) -> (r: String)
    ensures
        r@ == spec_url_decode(input.spec_bytes()),
{
    let bytes = input.as_bytes();
    let strict_ok = match strict_decode_bytes(bytes) {
        Some(decoded) => bytes_to_string(decoded),
        None => None,
    };
    match strict_ok {
        Some(s) => s,
        None => {
            let decoded = lossy_decode_bytes(bytes);
            bytes_to_string_lossy(&decoded)
        },
    }
}

/// Whether `s` begins with `p`.
pub open spec fn spec_starts_with(s: Seq<char>, p: Seq<char>) -> bool {
    p.len() <= s.len() && s.subrange(0, p.len() as int) == p
}

/// Prefix test on strings, character by character.
pub fn str_has_prefix(s: &str, p: &str) -> (r: bool)
    ensures
        r == spec_starts_with(s@, p@),
{
    let slen: usize = s.unicode_len();
    let plen: usize = p.unicode_len();
    if plen > slen {
        return false;
    }
    let mut i: usize = 0;
    while i < plen
        invariant
            plen <= slen,
            slen == s@.len(),
            plen == p@.len(),
            i <= plen,
            forall|j: int| 0 <= j < i ==> s@[j] == p@[j],
        decreases plen - i,
    {
        if s.get_char(i) != p.get_char(i) {
            assert(s@.subrange(0, plen as int) != p@) by {
                assert(s@.subrange(0, plen as int)[i as int] != p@[i as int]);
            }
            return false;
        }
        i = i + 1;
    }
    assert(s@.subrange(0, plen as int) =~= p@);
    true
}

/// `s` without its trailing `/` characters.
pub open spec fn trim_end_slashes(s: Seq<char>) -> Seq<char>
    decreases s.len(),
{
    if s.len() > 0 && s[s.len() - 1] == '/' {
        trim_end_slashes(s.drop_last())
    } else {
        s
    }
}

/// `s` without its leading `/` characters.
pub open spec fn trim_start_slashes(s: Seq<char>) -> Seq<char>
    decreases s.len(),
{
    if s.len() > 0 && s[0] == '/' {
        trim_start_slashes(s.drop_first())
    } else {
        s
    }
}

/// The string `url_normalize` owes: an absolute `href` passes through
/// unchanged; a root-relative or relative one is joined to the base with a
/// single `/` between them.
pub open spec fn spec_url_normalize(base: Seq<char>, href: Seq<char>) -> Seq<char> {
    if spec_starts_with(href, "http://"@) || spec_starts_with(href, "https://"@) {
        href
    } else if href.len() > 0 && href[0] == '/' {
        trim_end_slashes(base) + seq!['/'] + trim_start_slashes(href)
    } else {
        trim_end_slashes(base) + seq!['/'] + href
    }
}

/// Absolutizes `href` against `base_url`.  Absolutizing an already-absolute
/// URL is a no-op; that is the first `ensures` clause.
pub fn url_normalize(base_url: &str, href: &str) -> (r: String)
    ensures
        r@ == spec_url_normalize(base_url@, href@),
        (spec_starts_with(href@, "http://"@) || spec_starts_with(href@, "https://"@))
            ==> r@ == href@,
{
    if str_has_prefix(href, "http://") || str_has_prefix(href, "https://") {
        return String::from_str(href);
    }
    let blen: usize = base_url.unicode_len();
    let mut e: usize = blen;
    proof {
        assert(base_url@.subrange(0, blen as int) =~= base_url@);
    }
    while e > 0 && base_url.get_char(e - 1) == '/'
        invariant
            blen == base_url@.len(),
            e <= blen,
            trim_end_slashes(base_url@) == trim_end_slashes(base_url@.subrange(0, e as int)),
        decreases e,
    {
        proof {
            assert(base_url@.subrange(0, e as int).drop_last()
                =~= base_url@.subrange(0, e as int - 1));
        }
        e = e - 1;
    }
    proof {
        assert(trim_end_slashes(base_url@) == base_url@.subrange(0, e as int));
    }
    let mut out = String::from_str(base_url.substring_char(0, e));
    out.append("/");
    let hlen: usize = href.unicode_len();
    if hlen > 0 && href.get_char(0) == '/' {
        let mut k: usize = 0;
        proof {
            assert(href@.subrange(0, hlen as int) =~= href@);
        }
        while k < hlen && href.get_char(k) == '/'
            invariant
                hlen == href@.len(),
                k <= hlen,
                trim_start_slashes(href@) == trim_start_slashes(href@.subrange(k as int, hlen as int)),
            decreases hlen - k,
        {
            proof {
                assert(href@.subrange(k as int, hlen as int).drop_first()
                    =~= href@.subrange(k as int + 1, hlen as int));
            }
            k = k + 1;
        }
        proof {
            assert(trim_start_slashes(href@) == href@.subrange(k as int, hlen as int));
        }
        out.append(href.substring_char(k, hlen));
        proof {
            reveal_strlit("/");
            assert(out@ =~= trim_end_slashes(base_url@) + seq!['/'] + trim_start_slashes(href@));
        }
        out
    } else {
        out.append(href);
        proof {
            reveal_strlit("/");
            assert(out@ =~= trim_end_slashes(base_url@) + seq!['/'] + href@);
        }
        out
    }
}

/// Index just past the scheme-and-host part of `url`: the position of the
/// third `/`, or the whole length when there is no third `/`.  `seen`
/// counts the `/` characters already passed.
pub open spec fn origin_len_from(s: Seq<char>, i: int, seen: int) -> int
    decreases s.len() - i,
{
    if i < 0 || i >= s.len() {
        s.len() as int
    } else if s[i] == '/' && seen == 2 {
        i
    } else if s[i] == '/' {
        origin_len_from(s, i + 1, seen + 1)
    } else {
        origin_len_from(s, i + 1, seen)
    }
}

/// The origin prefix of a URL: everything before the third `/`, which for
/// `scheme://host/path` is `scheme://host`.
pub open spec fn spec_origin_of(s: Seq<char>) -> Seq<char> {
    s.subrange(0, origin_len_from(s, 0, 0))
}

/// Extracts the origin (`scheme://host`) prefix of a URL, the base that
/// relative links are absolutized against.
pub fn origin_of(url: &str) -> (r: String)
    ensures
        r@ == spec_origin_of(url@),
{
    let len: usize = url.unicode_len();
    let mut i: usize = 0;
    let mut seen: usize = 0;
    while i < len
        invariant
            len == url@.len(),
            i <= len,
            seen <= 2,
            origin_len_from(url@, 0, 0) == origin_len_from(url@, i as int, seen as int),
        decreases len - i,
    {
        let c = url.get_char(i);
        if c == '/' {
            if seen == 2 {
                proof {
                    assert(origin_len_from(url@, i as int, seen as int) == i as int);
                }
                return String::from_str(url.substring_char(0, i));
            }
            seen = seen + 1;
        }
        i = i + 1;
    }
    proof {
        assert(origin_len_from(url@, len as int, seen as int) == len as int);
        assert(url@.subrange(0, len as int) =~= url@);
    }
    String::from_str(url)
}

} // verus!
