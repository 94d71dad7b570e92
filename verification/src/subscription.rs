//! Naming a subscription: from the `Content-Disposition` header of its reply,
//! or else from the host of its URL.
use vstd::prelude::*;
use vstd::utf8::{valid_utf8, decode_utf8, encode_utf8};
use crate::strings::{
    chars_of, string_of, to_owned_string, push_str, split_char, trim_ws, trim_char, lower_seq,
    starts_with, find_char, trim_ws_range, trim_char_range, range_starts_with, lower_chars,
    lemma_index_of_char, index_of_char, ascii_lower,
};

verus! {

// ===== percent decoding =====

/// Value of an ASCII hex digit byte.
pub open spec fn hex_val(b: u8) -> Option<u8> {
    if 48 <= b <= 57 {
        Some((b - 48) as u8)
    } else if 97 <= b <= 102 {
        Some((b - 87) as u8)
    } else if 65 <= b <= 70 {
        Some((b - 55) as u8)
    } else {
        None
    }
}

/// The byte that the two bytes after a `%` stand for, read as `u8` in hex
/// (`+` followed by one digit is read too).
pub open spec fn hex_pair(b1: u8, b2: u8) -> Option<u8> {
    if b1 == 43 {
        hex_val(b2)
    } else {
        match (hex_val(b1), hex_val(b2)) {
            (Some(h), Some(l)) => Some((h * 16 + l) as u8),
            _ => None,
        }
    }
}

/// `%XX` escapes replaced by their bytes; anything else kept.
pub open spec fn pct_bytes(b: Seq<u8>) -> Seq<u8>
    decreases b.len(),
{
    if b.len() == 0 {
        seq![]
    } else if b.len() >= 3 && b[0] == 37 && hex_pair(b[1], b[2]) is Some {
        seq![hex_pair(b[1], b[2])->Some_0] + pct_bytes(b.skip(3))
    } else {
        seq![b[0]] + pct_bytes(b.skip(1))
    }
}

/// The lower-case hex digit byte for `h` (`0`-`9`, `a`-`f`).
pub open spec fn lower_hex_digit(h: nat) -> u8 {
    if h < 10 { (48 + h) as u8 } else { (97 + (h - 10)) as u8 }
}

/// The upper-case hex digit byte for `h` (`0`-`9`, `A`-`F`).
pub open spec fn upper_hex_digit(h: nat) -> u8 {
    if h < 10 { (48 + h) as u8 } else { (65 + (h - 10)) as u8 }
}

/// A `%` followed by the hex digits of `h` and `l`, in either case, decodes to
/// the one byte `16 * h + l`, and decoding goes on after it.
pub proof fn lemma_escape_decodes(x: u8, y: u8, h: nat, l: nat, rest: Seq<u8>)
    requires
        h < 16,
        l < 16,
        x == lower_hex_digit(h) || x == upper_hex_digit(h),
        y == lower_hex_digit(l) || y == upper_hex_digit(l),
    ensures
        pct_bytes(seq![37u8, x, y] + rest) == seq![(16 * h + l) as u8] + pct_bytes(rest),
{
    let b = seq![37u8, x, y] + rest;
    assert(hex_val(x) == Some(h as u8));
    assert(hex_val(y) == Some(l as u8));
    assert(hex_pair(x, y) == Some((16 * h + l) as u8));
    assert(b[0] == 37u8 && b[1] == x && b[2] == y);
    assert(b.skip(3) =~= rest);
}

/// Percent-decoded text; empty when the decoded bytes are not UTF-8.
pub open spec fn pct_decoded(s: Seq<char>) -> Seq<char> {
    let b = pct_bytes(encode_utf8(s));
    if valid_utf8(b) { decode_utf8(b) } else { seq![] }
}

/// `String::from_utf8`: the text of `v` when it is valid UTF-8.
#[verifier::external_body]
fn string_from_utf8(v: Vec<u8>) -> (r: Option<String>)
    ensures
        valid_utf8(v@) ==> r is Some && r->Some_0@ == decode_utf8(v@),
        !valid_utf8(v@) ==> r is None,
{
    String::from_utf8(v).ok()
}

fn hex_digit(b: u8) -> (r: Option<u8>)
    ensures
        r == hex_val(b),
{
    if 48 <= b && b <= 57 {
        Some(b - 48)
    } else if 97 <= b && b <= 102 {
        Some(b - 87)
    } else if 65 <= b && b <= 70 {
        Some(b - 55)
    } else {
        None
    }
}

fn hex_byte(b1: u8, b2: u8) -> (r: Option<u8>)
    ensures
        r == hex_pair(b1, b2),
{
    if b1 == 43 {
        return hex_digit(b2);
    }
    match (hex_digit(b1), hex_digit(b2)) {
        (Some(h), Some(l)) => Some(h * 16 + l),
        _ => None,
    }
}

/// Decodes `%XX` escapes; text whose decoded bytes are not UTF-8 becomes empty.
pub fn percent_decode(s: &str) -> (r: String)
    ensures
        r@ == pct_decoded(s@),
{
    let bytes = s.as_bytes();
    let ghost all = bytes@;
    let mut out: Vec<u8> = Vec::new();
    let mut i: usize = 0;
    proof {
        assert(all.skip(0) =~= all);
    }
    while i < bytes.len()
        invariant
            all == bytes@,
            all == encode_utf8(s@),
            i <= all.len(),
            out@ + pct_bytes(all.skip(i as int)) == pct_bytes(all),
        decreases all.len() - i,
    {
        let ghost rest = all.skip(i as int);
        if bytes[i] == 37 && bytes.len() - i > 2 {
            match hex_byte(bytes[i + 1], bytes[i + 2]) {
                Some(v) => {
                    proof {
                        assert(rest[0] == 37 && rest[1] == all[i + 1] && rest[2] == all[i + 2]);
                        assert(rest.skip(3) =~= all.skip(i + 3));
                        assert(out@.push(v) + pct_bytes(all.skip(i + 3)) =~= out@ + pct_bytes(rest));
                    }
                    out.push(v);
                    i = i + 3;
                    continue;
                }
                None => {}
            }
        }
        proof {
            assert(rest[0] == all[i as int]);
            if rest.len() >= 3 {
                assert(rest[1] == all[i + 1] && rest[2] == all[i + 2]);
            }
            assert(rest.skip(1) =~= all.skip(i + 1));
            assert(out@.push(all[i as int]) + pct_bytes(all.skip(i + 1)) =~= out@ + pct_bytes(rest));
        }
        out.push(bytes[i]);
        i = i + 1;
    }
    proof {
        assert(all.skip(all.len() as int) =~= Seq::<u8>::empty());
        assert(out@ + Seq::<u8>::empty() =~= out@);
    }
    match string_from_utf8(out) {
        Some(t) => t,
        None => String::new(),
    }
}

// ===== Content-Disposition =====

/// Whether `p` starts with `prefix` ignoring ASCII case.
pub open spec fn has_prefix_ci(p: Seq<char>, prefix: Seq<char>) -> bool {
    starts_with(lower_seq(p), prefix)
}

/// The name an RFC 5987 `filename*=` value gives: the part after the second
/// `'` (charset and language come first), or the whole value, percent-decoded.
pub open spec fn ext_filename(val: Seq<char>) -> Seq<char> {
    let segs = split_char(val, '\'');
    pct_decoded(if segs.len() >= 3 { segs[2] } else { val })
}

/// The value of the first `;`-separated part that starts with `key` (ASCII
/// case ignored), after trimming.
pub open spec fn first_param(parts: Seq<Seq<char>>, key: Seq<char>) -> Option<Seq<char>>
    decreases parts.len(),
{
    if parts.len() == 0 {
        None
    } else if has_prefix_ci(trim_ws(parts[0]), key) {
        Some(trim_ws(parts[0]).skip(key.len() as int))
    } else {
        first_param(parts.drop_first(), key)
    }
}

/// The file name a `Content-Disposition` header gives: `filename*=` first,
/// else `filename=` without surrounding quotes.
pub open spec fn disposition_name(cd: Seq<char>) -> Option<Seq<char>> {
    let parts = split_char(cd, ';');
    match first_param(parts, "filename*="@) {
        Some(v) => Some(ext_filename(v)),
        None => match first_param(parts, "filename="@) {
            Some(v) => Some(trim_char(trim_char(v, '"'), '\'')),
            None => None,
        },
    }
}

/// Ranges of the pieces of `v[lo..hi]` between the `c`s.
fn split_ranges(v: &Vec<char>, lo: usize, hi: usize, c: char) -> (r: Vec<(usize, usize)>)
    requires
        lo <= hi <= v.len(),
    ensures
        crate::strings::ranges_valid(r@, lo as int, hi as int),
        crate::strings::ranges_view(v@, r@) == split_char(v@.subrange(lo as int, hi as int), c),
{
    let mut r: Vec<(usize, usize)> = Vec::new();
    let mut a = lo;
    loop
        invariant
            lo <= a <= hi <= v.len(),
            crate::strings::ranges_valid(r@, lo as int, hi as int),
            crate::strings::ranges_view(v@, r@) + split_char(v@.subrange(a as int, hi as int), c)
                == split_char(v@.subrange(lo as int, hi as int), c),
        decreases hi - a,
    {
        let ghost rest = v@.subrange(a as int, hi as int);
        let k = find_char(v, a, hi, c);
        proof {
            lemma_index_of_char(rest, c);
        }
        if k < hi {
            proof {
                assert(rest.take(k - a) =~= v@.subrange(a as int, k as int));
                assert(rest.skip(k - a + 1) =~= v@.subrange(k + 1, hi as int));
                assert(crate::strings::ranges_view(v@, r@.push((a, k)))
                    =~= crate::strings::ranges_view(v@, r@).push(v@.subrange(a as int, k as int)));
            }
            r.push((a, k));
            a = k + 1;
        } else {
            proof {
                assert(crate::strings::ranges_view(v@, r@.push((a, hi)))
                    =~= crate::strings::ranges_view(v@, r@).push(rest));
                assert(crate::strings::ranges_view(v@, r@).push(rest)
                    =~= crate::strings::ranges_view(v@, r@) + split_char(rest, c));
            }
            r.push((a, hi));
            return r;
        }
    }
}

/// Value of the first part starting with `key` (ASCII case ignored), as a range.
fn find_param(v: &Vec<char>, parts: &Vec<(usize, usize)>, key: &Vec<char>) -> (r: Option<(usize, usize)>)
    requires
        crate::strings::ranges_valid(parts@, 0, v@.len() as int),
        forall|i: int| 0 <= i < key@.len() ==> key@[i] == ascii_lower(key@[i]),
    ensures
        match first_param(crate::strings::ranges_view(v@, parts@), key@) {
            Some(val) => r is Some && r->Some_0.0 <= r->Some_0.1 <= v@.len()
                && v@.subrange(r->Some_0.0 as int, r->Some_0.1 as int) == val,
            None => r is None,
        },
{
    let ghost all = crate::strings::ranges_view(v@, parts@);
    let mut i: usize = 0;
    proof {
        assert(all.skip(0) =~= all);
    }
    while i < parts.len()
        invariant
            all == crate::strings::ranges_view(v@, parts@),
            crate::strings::ranges_valid(parts@, 0, v@.len() as int),
            i <= parts@.len(),
            first_param(all, key@) == first_param(all.skip(i as int), key@),
        decreases parts@.len() - i,
    {
        let (lo, hi) = parts[i];
        let ghost rest = all.skip(i as int);
        proof {
            assert(rest[0] == v@.subrange(lo as int, hi as int));
            assert(rest.drop_first() =~= all.skip(i as int + 1));
        }
        let (a, b) = trim_ws_range(v, lo, hi);
        let low = lower_chars(v, a, b);
        proof {
            assert(low@.subrange(0, low@.len() as int) =~= low@);
        }
        if crate::strings::range_starts_with(&low, 0, low.len(), key) {
            proof {
                let t = v@.subrange(a as int, b as int);
                assert(lower_seq(t).len() == t.len());
                assert(t.skip(key@.len() as int) =~= v@.subrange(a + key@.len(), b as int));
            }
            return Some((a + key.len(), b));
        }
        i = i + 1;
    }
    None
}

/// The subscription file name in a `Content-Disposition` header, if any.
pub fn parse_content_disposition(cd: &str) -> (r: Option<String>)
    ensures
        match disposition_name(cd@) {
            Some(n) => r is Some && r->Some_0@ == n,
            None => r is None,
        },
{
    let v = chars_of(cd);
    let parts = split_ranges(&v, 0, v.len(), ';');
    proof {
        assert(v@.subrange(0, v@.len() as int) =~= v@);
    }
    let ext_key = chars_of("filename*=");
    let key = chars_of("filename=");
    proof {
        reveal_strlit("filename*=");
        reveal_strlit("filename=");
    }
    match find_param(&v, &parts, &ext_key) {
        Some((a, b)) => {
            let segs = split_ranges(&v, a, b, '\'');
            let ghost val = v@.subrange(a as int, b as int);
            let encoded = if segs.len() >= 3 {
                let (s0, s1) = segs[2];
                proof {
                    assert(crate::strings::ranges_view(v@, segs@)[2] == v@.subrange(s0 as int, s1 as int));
                }
                string_of(&v, s0, s1)
            } else {
                string_of(&v, a, b)
            };
            Some(percent_decode(encoded.as_str()))
        }
        None => match find_param(&v, &parts, &key) {
            Some((a, b)) => {
                let (qa, qb) = trim_char_range(&v, a, b, '"');
                let (sa, sb) = trim_char_range(&v, qa, qb, '\'');
                Some(string_of(&v, sa, sb))
            }
            None => None,
        },
    }
}

// ===== provider name =====

/// Host of a URL as the `url` crate parses it (`None` when it does not parse
/// or has no host).
pub uninterp spec fn url_host(url: Seq<char>) -> Option<Seq<char>>;

/// `url::Url::parse(url)` and then `host_str`: the URL's host, if any.
#[verifier::external_body]
fn host_of(url: &str) -> (r: Option<String>)
    ensures
        match url_host(url@) {
            Some(h) => r is Some && r->Some_0@ == h,
            None => r is None,
        },
{
    url::Url::parse(url).ok().and_then(|u| u.host_str().map(|s| s.to_string()))
}

/// The subscription's name: when the request failed, the URL's host (or the
/// request error); otherwise the header's file name, else the host, else an error.
pub open spec fn provider_name(host: Option<Seq<char>>, reply: Result<Seq<char>, Seq<char>>) -> Result<Seq<char>, Seq<char>> {
    match reply {
        Err(e) => match host {
            Some(h) => Ok(h),
            None => Err("请求失败: "@ + e),
        },
        Ok(cd) => match disposition_name(cd) {
            Some(n) => Ok(n),
            None => match host {
                Some(h) => Ok(h),
                None => Err("无法解析订阅名称"@),
            },
        },
    }
}

pub open spec fn result_view(r: Result<String, String>) -> Result<Seq<char>, Seq<char>> {
    match r {
        Ok(s) => Ok(s@),
        Err(e) => Err(e@),
    }
}

/// Names a subscription from the URL's host and the outcome of fetching it:
/// the reply's `Content-Disposition` header, or the request's error text.
pub fn provider_name_from(host: Option<String>, reply: Result<String, String>) -> (r: Result<String, String>)
    ensures
        result_view(r) == provider_name(
            match host { Some(h) => Some(h@), None => None },
            result_view(reply),
        ),
{
    match reply {
        Err(e) => match host {
            Some(h) => Ok(h),
            None => {
                let mut m = to_owned_string("请求失败: ");
                push_str(&mut m, e.as_str());
                Err(m)
            }
        },
        Ok(cd) => match parse_content_disposition(cd.as_str()) {
            Some(n) => Ok(n),
            None => match host {
                Some(h) => Ok(h),
                None => Err(to_owned_string("无法解析订阅名称")),
            },
        },
    }
}

/// The subscription's name for `url`, given the outcome of fetching it.
pub fn get_provider_name(url: &str, reply: Result<String, String>) -> (r: Result<String, String>)
    ensures
        result_view(r) == provider_name(url_host(url@), result_view(reply)),
{
    let host = host_of(url);
    provider_name_from(host, reply)
}

} // verus!
