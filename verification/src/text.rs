use vstd::prelude::*;

verus! {

/// A code unit that is half of a surrogate pair.
pub open spec fn is_surrogate(u: u16) -> bool {
    0xD800 <= u <= 0xDFFF
}

/// The first half of a surrogate pair.
pub open spec fn is_high_surrogate(u: u16) -> bool {
    0xD800 <= u <= 0xDBFF
}

/// The second half of a surrogate pair.
pub open spec fn is_low_surrogate(u: u16) -> bool {
    0xDC00 <= u <= 0xDFFF
}

/// The character a surrogate pair stands for.
pub open spec fn pair_char(hi: u16, lo: u16) -> char {
    (0x10000 + (hi - 0xD800) * 0x400 + (lo - 0xDC00)) as char
}

/// The replacement character, U+FFFD.
pub open spec fn replacement() -> char {
    '\u{FFFD}'
}

/// Lossy UTF-16 decoding: a unit that is no surrogate is its own character, a
/// high surrogate followed by a low one is the pair's character, and any other
/// surrogate becomes U+FFFD; decoding then goes on with the next unit.
pub open spec fn decode_utf16_lossy(units: Seq<u16>) -> Seq<char>
    decreases units.len(),
{
    if units.len() == 0 {
        Seq::empty()
    } else if !is_surrogate(units[0]) {
        seq![units[0] as char] + decode_utf16_lossy(units.drop_first())
    } else if is_high_surrogate(units[0]) && units.len() >= 2 && is_low_surrogate(units[1]) {
        seq![pair_char(units[0], units[1])] + decode_utf16_lossy(units.subrange(2, units.len() as int))
    } else {
        seq![replacement()] + decode_utf16_lossy(units.drop_first())
    }
}

/// Calls `String::from_utf16_lossy`, which decodes UTF-16 and puts U+FFFD in
/// place of each unpaired surrogate.
#[verifier::external_body]
fn utf16_lossy(units: &[u16]) -> (text: String)
    ensures
        text@ == decode_utf16_lossy(units@),
{
    String::from_utf16_lossy(units)
}

/// Units without a zero decode to text without a NUL character.
pub proof fn law_decoded_text_has_no_nul(units: Seq<u16>)
    requires
        forall|i: int| 0 <= i < units.len() ==> units[i] != 0,
    ensures
        forall|j: int| 0 <= j < decode_utf16_lossy(units).len() ==> decode_utf16_lossy(units)[j] != '\0',
    decreases units.len(),
{
    if units.len() > 0 {
        let u = units[0];
        let d = decode_utf16_lossy(units);
        let rest1 = units.drop_first();
        assert forall|i: int| 0 <= i < rest1.len() implies rest1[i] != 0 by {
            assert(rest1[i] == units[i + 1]);
        }
        if !is_surrogate(u) {
            law_decoded_text_has_no_nul(rest1);
            assert((u as char) as int == u as int);
            let tail = decode_utf16_lossy(rest1);
            assert(d == seq![u as char] + tail);
            assert forall|j: int| 0 <= j < d.len() implies d[j] != '\0' by {
                if j > 0 {
                    assert(d[j] == tail[j - 1]);
                }
            }
        } else if is_high_surrogate(u) && units.len() >= 2 && is_low_surrogate(units[1]) {
            let rest = units.subrange(2, units.len() as int);
            assert forall|i: int| 0 <= i < rest.len() implies rest[i] != 0 by {
                assert(rest[i] == units[i + 2]);
            }
            law_decoded_text_has_no_nul(rest);
            let c = pair_char(u, units[1]);
            assert(c as int == 0x10000 + (u - 0xD800) * 0x400 + (units[1] - 0xDC00));
            let tail = decode_utf16_lossy(rest);
            assert(d == seq![c] + tail);
            assert forall|j: int| 0 <= j < d.len() implies d[j] != '\0' by {
                if j > 0 {
                    assert(d[j] == tail[j - 1]);
                }
            }
        } else {
            law_decoded_text_has_no_nul(rest1);
            let tail = decode_utf16_lossy(rest1);
            assert(d == seq![replacement()] + tail);
            assert forall|j: int| 0 <= j < d.len() implies d[j] != '\0' by {
                if j > 0 {
                    assert(d[j] == tail[j - 1]);
                }
            }
        }
    }
}

/// The length of the text in a NUL-terminated buffer: the units before the
/// first zero, or all of them when there is none.
pub open spec fn text_len(buf: Seq<u16>) -> nat
    decreases buf.len(),
{
    if buf.len() == 0 {
        0
    } else if buf[0] == 0 {
        0
    } else {
        1 + text_len(buf.drop_first())
    }
}

proof fn lemma_text_len(buf: Seq<u16>, n: int)
    requires
        0 <= n <= buf.len(),
        forall|j: int| 0 <= j < n ==> buf[j] != 0,
        n < buf.len() ==> buf[n] == 0,
    ensures
        text_len(buf) == n,
    decreases n,
{
    if n > 0 {
        let rest = buf.drop_first();
        assert forall|j: int| 0 <= j < n - 1 implies rest[j] != 0 by {
            assert(rest[j] == buf[j + 1]);
        }
        if n - 1 < rest.len() {
            assert(rest[n - 1] == buf[n]);
        }
        lemma_text_len(rest, n - 1);
    }
}

proof fn lemma_text_len_bounds(buf: Seq<u16>)
    ensures
        text_len(buf) <= buf.len(),
        forall|j: int| 0 <= j < text_len(buf) ==> buf[j] != 0,
    decreases buf.len(),
{
    if buf.len() > 0 && buf[0] != 0 {
        let rest = buf.drop_first();
        lemma_text_len_bounds(rest);
        assert forall|j: int| 0 <= j < text_len(buf) implies buf[j] != 0 by {
            if j > 0 {
                assert(buf[j] == rest[j - 1]);
            }
        }
    }
}

/// What follows the first NUL never matters: a buffer holding `text`, a NUL
/// and anything after it reads as `text` alone.
pub proof fn law_text_after_nul_is_ignored(text: Seq<u16>, after: Seq<u16>)
    requires
        forall|i: int| 0 <= i < text.len() ==> text[i] != 0,
    ensures
        ({
            let buf = text + seq![0u16] + after;
            buf.take(text_len(buf) as int) == text.take(text_len(text) as int)
        }),
        text.take(text_len(text) as int) == text,
{
    let buf = text + seq![0u16] + after;
    assert forall|j: int| 0 <= j < text.len() implies buf[j] != 0 by {
        assert(buf[j] == text[j]);
    }
    assert(buf[text.len() as int] == 0);
    lemma_text_len(buf, text.len() as int);
    lemma_text_len(text, text.len() as int);
    assert(buf.take(text.len() as int) =~= text);
    assert(text.take(text.len() as int) =~= text);
}

/// Reads the text out of a NUL-terminated UTF-16 buffer, as Windows fills in
/// device and monitor names.
pub fn wide_string(buf: &[u16]) -> (text: String)
    ensures
        text@ == decode_utf16_lossy(buf@.take(text_len(buf@) as int)),
        text_len(buf@) <= buf@.len(),
        forall|j: int| 0 <= j < text@.len() ==> text@[j] != '\0',
{
    let n = buf.len();
    let mut len: usize = 0;
    while len < n
        invariant
            n == buf@.len(),
            len <= n,
            forall|j: int| 0 <= j < len ==> buf@[j] != 0,
        ensures
            len <= n,
            forall|j: int| 0 <= j < len ==> buf@[j] != 0,
            len < n ==> buf@[len as int] == 0,
        decreases n - len,
    {
        if buf[len] == 0 {
            break;
        }
        len = len + 1;
    }
    proof {
        lemma_text_len(buf@, len as int);
    }
    let units = &buf[0..len];
    assert(units@ == buf@.take(len as int));
    proof {
        lemma_text_len_bounds(buf@);
        law_decoded_text_has_no_nul(units@);
    }
    utf16_lossy(units)
}

/// The UTF-16 code units of one character.
pub open spec fn utf16_of_char(c: char) -> Seq<u16> {
    let v = c as int;
    if v < 0x10000 {
        seq![v as u16]
    } else {
        let w = v - 0x10000;
        seq![(0xD800 + w / 0x400) as u16, (0xDC00 + w % 0x400) as u16]
    }
}

/// The UTF-16 code units of a text.
pub open spec fn utf16_of(s: Seq<char>) -> Seq<u16>
    decreases s.len(),
{
    if s.len() == 0 {
        Seq::empty()
    } else {
        utf16_of(s.drop_last()) + utf16_of_char(s.last())
    }
}

/// Code units laid out as little-endian byte pairs.
pub open spec fn le_bytes(units: Seq<u16>) -> Seq<u8>
    decreases units.len(),
{
    if units.len() == 0 {
        Seq::empty()
    } else {
        le_bytes(units.drop_last()) + seq![(units.last() % 256) as u8, (units.last() / 256) as u8]
    }
}

fn push_le_unit(bytes: &mut Vec<u8>, unit: u16, Ghost(units): Ghost<Seq<u16>>)
    requires
        old(bytes)@ == le_bytes(units),
    ensures
        final(bytes)@ == le_bytes(units.push(unit)),
{
    assert(units.push(unit).drop_last() == units);
    bytes.push((unit % 256) as u8);
    bytes.push((unit / 256) as u8);
}

/// Appends the UTF-16LE bytes of `c`.
fn push_utf16_le(bytes: &mut Vec<u8>, c: char, Ghost(units): Ghost<Seq<u16>>)
    requires
        old(bytes)@ == le_bytes(units),
    ensures
        final(bytes)@ == le_bytes(units + utf16_of_char(c)),
{
    let v = c as u32;
    if v < 0x10000 {
        let unit = v as u16;
        assert(units + utf16_of_char(c) == units.push(unit));
        push_le_unit(bytes, unit, Ghost(units));
    } else {
        let w = v - 0x10000;
        let hi = (0xD800 + w / 0x400) as u16;
        let lo = (0xDC00 + w % 0x400) as u16;
        assert(units + utf16_of_char(c) == units.push(hi).push(lo));
        push_le_unit(bytes, hi, Ghost(units));
        push_le_unit(bytes, lo, Ghost(units.push(hi)));
    }
}

/// Appends the UTF-16LE bytes of `s`.
pub fn push_str_utf16_le(bytes: &mut Vec<u8>, s: &str, Ghost(units): Ghost<Seq<u16>>)
    requires
        old(bytes)@ == le_bytes(units),
    ensures
        final(bytes)@ == le_bytes(units + utf16_of(s@)),
{
    let n = s.unicode_len();
    let ghost start = units;
    let ghost mut cur = units;
    for i in 0..n
        invariant
            n == s@.len(),
            cur == start + utf16_of(s@.take(i as int)),
            bytes@ == le_bytes(cur),
    {
        let c = s.get_char(i);
        proof {
            let p = s@.take(i as int);
            assert(s@.take(i + 1) == p.push(c));
            assert(p.push(c).drop_last() == p);
            assert(utf16_of(p.push(c)) == utf16_of(p) + utf16_of_char(c));
            assert(start + utf16_of(s@.take(i + 1)) == cur + utf16_of_char(c));
        }
        push_utf16_le(bytes, c, Ghost(cur));
        proof {
            cur = cur + utf16_of_char(c);
        }
    }
    assert(s@.take(n as int) == s@);
}

proof fn lemma_le_bytes_len(units: Seq<u16>)
    ensures
        le_bytes(units).len() == 2 * units.len(),
    decreases units.len(),
{
    if units.len() > 0 {
        lemma_le_bytes_len(units.drop_last());
    }
}

/// The byte pairs give back the code units: for every unit `k`, the bytes at
/// `2k` and `2k + 1` are its low and high halves.
pub proof fn law_le_bytes_round_trip(units: Seq<u16>)
    ensures
        le_bytes(units).len() == 2 * units.len(),
        forall|k: int|
            0 <= k < units.len() ==> le_bytes(units)[2 * k] + 256 * le_bytes(units)[2 * k + 1]
                == #[trigger] units[k],
    decreases units.len(),
{
    lemma_le_bytes_len(units);
    if units.len() > 0 {
        let rest = units.drop_last();
        law_le_bytes_round_trip(rest);
        lemma_le_bytes_len(rest);
        assert forall|k: int| 0 <= k < units.len() implies le_bytes(units)[2 * k] + 256 * le_bytes(
            units,
        )[2 * k + 1] == #[trigger] units[k] by {
            if k < rest.len() {
                assert(units[k] == rest[k]);
            }
        }
    }
}

} // verus!
