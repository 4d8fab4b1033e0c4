//! Characters, their UTF-8 widths, and byte offsets of character positions.

use vstd::prelude::*;
use vstd::std_specs::iter::IteratorSpec;
use vstd::string::*;
use vstd::utf8::*;

verus! {

broadcast use vstd::string::group_string_axioms;

/// The number of bytes that UTF-8 uses for `c`.
pub open spec fn utf8_width(c: char) -> nat {
    encode_scalar(c as u32).len()
}

/// The byte offset in the UTF-8 encoding of `s` at which character position `k` begins.
pub open spec fn byte_offset(s: Seq<char>, k: int) -> nat {
    encode_utf8(s.take(k)).len()
}

/// `c` has the Unicode property White_Space.
pub open spec fn is_white_space(c: char) -> bool {
    let v = c as u32;
    ||| 0x09 <= v <= 0x0D
    ||| v == 0x20
    ||| v == 0x85
    ||| v == 0xA0
    ||| v == 0x1680
    ||| 0x2000 <= v <= 0x200A
    ||| v == 0x2028
    ||| v == 0x2029
    ||| v == 0x202F
    ||| v == 0x205F
    ||| v == 0x3000
}

/// Tells whether `c` has the Unicode property White_Space.
pub fn is_whitespace(c: char) -> (r: bool)
    ensures
        r == is_white_space(c),
{
    let v = c as u32;
    (0x09 <= v && v <= 0x0D) || v == 0x20 || v == 0x85 || v == 0xA0 || v == 0x1680 || (0x2000
        <= v && v <= 0x200A) || v == 0x2028 || v == 0x2029 || v == 0x202F || v == 0x205F || v
        == 0x3000
}

/// The number of bytes that UTF-8 uses for `c`.
pub fn char_width(c: char) -> (w: usize)
    ensures
        w == utf8_width(c),
        1 <= w <= 4,
{
    proof {
        char_is_scalar(c);
    }
    let v = c as u32;
    if v <= 0x7F {
        1
    } else if v <= 0x7FF {
        2
    } else if v <= 0xFFFF {
        3
    } else {
        4
    }
}

/// The characters of `s`, in order.
pub fn chars_of(s: &str) -> (v: Vec<char>)
    ensures
        v@ == s@,
{
    let mut v: Vec<char> = Vec::new();
    for c in it: s.chars()
        invariant
            it.seq() == s@,
            v@ == it.seq().take(it.index() as int),
    {
        v.push(c);
    }
    v
}

/// Encoding a concatenation concatenates the encodings.
pub proof fn lemma_encode_concat(a: Seq<char>, b: Seq<char>)
    ensures
        encode_utf8(a + b) == encode_utf8(a) + encode_utf8(b),
    decreases a.len(),
{
    if a.len() == 0 {
        assert(a + b =~= b);
        assert(encode_utf8(a) =~= Seq::<u8>::empty());
        assert(encode_utf8(a) + encode_utf8(b) =~= encode_utf8(b));
    } else {
        assert((a + b).drop_first() =~= a.drop_first() + b);
        lemma_encode_concat(a.drop_first(), b);
        assert(encode_utf8(a + b) =~= encode_scalar(a[0] as u32) + encode_utf8(a.drop_first() + b));
    }
}

/// The encoding of one character is its scalar encoding.
pub proof fn lemma_encode_single(c: char)
    ensures
        encode_utf8(seq![c]) == encode_scalar(c as u32),
{
    assert(seq![c].drop_first() =~= Seq::<char>::empty());
    assert(encode_utf8(seq![c].drop_first()) =~= Seq::<u8>::empty());
    assert(encode_utf8(seq![c]) =~= encode_scalar(c as u32) + Seq::<u8>::empty());
}

/// Every character takes between one and four bytes.
pub proof fn lemma_width_bounds(c: char)
    ensures
        1 <= utf8_width(c) <= 4,
{
    char_is_scalar(c);
}

/// A string takes at least as many bytes as it has characters.
pub proof fn lemma_encode_len_ge(s: Seq<char>)
    ensures
        encode_utf8(s).len() >= s.len(),
    decreases s.len(),
{
    if s.len() > 0 {
        lemma_width_bounds(s[0]);
        lemma_encode_len_ge(s.drop_first());
    }
}

/// The offset of the next position adds the width of the character in between.
pub proof fn lemma_byte_offset_step(s: Seq<char>, k: int)
    requires
        0 <= k < s.len(),
    ensures
        byte_offset(s, k + 1) == byte_offset(s, k) + utf8_width(s[k]),
{
    assert(s.take(k + 1) =~= s.take(k) + seq![s[k]]);
    lemma_encode_concat(s.take(k), seq![s[k]]);
    lemma_encode_single(s[k]);
}

/// The encoding of `s` splits at the offset of any position.
pub proof fn lemma_byte_offset_split(s: Seq<char>, k: int)
    requires
        0 <= k <= s.len(),
    ensures
        encode_utf8(s) == encode_utf8(s.take(k)) + encode_utf8(s.skip(k)),
        byte_offset(s, k) <= encode_utf8(s).len(),
        byte_offset(s, s.len() as int) == encode_utf8(s).len(),
        encode_utf8(s).take(byte_offset(s, k) as int) == encode_utf8(s.take(k)),
        encode_utf8(s).skip(byte_offset(s, k) as int) == encode_utf8(s.skip(k)),
{
    assert(s =~= s.take(k) + s.skip(k));
    lemma_encode_concat(s.take(k), s.skip(k));
    assert(s.take(s.len() as int) =~= s);
    assert(encode_utf8(s).take(byte_offset(s, k) as int) =~= encode_utf8(s.take(k)));
    assert(encode_utf8(s).skip(byte_offset(s, k) as int) =~= encode_utf8(s.skip(k)));
}

/// The offset of every character position is a character boundary of the encoding.
pub proof fn lemma_byte_offset_is_boundary(s: Seq<char>, k: int)
    requires
        0 <= k <= s.len(),
    ensures
        is_char_boundary(encode_utf8(s), byte_offset(s, k) as int),
    decreases k,
{
    broadcast use encode_utf8_valid_utf8;

    let b = encode_utf8(s);
    if k == 0 {
        assert(s.take(0) =~= Seq::<char>::empty());
        assert(encode_utf8(s.take(0)) =~= Seq::<u8>::empty());
    } else {
        let t = s.drop_first();
        encode_utf8_first_scalar(s);
        assert(pop_first_scalar(b) =~= encode_utf8(t));
        lemma_byte_offset_is_boundary(t, k - 1);
        assert(s.take(k) =~= seq![s[0]] + t.take(k - 1));
        lemma_encode_concat(seq![s[0]], t.take(k - 1));
        lemma_encode_single(s[0]);
        lemma_byte_offset_split(s, k);
        lemma_width_bounds(s[0]);
    }
}

/// Law: in ASCII text every character takes one byte, so the byte offset of a character
/// position is the position itself.
pub proof fn law_ascii_byte_offset(s: Seq<char>, k: int)
    requires
        is_ascii_chars(s),
        0 <= k <= s.len(),
    ensures
        byte_offset(s, k) == k,
{
    let t = s.take(k);
    assert(is_ascii_chars(t)) by {
        assert forall|i: int| 0 <= i < t.len() implies '\0' <= #[trigger] t[i] <= '\u{7f}' by {
            assert(t[i] == s[i]);
        }
    }
    is_ascii_chars_encode_utf8(t);
}

/// The byte index at which character position `char_pos` of `input` begins, or the byte
/// length of `input` when it has no character at that position.
pub fn byte_index(input: &str, char_pos: usize) -> (r: usize)
    ensures
        r == byte_offset(input@, if char_pos < input@.len() { char_pos as int } else { input@.len() as int }),
{
    let cs = chars_of(input);
    let n = cs.len();
    let total = input.as_bytes().len();
    let ghost s = input@;
    let mut k: usize = 0;
    let mut off: usize = 0;
    proof {
        assert(s.take(0) =~= Seq::<char>::empty());
        assert(encode_utf8(s.take(0)) =~= Seq::<u8>::empty());
        lemma_byte_offset_split(s, n as int);
    }
    while k < n && k < char_pos
        invariant
            cs@ == s,
            n == s.len(),
            total == encode_utf8(s).len(),
            k <= n,
            k <= char_pos,
            off == byte_offset(s, k as int),
        decreases n - k,
    {
        proof {
            lemma_byte_offset_step(s, k as int);
            lemma_byte_offset_split(s, (k + 1) as int);
        }
        off = off + char_width(cs[k]);
        k = k + 1;
    }
    off
}

/// The character count of `input`, when `new_cursor_pos` is beyond it; else `new_cursor_pos`.
pub fn clamp_cursor(input: &str, new_cursor_pos: usize) -> (r: usize)
    ensures
        r == if new_cursor_pos <= input@.len() { new_cursor_pos as int } else { input@.len() as int },
{
    let count = input.unicode_len();
    if new_cursor_pos <= count {
        new_cursor_pos
    } else {
        count
    }
}

} // verus!
