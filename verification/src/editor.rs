//! The console's input line: text being typed and a cursor between its characters.

use vstd::prelude::*;
use vstd::string::*;
use vstd::utf8::*;
use crate::unicode::{byte_index, byte_offset, clamp_cursor, lemma_byte_offset_is_boundary,
    lemma_byte_offset_split, lemma_encode_concat, lemma_encode_single};

verus! {

broadcast use vstd::string::group_string_axioms, vstd::utf8::encode_utf8_decode_utf8;

/// Calls `String::insert`, which puts `c` at byte index `idx`. Claimed, as its documentation
/// says: the bytes become those before `idx`, the encoding of `c`, then those from `idx` on.
/// It panics where `idx` is not a character boundary or lies past the end, and where the
/// string would outgrow `isize::MAX` bytes; `requires` leaves those out.
#[verifier::external_body]
fn string_insert(s: &mut String, idx: usize, c: char)
    requires
        is_char_boundary(encode_utf8(old(s)@), idx as int),
        encode_utf8(old(s)@).len() + 4 <= isize::MAX,
    ensures
        encode_utf8(final(s)@) == encode_utf8(old(s)@).take(idx as int) + encode_scalar(c as u32)
            + encode_utf8(old(s)@).skip(idx as int),
{
    s.insert(idx, c)
}

/// `s` with `c` put at character position `k`.
pub open spec fn inserted_at(s: Seq<char>, k: int, c: char) -> Seq<char> {
    s.take(k) + seq![c] + s.skip(k)
}

/// `s` without the character before position `k`.
pub open spec fn removed_before(s: Seq<char>, k: int) -> Seq<char> {
    s.take(k - 1) + s.skip(k)
}

/// The text being typed and the cursor, a character position within it.
pub struct InputLine {
    text: String,
    cursor: usize,
}

impl InputLine {
    #[verifier::type_invariant]
    spec fn cursor_within(self) -> bool {
        self.cursor <= self.text@.len()
    }

    /// The characters typed.
    pub closed spec fn chars(&self) -> Seq<char> {
        self.text@
    }

    /// The cursor's character position.
    pub closed spec fn pos(&self) -> nat {
        self.cursor as nat
    }

    /// An empty line.
    pub fn new() -> (r: Self)
        ensures
            r.chars() == Seq::<char>::empty(),
            r.pos() == 0,
    {
        InputLine { text: String::new(), cursor: 0 }
    }

    /// The text typed.
    pub fn text(&self) -> (r: &str)
        ensures
            r@ == self.chars(),
    {
        self.text.as_str()
    }

    /// The cursor's character position.
    pub fn cursor(&self) -> (r: usize)
        ensures
            r == self.pos(),
            r <= self.chars().len(),
    {
        proof {
            use_type_invariant(self);
        }
        self.cursor
    }

    /// Puts `c` at the cursor and moves the cursor past it.
    pub fn insert_char(&mut self, c: char)
        requires
            encode_utf8(old(self).chars()).len() + 4 <= isize::MAX,
        ensures
            final(self).chars() == inserted_at(old(self).chars(), old(self).pos() as int, c),
            final(self).pos() == old(self).pos() + 1,
    {
        proof {
            use_type_invariant(&*self);
        }
        let ghost s = self.text@;
        let k = self.cursor;
        let idx = byte_index(self.text.as_str(), k);
        proof {
            lemma_byte_offset_is_boundary(s, k as int);
            lemma_byte_offset_split(s, k as int);
            lemma_encode_single(c);
            lemma_encode_concat(s.take(k as int), seq![c]);
            lemma_encode_concat(s.take(k as int) + seq![c], s.skip(k as int));
            crate::unicode::lemma_encode_len_ge(s);
        }
        self.cursor = 0;
        let mut text = String::new();
        std::mem::swap(&mut text, &mut self.text);
        string_insert(&mut text, idx, c);
        proof {
            let t = inserted_at(s, k as int, c);
            assert(encode_utf8(text@) == encode_utf8(t));
            assert(decode_utf8(encode_utf8(text@)) == text@);
            assert(decode_utf8(encode_utf8(t)) == t);
        }
        let new_cursor = clamp_cursor(text.as_str(), k + 1);
        self.text = text;
        self.cursor = new_cursor;
    }

    /// Removes the character before the cursor, if there is one, and moves the cursor back.
    pub fn backspace(&mut self)
        ensures
            old(self).pos() > 0 ==> final(self).chars() == removed_before(old(self).chars(), old(self).pos() as int)
                && final(self).pos() == old(self).pos() - 1,
            old(self).pos() == 0 ==> final(self).chars() == old(self).chars() && final(self).pos() == 0,
    {
        proof {
            use_type_invariant(&*self);
        }
        if self.cursor > 0 {
            let ghost s = self.text@;
            let k = self.cursor;
            let len = self.text.as_str().unicode_len();
            let mut text = String::from_str(self.text.as_str().substring_char(0, k - 1));
            text.append(self.text.as_str().substring_char(k, len));
            assert(text@ =~= removed_before(s, k as int));
            self.cursor = k - 1;
            self.text = text;
        }
    }

    /// Moves the cursor one character back, where it can.
    pub fn move_left(&mut self)
        ensures
            final(self).chars() == old(self).chars(),
            final(self).pos() == if old(self).pos() > 0 { old(self).pos() - 1 } else { 0 },
    {
        proof {
            use_type_invariant(&*self);
        }
        if self.cursor > 0 {
            self.cursor = self.cursor - 1;
        }
    }

    /// Moves the cursor one character forward, where it can.
    pub fn move_right(&mut self)
        ensures
            final(self).chars() == old(self).chars(),
            final(self).pos() == if old(self).pos() < old(self).chars().len() {
                old(self).pos() + 1
            } else {
                old(self).pos()
            },
    {
        proof {
            use_type_invariant(&*self);
        }
        if self.cursor < self.text.as_str().unicode_len() {
            self.cursor = self.cursor + 1;
        }
    }

    /// Empties the line.
    pub fn clear(&mut self)
        ensures
            final(self).chars() == Seq::<char>::empty(),
            final(self).pos() == 0,
    {
        self.cursor = 0;
        self.text = String::new();
    }
}

/// Law: deleting right after typing a character gives back the line as it was, and the
/// cursor where it was.
pub proof fn law_backspace_undoes_insert(s: Seq<char>, k: int, c: char)
    requires
        0 <= k <= s.len(),
    ensures
        removed_before(inserted_at(s, k, c), k + 1) == s,
{
    assert(removed_before(inserted_at(s, k, c), k + 1) =~= s);
}

} // verus!
