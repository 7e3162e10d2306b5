//! The line that the user edits: a text and a cursor in it.

use vstd::prelude::*;
use vstd::utf8::{
    decode_utf8, decode_utf8_encode_utf8, decode_utf8_split, encode_utf8, encode_utf8_decode_utf8,
    encode_utf8_first_scalar, encode_utf8_valid_utf8, is_char_boundary,
    is_char_boundary_start_end_of_seq, length_of_first_scalar, pop_first_scalar, valid_utf8_split,
};

verus! {

// ---------------------------------------------------------------------------
// Bytes and characters
// ---------------------------------------------------------------------------

/// The encoding of a text is that of its parts.
pub proof fn lemma_encode_concat(a: Seq<char>, b: Seq<char>)
    ensures
        encode_utf8(a + b) == encode_utf8(a) + encode_utf8(b),
    decreases a.len(),
{
    if a.len() == 0 {
        assert(a + b =~= b);
        assert(encode_utf8(a) + encode_utf8(b) =~= encode_utf8(b));
    } else {
        lemma_encode_concat(a.drop_first(), b);
        assert((a + b).drop_first() =~= a.drop_first() + b);
        assert((a + b)[0] == a[0]);
        assert(encode_utf8(a + b) =~= encode_utf8(a) + encode_utf8(b));
    }
}

/// A text takes at least one byte for each character.
pub proof fn lemma_encode_grows(a: Seq<char>)
    ensures
        encode_utf8(a).len() >= a.len(),
    decreases a.len(),
{
    if a.len() > 0 {
        lemma_encode_grows(a.drop_first());
    }
}

/// The place between two parts of a text is a character boundary.
pub proof fn lemma_boundary_between(a: Seq<char>, b: Seq<char>)
    ensures
        is_char_boundary(encode_utf8(a + b), encode_utf8(a).len() as int),
    decreases a.len(),
{
    let bytes = encode_utf8(a + b);
    encode_utf8_valid_utf8(a + b);
    if a.len() > 0 {
        let s = a + b;
        encode_utf8_first_scalar(s);
        assert(s[0] == a[0]);
        assert(s.drop_first() =~= a.drop_first() + b);
        assert(pop_first_scalar(bytes) =~= encode_utf8(s.drop_first()));
        lemma_boundary_between(a.drop_first(), b);
        lemma_encode_concat(a, b);
        lemma_encode_grows(a);
        assert(encode_utf8(a).len() - length_of_first_scalar(bytes) == encode_utf8(
            a.drop_first(),
        ).len());
    }
}

/// What stands before a character boundary.
pub open spec fn text_before_byte(s: Seq<char>, at: int) -> Seq<char> {
    decode_utf8(encode_utf8(s).subrange(0, at))
}

/// What stands after a character boundary.
pub open spec fn text_after_byte(s: Seq<char>, at: int) -> Seq<char> {
    decode_utf8(encode_utf8(s).subrange(at, encode_utf8(s).len() as int))
}

/// A character boundary parts a text in two.
pub proof fn lemma_boundary_parts(s: Seq<char>, at: int)
    requires
        is_char_boundary(encode_utf8(s), at),
        0 <= at <= encode_utf8(s).len(),
    ensures
        text_before_byte(s, at) + text_after_byte(s, at) == s,
        encode_utf8(text_before_byte(s, at)) == encode_utf8(s).subrange(0, at),
        encode_utf8(text_after_byte(s, at)) == encode_utf8(s).subrange(
            at,
            encode_utf8(s).len() as int,
        ),
        encode_utf8(text_before_byte(s, at)).len() == at,
{
    let bytes = encode_utf8(s);
    encode_utf8_valid_utf8(s);
    encode_utf8_decode_utf8(s);
    valid_utf8_split(bytes, at);
    decode_utf8_split(bytes, at);
    decode_utf8_encode_utf8(bytes.subrange(0, at));
    decode_utf8_encode_utf8(bytes.subrange(at, bytes.len() as int));
}

/// The parts on both sides of the place between them.
pub proof fn lemma_parts_of_concat(a: Seq<char>, b: Seq<char>)
    ensures
        ({
            let at = encode_utf8(a).len() as int;
            &&& is_char_boundary(encode_utf8(a + b), at)
            &&& at <= encode_utf8(a + b).len()
            &&& text_before_byte(a + b, at) == a
            &&& text_after_byte(a + b, at) == b
        }),
{
    let at = encode_utf8(a).len() as int;
    lemma_boundary_between(a, b);
    lemma_encode_concat(a, b);
    let bytes = encode_utf8(a + b);
    assert(bytes.subrange(0, at) =~= encode_utf8(a));
    assert(bytes.subrange(at, bytes.len() as int) =~= encode_utf8(b));
    encode_utf8_decode_utf8(a);
    encode_utf8_decode_utf8(b);
}

/// Between two neighbouring boundaries there is no other: where `s` is `a`, one
/// character and `b`, no boundary lies inside that character.
pub proof fn lemma_no_boundary_inside(a: Seq<char>, c: char, b: Seq<char>, j: int)
    requires
        encode_utf8(a).len() < j < encode_utf8(a.push(c)).len(),
    ensures
        !is_char_boundary(encode_utf8(a.push(c) + b), j),
{
    let s = a.push(c) + b;
    let bytes = encode_utf8(s);
    encode_utf8_valid_utf8(s);
    lemma_encode_concat(a.push(c), b);
    if is_char_boundary(bytes, j) {
        lemma_boundary_parts(s, j);
        let p = text_before_byte(s, j);
        let q = text_after_byte(s, j);
        assert(p + q == s);
        assert(p.len() + q.len() == s.len());
        assert forall|k: int| 0 <= k < p.len() implies p[k] == s[k] by {
            assert((p + q)[k] == p[k]);
        }
        if p.len() <= a.len() {
            assert(p =~= a.take(p.len() as int)) by {
                assert forall|k: int| 0 <= k < p.len() implies p[k] == a[k] by {
                    assert(s[k] == a[k]);
                }
            }
            assert(p + a.skip(p.len() as int) =~= a);
            lemma_encode_concat(p, a.skip(p.len() as int));
        } else {
            assert(a.push(c) =~= p.take(a.len() as int + 1)) by {
                assert forall|k: int| 0 <= k <= a.len() implies p[k] == a.push(c)[k] by {
                    assert(s[k] == a.push(c)[k]);
                }
            }
            assert(a.push(c) + p.skip(a.len() as int + 1) =~= p);
            lemma_encode_concat(a.push(c), p.skip(a.len() as int + 1));
        }
    }
}

/// The encoding of one more character takes more bytes.
pub proof fn lemma_push_grows(a: Seq<char>, c: char)
    ensures
        encode_utf8(a).len() < encode_utf8(a.push(c)).len(),
{
    assert(a.push(c) =~= a + seq![c]);
    lemma_encode_concat(a, seq![c]);
    lemma_encode_grows(seq![c]);
}

/// The next character boundary before byte `i`; 0 where there is none.
pub fn prev_char_boundary(s: &str, i: usize) -> (r: usize)
    ensures
        r <= i,
        i > 0 ==> r < i,
        is_char_boundary(encode_utf8(s@), r as int),
        forall|j: int| r < j < i ==> !#[trigger] is_char_boundary(encode_utf8(s@), j),
{
    proof {
        encode_utf8_valid_utf8(s@);
        is_char_boundary_start_end_of_seq(encode_utf8(s@));
    }
    let mut j: usize = if i > 0 {
        i - 1
    } else {
        0
    };
    while j > 0 && !s.is_char_boundary(j)
        invariant
            j <= i,
            i > 0 ==> j < i,
            is_char_boundary(encode_utf8(s@), 0),
            forall|k: int| j < k < i ==> !#[trigger] is_char_boundary(encode_utf8(s@), k),
        decreases j,
    {
        j -= 1;
    }
    j
}

/// The next character boundary after byte `i`; the end where there is none.
pub fn next_char_boundary(s: &str, i: usize) -> (r: usize)
    requires
        i < usize::MAX,
    ensures
        r <= encode_utf8(s@).len(),
        i < encode_utf8(s@).len() ==> i < r,
        i >= encode_utf8(s@).len() ==> r == encode_utf8(s@).len(),
        is_char_boundary(encode_utf8(s@), r as int),
        forall|j: int| i < j < r ==> !#[trigger] is_char_boundary(encode_utf8(s@), j),
{
    proof {
        encode_utf8_valid_utf8(s@);
        is_char_boundary_start_end_of_seq(encode_utf8(s@));
    }
    let n = s.as_bytes().len();
    let mut j: usize = if i + 1 < n {
        i + 1
    } else {
        n
    };
    while j < n && !s.is_char_boundary(j)
        invariant
            n == encode_utf8(s@).len(),
            j <= n,
            i < n ==> i < j,
            i >= n ==> j == n,
            is_char_boundary(encode_utf8(s@), n as int),
            forall|k: int| i < k < j ==> !#[trigger] is_char_boundary(encode_utf8(s@), k),
        decreases n - j,
    {
        j += 1;
    }
    j
}

// ---------------------------------------------------------------------------
// The line
// ---------------------------------------------------------------------------

/// A line of text and a cursor in it, counted in bytes.
pub struct Input {
    pub buf: String,
    pub cursor: usize,
}

/// The model of an `Input`: what stands before the cursor and what after it.
pub struct Editing {
    pub before: Seq<char>,
    pub after: Seq<char>,
}

impl View for Input {
    type V = Editing;

    open spec fn view(&self) -> Editing {
        Editing {
            before: text_before_byte(self.buf@, self.cursor as int),
            after: text_after_byte(self.buf@, self.cursor as int),
        }
    }
}

/// The line with `c` typed at the cursor.
pub open spec fn typed(e: Editing, c: char) -> Editing {
    Editing { before: e.before.push(c), after: e.after }
}

/// The line without the character before the cursor.
pub open spec fn erased_before(e: Editing) -> Editing {
    if e.before.len() == 0 {
        e
    } else {
        Editing { before: e.before.drop_last(), after: e.after }
    }
}

/// The line without the character after the cursor.
pub open spec fn erased_after(e: Editing) -> Editing {
    if e.after.len() == 0 {
        e
    } else {
        Editing { before: e.before, after: e.after.drop_first() }
    }
}

/// The line with the cursor one character to the left.
pub open spec fn moved_left(e: Editing) -> Editing {
    if e.before.len() == 0 {
        e
    } else {
        Editing { before: e.before.drop_last(), after: seq![e.before.last()] + e.after }
    }
}

/// The line with the cursor one character to the right.
pub open spec fn moved_right(e: Editing) -> Editing {
    if e.after.len() == 0 {
        e
    } else {
        Editing { before: e.before.push(e.after.first()), after: e.after.drop_first() }
    }
}

/// The line with the cursor at its start.
pub open spec fn moved_home(e: Editing) -> Editing {
    Editing { before: Seq::empty(), after: e.before + e.after }
}

/// The line with the cursor at its end.
pub open spec fn moved_end(e: Editing) -> Editing {
    Editing { before: e.before + e.after, after: Seq::empty() }
}

/// An empty line.
pub open spec fn no_input() -> Editing {
    Editing { before: Seq::empty(), after: Seq::empty() }
}

impl Default for Input {
    fn default() -> (r: Self)
        ensures
            r.wf(),
            r.buf@ == Seq::<char>::empty(),
            r.cursor == 0,
            r@ == no_input(),
    {
        let r = Input { buf: String::new(), cursor: 0 };
        proof {
            r.lemma_parts(Seq::empty(), Seq::empty());
        }
        r
    }
}

impl Input {
    /// Whether the cursor stands between two characters or at an end.
    pub open spec fn wf(&self) -> bool {
        &&& is_char_boundary(encode_utf8(self.buf@), self.cursor as int)
        &&& self.cursor <= encode_utf8(self.buf@).len()
    }

    /// The text is what stands before the cursor and what stands after it.
    pub proof fn lemma_text(&self)
        requires
            self.wf(),
        ensures
            self.buf@ == self@.before + self@.after,
            self.cursor == encode_utf8(self@.before).len(),
    {
        lemma_boundary_parts(self.buf@, self.cursor as int);
    }

    /// What the parts of a line are.
    pub proof fn lemma_parts(&self, a: Seq<char>, b: Seq<char>)
        requires
            self.buf@ == a + b,
            self.cursor == encode_utf8(a).len(),
        ensures
            self.wf(),
            self@ == (Editing { before: a, after: b }),
    {
        lemma_parts_of_concat(a, b);
    }

    /// What stands before byte `at` and what after it.
    fn cut(s: &str, at: usize) -> (r: (&str, &str))
        requires
            is_char_boundary(encode_utf8(s@), at as int),
            at <= encode_utf8(s@).len(),
        ensures
            r.0@ == text_before_byte(s@, at as int),
            r.1@ == text_after_byte(s@, at as int),
    {
        let (a, b) = s.split_at(at);
        proof {
            encode_utf8_decode_utf8(a@);
            encode_utf8_decode_utf8(b@);
        }
        (a, b)
    }

    /// What stands before the cursor.
    pub fn text_before_cursor(&self) -> (r: &str)
        requires
            self.wf(),
        ensures
            r@ == self@.before,
    {
        Self::cut(self.buf.as_str(), self.cursor).0
    }

    /// Types `c` at the cursor.
    pub fn insert(&mut self, c: char)
        requires
            old(self).wf(),
        ensures
            final(self).wf(),
            final(self)@ == typed(old(self)@, c),
            final(self).buf@ == old(self)@.before.push(c) + old(self)@.after,
    {
        let ghost e = self@;
        let (a, b) = Self::cut(self.buf.as_str(), self.cursor);
        let mut text = a.to_owned();
        text.push(c);
        let cursor = text.as_str().as_bytes().len();
        text.append(b);
        self.buf = text;
        self.cursor = cursor;
        proof {
            self.lemma_parts(e.before.push(c), e.after);
        }
    }

    /// The boundary before the cursor lies before the last character there.
    proof fn lemma_prev(&self, at: int)
        requires
            self.wf(),
            self.cursor > 0,
            0 <= at < self.cursor,
            is_char_boundary(encode_utf8(self.buf@), at),
            forall|j: int| at < j < self.cursor ==> !#[trigger] is_char_boundary(
                encode_utf8(self.buf@),
                j,
            ),
        ensures
            self@.before.len() > 0,
            text_before_byte(self.buf@, at) == self@.before.drop_last(),
            text_after_byte(self.buf@, at) == seq![self@.before.last()] + self@.after,
            at == encode_utf8(self@.before.drop_last()).len(),
    {
        self.lemma_text();
        let a = self@.before;
        let b = self@.after;
        if a.len() == 0 {
            assert(encode_utf8(a).len() == 0);
        }
        let front = a.drop_last();
        let c = a.last();
        assert(front.push(c) =~= a);
        assert(front + (seq![c] + b) =~= self.buf@);
        lemma_parts_of_concat(front, seq![c] + b);
        lemma_push_grows(front, c);
        let p = encode_utf8(front).len() as int;
        if p < at {
            lemma_no_boundary_inside(front, c, b, at);
        }
        if at < p {
            assert(!is_char_boundary(encode_utf8(self.buf@), p));
        }
    }

    /// The boundary after the cursor lies after the first character there.
    proof fn lemma_next(&self, at: int)
        requires
            self.wf(),
            self.cursor < at <= encode_utf8(self.buf@).len(),
            is_char_boundary(encode_utf8(self.buf@), at),
            forall|j: int| self.cursor < j < at ==> !#[trigger] is_char_boundary(
                encode_utf8(self.buf@),
                j,
            ),
        ensures
            self@.after.len() > 0,
            text_before_byte(self.buf@, at) == self@.before.push(self@.after.first()),
            text_after_byte(self.buf@, at) == self@.after.drop_first(),
            at == encode_utf8(self@.before.push(self@.after.first())).len(),
    {
        self.lemma_text();
        let a = self@.before;
        let b = self@.after;
        lemma_encode_concat(a, b);
        if b.len() == 0 {
            assert(encode_utf8(b).len() == 0);
        }
        let c = b.first();
        let back = b.drop_first();
        assert(a.push(c) + back =~= self.buf@);
        lemma_parts_of_concat(a.push(c), back);
        lemma_push_grows(a, c);
        let p = encode_utf8(a.push(c)).len() as int;
        if at < p {
            lemma_no_boundary_inside(a, c, back, at);
        }
        if p < at {
            assert(!is_char_boundary(encode_utf8(self.buf@), p));
        }
    }

    /// At byte 0 nothing stands before the cursor, and only there.
    proof fn lemma_at_start(&self)
        requires
            self.wf(),
        ensures
            self.cursor == 0 <==> self@.before.len() == 0,
    {
        self.lemma_text();
        lemma_encode_grows(self@.before);
    }

    /// At the last byte nothing stands after the cursor, and only there.
    proof fn lemma_at_end(&self)
        requires
            self.wf(),
        ensures
            self.cursor == encode_utf8(self.buf@).len() <==> self@.after.len() == 0,
    {
        self.lemma_text();
        lemma_encode_concat(self@.before, self@.after);
        lemma_encode_grows(self@.after);
    }

    /// Erases the character before the cursor.
    pub fn backspace(&mut self)
        requires
            old(self).wf(),
        ensures
            final(self).wf(),
            final(self)@ == erased_before(old(self)@),
    {
        let ghost e = self@;
        proof {
            self.lemma_at_start();
        }
        if self.cursor == 0 {
            return;
        }
        let prev = prev_char_boundary(self.buf.as_str(), self.cursor);
        proof {
            self.lemma_prev(prev as int);
        }
        let (a, rest) = Self::cut(self.buf.as_str(), prev);
        let (rest2, b) = Self::cut(self.buf.as_str(), self.cursor);
        let text = a.to_owned().concat(b);
        self.buf = text;
        self.cursor = prev;
        proof {
            self.lemma_parts(e.before.drop_last(), e.after);
        }
    }

    /// Erases the character after the cursor.
    pub fn delete(&mut self)
        requires
            old(self).wf(),
        ensures
            final(self).wf(),
            final(self)@ == erased_after(old(self)@),
    {
        let ghost e = self@;
        let n = self.buf.as_str().as_bytes().len();
        proof {
            self.lemma_at_end();
        }
        if self.cursor >= n {
            return;
        }
        let next = next_char_boundary(self.buf.as_str(), self.cursor);
        proof {
            self.lemma_next(next as int);
            self.lemma_text();
        }
        let (a, rest) = Self::cut(self.buf.as_str(), self.cursor);
        let (rest2, b) = Self::cut(self.buf.as_str(), next);
        let text = a.to_owned().concat(b);
        self.buf = text;
        proof {
            self.lemma_parts(e.before, e.after.drop_first());
        }
    }

    /// Moves the cursor one character to the left.
    pub fn left(&mut self)
        requires
            old(self).wf(),
        ensures
            final(self).wf(),
            final(self)@ == moved_left(old(self)@),
            final(self).buf@ == old(self).buf@,
    {
        proof {
            self.lemma_at_start();
        }
        if self.cursor > 0 {
            let prev = prev_char_boundary(self.buf.as_str(), self.cursor);
            proof {
                self.lemma_prev(prev as int);
            }
            self.cursor = prev;
        }
    }

    /// Moves the cursor one character to the right.
    pub fn right(&mut self)
        requires
            old(self).wf(),
        ensures
            final(self).wf(),
            final(self)@ == moved_right(old(self)@),
            final(self).buf@ == old(self).buf@,
    {
        let n = self.buf.as_str().as_bytes().len();
        proof {
            self.lemma_at_end();
        }
        if self.cursor < n {
            let next = next_char_boundary(self.buf.as_str(), self.cursor);
            proof {
                self.lemma_next(next as int);
            }
            self.cursor = next;
        }
    }

    /// Moves the cursor to the start of the line.
    pub fn home(&mut self)
        requires
            old(self).wf(),
        ensures
            final(self).wf(),
            final(self)@ == moved_home(old(self)@),
            final(self).buf@ == old(self).buf@,
    {
        proof {
            self.lemma_text();
        }
        let ghost e = self@;
        self.cursor = 0;
        proof {
            assert(Seq::<char>::empty() + (e.before + e.after) =~= self.buf@);
            self.lemma_parts(Seq::empty(), e.before + e.after);
        }
    }

    /// Moves the cursor to the end of the line.
    pub fn end(&mut self)
        requires
            old(self).wf(),
        ensures
            final(self).wf(),
            final(self)@ == moved_end(old(self)@),
            final(self).buf@ == old(self).buf@,
    {
        proof {
            self.lemma_text();
        }
        let ghost e = self@;
        self.cursor = self.buf.as_str().as_bytes().len();
        proof {
            assert((e.before + e.after) + Seq::<char>::empty() =~= self.buf@);
            self.lemma_parts(e.before + e.after, Seq::empty());
        }
    }

    /// Takes the text out and leaves an empty line.
    pub fn take(&mut self) -> (r: String)
        ensures
            final(self).wf(),
            final(self).buf@ == Seq::<char>::empty(),
            final(self)@ == no_input(),
            r@ == old(self).buf@,
    {
        let mut text = String::new();
        std::mem::swap(&mut text, &mut self.buf);
        self.cursor = 0;
        proof {
            self.lemma_parts(Seq::empty(), Seq::empty());
        }
        text
    }
}

// ---------------------------------------------------------------------------
// Laws
// ---------------------------------------------------------------------------

/// Erasing what was just typed gives back the line.
pub proof fn law_backspace_undoes_insert(e: Editing, c: char)
    ensures
        erased_before(typed(e, c)) == e,
{
    assert(e.before.push(c).drop_last() =~= e.before);
}

/// A step to the right undoes a step to the left that was made.
pub proof fn law_right_undoes_left(e: Editing)
    requires
        e.before.len() > 0,
    ensures
        moved_right(moved_left(e)) == e,
{
    assert((seq![e.before.last()] + e.after).drop_first() =~= e.after);
    assert(e.before.drop_last().push(e.before.last()) =~= e.before);
}

/// A step to the left undoes a step to the right that was made.
pub proof fn law_left_undoes_right(e: Editing)
    requires
        e.after.len() > 0,
    ensures
        moved_left(moved_right(e)) == e,
{
    assert(e.before.push(e.after.first()).drop_last() =~= e.before);
    assert(seq![e.after.first()] + e.after.drop_first() =~= e.after);
}

/// Moving the cursor changes nothing of the text.
pub proof fn law_moves_keep_the_text(e: Editing)
    ensures
        moved_left(e).before + moved_left(e).after == e.before + e.after,
        moved_right(e).before + moved_right(e).after == e.before + e.after,
        moved_home(e).before + moved_home(e).after == e.before + e.after,
        moved_end(e).before + moved_end(e).after == e.before + e.after,
{
    assert(moved_left(e).before + moved_left(e).after =~= e.before + e.after);
    assert(moved_right(e).before + moved_right(e).after =~= e.before + e.after);
    assert(moved_home(e).before + moved_home(e).after =~= e.before + e.after);
    assert(moved_end(e).before + moved_end(e).after =~= e.before + e.after);
}

/// Erasing after a step to the left is erasing before the cursor.
pub proof fn law_delete_after_left_is_backspace(e: Editing)
    requires
        e.before.len() > 0,
    ensures
        erased_after(moved_left(e)) == erased_before(e),
{
    assert((seq![e.before.last()] + e.after).drop_first() =~= e.after);
}

} // verus!
