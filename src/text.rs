//! Fixed-capacity text buffers (16 bytes of UTF-8), as used for the entered
//! value and for each display line.

use vstd::prelude::*;

verus! {

/// The capacity, in bytes, of every text buffer of this crate.
pub const CAPACITY: usize = 16;

/// A fixed-capacity string of 16 bytes.
pub type Text16 = heapless::String<16>;

/// `heapless::String<N>`: a string stored in an array of `N` bytes.
#[verifier::external_type_specification]
#[verifier::external_body]
pub struct ExHeaplessString<const N: usize>(heapless::String<N>);

/// The characters held by a 16-byte buffer.
pub uninterp spec fn text_chars(s: heapless::String<16>) -> Seq<char>;

/// Number of bytes that `c` takes in UTF-8 (as `char::len_utf8` documents it).
pub open spec fn char_width(c: char) -> nat {
    if (c as u32) < 0x80 {
        1
    } else if (c as u32) < 0x800 {
        2
    } else if (c as u32) < 0x10000 {
        3
    } else {
        4
    }
}

/// Number of bytes that `s` takes in UTF-8.
pub open spec fn utf8_len(s: Seq<char>) -> nat
    decreases s.len(),
{
    if s.len() == 0 {
        0
    } else {
        utf8_len(s.drop_last()) + char_width(s.last())
    }
}

/// Relies on `heapless::String::new`: the new string is empty.
#[verifier::external_body]
pub(crate) fn text_new() -> (r: Text16)
    ensures
        text_chars(r) == Seq::<char>::empty(),
{
    heapless::String::new()
}

/// Relies on `heapless::String::push`: the character is appended when its
/// UTF-8 bytes still fit in the capacity; otherwise nothing changes and
/// `Err` comes back.
#[verifier::external_body]
pub(crate) fn text_push(s: &mut Text16, c: char) -> (r: Result<(), ()>)
    ensures
        r is Ok <==> utf8_len(text_chars(*old(s))) + char_width(c) <= 16,
        r is Ok ==> text_chars(*final(s)) == text_chars(*old(s)).push(c),
        r is Err ==> text_chars(*final(s)) == text_chars(*old(s)),
{
    s.push(c)
}

/// Relies on `heapless::String::clear`: the string becomes empty.
#[verifier::external_body]
pub(crate) fn text_clear(s: &mut Text16)
    ensures
        text_chars(*final(s)) == Seq::<char>::empty(),
{
    s.clear()
}

/// Relies on `heapless::String::as_str`: the characters held, whose UTF-8
/// bytes fit in the capacity.
#[verifier::external_body]
pub(crate) fn text_as_str<'a>(s: &'a Text16) -> (r: &'a str)
    ensures
        r@ == text_chars(*s),
        utf8_len(r@) <= CAPACITY,
{
    s.as_str()
}

/// Every character of `s` is ASCII, one byte in UTF-8.
pub open spec fn is_ascii_text(s: Seq<char>) -> bool {
    forall|i: int| 0 <= i < s.len() ==> (#[trigger] s[i] as u32) < 0x80
}

/// `s` cut to its first `n` characters.
pub open spec fn clip(s: Seq<char>, n: nat) -> Seq<char> {
    if s.len() <= n {
        s
    } else {
        s.take(n as int)
    }
}

pub open spec fn spaces(n: nat) -> Seq<char> {
    Seq::new(n, |i: int| ' ')
}

/// `s` with spaces after it up to `n` characters.
pub open spec fn pad_right(s: Seq<char>, n: nat) -> Seq<char> {
    if s.len() >= n {
        s
    } else {
        s + spaces((n - s.len()) as nat)
    }
}

/// `s` with spaces after it until it takes `n` bytes in UTF-8.
pub open spec fn pad_bytes(s: Seq<char>, n: nat) -> Seq<char> {
    if utf8_len(s) >= n {
        s
    } else {
        s + spaces((n - utf8_len(s)) as nat)
    }
}

/// `s` cut or padded with spaces to exactly `n` characters.
pub open spec fn fit(s: Seq<char>, n: nat) -> Seq<char> {
    pad_right(clip(s, n), n)
}

pub proof fn lemma_ascii_utf8_len(s: Seq<char>)
    requires
        is_ascii_text(s),
    ensures
        utf8_len(s) == s.len(),
    decreases s.len(),
{
    if s.len() > 0 {
        assert(s.last() == s[s.len() - 1]);
        assert(is_ascii_text(s.drop_last())) by {
            assert forall|i: int| 0 <= i < s.drop_last().len() implies (#[trigger] s.drop_last()[i] as u32) < 0x80 by {
                assert(s.drop_last()[i] == s[i]);
            }
        }
        lemma_ascii_utf8_len(s.drop_last());
    }
}

pub proof fn lemma_ascii_concat(a: Seq<char>, b: Seq<char>)
    requires
        is_ascii_text(a),
        is_ascii_text(b),
    ensures
        is_ascii_text(a + b),
{
    assert forall|i: int| 0 <= i < (a + b).len() implies (#[trigger] (a + b)[i] as u32) < 0x80 by {
        if i < a.len() {
            assert((a + b)[i] == a[i]);
        } else {
            assert((a + b)[i] == b[i - a.len()]);
        }
    }
}

/// A prefix takes no more bytes than the whole.
pub proof fn lemma_utf8_len_prefix(s: Seq<char>, k: int)
    requires
        0 <= k <= s.len(),
    ensures
        utf8_len(s.take(k)) <= utf8_len(s),
    decreases s.len(),
{
    if k < s.len() {
        assert(s.drop_last().take(k) =~= s.take(k));
        lemma_utf8_len_prefix(s.drop_last(), k);
    } else {
        assert(s.take(k) =~= s);
    }
}

/// Number of bytes that `text` takes in UTF-8.
pub fn byte_len(text: &str) -> (r: usize)
    requires
        utf8_len(text@) <= CAPACITY,
    ensures
        r == utf8_len(text@),
{
    let n = text.unicode_len();
    let mut count: usize = 0;
    let mut i: usize = 0;
    proof {
        assert(text@.take(0) =~= Seq::<char>::empty());
    }
    while i < n
        invariant
            n == text@.len(),
            i <= n,
            utf8_len(text@) <= CAPACITY,
            count == utf8_len(text@.take(i as int)),
        decreases n - i,
    {
        let c = text.get_char(i);
        let width: usize = if (c as u32) < 0x80 {
            1
        } else if (c as u32) < 0x800 {
            2
        } else if (c as u32) < 0x10000 {
            3
        } else {
            4
        };
        proof {
            assert(text@.take(i + 1).drop_last() =~= text@.take(i as int));
            lemma_utf8_len_prefix(text@, i + 1);
        }
        count = count + width;
        i = i + 1;
    }
    proof {
        assert(text@.take(n as int) =~= text@);
    }
    count
}

/// `x` is in `s` pushed with `c` exactly when it was in `s` or is `c`.
pub proof fn lemma_contains_push(s: Seq<char>, c: char, x: char)
    ensures
        s.push(c).contains(x) <==> (s.contains(x) || c == x),
{
    if s.contains(x) {
        let j = choose|j: int| 0 <= j < s.len() && s[j] == x;
        assert(s.push(c)[j] == x);
    }
    if c == x {
        assert(s.push(c)[s.len() as int] == x);
    }
    if s.push(c).contains(x) {
        let j = choose|j: int| 0 <= j < s.push(c).len() && s.push(c)[j] == x;
        if j < s.len() {
            assert(s[j] == x);
        }
    }
}

/// Appends `c` when there is room for it.
pub fn push_clipped(line: &mut Text16, c: char)
    requires
        is_ascii_text(text_chars(*old(line))),
        text_chars(*old(line)).len() <= CAPACITY,
        (c as u32) < 0x80,
    ensures
        text_chars(*final(line)) == clip(text_chars(*old(line)).push(c), CAPACITY as nat),
        is_ascii_text(text_chars(*final(line))),
        text_chars(*final(line)).len() <= CAPACITY,
{
    let ghost before = text_chars(*line);
    proof {
        lemma_ascii_utf8_len(before);
    }
    let _ = text_push(line, c);
    proof {
        if before.len() == CAPACITY {
            assert(before.push(c).take(CAPACITY as int) =~= before);
        }
        assert(is_ascii_text(seq![c]));
        lemma_ascii_concat(before, seq![c]);
        assert(before + seq![c] =~= before.push(c));
    }
}

/// Appends the characters of `text` for which there is room.
pub fn append_clipped(line: &mut Text16, text: &Vec<char>)
    requires
        is_ascii_text(text_chars(*old(line))),
        text_chars(*old(line)).len() <= CAPACITY,
        is_ascii_text(text@),
    ensures
        text_chars(*final(line)) == clip(text_chars(*old(line)) + text@, CAPACITY as nat),
        is_ascii_text(text_chars(*final(line))),
        text_chars(*final(line)).len() <= CAPACITY,
{
    let ghost start = text_chars(*line);
    let mut i: usize = 0;
    proof {
        assert(start + text@.take(0) =~= start);
    }
    while i < text.len()
        invariant
            is_ascii_text(text@),
            i <= text@.len(),
            start.len() <= CAPACITY,
            text_chars(*line) == clip(start + text@.take(i as int), CAPACITY as nat),
            is_ascii_text(text_chars(*line)),
            text_chars(*line).len() <= CAPACITY,
        decreases text@.len() - i,
    {
        let ghost before = text_chars(*line);
        push_clipped(line, text[i]);
        proof {
            let whole = start + text@.take(i + 1);
            assert(whole =~= (start + text@.take(i as int)).push(text@[i as int]));
            if (start + text@.take(i as int)).len() <= CAPACITY {
                assert(clip(before.push(text@[i as int]), CAPACITY as nat) =~= clip(whole, CAPACITY as nat));
            } else {
                assert(before =~= whole.take(CAPACITY as int));
                assert(clip(before.push(text@[i as int]), CAPACITY as nat) =~= clip(whole, CAPACITY as nat));
            }
        }
        i = i + 1;
    }
    proof {
        assert(text@.take(text@.len() as int) =~= text@);
    }
}

} // verus!
