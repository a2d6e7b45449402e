use vstd::prelude::*;
use vstd::std_specs::iter::IteratorSpec;
use vstd::utf8::{char_is_scalar, encode_scalar, encode_utf8};

verus! {

/// The number of UTF-8 bytes of the first `char_pos` characters of `chars`
/// (of all of them when there are fewer).
pub open spec fn byte_offset(chars: Seq<char>, char_pos: nat) -> nat {
    let k = if char_pos < chars.len() {
        char_pos as int
    } else {
        chars.len() as int
    };
    encode_utf8(chars.take(k)).len()
}

proof fn lemma_encode_append(a: Seq<char>, b: Seq<char>)
    ensures
        encode_utf8(a + b) == encode_utf8(a) + encode_utf8(b),
    decreases a.len(),
{
    if a.len() == 0 {
        assert(a + b =~= b);
        assert(encode_utf8(a) =~= Seq::<u8>::empty());
        assert(encode_utf8(a) + encode_utf8(b) =~= encode_utf8(b));
    } else {
        assert((a + b).drop_first() =~= a.drop_first() + b);
        assert((a + b)[0] == a[0]);
        lemma_encode_append(a.drop_first(), b);
        assert(encode_utf8(a) + encode_utf8(b) =~= encode_scalar(a[0] as u32) + (encode_utf8(
            a.drop_first(),
        ) + encode_utf8(b)));
    }
}

proof fn lemma_encode_take_step(s: Seq<char>, k: int)
    requires
        0 <= k < s.len(),
    ensures
        encode_utf8(s.take(k + 1)).len() == encode_utf8(s.take(k)).len() + encode_scalar(
            s[k] as u32,
        ).len(),
        encode_utf8(s.take(k + 1)).len() <= encode_utf8(s).len(),
{
    assert(s.take(k + 1) =~= s.take(k) + seq![s[k]]);
    lemma_encode_append(s.take(k), seq![s[k]]);
    let one = seq![s[k]];
    assert(one.drop_first() =~= Seq::<char>::empty());
    assert(encode_utf8(one.drop_first()) =~= Seq::<u8>::empty());
    assert(encode_utf8(one) == encode_scalar(one[0] as u32) + encode_utf8(one.drop_first()));
    assert(encode_utf8(one) =~= encode_scalar(s[k] as u32));
    assert(s =~= s.take(k + 1) + s.skip(k + 1));
    lemma_encode_append(s.take(k + 1), s.skip(k + 1));
}

/// The number of bytes of the UTF-8 encoding of `c`.
fn utf8_width(c: char) -> (n: usize)
    ensures
        n == encode_scalar(c as u32).len(),
        1 <= n <= 4,
{
    proof {
        char_is_scalar(c);
    }
    let v = c as u32;
    if v <= 0x7F {
        1
    } else if v <= 0x7FF {
        2
    } else if v <= 0xFFFF {
        3
    } else {
        4
    }
}

/// The byte index in `text` of the character at position `char_pos` (the
/// text cursor), or the length of `text` when the cursor is past its end.
pub fn cursor_byte_index(text: &str, char_pos: usize) -> (b: usize)
    ensures
        b == byte_offset(text@, char_pos as nat),
{
    broadcast use vstd::string::group_string_axioms;

    let total = text.as_bytes().len();
    let ghost s = text@;
    let mut it = text.chars();
    let mut count: usize = 0;
    let mut bytes: usize = 0;
    assert(s.take(0) =~= Seq::<char>::empty());
    assert(s.skip(0) =~= s);
    while count < char_pos
        invariant
            s == text@,
            total == encode_utf8(s).len(),
            count <= s.len(),
            it.remaining() == s.skip(count as int),
            bytes == encode_utf8(s.take(count as int)).len(),
            bytes <= total,
            count <= char_pos,
        decreases s.len() - count,
    {
        match it.next() {
            None => {
                assert(s.take(count as int) =~= s);
                return bytes;
            },
            Some(c) => {
                assert(c == s[count as int]);
                proof {
                    lemma_encode_take_step(s, count as int);
                }
                bytes = bytes + utf8_width(c);
                assert(s.skip(count as int).drop_first() =~= s.skip(count + 1));
                count = count + 1;
            },
        }
    }
    bytes
}

/// The suffix that the window title adds after the file name.
pub open spec fn title_suffix() -> Seq<char> {
    seq![' ', '\u{2014}', ' ', 'P', 'r', 'e', 'v', 'i', 'e', 'w']
}

/// `s` with every trailing copy of the non-empty `suffix` removed.
pub open spec fn strip_suffixes(s: Seq<char>, suffix: Seq<char>) -> Seq<char>
    decreases s.len(),
{
    if suffix.len() > 0 && s.len() >= suffix.len() && s.subrange(
        s.len() - suffix.len(),
        s.len() as int,
    ) == suffix {
        strip_suffixes(s.subrange(0, s.len() - suffix.len()), suffix)
    } else {
        s
    }
}

/// The number of bytes at the start of the window title `title` that name
/// the file: the title without its trailing " — Preview" (every copy of it).
pub fn file_name_len(title: &str) -> (n: usize)
    ensures
        n == encode_utf8(strip_suffixes(title@, title_suffix())).len(),
{
    broadcast use vstd::string::group_string_axioms;

    let total = text_total(title);
    let ghost s = title@;
    let chars = collect_chars(title);
    let suffix: [char; 10] = [' ', '\u{2014}', ' ', 'P', 'r', 'e', 'v', 'i', 'e', 'w'];
    assert(suffix@ =~= title_suffix());
    let mut end: usize = chars.len();
    assert(s.take(end as int) =~= s);
    while end >= 10 && ends_with_at(&chars, end, &suffix)
        invariant
            chars@ == s,
            suffix@ == title_suffix(),
            end <= s.len(),
            strip_suffixes(s.take(end as int), title_suffix()) == strip_suffixes(s, title_suffix()),
        decreases end,
    {
        let ghost t = s.take(end as int);
        assert(t.subrange(t.len() - 10, t.len() as int) == title_suffix());
        assert(t.subrange(0, t.len() - 10) =~= s.take(end - 10));
        end = end - 10;
    }
    let ghost t = s.take(end as int);
    assert(!(t.len() >= 10 && t.subrange(t.len() - 10, t.len() as int) == title_suffix())) by {
        if end >= 10 {
            assert(t.subrange(t.len() - 10, t.len() as int) =~= s.subrange(end - 10, end as int));
        }
    }
    assert(strip_suffixes(t, title_suffix()) == t);
    prefix_bytes(&chars, end, total)
}

/// The number of UTF-8 bytes of `text`.
fn text_total(text: &str) -> (n: usize)
    ensures
        n == encode_utf8(text@).len(),
{
    text.as_bytes().len()
}

/// The characters of `text`.
fn collect_chars(text: &str) -> (v: Vec<char>)
    ensures
        v@ == text@,
{
    broadcast use vstd::string::group_string_axioms;

    let ghost s = text@;
    let mut it = text.chars();
    let mut v: Vec<char> = Vec::new();
    assert(s.skip(0) =~= s);
    loop
        invariant
            s == text@,
            v@.len() <= s.len(),
            v@ == s.take(v@.len() as int),
            it.remaining() == s.skip(v@.len() as int),
        decreases s.len() - v@.len(),
    {
        match it.next() {
            None => {
                assert(v@ =~= s);
                return v;
            },
            Some(c) => {
                let ghost k = v@.len() as int;
                assert(c == s[k]);
                v.push(c);
                assert(v@ =~= s.take(k + 1));
                assert(s.skip(k).drop_first() =~= s.skip(k + 1));
            },
        }
    }
}

/// Whether the first `end` characters of `chars` end with `suffix`.
fn ends_with_at(chars: &Vec<char>, end: usize, suffix: &[char; 10]) -> (b: bool)
    requires
        10 <= end <= chars@.len(),
    ensures
        b == (chars@.take(end as int).subrange(end - 10, end as int) == suffix@),
{
    let start = end - 10;
    let mut i: usize = 0;
    while i < 10
        invariant
            start == end - 10,
            10 <= end <= chars@.len(),
            i <= 10,
            forall|j: int| 0 <= j < i ==> chars@[start + j] == suffix@[j],
        decreases 10 - i,
    {
        if chars[start + i] != suffix[i] {
            assert(chars@.take(end as int).subrange(end - 10, end as int)[i as int] != suffix@[i as int]);
            return false;
        }
        i = i + 1;
    }
    assert(chars@.take(end as int).subrange(end - 10, end as int) =~= suffix@);
    true
}

/// The number of UTF-8 bytes of the first `end` characters.
fn prefix_bytes(chars: &Vec<char>, end: usize, total: usize) -> (n: usize)
    requires
        end <= chars@.len(),
        total == encode_utf8(chars@).len(),
    ensures
        n == encode_utf8(chars@.take(end as int)).len(),
{
    let ghost s = chars@;
    let mut n: usize = 0;
    let mut i: usize = 0;
    assert(s.take(0) =~= Seq::<char>::empty());
    while i < end
        invariant
            s == chars@,
            end <= s.len(),
            total == encode_utf8(s).len(),
            i <= end,
            n == encode_utf8(s.take(i as int)).len(),
            n <= total,
        decreases end - i,
    {
        proof {
            lemma_encode_take_step(s, i as int);
        }
        n = n + utf8_width(chars[i]);
        i = i + 1;
    }
    n
}

} // verus!
