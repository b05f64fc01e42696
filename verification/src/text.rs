use vstd::prelude::*;

verus! {

/// Appends `c` to `s` by `String::push`: the text grows by exactly that character.
#[verifier::external_body]
pub(crate) fn push_char(s: &mut String, c: char)
    ensures
        final(s)@ == old(s)@.push(c),
{
    s.push(c)
}

/// The text with every line feed replaced by a comma and a space, as
/// `str::replace('\n', ", ")` gives it.
pub open spec fn newlines_as_commas(s: Seq<char>) -> Seq<char>
    decreases s.len(),
{
    if s.len() == 0 {
        Seq::empty()
    } else if s.last() == '\n' {
        newlines_as_commas(s.drop_last()) + seq![',', ' ']
    } else {
        newlines_as_commas(s.drop_last()).push(s.last())
    }
}

/// Text with its line feeds replaced holds no line feed: it is one line.
pub proof fn lemma_newlines_as_commas_one_line(s: Seq<char>)
    ensures
        forall|i: int| 0 <= i < newlines_as_commas(s).len() ==> #[trigger] newlines_as_commas(s)[i] != '\n',
    decreases s.len(),
{
    if s.len() > 0 {
        let prev = newlines_as_commas(s.drop_last());
        lemma_newlines_as_commas_one_line(s.drop_last());
        let r = newlines_as_commas(s);
        assert forall|i: int| 0 <= i < r.len() implies #[trigger] r[i] != '\n' by {
            if i < prev.len() {
                assert(r[i] == prev[i]);
            }
        }
    }
}

/// Replaces each line feed of `s` by `", "`.
pub fn replace_newlines(s: &str) -> (res: String)
    ensures
        res@ == newlines_as_commas(s@),
{
    let n = s.unicode_len();
    let mut res = String::new();
    let mut i: usize = 0;
    while i < n
        invariant
            n == s@.len(),
            i <= n,
            res@ == newlines_as_commas(s@.subrange(0, i as int)),
        decreases n - i,
    {
        let c = s.get_char(i);
        assert(s@.subrange(0, i + 1).drop_last() == s@.subrange(0, i as int));
        if c == '\n' {
            push_char(&mut res, ',');
            push_char(&mut res, ' ');
            assert(res@ == newlines_as_commas(s@.subrange(0, i as int)) + seq![',', ' ']);
        } else {
            push_char(&mut res, c);
        }
        i = i + 1;
    }
    assert(s@.subrange(0, n as int) == s@);
    res
}

/// The lowercase hexadecimal digit for a value below sixteen.
pub open spec fn hex_digit(n: int) -> char {
    if n < 10 {
        (48 + n) as char
    } else {
        (87 + n) as char
    }
}

/// Whether `c` is one of `0-9` or `a-f`.
pub open spec fn is_lower_hex_char(c: char) -> bool {
    ('0' <= c && c <= '9') || ('a' <= c && c <= 'f')
}

/// Each byte as two lowercase hexadecimal digits, high half first.
pub open spec fn hex_lower(bytes: Seq<u8>) -> Seq<char>
    decreases bytes.len(),
{
    if bytes.len() == 0 {
        Seq::empty()
    } else {
        hex_lower(bytes.drop_last()) + seq![
            hex_digit(bytes.last() as int / 16),
            hex_digit(bytes.last() as int % 16),
        ]
    }
}

/// Lowercase hexadecimal text has two digits per byte and nothing else.
pub proof fn lemma_hex_lower_shape(bytes: Seq<u8>)
    ensures
        hex_lower(bytes).len() == 2 * bytes.len(),
        forall|i: int| 0 <= i < hex_lower(bytes).len() ==> is_lower_hex_char(#[trigger] hex_lower(bytes)[i]),
    decreases bytes.len(),
{
    if bytes.len() > 0 {
        lemma_hex_lower_shape(bytes.drop_last());
    }
}

fn hex_digit_exec(n: u8) -> (c: char)
    requires
        n < 16,
    ensures
        c == hex_digit(n as int),
{
    if n < 10 {
        (48u8 + n) as char
    } else {
        (87u8 + n) as char
    }
}

/// Encodes `bytes` in lowercase hexadecimal.
pub fn to_hex_lower(bytes: &[u8]) -> (res: String)
    ensures
        res@ == hex_lower(bytes@),
{
    let mut res = String::new();
    let mut i: usize = 0;
    while i < bytes.len()
        invariant
            i <= bytes@.len(),
            res@ == hex_lower(bytes@.subrange(0, i as int)),
        decreases bytes@.len() - i,
    {
        let b = bytes[i];
        assert(bytes@.subrange(0, i + 1).drop_last() == bytes@.subrange(0, i as int));
        push_char(&mut res, hex_digit_exec(b / 16));
        push_char(&mut res, hex_digit_exec(b % 16));
        i = i + 1;
    }
    assert(bytes@.subrange(0, bytes@.len() as int) == bytes@);
    res
}

} // verus!
