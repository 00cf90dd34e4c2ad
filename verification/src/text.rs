use vstd::prelude::*;
use vstd::std_specs::iter::IteratorSpec;

verus! {

broadcast use vstd::string::group_string_axioms;

/// `String::push` appends one character to the end of the string.
pub assume_specification[ String::push ](s: &mut String, ch: char)
    ensures
        final(s)@ == old(s)@.push(ch),
;

/// What `escape` makes of one character.
pub open spec fn escape_char(c: char) -> Seq<char> {
    if c == '\n' {
        seq!['%', '0', 'A']
    } else if c == '\r' {
        seq!['%', '0', 'D']
    } else if c == '"' {
        seq!['%', '2', '2']
    } else {
        seq![c]
    }
}

/// The text with every line feed, carriage return and double quote replaced by its
/// percent code.
pub open spec fn escape_spec(s: Seq<char>) -> Seq<char>
    decreases s.len(),
{
    if s.len() == 0 {
        Seq::empty()
    } else {
        escape_spec(s.drop_last()) + escape_char(s.last())
    }
}

/// Replaces every line feed by `%0A`, every carriage return by `%0D` and every double
/// quote by `%22`, and keeps every other character.
pub fn escape(s: &str) -> (out: String)
    ensures
        out@ == escape_spec(s@),
{
    let mut out = String::new();
    let mut it = s.chars();
    let ghost mut done: Seq<char> = Seq::empty();
    loop
        invariant
            done + it.remaining() == s@,
            out@ == escape_spec(done),
            it.obeys_prophetic_iter_laws(),
            it.decrease() is Some,
        decreases it.decrease()->0,
    {
        let ghost before = it;
        let next = it.next();
        match next {
            None => {
                proof {
                    assert(before.remaining().len() == 0);
                    assert(done =~= s@);
                }
                return out;
            },
            Some(c) => {
                proof {
                    let grown = done.push(c);
                    assert(grown.drop_last() =~= done);
                    assert(grown.last() == c);
                    assert(grown + it.remaining() =~= s@);
                    done = grown;
                }
                if c == '\n' {
                    out.push('%');
                    out.push('0');
                    out.push('A');
                } else if c == '\r' {
                    out.push('%');
                    out.push('0');
                    out.push('D');
                } else if c == '"' {
                    out.push('%');
                    out.push('2');
                    out.push('2');
                } else {
                    out.push(c);
                }
                assert(out@ =~= escape_spec(done.drop_last()) + escape_char(c));
            },
        }
    }
}

/// An escaped text holds no line feed, no carriage return and no double quote, so it
/// cannot end the quoted value or the header line that it is written into.
pub proof fn lemma_escaped_is_clean(s: Seq<char>)
    ensures
        forall|i: int|
            0 <= i < escape_spec(s).len() ==> {
                let c = #[trigger] escape_spec(s)[i];
                c != '\n' && c != '\r' && c != '"'
            },
    decreases s.len(),
{
    if s.len() > 0 {
        lemma_escaped_is_clean(s.drop_last());
        let head = escape_spec(s.drop_last());
        let tail = escape_char(s.last());
        assert forall|i: int| 0 <= i < escape_spec(s).len() implies {
            let c = #[trigger] escape_spec(s)[i];
            c != '\n' && c != '\r' && c != '"'
        } by {
            if i < head.len() {
                assert(escape_spec(s)[i] == head[i]);
            } else {
                assert(escape_spec(s)[i] == tail[i - head.len()]);
            }
        }
    }
}

/// What `normalize_linefeeds` makes of the character at `i`: a carriage return becomes a
/// line feed, a line feed directly behind a carriage return disappears.
pub open spec fn normalize_at(s: Seq<char>, i: int) -> Seq<char> {
    if s[i] == '\r' {
        seq!['\n']
    } else if s[i] == '\n' && i > 0 && s[i - 1] == '\r' {
        Seq::empty()
    } else {
        seq![s[i]]
    }
}

/// The first `n` characters of the text with every `\r\n` and every lone `\r` replaced by
/// `\n`.
pub open spec fn normalize_prefix(s: Seq<char>, n: int) -> Seq<char>
    decreases n,
{
    if n <= 0 {
        Seq::empty()
    } else {
        normalize_prefix(s, n - 1) + normalize_at(s, n - 1)
    }
}

/// The text with every `\r\n` and every lone `\r` replaced by `\n`.
pub open spec fn normalize_spec(s: Seq<char>) -> Seq<char> {
    normalize_prefix(s, s.len() as int)
}

/// A normalized text holds no carriage return.
pub proof fn lemma_normalized_has_no_cr(s: Seq<char>, n: int)
    requires
        0 <= n <= s.len(),
    ensures
        forall|i: int|
            0 <= i < normalize_prefix(s, n).len() ==> #[trigger] normalize_prefix(s, n)[i] != '\r',
    decreases n,
{
    if n > 0 {
        lemma_normalized_has_no_cr(s, n - 1);
        let head = normalize_prefix(s, n - 1);
        let tail = normalize_at(s, n - 1);
        assert forall|i: int| 0 <= i < normalize_prefix(s, n).len() implies #[trigger] normalize_prefix(
            s,
            n,
        )[i] != '\r' by {
            if i < head.len() {
                assert(normalize_prefix(s, n)[i] == head[i]);
            } else {
                assert(normalize_prefix(s, n)[i] == tail[i - head.len()]);
            }
        }
    }
}

/// Replaces every `\r\n` and every lone `\r` by `\n`.
pub fn normalize_linefeeds(value: &str) -> (out: String)
    ensures
        out@ == normalize_spec(value@),
{
    let mut out = String::new();
    let mut it = value.chars();
    let mut after_cr = false;
    let ghost mut n: int = 0;
    loop
        invariant
            0 <= n <= value@.len(),
            it.remaining() == value@.subrange(n, value@.len() as int),
            out@ == normalize_prefix(value@, n),
            after_cr == (n > 0 && value@[n - 1] == '\r'),
            it.obeys_prophetic_iter_laws(),
            it.decrease() is Some,
        decreases it.decrease()->0,
    {
        let ghost before = it;
        let next = it.next();
        match next {
            None => {
                assert(before.remaining().len() == 0);
                assert(n == value@.len());
                return out;
            },
            Some(c) => {
                assert(before.remaining().len() > 0);
                assert(c == value@[n]);
                assert(it.remaining() =~= value@.subrange(n + 1, value@.len() as int));
                if c == '\r' {
                    out.push('\n');
                    after_cr = true;
                } else if c == '\n' && after_cr {
                    after_cr = false;
                    assert(out@ =~= normalize_prefix(value@, n) + normalize_at(value@, n));
                } else {
                    out.push(c);
                    after_cr = false;
                }
                assert(out@ =~= normalize_prefix(value@, n) + normalize_at(value@, n));
                proof {
                    n = n + 1;
                }
            },
        }
    }
}

/// The UTF-8 encoding of a text.
pub open spec fn utf8(s: Seq<char>) -> Seq<u8> {
    vstd::utf8::encode_utf8(s)
}

/// Appends the UTF-8 bytes of `s` to `out`.
pub fn append_text(out: &mut Vec<u8>, s: &str)
    ensures
        final(out)@ == old(out)@ + utf8(s@),
{
    append_bytes(out, s.as_bytes());
}

/// Appends `bytes` to `out`.
pub fn append_bytes(out: &mut Vec<u8>, bytes: &[u8])
    ensures
        final(out)@ == old(out)@ + bytes@,
{
    let ghost before = out@;
    out.extend_from_slice(bytes);
    assert(out@ =~= before + bytes@);
}

/// The character of a decimal digit.
pub open spec fn digit_char(d: int) -> char {
    if d == 0 {
        '0'
    } else if d == 1 {
        '1'
    } else if d == 2 {
        '2'
    } else if d == 3 {
        '3'
    } else if d == 4 {
        '4'
    } else if d == 5 {
        '5'
    } else if d == 6 {
        '6'
    } else if d == 7 {
        '7'
    } else if d == 8 {
        '8'
    } else {
        '9'
    }
}

/// A number in decimal digits, without leading zeros.
pub open spec fn decimal_spec(n: nat) -> Seq<char>
    decreases n,
{
    if n < 10 {
        seq![digit_char(n as int)]
    } else {
        decimal_spec(n / 10).push(digit_char((n % 10) as int))
    }
}

/// Appends a number in decimal digits.
pub fn push_decimal(out: &mut String, n: u32)
    ensures
        final(out)@ == old(out)@ + decimal_spec(n as nat),
    decreases n,
{
    let ghost before = out@;
    if n >= 10 {
        push_decimal(out, n / 10);
    }
    let d: u32 = n % 10;
    let c = if d == 0 {
        '0'
    } else if d == 1 {
        '1'
    } else if d == 2 {
        '2'
    } else if d == 3 {
        '3'
    } else if d == 4 {
        '4'
    } else if d == 5 {
        '5'
    } else if d == 6 {
        '6'
    } else if d == 7 {
        '7'
    } else if d == 8 {
        '8'
    } else {
        '9'
    };
    out.push(c);
    assert(out@ =~= before + decimal_spec(n as nat));
}

/// A number in decimal digits.
pub fn decimal(n: u32) -> (out: String)
    ensures
        out@ == decimal_spec(n as nat),
{
    let mut out = String::new();
    push_decimal(&mut out, n);
    assert(out@ =~= decimal_spec(n as nat));
    out
}

/// Appends a text to a text.
pub fn push_text(out: &mut String, s: &str)
    ensures
        final(out)@ == old(out)@ + s@,
{
    out.append(s);
}

/// What `str::trim` leaves of a text.
pub uninterp spec fn trimmed(s: Seq<char>) -> Seq<char>;

/// What `str::to_uppercase` makes of a text.
pub uninterp spec fn uppercased(s: Seq<char>) -> Seq<char>;

/// `str::trim`: the text without the white space at its two ends.
#[verifier::external_body]
pub(crate) fn trim(s: &str) -> (inner: &str)
    ensures
        inner@ == trimmed(s@),
{
    s.trim()
}

/// `str::to_uppercase`: the text with every character in its upper case.
#[verifier::external_body]
pub(crate) fn to_uppercase(s: &str) -> (upper: String)
    ensures
        upper@ == uppercased(s@),
{
    s.to_uppercase()
}

} // verus!
