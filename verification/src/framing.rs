use crate::formdata::{
    body_bytes, closing, disposition, lemma_body_framing, part_bytes, part_offset, parts_bytes,
    FormEntry, FormValue,
};
use crate::text::{escape_spec, normalize_spec, utf8};
use vstd::prelude::*;

verus! {

/// The pattern stands in the text at the place `i`.
pub open spec fn occurs_at(text: Seq<u8>, pattern: Seq<u8>, i: int) -> bool {
    &&& 0 <= i
    &&& i + pattern.len() <= text.len()
    &&& forall|k: int| 0 <= k < pattern.len() ==> text[i + k] == #[trigger] pattern[k]
}

/// The pattern stands nowhere in the text.
pub open spec fn absent(text: Seq<u8>, pattern: Seq<u8>) -> bool {
    forall|i: int| !#[trigger] occurs_at(text, pattern, i)
}

/// A byte that the fixed texts of a part put around everything that a form brings along:
/// line feed, carriage return, space or double quote.
pub open spec fn is_stop(byte: u8) -> bool {
    byte == 10 || byte == 13 || byte == 32 || byte == 34
}

/// The bytes hold no stop byte.
pub open spec fn stop_free(bytes: Seq<u8>) -> bool {
    forall|k: int| 0 <= k < bytes.len() ==> !is_stop(#[trigger] bytes[k])
}

/// No two dashes stand side by side.
pub open spec fn no_double_dash(bytes: Seq<u8>) -> bool {
    forall|k: int| 0 <= k < bytes.len() - 1 ==> !(#[trigger] bytes[k] == 45 && bytes[k + 1] == 45)
}

/// A stretch of text that no occurrence of the pattern can touch: it begins and ends
/// with a stop byte and does not hold the pattern.
pub open spec fn barrier(stretch: Seq<u8>, pattern: Seq<u8>) -> bool {
    &&& stretch.len() >= 1
    &&& is_stop(stretch[0])
    &&& is_stop(stretch[stretch.len() - 1])
    &&& absent(stretch, pattern)
}

/// The line that opens every part and, with two more dashes, closes the body: two dashes
/// and the boundary.
pub open spec fn delimiter(boundary: Seq<char>) -> Seq<u8> {
    utf8("--"@) + utf8(boundary)
}

/// A boundary that can be told from everything around it: it is not empty, does not
/// begin with a dash, and holds no line feed, carriage return, space or double quote.
pub open spec fn plain_boundary(boundary: Seq<char>) -> bool {
    &&& utf8(boundary).len() > 0
    &&& utf8(boundary)[0] != 45
    &&& stop_free(utf8(boundary))
}

/// Nothing that the entry brings along holds the delimiter: not its name, value, file
/// name or media type as they are written into the body, and not its content.
pub open spec fn entry_is_free(boundary: Seq<char>, entry: FormEntry) -> bool {
    &&& absent(utf8(escape_spec(normalize_spec(entry.name@))), delimiter(boundary))
    &&& match entry.value {
        FormValue::Text(value) => absent(utf8(normalize_spec(value@)), delimiter(boundary)),
        FormValue::Blob(blob) => {
            &&& absent(utf8(escape_spec(blob.filename@)), delimiter(boundary))
            &&& absent(utf8(blob.content_type@), delimiter(boundary))
            &&& absent(blob.bytes@, delimiter(boundary))
        },
    }
}

/// Nothing that the form brings along holds the delimiter.
pub open spec fn form_is_free(boundary: Seq<char>, entries: Seq<FormEntry>) -> bool {
    forall|j: int| 0 <= j < entries.len() ==> entry_is_free(boundary, #[trigger] entries[j])
}

/// What follows the boundary in every part, up to the quote that opens the field's name.
pub open spec fn opening_text() -> Seq<u8> {
    utf8("\r\nContent-Disposition: form-data"@) + utf8("; name=\""@)
}

/// What stands between the name of a text field and its value.
pub open spec fn before_value() -> Seq<u8> {
    utf8("\""@) + utf8("\r\n\r\n"@)
}

/// What ends a value, a blob's content and a disposition line.
pub open spec fn line_end() -> Seq<u8> {
    utf8("\r\n"@)
}

/// What stands between the name of a blob's field and its file name.
pub open spec fn before_filename() -> Seq<u8> {
    utf8("\""@) + utf8("; filename=\""@)
}

/// What stands between a blob's file name and its media type.
pub open spec fn before_type_named() -> Seq<u8> {
    utf8("\"\r\n"@) + utf8("Content-Type: "@)
}

/// What stands between the name of a blob's field and its media type, where the blob has
/// no file name.
pub open spec fn before_type_unnamed() -> Seq<u8> {
    utf8("\""@) + utf8("\r\n"@) + utf8("Content-Type: "@)
}

/// What stands between a blob's media type and its content.
pub open spec fn before_content() -> Seq<u8> {
    utf8("\r\n\r\n"@)
}

/// The fixed text is a barrier for every pattern that begins with two dashes.
proof fn lemma_opening_text_is_barrier(pattern: Seq<u8>)
    requires
        pattern.len() >= 2,
        pattern[0] == 45,
        pattern[1] == 45,
    ensures
        barrier(opening_text(), pattern),
{
    reveal_strlit("\r\nContent-Disposition: form-data");
    vstd::string::is_ascii_spec_bytes("\r\nContent-Disposition: form-data");
    reveal_strlit("; name=\"");
    vstd::string::is_ascii_spec_bytes("; name=\"");
    assert(utf8("\r\nContent-Disposition: form-data"@) =~= seq![13u8, 10, 67, 111, 110, 116, 101, 110, 116, 45, 68, 105, 115, 112, 111, 115, 105, 116, 105, 111, 110, 58, 32, 102, 111, 114, 109, 45, 100, 97, 116, 97]);
    assert(utf8("; name=\""@) =~= seq![59u8, 32, 110, 97, 109, 101, 61, 34]);
    let bytes = seq![13u8, 10, 67, 111, 110, 116, 101, 110, 116, 45, 68, 105, 115, 112, 111, 115, 105, 116, 105, 111, 110, 58, 32, 102, 111, 114, 109, 45, 100, 97, 116, 97, 59, 32, 110, 97, 109, 101, 61, 34];
    assert(opening_text() =~= bytes);
    assert(no_double_dash(bytes));
    lemma_double_dash_is_absent(bytes, pattern);
}

/// The fixed text is a barrier for every pattern that begins with two dashes.
proof fn lemma_before_value_is_barrier(pattern: Seq<u8>)
    requires
        pattern.len() >= 2,
        pattern[0] == 45,
        pattern[1] == 45,
    ensures
        barrier(before_value(), pattern),
{
    reveal_strlit("\"");
    vstd::string::is_ascii_spec_bytes("\"");
    reveal_strlit("\r\n\r\n");
    vstd::string::is_ascii_spec_bytes("\r\n\r\n");
    assert(utf8("\""@) =~= seq![34u8]);
    assert(utf8("\r\n\r\n"@) =~= seq![13u8, 10, 13, 10]);
    let bytes = seq![34u8, 13, 10, 13, 10];
    assert(before_value() =~= bytes);
    assert(no_double_dash(bytes));
    lemma_double_dash_is_absent(bytes, pattern);
}

/// The fixed text is a barrier for every pattern that begins with two dashes.
proof fn lemma_line_end_is_barrier(pattern: Seq<u8>)
    requires
        pattern.len() >= 2,
        pattern[0] == 45,
        pattern[1] == 45,
    ensures
        barrier(line_end(), pattern),
{
    reveal_strlit("\r\n");
    vstd::string::is_ascii_spec_bytes("\r\n");
    assert(utf8("\r\n"@) =~= seq![13u8, 10]);
    let bytes = seq![13u8, 10];
    assert(line_end() =~= bytes);
    assert(no_double_dash(bytes));
    lemma_double_dash_is_absent(bytes, pattern);
}

/// The fixed text is a barrier for every pattern that begins with two dashes.
proof fn lemma_before_filename_is_barrier(pattern: Seq<u8>)
    requires
        pattern.len() >= 2,
        pattern[0] == 45,
        pattern[1] == 45,
    ensures
        barrier(before_filename(), pattern),
{
    reveal_strlit("\"");
    vstd::string::is_ascii_spec_bytes("\"");
    reveal_strlit("; filename=\"");
    vstd::string::is_ascii_spec_bytes("; filename=\"");
    assert(utf8("\""@) =~= seq![34u8]);
    assert(utf8("; filename=\""@) =~= seq![59u8, 32, 102, 105, 108, 101, 110, 97, 109, 101, 61, 34]);
    let bytes = seq![34u8, 59, 32, 102, 105, 108, 101, 110, 97, 109, 101, 61, 34];
    assert(before_filename() =~= bytes);
    assert(no_double_dash(bytes));
    lemma_double_dash_is_absent(bytes, pattern);
}

/// The fixed text is a barrier for every pattern that begins with two dashes.
proof fn lemma_before_type_named_is_barrier(pattern: Seq<u8>)
    requires
        pattern.len() >= 2,
        pattern[0] == 45,
        pattern[1] == 45,
    ensures
        barrier(before_type_named(), pattern),
{
    reveal_strlit("\"\r\n");
    vstd::string::is_ascii_spec_bytes("\"\r\n");
    reveal_strlit("Content-Type: ");
    vstd::string::is_ascii_spec_bytes("Content-Type: ");
    assert(utf8("\"\r\n"@) =~= seq![34u8, 13, 10]);
    assert(utf8("Content-Type: "@) =~= seq![67u8, 111, 110, 116, 101, 110, 116, 45, 84, 121, 112, 101, 58, 32]);
    let bytes = seq![34u8, 13, 10, 67, 111, 110, 116, 101, 110, 116, 45, 84, 121, 112, 101, 58, 32];
    assert(before_type_named() =~= bytes);
    assert(no_double_dash(bytes));
    lemma_double_dash_is_absent(bytes, pattern);
}

/// The fixed text is a barrier for every pattern that begins with two dashes.
proof fn lemma_before_type_unnamed_is_barrier(pattern: Seq<u8>)
    requires
        pattern.len() >= 2,
        pattern[0] == 45,
        pattern[1] == 45,
    ensures
        barrier(before_type_unnamed(), pattern),
{
    reveal_strlit("\"");
    vstd::string::is_ascii_spec_bytes("\"");
    reveal_strlit("\r\n");
    vstd::string::is_ascii_spec_bytes("\r\n");
    reveal_strlit("Content-Type: ");
    vstd::string::is_ascii_spec_bytes("Content-Type: ");
    assert(utf8("\""@) =~= seq![34u8]);
    assert(utf8("\r\n"@) =~= seq![13u8, 10]);
    assert(utf8("Content-Type: "@) =~= seq![67u8, 111, 110, 116, 101, 110, 116, 45, 84, 121, 112, 101, 58, 32]);
    let bytes = seq![34u8, 13, 10, 67, 111, 110, 116, 101, 110, 116, 45, 84, 121, 112, 101, 58, 32];
    assert(before_type_unnamed() =~= bytes);
    assert(no_double_dash(bytes));
    lemma_double_dash_is_absent(bytes, pattern);
}

/// The fixed text is a barrier for every pattern that begins with two dashes.
proof fn lemma_before_content_is_barrier(pattern: Seq<u8>)
    requires
        pattern.len() >= 2,
        pattern[0] == 45,
        pattern[1] == 45,
    ensures
        barrier(before_content(), pattern),
{
    reveal_strlit("\r\n\r\n");
    vstd::string::is_ascii_spec_bytes("\r\n\r\n");
    assert(utf8("\r\n\r\n"@) =~= seq![13u8, 10, 13, 10]);
    let bytes = seq![13u8, 10, 13, 10];
    assert(before_content() =~= bytes);
    assert(no_double_dash(bytes));
    lemma_double_dash_is_absent(bytes, pattern);
}

/// A pattern that begins with two dashes stands nowhere in a text without two dashes
/// side by side.
proof fn lemma_double_dash_is_absent(text: Seq<u8>, pattern: Seq<u8>)
    requires
        pattern.len() >= 2,
        pattern[0] == 45,
        pattern[1] == 45,
        no_double_dash(text),
    ensures
        absent(text, pattern),
{
    assert forall|i: int| !#[trigger] occurs_at(text, pattern, i) by {
        if occurs_at(text, pattern, i) {
            assert(text[i + 0int] == pattern[0]);
            assert(text[i + 1] == pattern[1]);
            assert(text[i] == 45 && text[i + 1] == 45);
        }
    }
}

/// The delimiter: its length, its two dashes, and that it holds no stop byte where the
/// boundary holds none.
proof fn lemma_delimiter(boundary: Seq<char>)
    ensures
        delimiter(boundary).len() == 2 + utf8(boundary).len(),
        delimiter(boundary)[0] == 45,
        delimiter(boundary)[1] == 45,
        forall|k: int|
            0 <= k < utf8(boundary).len() ==> delimiter(boundary)[k + 2] == #[trigger] utf8(
                boundary,
            )[k],
        stop_free(utf8(boundary)) ==> stop_free(delimiter(boundary)),
        closing(boundary) == delimiter(boundary) + seq![45u8, 45u8],
{
    reveal_strlit("--");
    vstd::string::is_ascii_spec_bytes("--");
    assert(utf8("--"@) =~= seq![45u8, 45u8]);
    let d = delimiter(boundary);
    let b = utf8(boundary);
    if stop_free(b) {
        assert forall|k: int| 0 <= k < d.len() implies !is_stop(#[trigger] d[k]) by {
            if k >= 2 {
                assert(d[k] == b[k - 2]);
            }
        }
    }
    assert(closing(boundary) =~= delimiter(boundary) + seq![45u8, 45u8]);
}

/// An occurrence of a pattern without stop bytes in a text with a barrier in it lies
/// wholly before the barrier or wholly behind it.
proof fn lemma_barrier_parts(
    before: Seq<u8>,
    stretch: Seq<u8>,
    behind: Seq<u8>,
    pattern: Seq<u8>,
    i: int,
)
    requires
        pattern.len() > 0,
        stop_free(pattern),
        barrier(stretch, pattern),
        occurs_at(before + stretch + behind, pattern, i),
    ensures
        occurs_at(before, pattern, i) || (i >= before.len() + stretch.len() && occurs_at(
            behind,
            pattern,
            i - before.len() - stretch.len(),
        )),
{
    let text = before + stretch + behind;
    let a = before.len() as int;
    let w = stretch.len() as int;
    if i + pattern.len() <= a {
        assert forall|k: int| 0 <= k < pattern.len() implies before[i + k] == #[trigger] pattern[k] by {
            assert(text[i + k] == pattern[k]);
            assert(text[i + k] == before[i + k]);
        }
    } else if i >= a + w {
        assert forall|k: int| 0 <= k < pattern.len() implies behind[i - a - w + k]
            == #[trigger] pattern[k] by {
            assert(text[i + k] == pattern[k]);
            assert(text[i + k] == behind[i + k - a - w]);
        }
    } else if i <= a {
        let k = a - i;
        assert(text[i + k] == pattern[k]);
        assert(text[a] == stretch[0]);
        assert(!is_stop(pattern[k]));
        assert(false);
    } else if i + pattern.len() >= a + w {
        let k = a + w - 1 - i;
        assert(text[i + k] == pattern[k]);
        assert(text[a + w - 1] == stretch[w - 1]);
        assert(!is_stop(pattern[k]));
        assert(false);
    } else {
        assert forall|k: int| 0 <= k < pattern.len() implies stretch[i - a + k]
            == #[trigger] pattern[k] by {
            assert(text[i + k] == pattern[k]);
            assert(text[i + k] == stretch[i + k - a]);
        }
        assert(occurs_at(stretch, pattern, i - a));
        assert(false);
    }
}

/// Two barriers with a text between them that does not hold the pattern are one
/// barrier.
proof fn lemma_barriers_join(first: Seq<u8>, between: Seq<u8>, second: Seq<u8>, pattern: Seq<u8>)
    requires
        pattern.len() > 0,
        stop_free(pattern),
        barrier(first, pattern),
        absent(between, pattern),
        barrier(second, pattern),
    ensures
        barrier(first + between + second, pattern),
{
    let whole = first + between + second;
    let empty = Seq::<u8>::empty();
    assert(whole[0] == first[0]);
    assert(whole[whole.len() - 1] == second[second.len() - 1]);
    assert forall|i: int| !#[trigger] occurs_at(whole, pattern, i) by {
        if occurs_at(whole, pattern, i) {
            assert(whole =~= empty + first + (between + second));
            lemma_barrier_parts(empty, first, between + second, pattern, i);
            assert(!occurs_at(empty, pattern, i));
            let j = i - first.len();
            assert(occurs_at(between + second, pattern, j));
            assert(between + second =~= between + second + empty);
            lemma_barrier_parts(between, second, empty, pattern, j);
            assert(!occurs_at(between, pattern, j));
            assert(!occurs_at(empty, pattern, j - between.len() - second.len()));
        }
    }
}

/// What follows the delimiter in the part of an entry.
pub open spec fn part_tail(entry: FormEntry) -> Seq<u8> {
    let name = utf8(escape_spec(normalize_spec(entry.name@)));
    match entry.value {
        FormValue::Text(value) => opening_text() + name + before_value() + utf8(
            normalize_spec(value@),
        ) + line_end(),
        FormValue::Blob(blob) => opening_text() + name + (if blob.filename@.len() > 0 {
            before_filename() + utf8(escape_spec(blob.filename@)) + before_type_named()
        } else {
            before_type_unnamed()
        }) + utf8(blob.content_type@) + before_content() + blob.bytes@ + line_end(),
    }
}

/// Pieces set one behind the other may be grouped at will.
proof fn lemma_regroup_text(
    d: Seq<u8>,
    h: Seq<u8>,
    n: Seq<u8>,
    name: Seq<u8>,
    q: Seq<u8>,
    rr: Seq<u8>,
    value: Seq<u8>,
    r: Seq<u8>,
)
    ensures
        d + h + n + name + q + rr + value + r == d + ((h + n) + name + (q + rr) + value + r),
        ((h + n) + name + (q + rr) + value + r).subrange(0, (h + n).len() as int) == h + n,
{
    assert(d + h + n + name + q + rr + value + r =~= d + ((h + n) + name + (q + rr) + value
        + r));
    assert(((h + n) + name + (q + rr) + value + r).subrange(0, (h + n).len() as int) =~= h
        + n);
}

/// Pieces set one behind the other may be grouped at will.
proof fn lemma_regroup_blob(
    d: Seq<u8>,
    h: Seq<u8>,
    n: Seq<u8>,
    name: Seq<u8>,
    q: Seq<u8>,
    clause: Seq<u8>,
    kind: Seq<u8>,
    rr: Seq<u8>,
    content: Seq<u8>,
    r: Seq<u8>,
)
    ensures
        d + h + n + name + q + clause + kind + rr + content + r == d + ((h + n) + name + (q
            + clause) + kind + rr + content + r),
        ((h + n) + name + (q + clause) + kind + rr + content + r).subrange(
            0,
            (h + n).len() as int,
        ) == h + n,
{
    assert(d + h + n + name + q + clause + kind + rr + content + r =~= d + ((h + n) + name + (q
        + clause) + kind + rr + content + r));
    assert(((h + n) + name + (q + clause) + kind + rr + content + r).subrange(
        0,
        (h + n).len() as int,
    ) =~= h + n);
}

/// A part is the delimiter and what follows it, and what follows it begins with the
/// opening text.
proof fn lemma_part_split(boundary: Seq<char>, entry: FormEntry)
    ensures
        part_bytes(boundary, entry) == delimiter(boundary) + part_tail(entry),
        part_tail(entry).len() >= opening_text().len(),
        part_tail(entry).subrange(0, opening_text().len() as int) == opening_text(),
{
    let d = delimiter(boundary);
    let h = utf8("\r\nContent-Disposition: form-data"@);
    let n = utf8("; name=\""@);
    let name = utf8(escape_spec(normalize_spec(entry.name@)));
    let q = utf8("\""@);
    let rr = utf8("\r\n\r\n"@);
    let r = utf8("\r\n"@);
    assert(disposition(boundary, entry.name@) == d + h + n + name + q);
    match entry.value {
        FormValue::Text(text) => {
            let value = utf8(normalize_spec(text@));
            lemma_regroup_text(d, h, n, name, q, rr, value, r);
            assert(part_bytes(boundary, entry) == d + h + n + name + q + rr + value + r);
            assert(part_tail(entry) == (h + n) + name + (q + rr) + value + r);
        },
        FormValue::Blob(blob) => {
            let kind = utf8(blob.content_type@);
            if blob.filename@.len() > 0 {
                let f = utf8("; filename=\""@);
                let file = utf8(escape_spec(blob.filename@));
                let qr = utf8("\"\r\n"@);
                let c = utf8("Content-Type: "@);
                let clause = f + file + qr + c;
                lemma_regroup_blob(d, h, n, name, q, clause, kind, rr, blob.bytes@, r);
                assert(part_bytes(boundary, entry) =~= d + h + n + name + q + clause + kind + rr
                    + blob.bytes@ + r);
                assert(q + clause =~= (q + f) + file + (qr + c));
                assert(part_tail(entry) == (h + n) + name + ((q + f) + file + (qr + c)) + kind
                    + rr + blob.bytes@ + r);
            } else {
                let c = utf8("Content-Type: "@);
                let clause = r + c;
                lemma_regroup_blob(d, h, n, name, q, clause, kind, rr, blob.bytes@, r);
                assert(part_bytes(boundary, entry) =~= d + h + n + name + q + clause + kind + rr
                    + blob.bytes@ + r);
                assert(q + clause =~= q + r + c);
                assert(part_tail(entry) == (h + n) + name + (q + r + c) + kind + rr
                    + blob.bytes@ + r);
            }
        },
    }
}

/// What follows the delimiter in a part is a barrier for the delimiter, where the
/// boundary is plain and the entry brings nothing along that holds the delimiter.
proof fn lemma_tail_is_barrier(boundary: Seq<char>, entry: FormEntry)
    requires
        plain_boundary(boundary),
        entry_is_free(boundary, entry),
    ensures
        barrier(part_tail(entry), delimiter(boundary)),
{
    let d = delimiter(boundary);
    lemma_delimiter(boundary);
    lemma_opening_text_is_barrier(d);
    lemma_before_value_is_barrier(d);
    lemma_line_end_is_barrier(d);
    lemma_before_filename_is_barrier(d);
    lemma_before_type_named_is_barrier(d);
    lemma_before_type_unnamed_is_barrier(d);
    lemma_before_content_is_barrier(d);
    let name = utf8(escape_spec(normalize_spec(entry.name@)));
    match entry.value {
        FormValue::Text(value) => {
            let first = opening_text() + name + before_value();
            lemma_barriers_join(opening_text(), name, before_value(), d);
            lemma_barriers_join(first, utf8(normalize_spec(value@)), line_end(), d);
            assert(part_tail(entry) == first + utf8(normalize_spec(value@)) + line_end());
        },
        FormValue::Blob(blob) => {
            let clause = if blob.filename@.len() > 0 {
                before_filename() + utf8(escape_spec(blob.filename@)) + before_type_named()
            } else {
                before_type_unnamed()
            };
            if blob.filename@.len() > 0 {
                lemma_barriers_join(
                    before_filename(),
                    utf8(escape_spec(blob.filename@)),
                    before_type_named(),
                    d,
                );
            }
            assert(barrier(clause, d));
            let first = opening_text() + name + clause;
            lemma_barriers_join(opening_text(), name, clause, d);
            let second = first + utf8(blob.content_type@) + before_content();
            lemma_barriers_join(first, utf8(blob.content_type@), before_content(), d);
            lemma_barriers_join(second, blob.bytes@, line_end(), d);
            assert(part_tail(entry) == second + blob.bytes@ + line_end());
        },
    }
}

/// The first `k` parts and the delimiter that follows them.
pub open spec fn upto_delimiter(boundary: Seq<char>, entries: Seq<FormEntry>, k: int) -> Seq<u8> {
    parts_bytes(boundary, entries, k) + delimiter(boundary)
}

/// In the first `k` parts and the delimiter behind them, the delimiter stands only where
/// a part begins and where that last delimiter begins. The result is the number of that
/// part.
proof fn lemma_delimiters_upto(
    boundary: Seq<char>,
    entries: Seq<FormEntry>,
    k: int,
    i: int,
) -> (j: int)
    requires
        plain_boundary(boundary),
        form_is_free(boundary, entries),
        0 <= k <= entries.len(),
        occurs_at(upto_delimiter(boundary, entries, k), delimiter(boundary), i),
    ensures
        0 <= j <= k,
        i == part_offset(boundary, entries, j),
    decreases k,
{
    let d = delimiter(boundary);
    lemma_delimiter(boundary);
    if k == 0 {
        assert(upto_delimiter(boundary, entries, 0) =~= d);
        0
    } else {
        let entry = entries[k - 1];
        let earlier = upto_delimiter(boundary, entries, k - 1);
        let tail = part_tail(entry);
        lemma_part_split(boundary, entry);
        lemma_tail_is_barrier(boundary, entry);
        assert(parts_bytes(boundary, entries, k) == parts_bytes(boundary, entries, k - 1)
            + part_bytes(boundary, entry));
        assert(upto_delimiter(boundary, entries, k) =~= earlier + tail + d);
        lemma_barrier_parts(earlier, tail, d, d, i);
        if occurs_at(earlier, d, i) {
            lemma_delimiters_upto(boundary, entries, k - 1, i)
        } else {
            assert(i - earlier.len() - tail.len() == 0);
            assert(parts_bytes(boundary, entries, k).len() == earlier.len() + tail.len());
            k
        }
    }
}

/// In the body of a form, the delimiter stands only where a part begins and where the
/// closing line begins. The result is the number of that part, or the number of parts for
/// the closing line.
pub proof fn lemma_delimiter_places(boundary: Seq<char>, entries: Seq<FormEntry>, i: int) -> (j:
    int)
    requires
        plain_boundary(boundary),
        form_is_free(boundary, entries),
        occurs_at(body_bytes(boundary, entries), delimiter(boundary), i),
    ensures
        0 <= j <= entries.len(),
        i == part_offset(boundary, entries, j),
{
    let d = delimiter(boundary);
    let n = entries.len() as int;
    let body = body_bytes(boundary, entries);
    let upto = upto_delimiter(boundary, entries, n);
    let end = part_offset(boundary, entries, n);
    lemma_delimiter(boundary);
    assert(body =~= upto + seq![45u8, 45u8]);
    if i + d.len() <= upto.len() {
        assert forall|k: int| 0 <= k < d.len() implies upto[i + k] == #[trigger] d[k] by {
            assert(body[i + k] == d[k]);
            assert(body[i + k] == upto[i + k]);
        }
        lemma_delimiters_upto(boundary, entries, n, i)
    } else {
        assert(upto.len() == end + d.len());
        assert(body.len() == end + d.len() + 2);
        assert(body[end + 2] == upto[end + 2]);
        assert(upto[end + 2] == d[2]);
        assert(d[0int + 2] == utf8(boundary)[0]);
        if i == end + 1 {
            assert(body[i + 1] == d[1]);
        } else {
            assert(i == end + 2);
            assert(body[i + 0int] == d[0]);
        }
        assert(false);
        0
    }
}

/// The text that opens every part: the delimiter, the line end, and the disposition up
/// to the quote that opens the field's name.
pub open spec fn part_opening(boundary: Seq<char>) -> Seq<u8> {
    delimiter(boundary) + opening_text()
}

/// What stands in the body behind the delimiter at the beginning of part `j`, and behind
/// the delimiter of the closing line.
proof fn lemma_behind_delimiters(boundary: Seq<char>, entries: Seq<FormEntry>, j: int)
    requires
        0 <= j <= entries.len(),
    ensures
        j < entries.len() ==> occurs_at(
            body_bytes(boundary, entries),
            part_opening(boundary),
            part_offset(boundary, entries, j),
        ) && part_offset(boundary, entries, j) + part_opening(boundary).len() <= part_offset(
            boundary,
            entries,
            j + 1,
        ),
        j == entries.len() ==> occurs_at(
            body_bytes(boundary, entries),
            closing(boundary),
            part_offset(boundary, entries, j),
        ) && part_offset(boundary, entries, j) + closing(boundary).len() == body_bytes(
            boundary,
            entries,
        ).len(),
{
    let body = body_bytes(boundary, entries);
    let n = entries.len() as int;
    let at = part_offset(boundary, entries, j);
    lemma_body_framing(boundary, entries);
    lemma_delimiter(boundary);
    if j < n {
        let next = part_offset(boundary, entries, j + 1);
        let part = part_bytes(boundary, entries[j]);
        let opening = part_opening(boundary);
        lemma_part_split(boundary, entries[j]);
        assert(body.subrange(at, next) == part);
        assert(part.len() == next - at);
        assert forall|k: int| 0 <= k < opening.len() implies body[at + k] == #[trigger] opening[k] by {
            assert(body.subrange(at, next)[k] == body[at + k]);
            if k >= delimiter(boundary).len() {
                let m = k - delimiter(boundary).len();
                assert(part_tail(entries[j]).subrange(0, opening_text().len() as int)[m]
                    == part_tail(entries[j])[m]);
            }
        }
    } else {
        let last = closing(boundary);
        assert(body.subrange(at, body.len() as int) == last);
        assert forall|k: int| 0 <= k < last.len() implies body[at + k] == #[trigger] last[k] by {
            assert(body.subrange(at, body.len() as int)[k] == body[at + k]);
        }
    }
}

/// The closing line stands in the body exactly once, at its end: where the boundary is
/// plain and nothing that the form brings along holds the delimiter, the closing line
/// stands where the last part ends, nothing follows it, and it stands nowhere else.
pub proof fn lemma_closing_stands_once(boundary: Seq<char>, entries: Seq<FormEntry>)
    requires
        plain_boundary(boundary),
        form_is_free(boundary, entries),
    ensures
        part_offset(boundary, entries, entries.len() as int) + closing(boundary).len()
            == body_bytes(boundary, entries).len(),
        forall|i: int|
            #[trigger] occurs_at(body_bytes(boundary, entries), closing(boundary), i) <==> i
                == part_offset(boundary, entries, entries.len() as int),
{
    let body = body_bytes(boundary, entries);
    let n = entries.len() as int;
    let d = delimiter(boundary);
    let last = closing(boundary);
    lemma_delimiter(boundary);
    lemma_behind_delimiters(boundary, entries, n);
    lemma_opening_text_is_barrier(d);
    assert forall|i: int| #[trigger] occurs_at(body, last, i) implies i == part_offset(
        boundary,
        entries,
        n,
    ) by {
        assert forall|k: int| 0 <= k < d.len() implies body[i + k] == #[trigger] d[k] by {
            assert(last[k] == d[k]);
            assert(body[i + k] == last[k]);
        }
        let j = lemma_delimiter_places(boundary, entries, i);
        if j < n {
            lemma_behind_delimiters(boundary, entries, j);
            let opening = part_opening(boundary);
            let m = d.len() as int;
            assert(body[i + m] == opening[m]);
            assert(opening[m] == opening_text()[0]);
            assert(body[i + m] == last[m]);
            assert(last[m] == 45);
            assert(false);
        }
    }
}

/// Every part has one disposition header, and the body holds no other: where the
/// boundary is plain and nothing that the form brings along holds the delimiter, the text
/// that opens a part stands in the body exactly where the parts begin, once for each
/// entry and in the order of the entries.
pub proof fn lemma_one_disposition_per_part(boundary: Seq<char>, entries: Seq<FormEntry>)
    requires
        plain_boundary(boundary),
        form_is_free(boundary, entries),
    ensures
        forall|j: int|
            0 <= j < entries.len() ==> #[trigger] part_offset(boundary, entries, j) < part_offset(
                boundary,
                entries,
                j + 1,
            ) && occurs_at(
                body_bytes(boundary, entries),
                part_opening(boundary),
                part_offset(boundary, entries, j),
            ),
        forall|i: int|
            #[trigger] occurs_at(body_bytes(boundary, entries), part_opening(boundary), i)
                ==> exists|j: int|
                0 <= j < entries.len() && i == part_offset(boundary, entries, j),
{
    let body = body_bytes(boundary, entries);
    let n = entries.len() as int;
    let d = delimiter(boundary);
    let opening = part_opening(boundary);
    lemma_delimiter(boundary);
    lemma_opening_text_is_barrier(d);
    assert forall|j: int| 0 <= j < n implies #[trigger] part_offset(boundary, entries, j)
        < part_offset(boundary, entries, j + 1) && occurs_at(
        body,
        opening,
        part_offset(boundary, entries, j),
    ) by {
        lemma_behind_delimiters(boundary, entries, j);
    }
    assert forall|i: int| #[trigger] occurs_at(body, opening, i) implies exists|j: int|
        0 <= j < n && i == part_offset(boundary, entries, j) by {
        assert forall|k: int| 0 <= k < d.len() implies body[i + k] == #[trigger] d[k] by {
            assert(opening[k] == d[k]);
            assert(body[i + k] == opening[k]);
        }
        let j = lemma_delimiter_places(boundary, entries, i);
        if j == n {
            lemma_behind_delimiters(boundary, entries, n);
            let last = closing(boundary);
            let m = d.len() as int;
            assert(body[i + m] == opening[m]);
            assert(opening[m] == opening_text()[0]);
            assert(body[i + m] == last[m]);
            assert(last[m] == 45);
            assert(false);
        }
        assert(0 <= j < n && i == part_offset(boundary, entries, j));
    }
}

} // verus!
