use crate::text::{
    append_bytes, append_text, escape, escape_spec, normalize_linefeeds, normalize_spec, utf8,
};
use vstd::prelude::*;

verus! {

/// A blob or file held by a form: its bytes, its media type and the file name it was given
/// (empty when it has none).
pub struct FormBlob {
    pub filename: String,
    pub content_type: String,
    pub bytes: Vec<u8>,
}

/// The value of one form entry.
pub enum FormValue {
    Text(String),
    Blob(FormBlob),
}

/// One entry of a form: a field name and its value.
pub struct FormEntry {
    pub name: String,
    pub value: FormValue,
}

/// A form: its entries in the order in which they were appended.
pub struct FormData {
    pub entries: Vec<FormEntry>,
}

/// The bytes that open every part: the boundary line and the disposition with the field's
/// name, up to and including the closing quote of the name.
pub open spec fn disposition(boundary: Seq<char>, name: Seq<char>) -> Seq<u8> {
    utf8("--"@) + utf8(boundary) + utf8("\r\nContent-Disposition: form-data"@) + utf8(
        "; name=\""@,
    ) + utf8(escape_spec(normalize_spec(name))) + utf8("\""@)
}

/// The part of a text field.
pub open spec fn text_part(boundary: Seq<char>, name: Seq<char>, value: Seq<char>) -> Seq<u8> {
    disposition(boundary, name) + utf8("\r\n\r\n"@) + utf8(normalize_spec(value)) + utf8("\r\n"@)
}

/// What follows the field's name in the header of a blob's part: the file name, where there
/// is one, and the end of the disposition line.
pub open spec fn filename_clause(filename: Seq<char>) -> Seq<u8> {
    if filename.len() > 0 {
        utf8("; filename=\""@) + utf8(escape_spec(filename)) + utf8("\"\r\n"@)
    } else {
        utf8("\r\n"@)
    }
}

/// The header of a blob's part, up to and including the empty line before the content.
pub open spec fn blob_header(
    boundary: Seq<char>,
    name: Seq<char>,
    filename: Seq<char>,
    content_type: Seq<char>,
) -> Seq<u8> {
    disposition(boundary, name) + filename_clause(filename) + utf8("Content-Type: "@) + utf8(
        content_type,
    ) + utf8("\r\n\r\n"@)
}

/// The part of a blob: header, content, line end.
pub open spec fn blob_part(boundary: Seq<char>, name: Seq<char>, blob: FormBlob) -> Seq<u8> {
    blob_header(boundary, name, blob.filename@, blob.content_type@) + blob.bytes@ + utf8("\r\n"@)
}

/// The part of one entry.
pub open spec fn part_bytes(boundary: Seq<char>, entry: FormEntry) -> Seq<u8> {
    match entry.value {
        FormValue::Text(value) => text_part(boundary, entry.name@, value@),
        FormValue::Blob(blob) => blob_part(boundary, entry.name@, blob),
    }
}

/// The line that ends a multipart body.
pub open spec fn closing(boundary: Seq<char>) -> Seq<u8> {
    utf8("--"@) + utf8(boundary) + utf8("--"@)
}

/// The parts of the first `n` entries, one behind the other.
pub open spec fn parts_bytes(boundary: Seq<char>, entries: Seq<FormEntry>, n: int) -> Seq<u8>
    decreases n,
{
    if n <= 0 {
        Seq::empty()
    } else {
        parts_bytes(boundary, entries, n - 1) + part_bytes(boundary, entries[n - 1])
    }
}

/// The multipart body of a form: the part of every entry in order, then the closing line.
pub open spec fn body_bytes(boundary: Seq<char>, entries: Seq<FormEntry>) -> Seq<u8> {
    parts_bytes(boundary, entries, entries.len() as int) + closing(boundary)
}

/// Appends the opening of a part for the field `name`.
pub fn append_disposition(out: &mut Vec<u8>, boundary: &str, name: &str)
    ensures
        final(out)@ == old(out)@ + disposition(boundary@, name@),
{
    let ghost before = out@;
    let normalized = normalize_linefeeds(name);
    let escaped = escape(normalized.as_str());
    append_text(out, "--");
    append_text(out, boundary);
    append_text(out, "\r\nContent-Disposition: form-data");
    append_text(out, "; name=\"");
    append_text(out, escaped.as_str());
    append_text(out, "\"");
    assert(out@ =~= before + disposition(boundary@, name@));
}

/// Appends the header of a blob's part.
pub fn append_blob_header(
    out: &mut Vec<u8>,
    boundary: &str,
    name: &str,
    filename: &str,
    content_type: &str,
)
    ensures
        final(out)@ == old(out)@ + blob_header(boundary@, name@, filename@, content_type@),
{
    let ghost before = out@;
    append_disposition(out, boundary, name);
    if !filename.is_empty() {
        let escaped = escape(filename);
        append_text(out, "; filename=\"");
        append_text(out, escaped.as_str());
        append_text(out, "\"\r\n");
    } else {
        append_text(out, "\r\n");
    }
    append_text(out, "Content-Type: ");
    append_text(out, content_type);
    append_text(out, "\r\n\r\n");
    assert(out@ =~= before + blob_header(boundary@, name@, filename@, content_type@));
}

/// Appends the part of one entry.
pub fn append_part(out: &mut Vec<u8>, boundary: &str, entry: &FormEntry)
    ensures
        final(out)@ == old(out)@ + part_bytes(boundary@, *entry),
{
    let ghost before = out@;
    match &entry.value {
        FormValue::Text(value) => {
            let normalized = normalize_linefeeds(value.as_str());
            append_disposition(out, boundary, entry.name.as_str());
            append_text(out, "\r\n\r\n");
            append_text(out, normalized.as_str());
            append_text(out, "\r\n");
            assert(out@ =~= before + text_part(boundary@, entry.name@, value@));
        },
        FormValue::Blob(blob) => {
            append_blob_header(
                out,
                boundary,
                entry.name.as_str(),
                blob.filename.as_str(),
                blob.content_type.as_str(),
            );
            append_bytes(out, blob.bytes.as_slice());
            append_text(out, "\r\n");
            assert(out@ =~= before + blob_part(boundary@, entry.name@, *blob));
        },
    }
}

/// Appends the closing line.
pub fn append_closing(out: &mut Vec<u8>, boundary: &str)
    ensures
        final(out)@ == old(out)@ + closing(boundary@),
{
    let ghost before = out@;
    append_text(out, "--");
    append_text(out, boundary);
    append_text(out, "--");
    assert(out@ =~= before + closing(boundary@));
}

/// Encodes a form as a multipart body with the given boundary: one part per entry, in the
/// form's order, then the closing line.
pub fn parse_form_data_to_array(form: &FormData, boundary: &str) -> (body: Vec<u8>)
    ensures
        body@ == body_bytes(boundary@, form.entries@),
{
    let mut body: Vec<u8> = Vec::new();
    let mut i: usize = 0;
    while i < form.entries.len()
        invariant
            i <= form.entries.len(),
            body@ == parts_bytes(boundary@, form.entries@, i as int),
        decreases form.entries.len() - i,
    {
        append_part(&mut body, boundary, &form.entries[i]);
        i = i + 1;
    }
    append_closing(&mut body, boundary);
    body
}

/// The first `n` pieces, one behind the other.
pub open spec fn joined(pieces: Seq<Vec<u8>>, n: int) -> Seq<u8>
    decreases n,
{
    if n <= 0 {
        Seq::empty()
    } else {
        joined(pieces, n - 1) + pieces[n - 1]@
    }
}

/// Pieces beyond the first `n` do not change what the first `n` join to.
proof fn lemma_joined_push(pieces: Seq<Vec<u8>>, piece: Vec<u8>, n: int)
    requires
        0 <= n <= pieces.len(),
    ensures
        joined(pieces.push(piece), n) == joined(pieces, n),
    decreases n,
{
    if n > 0 {
        lemma_joined_push(pieces, piece, n - 1);
    }
}

/// What the pieces hold, piece by piece.
pub open spec fn piece_views(pieces: Seq<Vec<u8>>) -> Seq<Seq<u8>> {
    Seq::new(pieces.len(), |i: int| pieces[i]@)
}

/// The pieces of one entry: a text field is one piece; a blob is three, its header, its
/// content and the line end.
pub open spec fn entry_pieces(boundary: Seq<char>, entry: FormEntry) -> Seq<Seq<u8>> {
    match entry.value {
        FormValue::Text(_) => seq![part_bytes(boundary, entry)],
        FormValue::Blob(blob) => seq![
            blob_header(boundary, entry.name@, blob.filename@, blob.content_type@),
            blob.bytes@,
            utf8("\r\n"@),
        ],
    }
}

/// The pieces of the first `n` entries, in order.
pub open spec fn form_pieces(boundary: Seq<char>, entries: Seq<FormEntry>, n: int) -> Seq<
    Seq<u8>,
>
    decreases n,
{
    if n <= 0 {
        Seq::empty()
    } else {
        form_pieces(boundary, entries, n - 1) + entry_pieces(boundary, entries[n - 1])
    }
}

/// Pushes a piece and says what the pieces then hold and join to.
fn push_piece(pieces: &mut Vec<Vec<u8>>, piece: Vec<u8>)
    ensures
        final(pieces)@ == old(pieces)@.push(piece),
        piece_views(final(pieces)@) == piece_views(old(pieces)@).push(piece@),
        joined(final(pieces)@, final(pieces)@.len() as int) == joined(
            old(pieces)@,
            old(pieces)@.len() as int,
        ) + piece@,
{
    proof {
        lemma_joined_push(pieces@, piece, pieces@.len() as int);
    }
    let ghost before = pieces@;
    pieces.push(piece);
    assert(piece_views(pieces@) =~= piece_views(before).push(piece@));
}

/// The parts of a form, each as a byte vector of its own: for a text field one piece, for a
/// blob its header, its content and the line end; the closing line comes last.
pub fn extract_body_in_memory(form: &FormData, boundary: &str) -> (pieces: Vec<Vec<u8>>)
    ensures
        piece_views(pieces@) == form_pieces(
            boundary@,
            form.entries@,
            form.entries@.len() as int,
        ).push(closing(boundary@)),
        joined(pieces@, pieces@.len() as int) == body_bytes(boundary@, form.entries@),
{
    let mut pieces: Vec<Vec<u8>> = Vec::new();
    let mut i: usize = 0;
    while i < form.entries.len()
        invariant
            i <= form.entries.len(),
            joined(pieces@, pieces@.len() as int) == parts_bytes(
                boundary@,
                form.entries@,
                i as int,
            ),
            piece_views(pieces@) == form_pieces(boundary@, form.entries@, i as int),
        decreases form.entries.len() - i,
    {
        let ghost before = joined(pieces@, pieces@.len() as int);
        let ghost held = piece_views(pieces@);
        let entry = &form.entries[i];
        match &entry.value {
            FormValue::Text(_) => {
                let mut piece: Vec<u8> = Vec::new();
                append_part(&mut piece, boundary, entry);
                assert(piece@ =~= part_bytes(boundary@, *entry));
                push_piece(&mut pieces, piece);
                assert(piece_views(pieces@) =~= held + entry_pieces(boundary@, *entry));
            },
            FormValue::Blob(blob) => {
                let mut header: Vec<u8> = Vec::new();
                append_blob_header(
                    &mut header,
                    boundary,
                    entry.name.as_str(),
                    blob.filename.as_str(),
                    blob.content_type.as_str(),
                );
                let mut content: Vec<u8> = Vec::new();
                append_bytes(&mut content, blob.bytes.as_slice());
                let mut line_end: Vec<u8> = Vec::new();
                append_text(&mut line_end, "\r\n");
                assert(header@ + content@ + line_end@ =~= part_bytes(boundary@, *entry));
                push_piece(&mut pieces, header);
                push_piece(&mut pieces, content);
                push_piece(&mut pieces, line_end);
                assert(joined(pieces@, pieces@.len() as int) =~= before + (header@ + content@
                    + line_end@));
                assert(content@ =~= blob.bytes@);
                assert(piece_views(pieces@) =~= held + entry_pieces(boundary@, *entry));
            },
        }
        i = i + 1;
    }
    let mut last: Vec<u8> = Vec::new();
    append_closing(&mut last, boundary);
    assert(last@ =~= closing(boundary@));
    push_piece(&mut pieces, last);
    pieces
}

/// Encodes a form as a multipart body, part by part, and joins the pieces.
pub fn parse_form_data_in_memory(form: &FormData, boundary: &str) -> (body: Vec<u8>)
    ensures
        body@ == body_bytes(boundary@, form.entries@),
{
    let pieces = extract_body_in_memory(form, boundary);
    let mut body: Vec<u8> = Vec::new();
    let mut i: usize = 0;
    while i < pieces.len()
        invariant
            i <= pieces.len(),
            body@ == joined(pieces@, i as int),
        decreases pieces.len() - i,
    {
        append_bytes(&mut body, pieces[i].as_slice());
        i = i + 1;
    }
    body
}

/// Where the part of entry `i` begins in the body.
pub open spec fn part_offset(boundary: Seq<char>, entries: Seq<FormEntry>, i: int) -> int {
    parts_bytes(boundary, entries, i).len() as int
}

/// The parts of the first `m` entries begin with the parts of the first `n`, for `n <= m`.
proof fn lemma_parts_extend(boundary: Seq<char>, entries: Seq<FormEntry>, n: int, m: int)
    requires
        0 <= n <= m,
    ensures
        parts_bytes(boundary, entries, n).len() <= parts_bytes(boundary, entries, m).len(),
        parts_bytes(boundary, entries, m).subrange(
            0,
            parts_bytes(boundary, entries, n).len() as int,
        ) == parts_bytes(boundary, entries, n),
    decreases m - n,
{
    if n < m {
        lemma_parts_extend(boundary, entries, n, m - 1);
        assert(parts_bytes(boundary, entries, m).subrange(
            0,
            parts_bytes(boundary, entries, n).len() as int,
        ) =~= parts_bytes(boundary, entries, m - 1).subrange(
            0,
            parts_bytes(boundary, entries, n).len() as int,
        ));
    } else {
        assert(parts_bytes(boundary, entries, m).subrange(
            0,
            parts_bytes(boundary, entries, n).len() as int,
        ) =~= parts_bytes(boundary, entries, n));
    }
}

/// Every part opens with the boundary line and one `Content-Disposition` header that
/// names the field.
pub proof fn lemma_part_opens_with_disposition(boundary: Seq<char>, entry: FormEntry)
    ensures
        disposition(boundary, entry.name@).len() <= part_bytes(boundary, entry).len(),
        part_bytes(boundary, entry).subrange(0, disposition(boundary, entry.name@).len() as int)
            == disposition(boundary, entry.name@),
{
    assert(part_bytes(boundary, entry).subrange(
        0,
        disposition(boundary, entry.name@).len() as int,
    ) =~= disposition(boundary, entry.name@));
}

/// The body of a form is framed part by part: the bytes from one part's offset to the
/// next are exactly the part of that entry, so the body holds one part for each entry, in
/// order; and what follows the last part is the closing line and nothing else.
pub proof fn lemma_body_framing(boundary: Seq<char>, entries: Seq<FormEntry>)
    ensures
        part_offset(boundary, entries, 0) == 0,
        forall|i: int|
            0 <= i < entries.len() ==> part_offset(boundary, entries, i) <= #[trigger] part_offset(
                boundary,
                entries,
                i + 1,
            ) <= body_bytes(boundary, entries).len() && body_bytes(boundary, entries).subrange(
                part_offset(boundary, entries, i),
                part_offset(boundary, entries, i + 1),
            ) == part_bytes(boundary, entries[i]),
        body_bytes(boundary, entries).subrange(
            part_offset(boundary, entries, entries.len() as int),
            body_bytes(boundary, entries).len() as int,
        ) == closing(boundary),
{
    let body = body_bytes(boundary, entries);
    let n = entries.len() as int;
    assert forall|i: int| 0 <= i < n implies part_offset(boundary, entries, i)
        <= #[trigger] part_offset(boundary, entries, i + 1) <= body.len() && body.subrange(
        part_offset(boundary, entries, i),
        part_offset(boundary, entries, i + 1),
    ) == part_bytes(boundary, entries[i]) by {
        lemma_parts_extend(boundary, entries, i + 1, n);
        let upto = parts_bytes(boundary, entries, i + 1);
        assert(body.subrange(0, upto.len() as int) =~= parts_bytes(boundary, entries, n).subrange(
            0,
            upto.len() as int,
        ));
        assert(body.subrange(
            part_offset(boundary, entries, i),
            part_offset(boundary, entries, i + 1),
        ) =~= upto.subrange(part_offset(boundary, entries, i), upto.len() as int));
        assert(upto.subrange(part_offset(boundary, entries, i), upto.len() as int) =~= part_bytes(
            boundary,
            entries[i],
        ));
    }
    assert(body.subrange(part_offset(boundary, entries, n), body.len() as int) =~= closing(
        boundary,
    ));
}

} // verus!
