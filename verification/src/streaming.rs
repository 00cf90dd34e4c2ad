use crate::constants::STREAM_CHUNK_SIZE;
use crate::formdata::{
    append_blob_header, append_closing, append_part, blob_header, blob_part, body_bytes, closing,
    parse_form_data_in_memory, parts_bytes, text_part, FormBlob, FormData, FormEntry, FormValue,
};
use crate::text::{append_bytes, append_text, utf8};
use vstd::prelude::*;
use vstd::slice::slice_subrange;

verus! {

/// A blob that waits to be streamed: the field it belongs to, the blob, and how far it has
/// been read (`None` before its first chunk).
pub struct File {
    pub key: String,
    pub blob: FormBlob,
    pub read_idx: Option<usize>,
}

/// The blobs of a form that are still to be streamed, first in the queue first, and the
/// boundary of the body.
pub struct FormDataStreamer {
    pub files: Vec<File>,
    pub boundary: String,
}

/// How a form's body is produced: whole, or chunk by chunk.
pub enum FormDataParser {
    InMemory,
    Streamer(FormDataStreamer),
}

/// The offset of the next byte to read from a file.
pub open spec fn file_start(file: File) -> int {
    match file.read_idx {
        None => 0,
        Some(i) => i as int,
    }
}

/// The offset at which the next chunk of a file ends: a full chunk further, or the end of
/// the blob where less is left.
pub open spec fn chunk_end(size: int, start: int) -> int {
    if start + STREAM_CHUNK_SIZE < size {
        start + STREAM_CHUNK_SIZE
    } else {
        size
    }
}

/// What is still to come of one file: its header unless a chunk was read, the bytes not
/// yet read, and the line end.
pub open spec fn file_rest(boundary: Seq<char>, file: File) -> Seq<u8> {
    (if file.read_idx is None {
        blob_header(boundary, file.key@, file.blob.filename@, file.blob.content_type@)
    } else {
        Seq::empty()
    }) + file.blob.bytes@.subrange(file_start(file), file.blob.bytes@.len() as int) + utf8(
        "\r\n"@,
    )
}

/// What is still to come of a queue of files, without the closing line.
pub open spec fn files_rest(boundary: Seq<char>, files: Seq<File>) -> Seq<u8>
    decreases files.len(),
{
    if files.len() == 0 {
        Seq::empty()
    } else {
        file_rest(boundary, files[0]) + files_rest(boundary, files.skip(1))
    }
}

/// The chunks that a queue of files still owes: at least one for each file, and one for
/// every full chunk that is left of it.
pub open spec fn files_work(files: Seq<File>) -> nat
    decreases files.len(),
{
    if files.len() == 0 {
        0
    } else {
        (1 + files[0].blob.bytes@.len() - file_start(files[0])) as nat + files_work(
            files.skip(1),
        )
    }
}

/// The text parts among the first `n` entries, in order.
pub open spec fn text_parts(boundary: Seq<char>, entries: Seq<FormEntry>, n: int) -> Seq<u8>
    decreases n,
{
    if n <= 0 {
        Seq::empty()
    } else {
        match entries[n - 1].value {
            FormValue::Text(value) => text_parts(boundary, entries, n - 1) + text_part(
                boundary,
                entries[n - 1].name@,
                value@,
            ),
            FormValue::Blob(_) => text_parts(boundary, entries, n - 1),
        }
    }
}

/// The blob parts among the first `n` entries, in order.
pub open spec fn blob_parts(boundary: Seq<char>, entries: Seq<FormEntry>, n: int) -> Seq<u8>
    decreases n,
{
    if n <= 0 {
        Seq::empty()
    } else {
        match entries[n - 1].value {
            FormValue::Text(_) => blob_parts(boundary, entries, n - 1),
            FormValue::Blob(blob) => blob_parts(boundary, entries, n - 1) + blob_part(
                boundary,
                entries[n - 1].name@,
                blob,
            ),
        }
    }
}

/// The blobs among the first `n` entries as unread files, in order.
pub open spec fn blob_files(entries: Seq<FormEntry>, n: int) -> Seq<File>
    decreases n,
{
    if n <= 0 {
        Seq::empty()
    } else {
        match entries[n - 1].value {
            FormValue::Text(_) => blob_files(entries, n - 1),
            FormValue::Blob(blob) => blob_files(entries, n - 1).push(
                File { key: entries[n - 1].name, blob: blob, read_idx: None },
            ),
        }
    }
}

/// Whether one of the entries is a blob of more than one chunk.
pub open spec fn has_large_blob(entries: Seq<FormEntry>) -> bool {
    exists|i: int|
        0 <= i < entries.len() && (#[trigger] entries[i].value matches FormValue::Blob(blob)
            && blob.bytes@.len() > STREAM_CHUNK_SIZE)
}

/// Where the next chunk of a blob starts and ends: it starts at the read index, or at 0
/// before the first chunk, and runs for one chunk or to the end of the blob.
pub fn calculate_indices(blob: &FormBlob, read_idx: Option<usize>) -> (range: (usize, usize))
    ensures
        range.0 == (match read_idx {
            None => 0,
            Some(i) => i as int,
        }),
        range.1 == chunk_end(blob.bytes@.len() as int, range.0 as int),
{
    let start: usize = match read_idx {
        None => 0,
        Some(i) => i,
    };
    let size: usize = blob.bytes.len();
    if start < size && size - start > STREAM_CHUNK_SIZE {
        (start, start + STREAM_CHUNK_SIZE)
    } else {
        (start, size)
    }
}

/// Whether the form holds a blob that is larger than one chunk, so that its body is
/// streamed.
pub fn can_stream(form: &FormData) -> (large: bool)
    ensures
        large == has_large_blob(form.entries@),
{
    let mut i: usize = 0;
    while i < form.entries.len()
        invariant
            i <= form.entries.len(),
            forall|j: int|
                0 <= j < i ==> !(#[trigger] form.entries@[j].value matches FormValue::Blob(blob)
                    && blob.bytes@.len() > STREAM_CHUNK_SIZE),
        decreases form.entries.len() - i,
    {
        match &form.entries[i].value {
            FormValue::Blob(blob) => {
                if blob.bytes.len() > STREAM_CHUNK_SIZE {
                    return true;
                }
            },
            FormValue::Text(_) => {},
        }
        i = i + 1;
    }
    false
}

impl FormDataStreamer {
    /// Every file's read index lies within its blob.
    pub open spec fn wf(&self) -> bool {
        forall|i: int|
            0 <= i < self.files@.len() ==> file_start(#[trigger] self.files@[i])
                <= self.files@[i].blob.bytes@.len()
    }

    /// Everything that the streamer will still yield: what is left of each file and, after
    /// the last file, the closing line. Nothing when no file is queued.
    pub open spec fn pending(&self) -> Seq<u8> {
        if self.files@.len() == 0 {
            Seq::empty()
        } else {
            files_rest(self.boundary@, self.files@) + closing(self.boundary@)
        }
    }

    /// The chunk that the next call of `stream` yields, given that a file is queued.
    pub open spec fn next_chunk(&self) -> Seq<u8> {
        let file = self.files@[0];
        let size = file.blob.bytes@.len() as int;
        let start = file_start(file);
        let end = chunk_end(size, start);
        (if file.read_idx is None {
            blob_header(self.boundary@, file.key@, file.blob.filename@, file.blob.content_type@)
        } else {
            Seq::empty()
        }) + file.blob.bytes@.subrange(start, end) + (if end == size {
            utf8("\r\n"@) + (if self.files@.len() == 1 {
                closing(self.boundary@)
            } else {
                Seq::empty()
            })
        } else {
            Seq::empty()
        })
    }

    /// The queue after the next call of `stream`, given that a file is queued: the first
    /// file is gone when it was read to its end, and has moved on by one chunk otherwise.
    pub open spec fn next_files(&self) -> Seq<File> {
        let file = self.files@[0];
        let size = file.blob.bytes@.len() as int;
        let end = chunk_end(size, file_start(file));
        if end == size {
            self.files@.skip(1)
        } else {
            self.files@.update(
                0,
                File { key: file.key, blob: file.blob, read_idx: Some(end as usize) },
            )
        }
    }

    /// Splits a form for streaming: the text parts, encoded, and a streamer that holds the
    /// blobs, unread, in the form's order.
    pub fn new(form: FormData, boundary: String) -> (made: (Vec<u8>, FormDataStreamer))
        ensures
            made.0@ == text_parts(boundary@, form.entries@, form.entries@.len() as int),
            made.1.files@ == blob_files(form.entries@, form.entries@.len() as int),
            made.1.boundary@ == boundary@,
            made.1.wf(),
    {
        let ghost all = form.entries@;
        let mut entries = form.entries;
        let mut fields: Vec<u8> = Vec::new();
        let mut files: Vec<File> = Vec::new();
        let ghost mut n: int = 0;
        assert(entries@ =~= all.subrange(0, all.len() as int));
        while entries.len() > 0
            invariant
                0 <= n <= all.len(),
                entries@ == all.subrange(n, all.len() as int),
                fields@ == text_parts(boundary@, all, n),
                files@ == blob_files(all, n),
                forall|i: int| 0 <= i < files@.len() ==> (#[trigger] files@[i]).read_idx is None,
            decreases entries.len(),
        {
            let entry = entries.remove(0);
            assert(entry == all[n]);
            assert(entries@ =~= all.subrange(n + 1, all.len() as int));
            match entry.value {
                FormValue::Text(value) => {
                    let text = FormEntry { name: entry.name, value: FormValue::Text(value) };
                    append_part(&mut fields, boundary.as_str(), &text);
                },
                FormValue::Blob(blob) => {
                    files.push(File { key: entry.name, blob: blob, read_idx: None });
                },
            }
            proof {
                n = n + 1;
            }
        }
        (fields, FormDataStreamer { files, boundary })
    }

    /// Yields the next chunk of the body, or `None` when no file is left. A chunk carries at
    /// most one chunk size of a blob's bytes; the first chunk of a file begins with the
    /// file's header, its last chunk ends with the line end, and the last chunk of the
    /// last file ends with the closing line.
    pub fn stream(&mut self) -> (chunk: Option<Vec<u8>>)
        requires
            old(self).wf(),
        ensures
            final(self).wf(),
            final(self).boundary == old(self).boundary,
            old(self).files@.len() == 0 ==> chunk is None && final(self).files@ == old(
                self,
            ).files@,
            old(self).files@.len() > 0 ==> (chunk matches Some(bytes) && bytes@ == old(
                self,
            ).next_chunk()) && final(self).files@ == old(self).next_files(),
    {
        if self.files.len() == 0 {
            return None;
        }
        let ghost queue = self.files@;
        let file = self.files.remove(0);
        assert(self.files@ =~= queue.skip(1));
        let size = file.blob.bytes.len();
        let (start, end) = calculate_indices(&file.blob, file.read_idx);
        let mut bytes: Vec<u8> = Vec::new();
        if file.read_idx.is_none() {
            append_blob_header(
                &mut bytes,
                self.boundary.as_str(),
                file.key.as_str(),
                file.blob.filename.as_str(),
                file.blob.content_type.as_str(),
            );
        }
        append_bytes(&mut bytes, slice_subrange(file.blob.bytes.as_slice(), start, end));
        if end == size {
            append_text(&mut bytes, "\r\n");
            if self.files.len() == 0 {
                append_closing(&mut bytes, self.boundary.as_str());
            }
            assert(bytes@ =~= old(self).next_chunk());
        } else {
            let moved = File { key: file.key, blob: file.blob, read_idx: Some(end) };
            self.files.insert(0, moved);
            assert(self.files@ =~= queue.update(0, moved));
            assert(bytes@ =~= old(self).next_chunk());
        }
        Some(bytes)
    }
}

impl FormDataParser {
    /// Chooses how a form's body is produced. A form with a blob of more than one chunk is
    /// streamed: the text parts come back at once, the blobs wait in the streamer. Any other
    /// form is encoded whole.
    pub fn new(form: FormData, boundary: String) -> (made: (Vec<u8>, FormDataParser))
        ensures
            has_large_blob(form.entries@) ==> made.0@ == text_parts(
                boundary@,
                form.entries@,
                form.entries@.len() as int,
            ) && (made.1 matches FormDataParser::Streamer(streamer) && (streamer.files@
                == blob_files(form.entries@, form.entries@.len() as int) && streamer.boundary@
                == boundary@ && streamer.wf())),
            !has_large_blob(form.entries@) ==> made.0@ == body_bytes(boundary@, form.entries@)
                && made.1 is InMemory,
    {
        if can_stream(&form) {
            let (fields, streamer) = FormDataStreamer::new(form, boundary);
            (fields, FormDataParser::Streamer(streamer))
        } else {
            (parse_form_data_in_memory(&form, boundary.as_str()), FormDataParser::InMemory)
        }
    }
}

/// A queue with one more file at its end still owes what it owed, and then that file.
proof fn lemma_files_rest_push(boundary: Seq<char>, files: Seq<File>, file: File)
    ensures
        files_rest(boundary, files.push(file)) == files_rest(boundary, files) + file_rest(
            boundary,
            file,
        ),
    decreases files.len(),
{
    let grown = files.push(file);
    if files.len() == 0 {
        assert(grown.skip(1) =~= Seq::<File>::empty());
        assert(files_rest(boundary, grown.skip(1)) =~= Seq::<u8>::empty());
        assert(files_rest(boundary, files) =~= Seq::<u8>::empty());
        assert(files_rest(boundary, grown) =~= files_rest(boundary, files) + file_rest(
            boundary,
            file,
        ));
    } else {
        assert(grown.skip(1) =~= files.skip(1).push(file));
        lemma_files_rest_push(boundary, files.skip(1), file);
        assert(files_rest(boundary, grown) =~= files_rest(boundary, files) + file_rest(
            boundary,
            file,
        ));
    }
}

/// A streamer that was just made owes, for every blob of the form, exactly the part that
/// the blob has in a body encoded whole.
pub proof fn lemma_streamer_owes_blob_parts(boundary: Seq<char>, entries: Seq<FormEntry>, n: int)
    requires
        0 <= n <= entries.len(),
    ensures
        files_rest(boundary, blob_files(entries, n)) == blob_parts(boundary, entries, n),
    decreases n,
{
    if n > 0 {
        lemma_streamer_owes_blob_parts(boundary, entries, n - 1);
        match entries[n - 1].value {
            FormValue::Text(_) => {},
            FormValue::Blob(blob) => {
                let file = File { key: entries[n - 1].name, blob: blob, read_idx: None };
                lemma_files_rest_push(boundary, blob_files(entries, n - 1), file);
                assert(blob.bytes@.subrange(0, blob.bytes@.len() as int) =~= blob.bytes@);
                assert(file_rest(boundary, file) =~= blob_part(
                    boundary,
                    entries[n - 1].name@,
                    blob,
                ));
            },
        }
    }
}

/// One call of `stream` on a streamer with a queued file loses nothing and ends: the chunk
/// it yields, followed by everything that the streamer owes afterwards, is what the
/// streamer owed before; the chunk carries at most one chunk size of the blob's bytes;
/// and the number of chunks still owed goes down.
pub proof fn lemma_stream_conserves(before: FormDataStreamer, after: FormDataStreamer)
    requires
        before.wf(),
        before.files@.len() > 0,
        after.files@ == before.next_files(),
        after.boundary@ == before.boundary@,
    ensures
        before.next_chunk() + after.pending() == before.pending(),
        chunk_end(before.files@[0].blob.bytes@.len() as int, file_start(before.files@[0]))
            - file_start(before.files@[0]) <= STREAM_CHUNK_SIZE,
        files_work(after.files@) < files_work(before.files@),
{
    let boundary = before.boundary@;
    let file = before.files@[0];
    let bytes = file.blob.bytes@;
    let size = bytes.len() as int;
    let start = file_start(file);
    let end = chunk_end(size, start);
    vstd::std_specs::vec::axiom_spec_len(&file.blob.bytes);
    let rest = before.files@.skip(1);
    let chunk = before.next_chunk();
    assert(files_rest(boundary, before.files@) == file_rest(boundary, file) + files_rest(
        boundary,
        rest,
    ));
    assert(files_work(before.files@) == (1 + size - start) as nat + files_work(rest));
    if end == size {
        assert(after.files@ == rest);
        if before.files@.len() == 1 {
            assert(rest.len() == 0);
            assert(files_rest(boundary, rest) =~= Seq::<u8>::empty());
            assert(after.pending() =~= Seq::<u8>::empty());
            assert(chunk =~= file_rest(boundary, file) + closing(boundary));
            assert(before.pending() =~= file_rest(boundary, file) + closing(boundary));
        } else {
            assert(rest.len() > 0);
            assert(after.pending() == files_rest(boundary, rest) + closing(boundary));
            assert(chunk =~= file_rest(boundary, file));
            assert(before.pending() =~= file_rest(boundary, file) + (files_rest(boundary, rest)
                + closing(boundary)));
        }
        assert(chunk + after.pending() =~= before.pending());
    } else {
        let moved = File { key: file.key, blob: file.blob, read_idx: Some(end as usize) };
        assert(after.files@ == before.files@.update(0, moved));
        assert(after.files@[0] == moved);
        assert(after.files@.skip(1) =~= rest);
        assert(files_rest(boundary, after.files@) == file_rest(boundary, moved) + files_rest(
            boundary,
            rest,
        ));
        assert(files_work(after.files@) == (1 + size - end) as nat + files_work(rest));
        assert(bytes.subrange(start, size) =~= bytes.subrange(start, end) + bytes.subrange(
            end,
            size,
        ));
        assert(file_rest(boundary, file) =~= chunk + file_rest(boundary, moved));
        assert(after.pending() == files_rest(boundary, after.files@) + closing(boundary));
        assert(chunk + after.pending() =~= before.pending());
    }
}

/// No text field comes behind a blob among the first `n` entries.
pub open spec fn texts_come_first(entries: Seq<FormEntry>, n: int) -> bool {
    forall|i: int, j: int|
        0 <= i < j < n && (#[trigger] entries[i]).value is Blob ==> (#[trigger] entries[j]).value
            is Blob
}

/// While only text fields have come, the text parts are all the parts and there are no
/// blob parts.
proof fn lemma_only_texts(boundary: Seq<char>, entries: Seq<FormEntry>, n: int)
    requires
        0 <= n <= entries.len(),
        forall|i: int| 0 <= i < n ==> (#[trigger] entries[i]).value is Text,
    ensures
        text_parts(boundary, entries, n) == parts_bytes(boundary, entries, n),
        blob_parts(boundary, entries, n) == Seq::<u8>::empty(),
    decreases n,
{
    if n > 0 {
        lemma_only_texts(boundary, entries, n - 1);
    }
}

/// Where no text field comes behind a blob, the text parts followed by the blob parts
/// are the parts in the form's order.
proof fn lemma_texts_then_blobs(boundary: Seq<char>, entries: Seq<FormEntry>, n: int)
    requires
        0 <= n <= entries.len(),
        texts_come_first(entries, n),
    ensures
        text_parts(boundary, entries, n) + blob_parts(boundary, entries, n) == parts_bytes(
            boundary,
            entries,
            n,
        ),
    decreases n,
{
    if n > 0 {
        if entries[n - 1].value is Text {
            assert forall|i: int| 0 <= i < n implies (#[trigger] entries[i]).value is Text by {
                if i < n - 1 && entries[i].value is Blob {
                    assert(entries[n - 1].value is Blob);
                }
            }
            lemma_only_texts(boundary, entries, n);
            assert(text_parts(boundary, entries, n) + blob_parts(boundary, entries, n)
                =~= parts_bytes(boundary, entries, n));
        } else {
            lemma_texts_then_blobs(boundary, entries, n - 1);
            assert(text_parts(boundary, entries, n) + blob_parts(boundary, entries, n)
                =~= parts_bytes(boundary, entries, n));
        }
    } else {
        assert(text_parts(boundary, entries, n) + blob_parts(boundary, entries, n)
            =~= parts_bytes(boundary, entries, n));
    }
}

/// A streamed form is the form encoded whole, where the form holds a blob and no text
/// field comes behind a blob: what a streamer hands out at once, followed by everything
/// that it owes, is the body of the form. Where a text field comes behind a blob the two
/// differ in the order of the parts, for the text parts are handed out first.
pub proof fn lemma_streamed_is_whole(entries: Seq<FormEntry>, streamer: FormDataStreamer)
    requires
        texts_come_first(entries, entries.len() as int),
        streamer.files@ == blob_files(entries, entries.len() as int),
        streamer.files@.len() > 0,
    ensures
        text_parts(streamer.boundary@, entries, entries.len() as int) + streamer.pending()
            == body_bytes(streamer.boundary@, entries),
{
    let n = entries.len() as int;
    let boundary = streamer.boundary@;
    lemma_texts_then_blobs(boundary, entries, n);
    lemma_streamer_owes_blob_parts(boundary, entries, n);
    assert(text_parts(boundary, entries, n) + streamer.pending() =~= body_bytes(
        boundary,
        entries,
    ));
}

} // verus!
