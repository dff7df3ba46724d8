//! The pipeline over a directory's files: every file that decodes as an image
//! is encoded and recorded under its name; the others are left out.
use vstd::prelude::*;
use crate::codec::{decode_image, encode_pixels, payload_of, rgba8_of, too_large, EncodeError};
use crate::document::{
    json_object_of, keys_unique, lemma_empty_json, lemma_upsert, lookup, upsert, Document,
    Entries,
};

verus! {

/// One file of the directory: its name and its bytes as read from disk.
pub struct SourceFile {
    pub name: String,
    pub bytes: Vec<u8>,
}

/// The outcome of a run: the document, and the total size in bytes of the
/// files that decoded (saturating at `u64::MAX`).
pub struct Encoded {
    pub document: Document,
    pub source_bytes: u64,
}

/// The entries that the files give, in order: each file that decodes writes
/// its payload under its name, a later one over an earlier.
pub open spec fn entries_of(files: Seq<SourceFile>) -> Entries
    decreases files.len(),
{
    if files.len() == 0 {
        Seq::empty()
    } else {
        let prev = entries_of(files.drop_last());
        let f = files.last();
        match rgba8_of(f.bytes@) {
            Some(px) => upsert(prev, f.name@, payload_of(px)),
            None => prev,
        }
    }
}

/// Total size of the files that decode as images.
pub open spec fn decoded_size(files: Seq<SourceFile>) -> nat
    decreases files.len(),
{
    if files.len() == 0 {
        0
    } else {
        let f = files.last();
        decoded_size(files.drop_last()) + if rgba8_of(f.bytes@) is Some {
            f.bytes@.len()
        } else {
            0
        }
    }
}

/// `n`, or `u64::MAX` where it is larger.
pub open spec fn capped(n: nat) -> u64 {
    if n > u64::MAX {
        u64::MAX
    } else {
        n as u64
    }
}

/// No file decodes to pixels whose compressed stream is too long for base64.
pub open spec fn all_encodable(files: Seq<SourceFile>) -> bool {
    forall|i: int| 0 <= i < files.len() ==> !(#[trigger] too_large(files[i].bytes@))
}

/// Encodes every file that decodes as an image and records its payload
/// under its name; files that do not decode are skipped. Succeeds unless a
/// decoded image is too large to be written in base64.
pub fn encode_files(files: &Vec<SourceFile>) -> (r: Result<Encoded, EncodeError>)
    ensures
        r is Ok <==> all_encodable(files@),
        r matches Ok(e) ==> e.document.wf() && e.document@ == entries_of(files@)
            && e.source_bytes == capped(decoded_size(files@)),
        r is Err ==> r == Err::<Encoded, EncodeError>(EncodeError::TooLarge),
{
    let mut doc = Document::new();
    let mut total: u64 = 0;
    let n = files.len();
    let mut i: usize = 0;
    while i < n
        invariant
            n == files@.len(),
            i <= n,
            doc.wf(),
            doc@ == entries_of(files@.subrange(0, i as int)),
            total == capped(decoded_size(files@.subrange(0, i as int))),
            forall|j: int| 0 <= j < i ==> !(#[trigger] too_large(files@[j].bytes@)),
        decreases n - i,
    {
        let f = &files[i];
        assert(files@.subrange(0, i + 1).drop_last() =~= files@.subrange(0, i as int));
        assert(files@.subrange(0, i + 1).last() == files@[i as int]);
        match decode_image(f.bytes.as_slice()) {
            Some(px) => {
                match encode_pixels(px.as_slice()) {
                    Ok(payload) => {
                        doc.insert(f.name.clone(), payload);
                        total = total.saturating_add(f.bytes.len() as u64);
                    },
                    Err(e) => {
                        assert(too_large(files@[i as int].bytes@));
                        return Err(e);
                    },
                }
            },
            None => {},
        }
        i += 1;
    }
    assert(files@.subrange(0, n as int) =~= files@);
    Ok(Encoded { document: doc, source_bytes: total })
}

/// What a run writes: the JSON text of the document, and the total size of
/// the files that decoded.
pub struct Rendered {
    pub json: String,
    pub source_bytes: u64,
}

/// Encodes the files as `encode_files` does and writes the document as
/// compact JSON. Succeeds unless a decoded image is too large to be written
/// in base64.
pub fn render(files: &Vec<SourceFile>) -> (r: Result<Rendered, EncodeError>)
    ensures
        r is Ok <==> all_encodable(files@),
        r matches Ok(o) ==> o.json@ == json_object_of(entries_of(files@)) && o.source_bytes
            == capped(decoded_size(files@)),
        r is Err ==> r == Err::<Rendered, EncodeError>(EncodeError::TooLarge),
{
    let e = encode_files(files)?;
    Ok(Rendered { json: e.document.to_json(), source_bytes: e.source_bytes })
}

/// The entries that the files give never repeat a key.
pub proof fn lemma_entries_unique(files: Seq<SourceFile>)
    ensures
        keys_unique(entries_of(files)),
    decreases files.len(),
{
    if files.len() > 0 {
        lemma_entries_unique(files.drop_last());
        let f = files.last();
        if let Some(px) = rgba8_of(f.bytes@) {
            lemma_upsert(entries_of(files.drop_last()), f.name@, payload_of(px), f.name@);
        }
    }
}

/// A name holds the payload of the last file under that name that decodes;
/// a name under which no file decodes is absent.
pub proof fn lemma_lookup_entries(files: Seq<SourceFile>, k: Seq<char>)
    ensures
        lookup(entries_of(files), k) == last_payload(files, k),
    decreases files.len(),
{
    if files.len() > 0 {
        let prev = files.drop_last();
        lemma_lookup_entries(prev, k);
        lemma_entries_unique(prev);
        let f = files.last();
        if let Some(px) = rgba8_of(f.bytes@) {
            lemma_upsert(entries_of(prev), f.name@, payload_of(px), k);
        }
    }
}

/// The payload of the last file named `k` that decodes, if any.
pub open spec fn last_payload(files: Seq<SourceFile>, k: Seq<char>) -> Option<Seq<char>>
    decreases files.len(),
{
    if files.len() == 0 {
        None
    } else {
        let f = files.last();
        match rgba8_of(f.bytes@) {
            Some(px) => if f.name@ == k {
                Some(payload_of(px))
            } else {
                last_payload(files.drop_last(), k)
            },
            None => last_payload(files.drop_last(), k),
        }
    }
}

/// A file that does not decode as an image contributes no key and cannot
/// make the run fail: where no file named `k` decodes, `k` is not in the
/// document.
pub proof fn lemma_undecodable_absent(files: Seq<SourceFile>, k: Seq<char>)
    requires
        forall|i: int|
            0 <= i < files.len() && files[i].name@ == k ==> (#[trigger] rgba8_of(
                files[i].bytes@,
            )) is None,
    ensures
        lookup(entries_of(files), k) is None,
        forall|i: int|
            0 <= i < files.len() && files[i].name@ == k ==> !(#[trigger] too_large(
                files[i].bytes@,
            )),
    decreases files.len(),
{
    lemma_lookup_entries(files, k);
    lemma_no_payload(files, k);
}

proof fn lemma_no_payload(files: Seq<SourceFile>, k: Seq<char>)
    requires
        forall|i: int|
            0 <= i < files.len() && files[i].name@ == k ==> (#[trigger] rgba8_of(
                files[i].bytes@,
            )) is None,
    ensures
        last_payload(files, k) is None,
    decreases files.len(),
{
    if files.len() > 0 {
        let prev = files.drop_last();
        assert forall|i: int|
            0 <= i < prev.len() && prev[i].name@ == k implies (#[trigger] rgba8_of(
                prev[i].bytes@,
            )) is None by {
            assert(prev[i] == files[i]);
        }
        lemma_no_payload(prev, k);
        assert(files.last() == files[files.len() - 1]);
    }
}

/// Where no file decodes, the run succeeds, the document is empty and its
/// JSON text is `{}`.
pub proof fn lemma_no_images_empty(files: Seq<SourceFile>)
    requires
        forall|i: int| 0 <= i < files.len() ==> (#[trigger] rgba8_of(files[i].bytes@)) is None,
    ensures
        all_encodable(files),
        entries_of(files) == Seq::<(Seq<char>, Seq<char>)>::empty(),
        json_object_of(entries_of(files)) == seq!['{', '}'],
    decreases files.len(),
{
    if files.len() > 0 {
        let prev = files.drop_last();
        assert forall|i: int| 0 <= i < prev.len() implies (#[trigger] rgba8_of(
            prev[i].bytes@,
        )) is None by {
            assert(prev[i] == files[i]);
        }
        lemma_no_images_empty(prev);
        assert(files.last() == files[files.len() - 1]);
    }
    lemma_empty_json();
}

} // verus!
