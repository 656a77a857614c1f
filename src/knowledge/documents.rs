//! Documents: pieces of learned knowledge, and the chunking that makes them.
use vstd::prelude::*;

use crate::clock::now_millis;
use crate::text::views;

verus! {

/// Where a document came from, and when it was made (milliseconds since the
/// Unix epoch, UTC).
#[derive(Debug)]
pub struct DocumentMetadata {
    pub source: String,
    pub timestamp: i64,
}

/// A piece of learned knowledge with its embedding, once computed.
#[derive(Debug)]
pub struct Document {
    pub id: String,
    pub content: String,
    pub metadata: DocumentMetadata,
    pub embedding: Option<Vec<i16>>,
}

impl Clone for DocumentMetadata {
    fn clone(&self) -> (r: Self)
        ensures
            r == *self,
    {
        DocumentMetadata { source: self.source.clone(), timestamp: self.timestamp }
    }
}

/// A copy of an embedding with the same components.
fn copy_embedding(e: &Vec<i16>) -> (r: Vec<i16>)
    ensures
        r@ == e@,
{
    let r = e.clone();
    assert(r@ =~= e@);
    r
}

impl Clone for Document {
    fn clone(&self) -> (r: Self)
        ensures
            r.id == self.id,
            r.content == self.content,
            r.metadata == self.metadata,
            r.embedding is Some <==> self.embedding is Some,
            r.embedding is Some ==> r.embedding->0@ == self.embedding->0@,
    {
        let embedding = match &self.embedding {
            Some(e) => Some(copy_embedding(e)),
            None => None,
        };
        Document {
            id: self.id.clone(),
            content: self.content.clone(),
            metadata: self.metadata.clone(),
            embedding,
        }
    }
}

/// Relies on `uuid::Uuid::new_v4` and its `Display`: a random identifier in
/// the hyphenated form, which is 36 characters long.
#[verifier::external_body]
fn new_document_id() -> (r: String)
    ensures
        r@.len() == 36,
{
    uuid::Uuid::new_v4().to_string()
}

impl Document {
    /// A fresh document with a random identifier, stamped with the current
    /// time and no embedding yet.
    pub fn new(content: String, source: String) -> (r: Self)
        ensures
            r.content == content,
            r.metadata.source == source,
            r.id@.len() == 36,
            r.embedding is None,
    {
        Document {
            id: new_document_id(),
            content,
            metadata: DocumentMetadata { source, timestamp: now_millis() },
            embedding: None,
        }
    }

    /// This document carrying `embedding`.
    pub open spec fn with_embedding_spec(self, embedding: Vec<i16>) -> Self {
        Document { embedding: Some(embedding), ..self }
    }

    /// The same document carrying `embedding`.
    pub fn with_embedding(self, embedding: Vec<i16>) -> (r: Self)
        ensures
            r == self.with_embedding_spec(embedding),
    {
        let mut d = self;
        d.embedding = Some(embedding);
        d
    }
}

/// Whether `c` has the Unicode `White_Space` property.
pub open spec fn is_white_space(c: char) -> bool {
    ('\u{9}' <= c && c <= '\u{d}') || c == ' ' || c == '\u{85}' || c == '\u{a0}'
        || c == '\u{1680}' || ('\u{2000}' <= c && c <= '\u{200a}') || c == '\u{2028}'
        || c == '\u{2029}' || c == '\u{202f}' || c == '\u{205f}' || c == '\u{3000}'
}

/// Whether every character of `s` is white space (so that trimming leaves
/// nothing).
pub open spec fn is_blank(s: Seq<char>) -> bool {
    forall|i: int| 0 <= i < s.len() ==> is_white_space(#[trigger] s[i])
}

/// The chunks of `cs` from position `start` on: windows of `size`
/// characters whose starts are `step` apart, the last one ending at the end
/// of the text, with blank windows left out.
pub open spec fn chunks_from(cs: Seq<char>, size: nat, step: nat, start: nat) -> Seq<Seq<char>>
    decreases if start < cs.len() { cs.len() - start } else { 0 },
{
    if start >= cs.len() || step == 0 {
        Seq::empty()
    } else {
        let end = if start + size <= cs.len() { start + size } else { cs.len() as nat };
        let piece = cs.subrange(start as int, end as int);
        let rest = if end >= cs.len() {
            Seq::empty()
        } else {
            chunks_from(cs, size, step, start + step)
        };
        if is_blank(piece) {
            rest
        } else {
            seq![piece] + rest
        }
    }
}

/// Whether `c` has the Unicode `White_Space` property.
pub fn is_white_space_char(c: char) -> (r: bool)
    ensures
        r == is_white_space(c),
{
    ('\u{9}' <= c && c <= '\u{d}') || c == ' ' || c == '\u{85}' || c == '\u{a0}'
        || c == '\u{1680}' || ('\u{2000}' <= c && c <= '\u{200a}') || c == '\u{2028}'
        || c == '\u{2029}' || c == '\u{202f}' || c == '\u{205f}' || c == '\u{3000}'
}

/// Relies on `str::chars` collected into a `Vec`: the characters of `s`, in
/// order.
#[verifier::external_body]
fn chars_of(s: &str) -> (r: Vec<char>)
    ensures
        r@ == s@,
{
    s.chars().collect()
}

/// Relies on collecting a slice of characters into a `String`: the string of
/// exactly those characters.
#[verifier::external_body]
fn string_of(cs: &[char]) -> (r: String)
    ensures
        r@ == cs@,
{
    cs.iter().collect()
}

fn range_is_blank(cs: &Vec<char>, start: usize, end: usize) -> (r: bool)
    requires
        start <= end <= cs@.len(),
    ensures
        r == is_blank(cs@.subrange(start as int, end as int)),
{
    let mut i = start;
    while i < end
        invariant
            start <= i <= end <= cs@.len(),
            forall|j: int| start <= j < i ==> is_white_space(#[trigger] cs@[j]),
        decreases end - i,
    {
        if !is_white_space_char(cs[i]) {
            assert(cs@.subrange(start as int, end as int)[i - start] == cs@[i as int]);
            return false;
        }
        i = i + 1;
    }
    assert forall|j: int| 0 <= j < end - start implies is_white_space(
        #[trigger] cs@.subrange(start as int, end as int)[j],
    ) by {
        assert(cs@.subrange(start as int, end as int)[j] == cs@[start + j]);
    }
    true
}

/// Splits `text` into windows of `chunk_size` characters, each starting
/// `chunk_size - overlap` characters after the one before, and keeps those
/// that are not blank.
pub fn chunk_text(text: &str, chunk_size: usize, overlap: usize) -> (r: Vec<String>)
    requires
        overlap < chunk_size,
    ensures
        views(r@) == chunks_from(
            text@,
            chunk_size as nat,
            (chunk_size - overlap) as nat,
            0,
        ),
{
    let chars = chars_of(text);
    let step = chunk_size - overlap;
    let mut chunks: Vec<String> = Vec::new();
    let mut start: usize = 0;
    let ghost total = chunks_from(text@, chunk_size as nat, step as nat, 0);
    while start < chars.len()
        invariant
            chars@ == text@,
            step == chunk_size - overlap,
            step > 0,
            total == chunks_from(text@, chunk_size as nat, (chunk_size - overlap) as nat, 0),
            views(chunks@) + chunks_from(
                text@,
                chunk_size as nat,
                step as nat,
                start as nat,
            ) == total,
        decreases chars@.len() - start,
    {
        let end = if chunk_size <= chars.len() - start { start + chunk_size } else { chars.len() };
        let ghost piece = chars@.subrange(start as int, end as int);
        let ghost before = views(chunks@);
        let blank = range_is_blank(&chars, start, end);
        let ghost rest = if end >= chars@.len() {
            Seq::<Seq<char>>::empty()
        } else {
            chunks_from(text@, chunk_size as nat, step as nat, (start + step) as nat)
        };
        assert(chunks_from(text@, chunk_size as nat, step as nat, start as nat) == if blank {
            rest
        } else {
            seq![piece] + rest
        });
        if !blank {
            let chunk = string_of(&chars.as_slice()[start..end]);
            chunks.push(chunk);
            assert(views(chunks@) =~= before + seq![piece]);
            assert(before + seq![piece] + rest =~= before + (seq![piece] + rest));
        }
        assert(views(chunks@) + rest == total);
        if end >= chars.len() {
            assert(views(chunks@) + rest =~= views(chunks@));
            return chunks;
        }
        if step > chars.len() - start {
            start = chars.len();
        } else {
            start = start + step;
        }
    }
    chunks
}

} // verus!
