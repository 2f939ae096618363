//! The tree that a job travels as, and its binary form.
//!
//! The binary form is that of `sicompass_sdk::ffon`: a run of records, one for
//! each node in depth-first order. A record holds the node's layer and the
//! length of its content, each as four little-endian bytes, and the content: a
//! string's text, or an object's key with a colon behind it.

use sicompass_sdk::ffon::{FfonElement, FfonObject};
use vstd::bytes::*;
use vstd::prelude::*;
use vstd::slice::slice_subrange;
use vstd::utf8::*;

verus! {

/// An element to write: a string, or an object with its key and the strings in
/// it.
#[derive(Debug, PartialEq, Eq)]
pub enum Element {
    Str(String),
    Obj(String, Vec<String>),
}

/// What an [`Element`] stands for.
pub enum Entry {
    Str(Seq<char>),
    Obj(Seq<char>, Seq<Seq<char>>),
}

impl View for Element {
    type V = Entry;

    open spec fn view(&self) -> Entry {
        match self {
            Element::Str(text) => Entry::Str(text@),
            Element::Obj(key, texts) => Entry::Obj(key@, crate::steps::words_of(texts@)),
        }
    }
}

/// What a list of elements stands for.
pub open spec fn entries_of(elements: Seq<Element>) -> Seq<Entry> {
    Seq::new(elements.len(), |i: int| elements[i]@)
}

/// An element found inside an object.
#[derive(Debug, PartialEq, Eq)]
pub enum Child {
    Str(String),
    /// An object: its key, and how many elements it holds.
    Obj(String, usize),
}

/// An element found at the top: a string, or an object with its key and
/// children.
#[derive(Debug, PartialEq, Eq)]
pub enum Found {
    Str(String),
    Obj(String, Vec<Child>),
}

/// What a [`Child`] stands for.
pub enum Leaf {
    Str(Seq<char>),
    Obj(Seq<char>, nat),
}

/// What a [`Found`] stands for.
pub enum Node {
    Str(Seq<char>),
    Obj(Seq<char>, Seq<Leaf>),
}

impl View for Child {
    type V = Leaf;

    open spec fn view(&self) -> Leaf {
        match self {
            Child::Str(text) => Leaf::Str(text@),
            Child::Obj(key, count) => Leaf::Obj(key@, *count as nat),
        }
    }
}

/// What a list of children stands for.
pub open spec fn leaves_of(children: Seq<Child>) -> Seq<Leaf> {
    Seq::new(children.len(), |i: int| children[i]@)
}

impl View for Found {
    type V = Node;

    open spec fn view(&self) -> Node {
        match self {
            Found::Str(text) => Node::Str(text@),
            Found::Obj(key, children) => Node::Obj(key@, leaves_of(children@)),
        }
    }
}

/// What a list of found elements stands for.
pub open spec fn nodes_of(found: Seq<Found>) -> Seq<Node> {
    Seq::new(found.len(), |i: int| found[i]@)
}

// ---------------------------------------------------------------------------
// The binary form
// ---------------------------------------------------------------------------

/// One record.
pub open spec fn record(layer: u32, content: Seq<u8>) -> Seq<u8> {
    spec_u32_to_le_bytes(layer) + spec_u32_to_le_bytes(content.len() as u32) + content
}

/// The content of an object's record: the key, and the colon that marks it.
pub open spec fn key_content(key: Seq<char>) -> Seq<u8> {
    encode_utf8(key).push(0x3a)
}

/// The records of the strings in an object.
pub open spec fn texts_bytes(texts: Seq<Seq<char>>) -> Seq<u8>
    decreases texts.len(),
{
    if texts.len() == 0 {
        Seq::empty()
    } else {
        texts_bytes(texts.drop_last()) + record(1, encode_utf8(texts.last()))
    }
}

/// The records of an element.
pub open spec fn entry_bytes(entry: Entry) -> Seq<u8> {
    match entry {
        Entry::Str(text) => record(0, encode_utf8(text)),
        Entry::Obj(key, texts) => record(0, key_content(key)) + texts_bytes(texts),
    }
}

/// The binary form of a list of elements.
pub open spec fn ffon_encoding(entries: Seq<Entry>) -> Seq<u8>
    decreases entries.len(),
{
    if entries.len() == 0 {
        Seq::empty()
    } else {
        ffon_encoding(entries.drop_last()) + entry_bytes(entries.last())
    }
}

/// Whether the length of a text fits in the four bytes that a record has for
/// it.
pub open spec fn text_fits(text: Seq<char>) -> bool {
    encode_utf8(text).len() <= u32::MAX
}

/// Whether the lengths in an element fit in the four bytes that a record has
/// for each.
pub open spec fn entry_fits(entry: Entry) -> bool {
    match entry {
        Entry::Str(text) => text_fits(text),
        Entry::Obj(key, texts) => {
            &&& key_content(key).len() <= u32::MAX
            &&& forall|i: int| 0 <= i < texts.len() ==> text_fits(#[trigger] texts[i])
        },
    }
}

/// Whether every length in a list of elements fits in the four bytes that a
/// record has for it.
pub open spec fn entries_fit(entries: Seq<Entry>) -> bool {
    forall|i: int| 0 <= i < entries.len() ==> entry_fits(#[trigger] entries[i])
}

/// Whether a text ends in a colon. The record of such a text is that of an
/// object too, with the text before the colon for its key.
pub open spec fn ends_in_colon(text: Seq<char>) -> bool {
    text.len() > 0 && text.last() == ':'
}

/// What a string in an object is found as.
pub open spec fn text_found(text: Seq<char>) -> Leaf {
    if ends_in_colon(text) {
        Leaf::Obj(text.drop_last(), 0)
    } else {
        Leaf::Str(text)
    }
}

/// What an element is found as.
pub open spec fn entry_found(entry: Entry) -> Node {
    match entry {
        Entry::Str(text) => if ends_in_colon(text) {
            Node::Obj(text.drop_last(), Seq::empty())
        } else {
            Node::Str(text)
        },
        Entry::Obj(key, texts) => Node::Obj(
            key,
            Seq::new(texts.len(), |i: int| text_found(texts[i])),
        ),
    }
}

/// What a list of elements is found as in its binary form: a string that ends
/// in a colon as an object that holds nothing, and everything else as it is.
pub open spec fn entries_found(entries: Seq<Entry>) -> Seq<Node> {
    Seq::new(entries.len(), |i: int| entry_found(entries[i]))
}

/// The content length that the record at `pos` gives.
pub open spec fn content_len(bytes: Seq<u8>, pos: int) -> u32 {
    spec_u32_from_le_bytes(bytes.subrange(pos + 4, pos + 8))
}

/// Whether the end of every record from `pos` on, the first that the bytes do
/// not hold whole among them, is a `usize`.
pub open spec fn lengths_fit(bytes: Seq<u8>, pos: int) -> bool
    decreases bytes.len() - pos,
{
    if pos < 0 || pos + 8 > bytes.len() {
        true
    } else {
        let end = pos + 8 + content_len(bytes, pos);
        end <= usize::MAX && (end <= bytes.len() ==> lengths_fit(bytes, end))
    }
}

/// Whether the bytes begin with a whole record.
pub open spec fn begins_with_record(bytes: Seq<u8>) -> bool {
    bytes.len() >= 8 && 8 + content_len(bytes, 0) <= bytes.len()
}

// ---------------------------------------------------------------------------
// The codec
// ---------------------------------------------------------------------------

/// Calls `sicompass_sdk::ffon::serialize_binary`, which writes one record for
/// each node, depth first. Trusted: the bytes are [`ffon_encoding`] of the
/// elements. A content of more than [`u32::MAX`] bytes is written whole behind
/// the low four bytes of its length.
#[verifier::external_body]
fn serialize_binary(elements: &[Element]) -> (bytes: Vec<u8>)
    ensures
        bytes@ == ffon_encoding(entries_of(elements@)),
{
    let child = |text: &String| FfonElement::new_str(text.as_str());
    let element = |e: &Element| match e {
        Element::Str(text) => FfonElement::new_str(text.as_str()),
        Element::Obj(key, texts) => FfonElement::Obj(FfonObject {
            key: key.clone(),
            children: texts.iter().map(child).collect(),
        }),
    };
    let elements: Vec<FfonElement> = elements.iter().map(element).collect();
    sicompass_sdk::ffon::serialize_binary(&elements)
}

/// The elements that `sicompass_sdk::ffon::deserialize_binary` reads from the
/// bytes. Of an object inside an object, only how many elements it holds.
pub uninterp spec fn ffon_decoding(bytes: Seq<u8>) -> Seq<Node>;

/// Calls `sicompass_sdk::ffon::deserialize_binary`. Trusted: what it returns
/// depends on the bytes alone; from the binary form of elements whose lengths
/// fit, it returns those elements, with empty objects in place of the strings
/// that end in a colon; and from bytes that do not begin with a whole record,
/// nothing. It adds a record's length to its position in `usize`, so the sum
/// must fit. Memory and stack for the tree that it builds are taken for granted.
#[verifier::external_body]
fn deserialize_binary(bytes: &[u8]) -> (found: Vec<Found>)
    requires
        lengths_fit(bytes@, 0),
    ensures
        nodes_of(found@) == ffon_decoding(bytes@),
        forall|entries: Seq<Entry>|
            entries_fit(entries) && bytes@ == #[trigger] ffon_encoding(entries) ==> nodes_of(found@)
                == entries_found(entries),
        !begins_with_record(bytes@) ==> found@.len() == 0,
{
    let child = |c: FfonElement| match c {
        FfonElement::Str(text) => Child::Str(text),
        FfonElement::Obj(object) => Child::Obj(object.key, object.children.len()),
    };
    let element = |e: FfonElement| match e {
        FfonElement::Str(text) => Found::Str(text),
        FfonElement::Obj(object) => {
            Found::Obj(object.key, object.children.into_iter().map(child).collect())
        },
    };
    sicompass_sdk::ffon::deserialize_binary(bytes).into_iter().map(element).collect()
}

/// The binary form of a list of elements.
pub fn write_elements(elements: &[Element]) -> (bytes: Vec<u8>)
    ensures
        bytes@ == ffon_encoding(entries_of(elements@)),
{
    serialize_binary(elements)
}

/// Whether the end of every record is a `usize`.
fn records_fit(bytes: &[u8]) -> (fit: bool)
    ensures
        fit == lengths_fit(bytes@, 0),
{
    let mut pos: usize = 0;
    while bytes.len() - pos >= 8
        invariant
            pos <= bytes@.len(),
            lengths_fit(bytes@, 0) == lengths_fit(bytes@, pos as int),
        decreases bytes@.len() - pos,
    {
        let len: u32 = u32_from_le_bytes(slice_subrange(bytes, pos + 4, pos + 8));
        if len as usize > usize::MAX - (pos + 8) {
            return false;
        }
        let end: usize = pos + 8 + len as usize;
        if end > bytes.len() {
            return true;
        }
        pos = end;
    }
    true
}

/// The elements found in their binary form (see [`entries_found`]). `None` when
/// a record ends beyond what a `usize` can count.
pub fn read_elements(bytes: &[u8]) -> (found: Option<Vec<Found>>)
    ensures
        found is Some <==> lengths_fit(bytes@, 0),
        found matches Some(found) ==> nodes_of(found@) == ffon_decoding(bytes@),
        found matches Some(found) ==> (!begins_with_record(bytes@) ==> found@.len() == 0),
        forall|entries: Seq<Entry>|
            entries_fit(entries) && bytes@ == #[trigger] ffon_encoding(entries) ==> {
                &&& found matches Some(found)
                &&& nodes_of(found@) == entries_found(entries)
            },
{
    proof {
        assert forall|entries: Seq<Entry>|
            entries_fit(entries) && bytes@ == #[trigger] ffon_encoding(
                entries,
            ) implies lengths_fit(bytes@, 0) by {
            assert(bytes.len() <= usize::MAX);
            lemma_encoding_fits(entries);
        }
    }
    if records_fit(bytes) {
        Some(deserialize_binary(bytes))
    } else {
        None
    }
}

// ---------------------------------------------------------------------------
// The records of an encoding
// ---------------------------------------------------------------------------

/// Whether whole records fill the bytes from `from` to `to`.
spec fn records_fill(bytes: Seq<u8>, from: int, to: int) -> bool
    decreases to - from,
{
    if from >= to {
        from == to
    } else {
        &&& to <= bytes.len()
        &&& from + 8 + content_len(bytes, from) <= to
        &&& records_fill(bytes, from + 8 + content_len(bytes, from), to)
    }
}

proof fn lemma_records_fill_join(bytes: Seq<u8>, from: int, mid: int, to: int)
    requires
        records_fill(bytes, from, mid),
        records_fill(bytes, mid, to),
        mid <= to <= bytes.len(),
    ensures
        records_fill(bytes, from, to),
    decreases mid - from,
{
    if from < mid {
        lemma_records_fill_join(bytes, from + 8 + content_len(bytes, from), mid, to);
    }
}

proof fn lemma_filled_lengths_fit(bytes: Seq<u8>, from: int)
    requires
        0 <= from,
        bytes.len() <= usize::MAX,
        records_fill(bytes, from, bytes.len() as int),
    ensures
        lengths_fit(bytes, from),
    decreases bytes.len() - from,
{
    if from < bytes.len() {
        lemma_filled_lengths_fit(bytes, from + 8 + content_len(bytes, from));
    }
}

proof fn lemma_record_fills(bytes: Seq<u8>, from: int, layer: u32, content: Seq<u8>)
    requires
        0 <= from,
        content.len() <= u32::MAX,
        from + record(layer, content).len() <= bytes.len(),
        bytes.subrange(from, from + record(layer, content).len()) == record(layer, content),
    ensures
        records_fill(bytes, from, from + record(layer, content).len()),
{
    lemma_auto_spec_u32_to_from_le_bytes();
    let whole = record(layer, content);
    assert(whole.len() == 8 + content.len());
    assert(whole.subrange(4, 8) == spec_u32_to_le_bytes(content.len() as u32));
    assert(bytes.subrange(from + 4, from + 8) == bytes.subrange(
        from,
        from + whole.len(),
    ).subrange(4, 8));
    assert(content_len(bytes, from) == content.len());
    assert(records_fill(bytes, from + whole.len(), from + whole.len()));
}

/// Bytes that hold two sequences one behind the other hold each in its place.
proof fn lemma_split(bytes: Seq<u8>, from: int, front: Seq<u8>, back: Seq<u8>)
    requires
        0 <= from,
        from + (front + back).len() <= bytes.len(),
        bytes.subrange(from, from + (front + back).len()) == front + back,
    ensures
        bytes.subrange(from, from + front.len()) == front,
        bytes.subrange(from + front.len(), from + front.len() + back.len()) == back,
{
    let both = bytes.subrange(from, from + (front + back).len());
    assert(bytes.subrange(from, from + front.len()) =~= both.subrange(0, front.len() as int));
    assert(bytes.subrange(from + front.len(), from + front.len() + back.len()) =~= both.subrange(
        front.len() as int,
        both.len() as int,
    ));
    assert((front + back).subrange(0, front.len() as int) =~= front);
    assert((front + back).subrange(front.len() as int, (front + back).len() as int) =~= back);
}

proof fn lemma_texts_fill(bytes: Seq<u8>, from: int, texts: Seq<Seq<char>>)
    requires
        0 <= from,
        forall|i: int| 0 <= i < texts.len() ==> text_fits(#[trigger] texts[i]),
        from + texts_bytes(texts).len() <= bytes.len(),
        bytes.subrange(from, from + texts_bytes(texts).len()) == texts_bytes(texts),
    ensures
        records_fill(bytes, from, from + texts_bytes(texts).len()),
    decreases texts.len(),
{
    if texts.len() > 0 {
        let front = texts_bytes(texts.drop_last());
        let back = record(1, encode_utf8(texts.last()));
        let mid = from + front.len();
        assert(text_fits(texts[texts.len() - 1]));
        lemma_split(bytes, from, front, back);
        lemma_texts_fill(bytes, from, texts.drop_last());
        lemma_record_fills(bytes, mid, 1, encode_utf8(texts.last()));
        lemma_records_fill_join(bytes, from, mid, mid + back.len());
    }
}

proof fn lemma_entry_fills(bytes: Seq<u8>, from: int, entry: Entry)
    requires
        0 <= from,
        entry_fits(entry),
        from + entry_bytes(entry).len() <= bytes.len(),
        bytes.subrange(from, from + entry_bytes(entry).len()) == entry_bytes(entry),
    ensures
        records_fill(bytes, from, from + entry_bytes(entry).len()),
{
    match entry {
        Entry::Str(text) => lemma_record_fills(bytes, from, 0, encode_utf8(text)),
        Entry::Obj(key, texts) => {
            let front = record(0, key_content(key));
            let back = texts_bytes(texts);
            let mid = from + front.len();
            lemma_split(bytes, from, front, back);
            lemma_record_fills(bytes, from, 0, key_content(key));
            lemma_texts_fill(bytes, mid, texts);
            lemma_records_fill_join(bytes, from, mid, mid + back.len());
        },
    }
}

proof fn lemma_entries_fill(bytes: Seq<u8>, entries: Seq<Entry>)
    requires
        entries_fit(entries),
        ffon_encoding(entries).len() <= bytes.len(),
        bytes.subrange(0, ffon_encoding(entries).len() as int) == ffon_encoding(entries),
    ensures
        records_fill(bytes, 0, ffon_encoding(entries).len() as int),
    decreases entries.len(),
{
    if entries.len() > 0 {
        let front = ffon_encoding(entries.drop_last());
        let back = entry_bytes(entries.last());
        let mid = front.len() as int;
        assert(entry_fits(entries[entries.len() - 1]));
        lemma_split(bytes, 0, front, back);
        lemma_entries_fill(bytes, entries.drop_last());
        lemma_entry_fills(bytes, mid, entries.last());
        lemma_records_fill_join(bytes, 0, mid, mid + back.len());
    }
}

/// The records of an encoding that memory can hold all end within a `usize`.
proof fn lemma_encoding_fits(entries: Seq<Entry>)
    requires
        entries_fit(entries),
        ffon_encoding(entries).len() <= usize::MAX,
    ensures
        lengths_fit(ffon_encoding(entries), 0),
{
    let bytes = ffon_encoding(entries);
    assert(bytes.subrange(0, bytes.len() as int) == bytes);
    lemma_entries_fill(bytes, entries);
    lemma_filled_lengths_fit(bytes, 0);
}

// ---------------------------------------------------------------------------
// Laws
// ---------------------------------------------------------------------------

/// Elements are written one behind the other: the binary form of two lists
/// together is that of the first and then that of the second.
pub proof fn law_encoding_joins(first: Seq<Entry>, second: Seq<Entry>)
    ensures
        ffon_encoding(first + second) == ffon_encoding(first) + ffon_encoding(second),
        ffon_encoding(Seq::empty()) == Seq::<u8>::empty(),
    decreases second.len(),
{
    if second.len() == 0 {
        assert(first + second =~= first);
        assert(ffon_encoding(first) + ffon_encoding(second) =~= ffon_encoding(first));
    } else {
        law_encoding_joins(first, second.drop_last());
        assert((first + second).drop_last() =~= first + second.drop_last());
        assert((ffon_encoding(first) + ffon_encoding(second.drop_last())) + entry_bytes(
            second.last(),
        ) =~= ffon_encoding(first) + (ffon_encoding(second.drop_last()) + entry_bytes(
            second.last(),
        )));
    }
}

/// A string is written as its length and its UTF-8 bytes, at the top layer.
pub proof fn law_string_written(text: Seq<char>)
    ensures
        ffon_encoding(seq![Entry::Str(text)]) == spec_u32_to_le_bytes(0) + spec_u32_to_le_bytes(
            encode_utf8(text).len() as u32,
        ) + encode_utf8(text),
{
    lemma_one_entry(Entry::Str(text));
}

/// An object is written as its key, with a colon behind it, at the top layer,
/// and behind that each of its strings, one layer down.
pub proof fn law_object_written(key: Seq<char>, texts: Seq<Seq<char>>, text: Seq<char>)
    ensures
        ffon_encoding(seq![Entry::Obj(key, Seq::empty())]) == spec_u32_to_le_bytes(0)
            + spec_u32_to_le_bytes((encode_utf8(key).len() + 1) as u32) + encode_utf8(key)
            + seq![0x3au8],
        ffon_encoding(seq![Entry::Obj(key, texts.push(text))]) == ffon_encoding(
            seq![Entry::Obj(key, texts)],
        ) + spec_u32_to_le_bytes(1) + spec_u32_to_le_bytes(encode_utf8(text).len() as u32)
            + encode_utf8(text),
{
    let empty = Seq::<Seq<char>>::empty();
    lemma_one_entry(Entry::Obj(key, empty));
    assert(entry_bytes(Entry::Obj(key, empty)) =~= spec_u32_to_le_bytes(0) + spec_u32_to_le_bytes(
        (encode_utf8(key).len() + 1) as u32,
    ) + encode_utf8(key) + seq![0x3au8]);
    lemma_one_entry(Entry::Obj(key, texts));
    lemma_one_entry(Entry::Obj(key, texts.push(text)));
    assert(texts.push(text).drop_last() =~= texts);
    assert(entry_bytes(Entry::Obj(key, texts.push(text))) =~= entry_bytes(Entry::Obj(key, texts))
        + spec_u32_to_le_bytes(1) + spec_u32_to_le_bytes(encode_utf8(text).len() as u32)
        + encode_utf8(text));
}

proof fn lemma_one_entry(entry: Entry)
    ensures
        ffon_encoding(seq![entry]) == entry_bytes(entry),
{
    let one = seq![entry];
    reveal_with_fuel(ffon_encoding, 2);
    assert(one.drop_last() =~= Seq::<Entry>::empty());
    assert(Seq::<u8>::empty() + entry_bytes(entry) =~= entry_bytes(entry));
}

/// A string is found as it was written, unless it ends in a colon: then it is
/// found as an empty object, whose key is the text before the colon.
pub proof fn law_text_found(text: Seq<char>)
    ensures
        text.len() == 0 || text.last() != ':' ==> {
            &&& entry_found(Entry::Str(text)) == Node::Str(text)
            &&& text_found(text) == Leaf::Str(text)
        },
        entry_found(Entry::Str(text.push(':'))) == Node::Obj(text, Seq::empty()),
        text_found(text.push(':')) == Leaf::Obj(text, 0),
{
    assert(text.push(':').drop_last() =~= text);
}

/// An object is found with its key and all its strings, each in its place, and
/// so are the elements of a list.
pub proof fn law_elements_found(entries: Seq<Entry>, key: Seq<char>, texts: Seq<Seq<char>>)
    ensures
        entries_found(entries).len() == entries.len(),
        forall|i: int|
            0 <= i < entries.len() ==> #[trigger] entries_found(entries)[i] == entry_found(
                entries[i],
            ),
        ({
            &&& entry_found(Entry::Obj(key, texts)) matches Node::Obj(found, leaves)
            &&& found == key
            &&& leaves.len() == texts.len()
            &&& forall|i: int|
                0 <= i < texts.len() ==> #[trigger] leaves[i] == text_found(texts[i])
        }),
{
}

/// Lengths fit exactly when no text, nor a key with its colon, has more UTF-8
/// bytes than four bytes can count.
pub proof fn law_fits(entries: Seq<Entry>, text: Seq<char>, key: Seq<char>, texts: Seq<Seq<char>>)
    ensures
        text_fits(text) <==> encode_utf8(text).len() <= 0xffff_ffff,
        entry_fits(Entry::Str(text)) <==> encode_utf8(text).len() <= 0xffff_ffff,
        entry_fits(Entry::Obj(key, texts)) <==> {
            &&& encode_utf8(key).len() + 1 <= 0xffff_ffff
            &&& forall|i: int|
                0 <= i < texts.len() ==> encode_utf8(#[trigger] texts[i]).len() <= 0xffff_ffff
        },
        entries_fit(entries) <==> forall|i: int|
            0 <= i < entries.len() ==> entry_fits(#[trigger] entries[i]),
{
    if entry_fits(Entry::Obj(key, texts)) {
        assert forall|i: int| 0 <= i < texts.len() implies encode_utf8(#[trigger] texts[i]).len()
            <= 0xffff_ffff by {
            assert(text_fits(texts[i]));
        }
    }
}

/// Every record ends within a `usize` when there is room for the longest behind
/// the bytes, as there always is where a `usize` has eight bytes. A record that
/// ends beyond it does not fit, and neither do those that lead to it.
pub proof fn law_lengths_fit(bytes: Seq<u8>, pos: int)
    requires
        0 <= pos,
    ensures
        bytes.len() + 8 + u32::MAX <= usize::MAX ==> lengths_fit(bytes, pos),
        pos + 8 > bytes.len() ==> lengths_fit(bytes, pos),
        pos + 8 <= bytes.len() ==> {
            let end = pos + 8 + spec_u32_from_le_bytes(bytes.subrange(pos + 4, pos + 8));
            &&& end > usize::MAX ==> !lengths_fit(bytes, pos)
            &&& bytes.len() < end <= usize::MAX ==> lengths_fit(bytes, pos)
            &&& end <= bytes.len() <= usize::MAX ==> (lengths_fit(bytes, pos) <==> lengths_fit(
                bytes,
                end,
            ))
        },
    decreases bytes.len() - pos,
{
    if pos + 8 <= bytes.len() {
        let end = pos + 8 + content_len(bytes, pos);
        if end <= bytes.len() {
            law_lengths_fit(bytes, end);
        }
    }
}

/// Bytes begin with a record when they hold all of it, whatever is behind it,
/// and not when they are cut short anywhere in it.
pub proof fn law_begins_with_record(layer: u32, content: Seq<u8>, rest: Seq<u8>, cut: int)
    requires
        content.len() <= u32::MAX,
        0 <= cut < 8 + content.len(),
    ensures
        ({
            let whole = spec_u32_to_le_bytes(layer) + spec_u32_to_le_bytes(content.len() as u32)
                + content;
            &&& begins_with_record(whole + rest)
            &&& !begins_with_record(whole.take(cut))
        }),
{
    lemma_auto_spec_u32_to_from_le_bytes();
    let whole = record(layer, content);
    assert((whole + rest).subrange(4, 8) =~= spec_u32_to_le_bytes(content.len() as u32));
    if cut >= 8 {
        assert(whole.take(cut).subrange(4, 8) =~= spec_u32_to_le_bytes(content.len() as u32));
    }
}

/// Elements stand for all that they hold, each thing in its place.
pub proof fn law_element_views(
    elements: Seq<Element>,
    found: Seq<Found>,
    text: String,
    texts: Vec<String>,
    children: Vec<Child>,
    count: usize,
)
    ensures
        entries_of(elements).len() == elements.len(),
        forall|i: int|
            0 <= i < elements.len() ==> #[trigger] entries_of(elements)[i] == elements[i]@,
        nodes_of(found).len() == found.len(),
        forall|i: int| 0 <= i < found.len() ==> #[trigger] nodes_of(found)[i] == found[i]@,
        Element::Str(text)@ == Entry::Str(text@),
        ({
            &&& Element::Obj(text, texts)@ matches Entry::Obj(key, words)
            &&& key == text@
            &&& words.len() == texts@.len()
            &&& forall|i: int| 0 <= i < texts@.len() ==> #[trigger] words[i] == texts@[i]@
        }),
        Found::Str(text)@ == Node::Str(text@),
        ({
            &&& Found::Obj(text, children)@ matches Node::Obj(key, leaves)
            &&& key == text@
            &&& leaves.len() == children@.len()
            &&& forall|i: int| 0 <= i < children@.len() ==> #[trigger] leaves[i] == children@[i]@
        }),
        Child::Str(text)@ == Leaf::Str(text@),
        Child::Obj(text, count)@ == Leaf::Obj(text@, count as nat),
{
}

} // verus!
