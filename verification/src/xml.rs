//! The XML event stream that the feed parsers read, as plain values.
//!
//! quick-xml reads the document; each event is handed over as an
//! `XmlEvent`.  The stream of a document is taken up to and including its
//! first `Eof` or error: the parsers stop there.
use vstd::prelude::*;

use quick_xml::events::Event;
use quick_xml::Reader;

use crate::github::utf8_string;
use crate::strs::{rfind_char, rfind_char_in, chars_of, string_of, sub_vec, lemma_rfind_char_facts};

verus! {

use self::XmlEvent::{CData, Empty, End, Eof, Error, Other, Start, Text};

broadcast use vstd::string::group_string_axioms;

#[verifier::external_type_specification]
#[verifier::external_body]
#[verifier::reject_recursive_types(R)]
pub struct ExXmlReader<R>(Reader<R>);

/// One event of an XML document.
#[derive(Debug, Clone)]
pub enum XmlEvent {
    /// An opening tag, with its raw (possibly prefixed) name.
    Start(Vec<u8>),
    /// A self-closing tag: its raw name and the attributes that could be
    /// read, as raw key and value bytes.
    Empty(Vec<u8>, Vec<(Vec<u8>, Vec<u8>)>),
    /// Character data with entities resolved (`None` where resolving failed).
    Text(Option<String>),
    /// The raw bytes of a CDATA section.
    CData(Vec<u8>),
    /// A closing tag, with its raw name.
    End(Vec<u8>),
    /// The end of the document.
    Eof,
    /// A parse error, as quick-xml words it.
    Error(String),
    /// Anything the parsers do not read (comments, declarations, ...).
    Other,
}

/// Whether the stream ends at this event.
pub open spec fn is_last_event(e: XmlEvent) -> bool {
    e is Eof || e is Error
}

/// The events quick-xml reads from `xml`, with its text trimming setting
/// `trim`, up to and including the first `Eof` or error.
pub uninterp spec fn xml_events(xml: Seq<char>, trim: bool) -> Seq<XmlEvent>;

/// The events a reader has still to deliver, up to and including the first
/// `Eof` or error.
pub uninterp spec fn pending_events(r: Reader<&[u8]>) -> Seq<XmlEvent>;

/// A stream that ends with its first `Eof` or error.
pub open spec fn well_ended(s: Seq<XmlEvent>) -> bool {
    &&& s.len() > 0
    &&& is_last_event(s.last())
    &&& forall|i: int| 0 <= i < s.len() - 1 ==> !is_last_event(#[trigger] s[i])
}

/// `Reader::from_str` with `trim_text(trim)`: a reader over `xml` that has
/// read nothing yet.  Reading a finite text always ends with `Eof` or an
/// error.
#[verifier::external_body]
fn open_reader<'a>(xml: &'a str, trim: bool) -> (r: Reader<&'a [u8]>)
    ensures
        pending_events(r) == xml_events(xml@, trim),
        well_ended(pending_events(r)),
{
    let mut r = Reader::from_str(xml);
    r.config_mut().trim_text(trim);
    r
}

/// `Reader::read_event`: the next event, converted to an `XmlEvent`.
#[verifier::external_body]
fn read_event<'a>(reader: &mut Reader<&'a [u8]>) -> (e: XmlEvent)
    requires
        pending_events(*old(reader)).len() > 0,
    ensures
        e == pending_events(*old(reader))[0],
        pending_events(*final(reader)) == pending_events(*old(reader)).drop_first(),
{    match reader.read_event() {
        Ok(Event::Start(e)) => Start(e.name().0.to_vec()),
        Ok(Event::Empty(e)) => Empty(
            e.name().0.to_vec(),
            e.attributes().flatten().map(|a| (a.key.0.to_vec(), a.value.to_vec())).collect(),
        ),
        Ok(Event::Text(e)) => Text(e.unescape().ok().map(String::from)),
        Ok(Event::CData(e)) => CData(e.to_vec()),
        Ok(Event::End(e)) => End(e.to_vec()),
        Ok(Event::Eof) => Eof,
        Err(e) => Error(e.to_string()),
        _ => Other,
    }
}

/// Every event of `xml`, up to and including the first `Eof` or error.
pub fn read_all_events(xml: &str) -> (r: Vec<XmlEvent>)
    ensures
        r@ == xml_events(xml@, true),
        well_ended(r@),
{
    let mut reader = open_reader(xml, true);
    let ghost all = xml_events(xml@, true);
    let mut out: Vec<XmlEvent> = Vec::new();
    loop
        invariant
            well_ended(all),
            all == xml_events(xml@, true),
            out@ + pending_events(reader) == all,
            forall|i: int| 0 <= i < out@.len() ==> !is_last_event(#[trigger] out@[i]),
        decreases pending_events(reader).len(),
    {
        assert(pending_events(reader).len() > 0) by {
            if pending_events(reader).len() == 0 {
                assert(out@ =~= all);
                assert(out@[out@.len() - 1] == all.last());
            }
        }
        let ghost before = out@;
        let ghost pend = pending_events(reader);
        let e = read_event(&mut reader);
        let last = match &e {
            XmlEvent::Eof => true,
            XmlEvent::Error(_) => true,
            _ => false,
        };
        out.push(e);
        proof {
            assert(out@ + pending_events(reader) =~= before + pend) by {
                assert(pend =~= seq![pend[0]] + pend.drop_first());
            }
        }
        if last {
            proof {
                let k = before.len() as int;
                assert(all[k] == e);
                assert(k == all.len() - 1);
                assert(out@ =~= all);
            }
            return out;
        }
    }
}

/// The text of a tag or attribute name: its bytes as UTF-8, or the empty
/// text when they are not valid UTF-8.
pub open spec fn name_text(raw: Seq<u8>) -> Seq<char> {
    if vstd::utf8::valid_utf8(raw) {
        vstd::utf8::decode_utf8(raw)
    } else {
        Seq::empty()
    }
}

/// A name without its namespace prefix: what follows the last `:`.
pub open spec fn local_part(s: Seq<char>) -> Seq<char> {
    match rfind_char(s, ':') {
        Some(p) => s.subrange(p + 1, s.len() as int),
        None => s,
    }
}

/// `name_text` as a `String`.
pub fn raw_name(raw: &Vec<u8>) -> (r: String)
    ensures
        r@ == name_text(raw@),
{
    match utf8_string(raw.clone()) {
        Some(s) => s,
        None => String::new(),
    }
}

/// Strip a namespace prefix: "dc:creator" → "creator".
pub fn local_name(raw: &Vec<u8>) -> (r: String)
    ensures
        r@ == local_part(name_text(raw@)),
{
    let s = raw_name(raw);
    let v = chars_of(s.as_str());
    proof { lemma_rfind_char_facts(v@, ':'); }
    match rfind_char_in(&v, ':') {
        Some(p) => {
            let tail = sub_vec(&v, p + 1, v.len());
            string_of(&tail)
        },
        None => s,
    }
}

/// `String::from_utf8_lossy`: the text the bytes encode, with each invalid
/// sequence shown as U+FFFD.
pub uninterp spec fn lossy_text(bytes: Seq<u8>) -> Seq<char>;

/// Calls `String::from_utf8_lossy`.  Valid UTF-8 decodes as usual; how
/// invalid sequences are replaced is std's rule and is not spelled out.
#[verifier::external_body]
pub(crate) fn utf8_lossy(bytes: &Vec<u8>) -> (r: String)
    ensures
        r@ == lossy_text(bytes@),
        vstd::utf8::valid_utf8(bytes@) ==> r@ == vstd::utf8::decode_utf8(bytes@),
{
    String::from_utf8_lossy(bytes.as_slice()).into_owned()
}

/// Index of the first `Eof` or error (the length when there is none).
pub open spec fn stop_index(events: Seq<XmlEvent>, i: int) -> int
    decreases events.len() - i,
{
    if i < 0 || i >= events.len() {
        events.len() as int
    } else if is_last_event(events[i]) {
        i
    } else {
        stop_index(events, i + 1)
    }
}

pub proof fn lemma_stop_index(events: Seq<XmlEvent>, i: int)
    requires
        0 <= i <= events.len(),
    ensures
        i <= stop_index(events, i) <= events.len(),
        stop_index(events, i) < events.len() ==> is_last_event(events[stop_index(events, i)]),
        forall|k: int| i <= k < stop_index(events, i) ==> !is_last_event(#[trigger] events[k]),
    decreases events.len() - i,
{
    if i < events.len() && !is_last_event(events[i]) {
        lemma_stop_index(events, i + 1);
    }
}

/// Moves the text out, leaving an empty one.
pub fn take_string(s: &mut String) -> (r: String)
    ensures
        r == *old(s),
        final(s)@ == Seq::<char>::empty(),
{
    let mut t = String::new();
    std::mem::swap(s, &mut t);
    t
}

/// Byte-wise equality.
pub fn bytes_eq(a: &Vec<u8>, b: &Vec<u8>) -> (r: bool)
    ensures
        r == (a@ == b@),
{
    if a.len() != b.len() {
        return false;
    }
    let mut i: usize = 0;
    while i < a.len()
        invariant
            0 <= i <= a@.len(),
            a@.len() == b@.len(),
            forall|k: int| 0 <= k < i ==> a@[k] == b@[k],
        decreases a.len() - i,
    {
        if a[i] != b[i] {
            return false;
        }
        i += 1;
    }
    assert(a@ =~= b@);
    true
}

} // verus!
