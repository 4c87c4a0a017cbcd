//! `GlobalBasicSettings_13.xml`, Roblox's own settings file.
//!
//! The file stores typed `<Item class="..."><Property name="...">value`
//! triples. Red Strap writes a few of them: it replaces the values of keys it
//! manages and appends missing keys just before the closing root tag, or
//! writes a minimal document when there is none.
//!
//! A set of updates is a list of [`Property`] records sorted by class and
//! then name, with no key twice: the order in which a map keyed by
//! `(class, name)` lists them.

use quick_xml::events::{BytesStart, Event};
use quick_xml::reader::Reader;
use vstd::prelude::*;

use crate::error::RedStrapError;
use crate::flagmodel::key_lt;
use crate::text::{
    chars_of, push_char, push_str, starts_with, starts_with_str, str_eq, str_to_string, trim,
    trim_str,
};

verus! {

/// File name of the settings file inside Roblox's data directory.
pub const GBS_FILE_NAME: &'static str = "GlobalBasicSettings_13.xml";

/// Class owning the render properties below.
pub const CLASS_RENDER_SETTINGS: &'static str = "RenderSettings";

/// Well-known property names (all of class `RenderSettings`).
pub const PROP_FULLSCREEN: &'static str = "GraphicsMode";

pub const PROP_VSYNC: &'static str = "VSyncDisabled";

pub const PROP_MSAALEVEL: &'static str = "MSAALevel";

pub const PROP_FRAMERATE_CAP: &'static str = "FramerateCap";

pub const PROP_TEXTURE_QUALITY: &'static str = "TextureQuality";

pub const PROP_MESH_CACHE_SIZE: &'static str = "MeshCacheSize";

/// Parsed value of one `<Property>`, or one update to write.
#[derive(Debug, Clone, PartialEq, Eq)]
pub struct Property {
    pub class: String,
    pub name: String,
    pub value: String,
}

/// A property as plain values: class, name, value.
pub type PropertyView = (Seq<char>, Seq<char>, Seq<char>);

pub open spec fn property_view(p: Property) -> PropertyView {
    (p.class@, p.name@, p.value@)
}

pub open spec fn properties_view(ps: Seq<Property>) -> Seq<PropertyView> {
    ps.map_values(|p: Property| property_view(p))
}

/// `(class, name)` of `a` comes strictly before that of `b`.
pub open spec fn key_before(a: PropertyView, b: PropertyView) -> bool {
    key_lt(a.0, b.0) || (a.0 == b.0 && key_lt(a.1, b.1))
}

/// Sorted by class, then name, with no key twice.
pub open spec fn sorted_updates(ps: Seq<PropertyView>) -> bool {
    forall|i: int, j: int| 0 <= i < j < ps.len() ==> key_before(ps[i], ps[j])
}

// ---------------------------------------------------------------------------
// Escaping
// ---------------------------------------------------------------------------

/// The escaped form of one character.
pub open spec fn xml_escaped_char(c: char) -> Seq<char> {
    if c == '&' {
        "&amp;"@
    } else if c == '<' {
        "&lt;"@
    } else if c == '>' {
        "&gt;"@
    } else if c == '"' {
        "&quot;"@
    } else if c == '\'' {
        "&apos;"@
    } else {
        seq![c]
    }
}

/// `&`, `<`, `>`, `"` and `'` replaced by their entities.
pub open spec fn xml_escaped(s: Seq<char>) -> Seq<char>
    decreases s.len(),
{
    if s.len() == 0 {
        Seq::empty()
    } else {
        xml_escaped(s.drop_last()) + xml_escaped_char(s.last())
    }
}

/// Escape text for use in XML content and attribute values.
pub fn xml_escape(text: &str) -> (r: String)
    ensures
        r@ == xml_escaped(text@),
{
    let chars = chars_of(text);
    let mut out = String::new();
    let mut i: usize = 0;
    while i < chars.len()
        invariant
            i <= chars@.len(),
            out@ == xml_escaped(chars@.take(i as int)),
        decreases chars.len() - i,
    {
        let c = chars[i];
        if c == '&' {
            push_str(&mut out, "&amp;");
        } else if c == '<' {
            push_str(&mut out, "&lt;");
        } else if c == '>' {
            push_str(&mut out, "&gt;");
        } else if c == '"' {
            push_str(&mut out, "&quot;");
        } else if c == '\'' {
            push_str(&mut out, "&apos;");
        } else {
            push_char(&mut out, c);
        }
        proof {
            assert(chars@.take(i + 1).drop_last() =~= chars@.take(i as int));
        }
        i += 1;
    }
    assert(chars@.take(chars@.len() as int) =~= chars@);
    out
}

// ---------------------------------------------------------------------------
// A fresh document
// ---------------------------------------------------------------------------

/// The prologue of a document written from scratch.
pub open spec fn doc_header() -> Seq<char> {
    DOC_HEADER@
}

pub const DOC_HEADER: &'static str = "<?xml version=\"1.0\" encoding=\"utf-8\"?>\n<roblox xmlns:xmime=\"http://www.w3.org/2005/05/xmlmime\" xmlns:xsi=\"http://www.w3.org/2001/XMLSchema-instance\" xsi:noNamespaceSchemaLocation=\"http://www.roblox.com/roblox.xsd\" version=\"4\">\n\t<External>null</External>\n\t<External>nil</External>\n";

/// `\t\t<Property name="{name}">{value}</Property>\n`, both escaped.
pub open spec fn property_line(p: PropertyView) -> Seq<char> {
    "\t\t<Property name=\""@ + xml_escaped(p.1) + "\">"@ + xml_escaped(p.2)
        + "</Property>\n"@
}

/// The text written for update `i`: the class's opening tag when it starts
/// a class, its property line, and the closing tag when it ends one.
pub open spec fn update_piece(ps: Seq<PropertyView>, i: int) -> Seq<char> {
    let opens = i == 0 || ps[i - 1].0 != ps[i].0;
    let closes = i == ps.len() - 1 || ps[i + 1].0 != ps[i].0;
    (if opens { "\t<Item class=\""@ + ps[i].0 + "\">\n"@ } else { Seq::empty() })
        + property_line(ps[i]) + (if closes { "\t</Item>\n"@ } else { Seq::empty() })
}

/// The pieces of the first `n` updates.
pub open spec fn update_pieces(ps: Seq<PropertyView>, n: int) -> Seq<char>
    decreases n,
{
    if n <= 0 {
        Seq::empty()
    } else {
        update_pieces(ps, n - 1) + update_piece(ps, n - 1)
    }
}

/// The minimal document holding `ps`: the prologue, one `<Item>` per class
/// with its properties in order, and the closing root tag.
pub open spec fn built_document(ps: Seq<PropertyView>) -> Seq<char> {
    doc_header() + update_pieces(ps, ps.len() as int) + "</roblox>\n"@
}

fn push_property_line(doc: &mut String, p: &Property)
    ensures
        final(doc)@ == old(doc)@ + property_line(property_view(*p)),
{
    push_str(doc, "\t\t<Property name=\"");
    let name = xml_escape(p.name.as_str());
    push_str(doc, name.as_str());
    push_str(doc, "\">");
    let value = xml_escape(p.value.as_str());
    push_str(doc, value.as_str());
    push_str(doc, "</Property>\n");
}

fn push_update_piece(doc: &mut String, updates: &[Property], i: usize)
    requires
        i < updates@.len(),
    ensures
        final(doc)@ == old(doc)@ + update_piece(properties_view(updates@), i as int),
{
    let ghost ps = properties_view(updates@);
    let p = &updates[i];
    let opens = i == 0 || !str_eq(updates[i - 1].class.as_str(), p.class.as_str());
    let closes = i + 1 == updates.len() || !str_eq(
        updates[i + 1].class.as_str(),
        p.class.as_str(),
    );
    proof {
        assert(ps[i as int] == property_view(*p));
        if i > 0 {
            assert(ps[i - 1] == property_view(updates@[i - 1]));
        }
        if i + 1 < updates@.len() {
            assert(ps[i + 1] == property_view(updates@[i + 1]));
        }
    }
    let ghost start = doc@;
    if opens {
        push_str(doc, "\t<Item class=\"");
        push_str(doc, p.class.as_str());
        push_str(doc, "\">\n");
    }
    let ghost mid = doc@;
    push_property_line(doc, p);
    let ghost mid2 = doc@;
    if closes {
        push_str(doc, "\t</Item>\n");
    }
    proof {
        let a: Seq<char> = if opens { "\t<Item class=\""@ + ps[i as int].0 + "\">\n"@ } else { Seq::empty() };
        let c: Seq<char> = if closes { "\t</Item>\n"@ } else { Seq::empty() };
        assert(mid == start + a);
        assert(mid2 == start + a + property_line(ps[i as int]));
        assert(doc@ == start + a + property_line(ps[i as int]) + c);
        assert(update_piece(ps, i as int) == a + property_line(ps[i as int]) + c);
    }
}

/// Minimal but faithful document skeleton for the keys being written.
pub fn build_document(updates: &[Property]) -> (r: String)
    requires
        sorted_updates(properties_view(updates@)),
    ensures
        r@ == built_document(properties_view(updates@)),
{
    let ghost ps = properties_view(updates@);
    let n = updates.len();
    let mut doc = str_to_string(DOC_HEADER);
    let mut i: usize = 0;
    while i < n
        invariant
            n == updates@.len(),
            ps == properties_view(updates@),
            i <= n,
            doc@ == doc_header() + update_pieces(ps, i as int),
        decreases n - i,
    {
        push_update_piece(&mut doc, updates, i);
        i += 1;
    }
    push_str(&mut doc, "</roblox>\n");
    doc
}

// ---------------------------------------------------------------------------
// Reading the document
// ---------------------------------------------------------------------------

#[verifier::external_type_specification]
#[verifier::external_body]
#[verifier::reject_recursive_types(R)]
pub struct ExXmlReader<R>(Reader<R>);

/// The kind of one event of the XML reader.
#[derive(Debug, Clone, Copy, PartialEq, Eq, Structural)]
pub enum XmlKind {
    Start,
    Empty,
    End,
    Text,
    Comment,
    CData,
    Decl,
    PI,
    DocType,
    Eof,
    /// The reader could not go on.
    Failed,
}

/// One event as the reader produced it: its kind and its raw content (the
/// text between the markup delimiters, as it stands in the document; the
/// reason for a failure).
#[derive(Debug, Clone)]
pub struct XmlStep {
    pub kind: XmlKind,
    pub raw: String,
}

pub type StepView = (XmlKind, Seq<char>);

pub open spec fn step_view(s: XmlStep) -> StepView {
    (s.kind, s.raw@)
}

pub open spec fn steps_view(v: Seq<XmlStep>) -> Seq<StepView> {
    v.map_values(|s: XmlStep| step_view(s))
}

pub open spec fn terminal(k: XmlKind) -> bool {
    k == XmlKind::Eof || k == XmlKind::Failed
}

/// A whole event stream: finitely many events, the last one (only) the end
/// of the document or a failure.
pub open spec fn stream_shape(s: Seq<StepView>) -> bool {
    &&& s.len() > 0
    &&& terminal(s.last().0)
    &&& forall|i: int| 0 <= i < s.len() - 1 ==> !terminal(#[trigger] s[i].0)
}

/// The events quick-xml's reader produces for `text` (with text trimming
/// on or off), up to the end of the document or the first failure.
pub uninterp spec fn xml_events(text: Seq<char>, trim: bool) -> Seq<StepView>;

/// The events a reader has yet to produce, up to the end of the document
/// or the first failure.
pub uninterp spec fn reader_pending(r: Reader<&[u8]>) -> Seq<StepView>;

/// `Reader::from_str` with `trim_text` set to `trim`. The contract names
/// the events it will produce, a function of the text and the setting: a
/// finite stream ending with the end of the document or a failure.
#[verifier::external_body]
fn xml_reader<'a>(text: &'a str, trim: bool) -> (r: Reader<&'a [u8]>)
    ensures
        reader_pending(r) == xml_events(text@, trim),
        stream_shape(reader_pending(r)),
{
    let mut reader = Reader::from_str(text);
    reader.config_mut().trim_text(trim);
    reader
}

/// `Reader::read_event`: the reader's next event, as an [`XmlStep`] (an
/// error becomes a failure carrying its message). It is the first pending
/// event, and it is no longer pending afterwards.
#[verifier::external_body]
fn next_xml_step<'a>(reader: &mut Reader<&'a [u8]>) -> (r: XmlStep)
    requires
        reader_pending(*old(reader)).len() > 0,
    ensures
        step_view(r) == reader_pending(*old(reader))[0],
        reader_pending(*final(reader)) == reader_pending(*old(reader)).drop_first(),
{
    let ev = match reader.read_event() {
        Ok(ev) => ev,
        Err(e) => return XmlStep { kind: XmlKind::Failed, raw: e.to_string() },
    };
    let kind = match &ev {
        Event::Start(_) => XmlKind::Start, Event::Empty(_) => XmlKind::Empty,
        Event::End(_) => XmlKind::End, Event::Text(_) => XmlKind::Text,
        Event::Comment(_) => XmlKind::Comment, Event::CData(_) => XmlKind::CData,
        Event::Decl(_) => XmlKind::Decl, Event::PI(_) => XmlKind::PI,
        Event::DocType(_) => XmlKind::DocType, Event::Eof => XmlKind::Eof,
    };
    XmlStep { kind, raw: String::from_utf8_lossy(&ev).into_owned() }
}

/// Every event of `text`, in order, the last one the end or a failure.
fn read_events(text: &str, trim: bool) -> (r: Vec<XmlStep>)
    ensures
        steps_view(r@) == xml_events(text@, trim),
        stream_shape(steps_view(r@)),
{
    let mut reader = xml_reader(text, trim);
    let ghost all = xml_events(text@, trim);
    let mut out: Vec<XmlStep> = Vec::new();
    loop
        invariant_except_break
            steps_view(out@) + reader_pending(reader) == all,
            forall|i: int| 0 <= i < out@.len() ==> !terminal(#[trigger] out@[i].kind),
        invariant
            stream_shape(all),
        ensures
            steps_view(out@) == all,
        decreases reader_pending(reader).len(),
    {
        proof {
            if reader_pending(reader).len() == 0 {
                assert(steps_view(out@) == all);
                assert(!terminal(all.last().0)) by {
                    assert(all.last() == steps_view(out@)[out@.len() - 1]);
                }
            }
        }
        let ghost before = steps_view(out@);
        let ghost pend = reader_pending(reader);
        let step = next_xml_step(&mut reader);
        let stop = step.kind == XmlKind::Eof || step.kind == XmlKind::Failed;
        out.push(step);
        proof {
            assert(steps_view(out@) =~= before.push(pend[0]));
            assert(steps_view(out@) + reader_pending(reader) =~= before + pend);
        }
        if stop {
            proof {
                let k = before.len() as int;
                assert(all[k].0 == pend[0].0);
                assert(k == all.len() - 1);
                assert(steps_view(out@) =~= all);
            }
            break;
        }
    }
    out
}

/// One attribute of a tag: its name and its unescaped value (or why the
/// value could not be unescaped).
#[derive(Debug)]
pub struct TagAttr {
    pub key: String,
    pub value: Result<String, String>,
}

/// An attribute as plain values, or why it could not be parsed.
pub type AttrView = Result<(Seq<char>, Result<Seq<char>, Seq<char>>), Seq<char>>;

pub open spec fn str_result(r: Result<String, String>) -> Result<Seq<char>, Seq<char>> {
    match r {
        Ok(s) => Ok(s@),
        Err(e) => Err(e@),
    }
}

pub open spec fn attr_view(a: Result<TagAttr, String>) -> AttrView {
    match a {
        Ok(t) => Ok((t.key@, str_result(t.value))),
        Err(e) => Err(e@),
    }
}

pub open spec fn attrs_view(v: Seq<Result<TagAttr, String>>) -> Seq<AttrView> {
    v.map_values(|a: Result<TagAttr, String>| attr_view(a))
}

/// The attributes quick-xml parses from a tag's content whose name is its
/// first `name_chars` characters.
pub uninterp spec fn tag_attrs(content: Seq<char>, name_chars: nat) -> Seq<AttrView>;

/// `BytesStart::attributes`: everything the attribute iterator yields for
/// the tag, in order (the name's length is handed over in bytes). The
/// contract names the list, a function of the tag's content alone.
#[verifier::external_body]
fn tag_attributes(content: &str, name_chars: usize) -> (r: Vec<Result<TagAttr, String>>)
    requires
        name_chars <= content@.len(),
    ensures
        attrs_view(r@) == tag_attrs(content@, name_chars as nat),
{
    let name_len = content.char_indices().nth(name_chars).map_or(content.len(), |(i, _)| i);
    BytesStart::from_content(content, name_len).attributes().map(|a| match a {
        Ok(a) => Ok(TagAttr {
            key: String::from_utf8_lossy(a.key.as_ref()).into_owned(),
            value: a.unescape_value().map(|v| v.into_owned()).map_err(|e| e.to_string()),
        }),
        Err(e) => Err(e.to_string()),
    }).collect()
}

/// The value of the attribute `key`: the first attribute so named, unless
/// an unparseable attribute comes first; an error says what went wrong.
pub open spec fn attr_lookup(attrs: Seq<AttrView>, key: Seq<char>) -> Result<Option<Seq<char>>, Seq<char>>
    decreases attrs.len(),
{
    if attrs.len() == 0 {
        Ok(None)
    } else {
        match attrs[0] {
            Err(e) => Err("bad XML attribute: "@ + e),
            Ok(a) => if a.0 == key {
                match a.1 {
                    Ok(v) => Ok(Some(v)),
                    Err(e) => Err("bad XML attribute value: "@ + e),
                }
            } else {
                attr_lookup(attrs.drop_first(), key)
            },
        }
    }
}

fn attr_value(content: &str, name_chars: usize, key: &str) -> (r: Result<Option<String>, String>)
    requires
        name_chars <= content@.len(),
    ensures
        match attr_lookup(tag_attrs(content@, name_chars as nat), key@) {
            Ok(Some(v)) => r matches Ok(Some(s)) && s@ == v,
            Ok(None) => r matches Ok(None),
            Err(e) => r matches Err(m) && m@ == e,
        },
{
    let attrs = tag_attributes(content, name_chars);
    let ghost av = attrs_view(attrs@);
    assert(av.skip(0) =~= av);
    let mut i: usize = 0;
    while i < attrs.len()
        invariant
            i <= attrs@.len(),
            av == attrs_view(attrs@),
            av == tag_attrs(content@, name_chars as nat),
            attr_lookup(av, key@) == attr_lookup(av.skip(i as int), key@),
        decreases attrs.len() - i,
    {
        proof {
            assert(av.skip(i as int)[0] == attr_view(attrs@[i as int]));
            assert(av.skip(i as int).drop_first() =~= av.skip(i + 1));
        }
        match &attrs[i] {
            Err(e) => {
                assert(attr_lookup(av.skip(i as int), key@) == Err::<Option<Seq<char>>, Seq<char>>(
                    "bad XML attribute: "@ + e@,
                ));
                let mut m = str_to_string("bad XML attribute: ");
                push_str(&mut m, e.as_str());
                return Err(m);
            },
            Ok(a) => {
                if str_eq(a.key.as_str(), key) {
                    match &a.value {
                        Ok(v) => {
                            assert(attr_lookup(av.skip(i as int), key@) == Ok::<Option<Seq<char>>, Seq<char>>(
                                Some(v@),
                            ));
                            return Ok(Some(str_to_string(v.as_str())));
                        },
                        Err(e) => {
                            assert(attr_lookup(av.skip(i as int), key@) == Err::<Option<Seq<char>>, Seq<char>>(
                                "bad XML attribute value: "@ + e@,
                            ));
                            let mut m = str_to_string("bad XML attribute value: ");
                            push_str(&mut m, e.as_str());
                            return Err(m);
                        },
                    }
                }
            },
        }
        i += 1;
    }
    proof {
        assert(av.skip(i as int).len() == 0);
    }
    Ok(None)
}

pub open spec fn xml_ws(c: char) -> bool {
    c == ' ' || c == '\r' || c == '\n' || c == '\t'
}

/// Where a tag's name ends in its content: at the first XML whitespace
/// character at or after `i` (quick-xml's `name_len`).
pub open spec fn name_end_from(s: Seq<char>, i: int) -> int
    decreases s.len() - i,
{
    if i < 0 || i >= s.len() {
        s.len() as int
    } else if xml_ws(s[i]) {
        i
    } else {
        name_end_from(s, i + 1)
    }
}

pub open spec fn name_end(s: Seq<char>) -> int {
    name_end_from(s, 0)
}

proof fn lemma_name_end_from(s: Seq<char>, i: int)
    requires
        0 <= i <= s.len(),
    ensures
        i <= name_end_from(s, i) <= s.len(),
    decreases s.len() - i,
{
    if i < s.len() {
        lemma_name_end_from(s, i + 1);
    }
}

/// The name of a start or empty tag: its content up to the first XML
/// whitespace.
pub open spec fn tag_name(s: StepView) -> Seq<char> {
    s.1.take(name_end(s.1))
}

/// The event is a tag named `name`.
pub open spec fn is_tag(s: StepView, name: Seq<char>) -> bool {
    tag_name(s) == name
}

fn name_chars(raw: &[char]) -> (r: usize)
    ensures
        r == name_end(raw@),
        r <= raw@.len(),
{
    let mut i: usize = 0;
    while i < raw.len()
        invariant
            i <= raw@.len(),
            name_end(raw@) == name_end_from(raw@, i as int),
        decreases raw.len() - i,
    {
        let c = raw[i];
        if c == ' ' || c == '\r' || c == '\n' || c == '\t' {
            return i;
        }
        i += 1;
    }
    i
}

fn tag_name_chars(s: &XmlStep) -> (r: usize)
    ensures
        r == name_end(s.raw@),
        r <= s.raw@.len(),
{
    name_chars(chars_of(s.raw.as_str()).as_slice())
}

fn step_is_tag(s: &XmlStep, name: &str) -> (r: bool)
    ensures
        r == is_tag(step_view(*s), name@),
{
    let raw = chars_of(s.raw.as_str());
    let n = name_chars(raw.as_slice());
    let lit = chars_of(name);
    let r = crate::text::chars_eq(crate::text::subvec(raw.as_slice(), 0, n).as_slice(), lit.as_slice());
    assert(raw@.subrange(0, n as int) =~= raw@.take(n as int));
    r
}

/// Reading properties from event `i` on, inside the `<Item>` of class
/// `class` (if any) and the `<Property>` named `name` (if any), with `out`
/// read so far: the text of a property inside an item is recorded; an
/// `<Item>` sets the class from its `class` attribute, a `<Property>` the
/// name from its `name` attribute, any other tag clears the name; closing
/// tags clear the name, and `</Item>` the class.
pub open spec fn read_scan(
    steps: Seq<StepView>,
    i: int,
    class: Option<Seq<char>>,
    name: Option<Seq<char>>,
    out: Seq<PropertyView>,
) -> Result<Seq<PropertyView>, Seq<char>>
    decreases steps.len() - i,
{
    if i < 0 || i >= steps.len() {
        Ok(out)
    } else {
        let s = steps[i];
        match s.0 {
            XmlKind::Failed => Err("could not parse settings XML: "@ + s.1),
            XmlKind::Eof => Ok(out),
            XmlKind::Start | XmlKind::Empty => if is_tag(s, "Item"@) {
                match attr_lookup(tag_attrs(s.1, name_end(s.1) as nat), "class"@) {
                    Ok(c) => read_scan(steps, i + 1, c, None, out),
                    Err(e) => Err(e),
                }
            } else if is_tag(s, "Property"@) {
                match attr_lookup(tag_attrs(s.1, name_end(s.1) as nat), "name"@) {
                    Ok(n) => read_scan(steps, i + 1, class, n, out),
                    Err(e) => Err(e),
                }
            } else {
                read_scan(steps, i + 1, class, None, out)
            },
            XmlKind::Text => match (class, name) {
                (Some(c), Some(n)) => read_scan(steps, i + 1, class, None, out.push((c, n, s.1))),
                _ => read_scan(steps, i + 1, class, name, out),
            },
            XmlKind::End => read_scan(
                steps,
                i + 1,
                if s.1 == "Item"@ { None } else { class },
                None,
                out,
            ),
            _ => read_scan(steps, i + 1, class, name, out),
        }
    }
}

/// The properties of the document `xml`, in document order, or the error
/// message.
pub open spec fn read_properties_spec(xml: Seq<char>) -> Result<Seq<PropertyView>, Seq<char>> {
    read_scan(xml_events(xml, true), 0, None, None, Seq::empty())
}

fn opt_string(o: &Option<String>) -> (r: Option<String>)
    ensures
        crate::cli::opt_view(r) == crate::cli::opt_view(*o),
{
    match o {
        Some(s) => Some(str_to_string(s.as_str())),
        None => None,
    }
}

fn settings_error(m: String) -> (r: RedStrapError)
    ensures
        r matches RedStrapError::GameSettings(x) && x@ == m@,
{
    RedStrapError::GameSettings(m)
}

/// Parse every `<Item class><Property name>` value in the document (text
/// trimmed, entities left as written). Unknown structure is skipped rather
/// than failing the whole read.
pub fn read_properties(xml: &str) -> (r: Result<Vec<Property>, RedStrapError>)
    ensures
        match read_properties_spec(xml@) {
            Ok(ps) => r matches Ok(v) && properties_view(v@) == ps,
            Err(m) => r matches Err(e) && e matches RedStrapError::GameSettings(x) && x@ == m,
        },
{
    let steps = read_events(xml, true);
    let ghost sv = steps_view(steps@);
    let mut class: Option<String> = None;
    let mut name: Option<String> = None;
    let mut out: Vec<Property> = Vec::new();
    assert(properties_view(out@) =~= Seq::<PropertyView>::empty());
    let mut i: usize = 0;
    while i < steps.len()
        invariant
            i <= steps@.len(),
            sv == steps_view(steps@),
            stream_shape(sv),
            read_properties_spec(xml@) == read_scan(
                sv,
                i as int,
                crate::cli::opt_view(class),
                crate::cli::opt_view(name),
                properties_view(out@),
            ),
        decreases steps.len() - i,
    {
        let s = &steps[i];
        assert(sv[i as int] == step_view(*s));
        match s.kind {
            XmlKind::Failed => {
                let mut m = str_to_string("could not parse settings XML: ");
                push_str(&mut m, s.raw.as_str());
                return Err(settings_error(m));
            },
            XmlKind::Eof => {
                return Ok(out);
            },
            XmlKind::Start | XmlKind::Empty => {
                if step_is_tag(s, "Item") {
                    match attr_value(s.raw.as_str(), tag_name_chars(s), "class") {
                        Ok(c) => {
                            class = c;
                            name = None;
                        },
                        Err(m) => return Err(settings_error(m)),
                    }
                } else if step_is_tag(s, "Property") {
                    match attr_value(s.raw.as_str(), tag_name_chars(s), "name") {
                        Ok(n) => {
                            name = n;
                        },
                        Err(m) => return Err(settings_error(m)),
                    }
                } else {
                    name = None;
                }
            },
            XmlKind::Text => {
                if class.is_some() && name.is_some() {
                    let c = opt_string(&class).unwrap();
                    let n = opt_string(&name).unwrap();
                    let ghost before = properties_view(out@);
                    out.push(Property { class: c, name: n, value: str_to_string(s.raw.as_str()) });
                    assert(properties_view(out@) =~= before.push(
                        (crate::cli::opt_view(class)->0, crate::cli::opt_view(name)->0, s.raw@),
                    ));
                    name = None;
                }
            },
            XmlKind::End => {
                if str_eq(s.raw.as_str(), "Item") {
                    class = None;
                }
                name = None;
            },
            _ => {},
        }
        i += 1;
    }
    Ok(out)
}

// ---------------------------------------------------------------------------
// Rewriting the document
// ---------------------------------------------------------------------------

/// What quick-xml's `Writer::write_event` (without indentation) writes for
/// an event: its raw content inside the markup delimiters of its kind.
pub open spec fn framed(s: StepView) -> Seq<char> {
    match s.0 {
        XmlKind::Start => "<"@ + s.1 + ">"@,
        XmlKind::End => "</"@ + s.1 + ">"@,
        XmlKind::Empty => "<"@ + s.1 + "/>"@,
        XmlKind::Text => s.1,
        XmlKind::Comment => "<!--"@ + s.1 + "-->"@,
        XmlKind::CData => "<![CDATA["@ + s.1 + "]]>"@,
        XmlKind::Decl => "<?"@ + s.1 + "?>"@,
        XmlKind::PI => "<?"@ + s.1 + "?>"@,
        XmlKind::DocType => "<!DOCTYPE "@ + s.1 + ">"@,
        _ => Seq::empty(),
    }
}

fn push_framed(out: &mut String, s: &XmlStep)
    ensures
        final(out)@ == old(out)@ + framed(step_view(*s)),
{
    let (open, close): (&str, &str) = match s.kind {
        XmlKind::Start => ("<", ">"),
        XmlKind::End => ("</", ">"),
        XmlKind::Empty => ("<", "/>"),
        XmlKind::Comment => ("<!--", "-->"),
        XmlKind::CData => ("<![CDATA[", "]]>"),
        XmlKind::Decl => ("<?", "?>"),
        XmlKind::PI => ("<?", "?>"),
        XmlKind::DocType => ("<!DOCTYPE ", ">"),
        XmlKind::Text => ("", ""),
        _ => return,
    };
    proof {
        reveal_strlit("");
    }
    push_str(out, open);
    push_str(out, s.raw.as_str());
    push_str(out, close);
    assert(final(out)@ =~= old(out)@ + framed(step_view(*s)));
}

/// Index of the update for `(class, name)`, searching from `j`.
pub open spec fn update_index_from(ups: Seq<PropertyView>, c: Seq<char>, n: Seq<char>, j: int) -> Option<int>
    decreases ups.len() - j,
{
    if j < 0 || j >= ups.len() {
        None
    } else if ups[j].0 == c && ups[j].1 == n {
        Some(j)
    } else {
        update_index_from(ups, c, n, j + 1)
    }
}

proof fn lemma_update_index_from(ups: Seq<PropertyView>, c: Seq<char>, n: Seq<char>, j: int)
    requires
        0 <= j <= ups.len(),
    ensures
        match update_index_from(ups, c, n, j) {
            Some(k) => j <= k < ups.len() && ups[k].0 == c && ups[k].1 == n,
            None => forall|k: int| j <= k < ups.len() ==> !(ups[k].0 == c && ups[k].1 == n),
        },
    decreases ups.len() - j,
{
    if j < ups.len() {
        lemma_update_index_from(ups, c, n, j + 1);
    }
}

fn update_index(updates: &[Property], c: &str, n: &str) -> (r: Option<usize>)
    ensures
        match update_index_from(properties_view(updates@), c@, n@, 0) {
            Some(k) => r == Some(k as usize),
            None => r is None,
        },
{
    let ghost ups = properties_view(updates@);
    let mut j: usize = 0;
    while j < updates.len()
        invariant
            j <= updates@.len(),
            ups == properties_view(updates@),
            update_index_from(ups, c@, n@, 0) == update_index_from(ups, c@, n@, j as int),
        decreases updates.len() - j,
    {
        assert(ups[j as int] == property_view(updates@[j as int]));
        if str_eq(updates[j].class.as_str(), c) && str_eq(updates[j].name.as_str(), n) {
            return Some(j);
        }
        j += 1;
    }
    None
}

/// The updates not yet applied (`done[j]` false), in order, among the
/// first `k`.
pub open spec fn pending_updates(ups: Seq<PropertyView>, done: Seq<bool>, k: int) -> Seq<PropertyView>
    decreases k,
{
    if k <= 0 {
        Seq::empty()
    } else {
        let p = pending_updates(ups, done, k - 1);
        if done[k - 1] {
            p
        } else {
            p.push(ups[k - 1])
        }
    }
}

/// `<Property name="{name}">{value}</Property>`, both escaped.
pub open spec fn inline_property(p: PropertyView) -> Seq<char> {
    "<Property name=\""@ + xml_escaped(p.1) + "\">"@ + xml_escaped(p.2) + "</Property>"@
}

/// Consecutive updates of one class gathered: each class with its inline
/// properties in order.
pub open spec fn class_groups(m: Seq<PropertyView>) -> Seq<(Seq<char>, Seq<char>)>
    decreases m.len(),
{
    if m.len() == 0 {
        Seq::empty()
    } else {
        let g = class_groups(m.drop_last());
        let p = m.last();
        if g.len() > 0 && g.last().0 == p.0 {
            g.update(g.len() - 1, (p.0, g.last().1 + inline_property(p)))
        } else {
            g.push((p.0, inline_property(p)))
        }
    }
}

/// `\t<Item class="{class}">{properties}</Item>\n`, the class escaped.
pub open spec fn item_text(g: (Seq<char>, Seq<char>)) -> Seq<char> {
    "\t<Item class=\""@ + xml_escaped(g.0) + "\">"@ + g.1 + "</Item>\n"@
}

pub open spec fn items_text(gs: Seq<(Seq<char>, Seq<char>)>) -> Seq<char>
    decreases gs.len(),
{
    if gs.len() == 0 {
        Seq::empty()
    } else {
        items_text(gs.drop_last()) + item_text(gs.last())
    }
}

/// The text appended before `</roblox>`: one item per class of the updates
/// that were not applied in place.
pub open spec fn missing_text(ups: Seq<PropertyView>, done: Seq<bool>) -> Seq<char> {
    items_text(class_groups(pending_updates(ups, done, ups.len() as int)))
}

fn push_missing(out: &mut String, updates: &[Property], done: &Vec<bool>)
    requires
        done@.len() == updates@.len(),
    ensures
        final(out)@ == old(out)@ + missing_text(properties_view(updates@), done@),
{
    let ghost ups = properties_view(updates@);
    let mut classes: Vec<String> = Vec::new();
    let mut bodies: Vec<String> = Vec::new();
    let mut j: usize = 0;
    while j < updates.len()
        invariant
            j <= updates@.len(),
            done@.len() == updates@.len(),
            ups == properties_view(updates@),
            classes@.len() == bodies@.len(),
            classes@.len() == class_groups(pending_updates(ups, done@, j as int)).len(),
            forall|k: int|
                0 <= k < classes@.len() ==> (#[trigger] classes@[k])@ == class_groups(
                    pending_updates(ups, done@, j as int),
                )[k].0 && bodies@[k]@ == class_groups(pending_updates(ups, done@, j as int))[k].1,
        decreases updates.len() - j,
    {
        let ghost before = pending_updates(ups, done@, j as int);
        if !done[j] {
            let p = &updates[j];
            assert(ups[j as int] == property_view(*p));
            let mut line = str_to_string("<Property name=\"");
            let nm = xml_escape(p.name.as_str());
            push_str(&mut line, nm.as_str());
            push_str(&mut line, "\">");
            let v = xml_escape(p.value.as_str());
            push_str(&mut line, v.as_str());
            push_str(&mut line, "</Property>");
            assert(line@ == inline_property(ups[j as int]));
            let ghost m = before.push(ups[j as int]);
            assert(m.drop_last() =~= before);
            let n = classes.len();
            if n > 0 && str_eq(classes[n - 1].as_str(), p.class.as_str()) {
                let mut body = str_to_string(bodies[n - 1].as_str());
                push_str(&mut body, line.as_str());
                bodies.set(n - 1, body);
            } else {
                classes.push(str_to_string(p.class.as_str()));
                bodies.push(line);
            }
        }
        j += 1;
    }
    let ghost gs = class_groups(pending_updates(ups, done@, ups.len() as int));
    let mut k: usize = 0;
    let ghost start = out@;
    while k < classes.len()
        invariant
            k <= classes@.len(),
            classes@.len() == bodies@.len(),
            classes@.len() == gs.len(),
            forall|i: int|
                0 <= i < classes@.len() ==> (#[trigger] classes@[i])@ == gs[i].0 && bodies@[i]@
                    == gs[i].1,
            out@ == start + items_text(gs.take(k as int)),
        decreases classes.len() - k,
    {
        push_str(out, "\t<Item class=\"");
        let c = xml_escape(classes[k].as_str());
        push_str(out, c.as_str());
        push_str(out, "\">");
        push_str(out, bodies[k].as_str());
        push_str(out, "</Item>\n");
        proof {
            assert(gs.take(k + 1).drop_last() =~= gs.take(k as int));
            assert(gs.take(k + 1).last() == gs[k as int]);
        }
        k += 1;
    }
    assert(gs.take(gs.len() as int) =~= gs);
}

/// Streaming the document from event `i` on, inside the `<Item>` of class
/// `class` and the `<Property>` named `name` (if any), with the updates
/// marked in `done` applied and `out` written so far: every event is
/// written back unchanged, except that the text of a property with an
/// update becomes the escaped new value, and the missing updates are
/// appended just before `</roblox>`.
pub open spec fn merge_scan(
    steps: Seq<StepView>,
    ups: Seq<PropertyView>,
    i: int,
    class: Option<Seq<char>>,
    name: Option<Seq<char>>,
    done: Seq<bool>,
    out: Seq<char>,
) -> Result<Seq<char>, Seq<char>>
    decreases steps.len() - i,
{
    if i < 0 || i >= steps.len() {
        Ok(out)
    } else {
        let s = steps[i];
        match s.0 {
            XmlKind::Failed => Err("could not parse settings XML: "@ + s.1),
            XmlKind::Eof => Ok(out),
            XmlKind::Start => if is_tag(s, "Item"@) {
                match attr_lookup(tag_attrs(s.1, name_end(s.1) as nat), "class"@) {
                    Ok(c) => merge_scan(steps, ups, i + 1, c, None, done, out + framed(s)),
                    Err(e) => Err(e),
                }
            } else if is_tag(s, "Property"@) {
                match attr_lookup(tag_attrs(s.1, name_end(s.1) as nat), "name"@) {
                    Ok(n) => merge_scan(steps, ups, i + 1, class, n, done, out + framed(s)),
                    Err(e) => Err(e),
                }
            } else {
                merge_scan(steps, ups, i + 1, class, name, done, out + framed(s))
            },
            XmlKind::Text => match (class, name) {
                (Some(c), Some(n)) => match update_index_from(ups, c, n, 0) {
                    Some(j) => merge_scan(
                        steps,
                        ups,
                        i + 1,
                        class,
                        None,
                        done.update(j, true),
                        out + xml_escaped(ups[j].2),
                    ),
                    None => merge_scan(steps, ups, i + 1, class, None, done, out + framed(s)),
                },
                _ => merge_scan(steps, ups, i + 1, class, None, done, out + framed(s)),
            },
            XmlKind::End => merge_scan(
                steps,
                ups,
                i + 1,
                if s.1 == "Item"@ { None } else { class },
                None,
                done,
                out + (if s.1 == "roblox"@ { missing_text(ups, done) } else { Seq::empty() })
                    + framed(s),
            ),
            _ => merge_scan(steps, ups, i + 1, class, name, done, out + framed(s)),
        }
    }
}

/// The merged document for `existing` and the updates `ups`, or the error
/// message when it cannot be parsed.
pub open spec fn merge_spec(existing: Seq<char>, ups: Seq<PropertyView>) -> Result<Seq<char>, Seq<char>> {
    merge_scan(
        xml_events(existing, false),
        ups,
        0,
        None,
        None,
        Seq::new(ups.len(), |j: int| false),
        Seq::empty(),
    )
}

/// Stream `existing` through, replacing updated values in place and
/// appending missing keys before `</roblox>`.
pub fn merge_document(existing: &str, updates: &[Property]) -> (r: Result<String, RedStrapError>)
    ensures
        match merge_spec(existing@, properties_view(updates@)) {
            Ok(d) => r matches Ok(s) && s@ == d,
            Err(m) => r matches Err(e) && e matches RedStrapError::GameSettings(x) && x@ == m,
        },
{
    let ghost ups = properties_view(updates@);
    let steps = read_events(existing, false);
    let ghost sv = steps_view(steps@);
    let mut class: Option<String> = None;
    let mut name: Option<String> = None;
    let mut done: Vec<bool> = Vec::new();
    let mut k: usize = 0;
    while k < updates.len()
        invariant
            k <= updates@.len(),
            done@ =~= Seq::new(k as nat, |j: int| false),
        decreases updates.len() - k,
    {
        done.push(false);
        k += 1;
    }
    let mut out = String::new();
    let mut i: usize = 0;
    while i < steps.len()
        invariant
            i <= steps@.len(),
            sv == steps_view(steps@),
            ups == properties_view(updates@),
            stream_shape(sv),
            done@.len() == updates@.len(),
            merge_spec(existing@, ups) == merge_scan(
                sv,
                ups,
                i as int,
                crate::cli::opt_view(class),
                crate::cli::opt_view(name),
                done@,
                out@,
            ),
        decreases steps.len() - i,
    {
        let s = &steps[i];
        assert(sv[i as int] == step_view(*s));
        match s.kind {
            XmlKind::Failed => {
                let mut m = str_to_string("could not parse settings XML: ");
                push_str(&mut m, s.raw.as_str());
                return Err(settings_error(m));
            },
            XmlKind::Eof => {
                return Ok(out);
            },
            XmlKind::Start => {
                if step_is_tag(s, "Item") {
                    match attr_value(s.raw.as_str(), tag_name_chars(s), "class") {
                        Ok(c) => {
                            class = c;
                            name = None;
                        },
                        Err(m) => return Err(settings_error(m)),
                    }
                } else if step_is_tag(s, "Property") {
                    match attr_value(s.raw.as_str(), tag_name_chars(s), "name") {
                        Ok(n) => {
                            name = n;
                        },
                        Err(m) => return Err(settings_error(m)),
                    }
                }
                push_framed(&mut out, s);
            },
            XmlKind::Text => {
                let hit: Option<usize> = match (&class, &name) {
                    (Some(c), Some(n)) => update_index(updates, c.as_str(), n.as_str()),
                    _ => None,
                };
                match hit {
                    Some(j) => {
                        proof {
                            lemma_update_index_from(ups, crate::cli::opt_view(class)->0, crate::cli::opt_view(name)->0, 0);
                            assert(ups[j as int] == property_view(updates@[j as int]));
                        }
                        let v = xml_escape(updates[j].value.as_str());
                        push_str(&mut out, v.as_str());
                        done.set(j, true);
                    },
                    None => {
                        push_framed(&mut out, s);
                    },
                }
                name = None;
            },
            XmlKind::End => {
                if str_eq(s.raw.as_str(), "roblox") {
                    push_missing(&mut out, updates, &done);
                } else {
                    proof {
                        let e: Seq<char> = Seq::empty();
                        assert(out@ + e =~= out@);
                    }
                }
                if str_eq(s.raw.as_str(), "Item") {
                    class = None;
                }
                name = None;
                push_framed(&mut out, s);
            },
            _ => {
                push_framed(&mut out, s);
            },
        }
        i += 1;
    }
    Ok(out)
}

/// The document to write for `updates` given the settings file's current
/// text (`None` when there is no file): nothing when there are no updates;
/// a fresh document when the file is missing or blank; otherwise the
/// merged document, or a fresh one when the file cannot be parsed.
pub open spec fn rewrite_spec(existing: Option<Seq<char>>, ups: Seq<PropertyView>) -> Option<Seq<char>> {
    if ups.len() == 0 {
        None
    } else {
        match existing {
            Some(t) if trim(t).len() > 0 => match merge_spec(t, ups) {
                Ok(d) => Some(d),
                Err(_) => Some(built_document(ups)),
            },
            _ => Some(built_document(ups)),
        }
    }
}

/// The new text of the settings file for `updates` (see [`rewrite_spec`]).
pub fn rewrite_properties(existing: Option<&str>, updates: &[Property]) -> (r: Option<String>)
    requires
        sorted_updates(properties_view(updates@)),
    ensures
        match rewrite_spec(crate::fastflags::opt_view(existing), properties_view(updates@)) {
            Some(d) => r matches Some(s) && s@ == d,
            None => r is None,
        },
{
    if updates.len() == 0 {
        return None;
    }
    match existing {
        Some(t) => {
            if trim_str(t).len() > 0 {
                match merge_document(t, updates) {
                    Ok(d) => Some(d),
                    Err(_) => Some(build_document(updates)),
                }
            } else {
                Some(build_document(updates))
            }
        },
        None => Some(build_document(updates)),
    }
}

} // verus!
