//! PDF object model (ISO 32000-1 §7.3).

use vstd::prelude::*;

verus! {

broadcast use vstd::std_specs::vec::group_vec_axioms;

/// An object number together with its generation number.
#[derive(Debug, Clone, Copy, PartialEq, Eq, Hash, Structural)]
pub struct ObjectId {
    pub number: u32,
    pub generation: u16,
}

impl ObjectId {
    pub fn new(number: u32, generation: u16) -> (id: ObjectId)
        ensures
            id.number == number,
            id.generation == generation,
    {
        ObjectId { number, generation }
    }
}

/// A basic PDF object (ISO 32000-1 §7.3).
///
/// Strings, names and real numbers keep their raw bytes: string encodings are
/// not interpreted here, and a real number keeps the decimal text it was
/// written with (for example `-.5` or `3.14`), so no precision is lost.
#[derive(Debug, PartialEq)]
pub enum PdfObject {
    /// `null`
    Null,
    /// `true` or `false`
    Boolean(bool),
    /// An integer such as `42`, `-3` or `+10`.
    Integer(i64),
    /// A real number such as `3.14`, `-.5` or `+1.0`, as its decimal text.
    Real(Vec<u8>),
    /// A literal string `(...)`, escapes resolved.
    LiteralString(Vec<u8>),
    /// A hexadecimal string `<...>`, decoded.
    HexString(Vec<u8>),
    /// A name `/Foo`, without the slash and with `#HH` escapes resolved.
    Name(Vec<u8>),
    /// An array `[...]`.
    Array(Vec<PdfObject>),
    /// A dictionary `<<...>>`.
    Dictionary(PdfDict),
    /// A stream: its dictionary and its raw (undecoded) bytes.
    Stream(PdfStream),
    /// An unresolved indirect reference `N G R`.
    Reference(ObjectId),
}

/// The syntax a string object was written in.
#[derive(Debug, Clone, Copy, PartialEq, Eq, Structural)]
pub enum StringFormat {
    /// `(...)`
    Literal,
    /// `<...>`
    Hex,
}

/// A dictionary `<< key value ... >>` (ISO 32000-1 §7.3.7).
///
/// Keys are the raw bytes of names. Entries keep their order, and repeated
/// keys are kept: `get` answers with the first occurrence, as the
/// specification asks, and `get_last` with the last one, as some producers
/// expect.
#[derive(Debug, PartialEq, Default)]
pub struct PdfDict(pub Vec<(Vec<u8>, PdfObject)>);

/// A stream object (ISO 32000-1 §7.3.8): its dictionary and raw bytes.
#[derive(Debug, PartialEq)]
pub struct PdfStream {
    pub dict: PdfDict,
    pub data: Vec<u8>,
}

/// An indirect object `N G obj ... endobj` (ISO 32000-1 §7.3.10).
#[derive(Debug, PartialEq)]
pub struct IndirectObject {
    pub id: ObjectId,
    pub object: PdfObject,
}

/// The mathematical value of an object: byte strings as sequences, and the
/// same tree shape as the object.
pub enum ObjectView {
    Null,
    Boolean(bool),
    Integer(i64),
    Real(Seq<u8>),
    LiteralString(Seq<u8>),
    HexString(Seq<u8>),
    Name(Seq<u8>),
    Array(Seq<ObjectView>),
    Dictionary(Seq<(Seq<u8>, ObjectView)>),
    Stream(Seq<(Seq<u8>, ObjectView)>, Seq<u8>),
    Reference(ObjectId),
}

/// The value of an object.
pub open spec fn view_object(o: PdfObject) -> ObjectView
    decreases o,
{
    match o {
        PdfObject::Null => ObjectView::Null,
        PdfObject::Boolean(b) => ObjectView::Boolean(b),
        PdfObject::Integer(n) => ObjectView::Integer(n),
        PdfObject::Real(t) => ObjectView::Real(t@),
        PdfObject::LiteralString(t) => ObjectView::LiteralString(t@),
        PdfObject::HexString(t) => ObjectView::HexString(t@),
        PdfObject::Name(t) => ObjectView::Name(t@),
        PdfObject::Array(items) => ObjectView::Array(
            Seq::new(
                items@.len(),
                |i: int|
                    if 0 <= i < items@.len() {
                        view_object(items@[i])
                    } else {
                        ObjectView::Null
                    },
            ),
        ),
        PdfObject::Dictionary(d) => ObjectView::Dictionary(
            Seq::new(
                d.0@.len(),
                |i: int|
                    if 0 <= i < d.0@.len() {
                        (d.0@[i].0@, view_object(d.0@[i].1))
                    } else {
                        (Seq::empty(), ObjectView::Null)
                    },
            ),
        ),
        PdfObject::Stream(st) => ObjectView::Stream(
            Seq::new(
                st.dict.0@.len(),
                |i: int|
                    if 0 <= i < st.dict.0@.len() {
                        (st.dict.0@[i].0@, view_object(st.dict.0@[i].1))
                    } else {
                        (Seq::empty(), ObjectView::Null)
                    },
            ),
            st.data@,
        ),
        PdfObject::Reference(id) => ObjectView::Reference(id),
    }
}

impl View for PdfObject {
    type V = ObjectView;

    open spec fn view(&self) -> ObjectView {
        view_object(*self)
    }
}

/// The value of a dictionary: its entries in order.
pub open spec fn view_entries(entries: Seq<(Vec<u8>, PdfObject)>) -> Seq<(Seq<u8>, ObjectView)> {
    Seq::new(
        entries.len(),
        |i: int|
            if 0 <= i < entries.len() {
                (entries[i].0@, view_object(entries[i].1))
            } else {
                (Seq::empty(), ObjectView::Null)
            },
    )
}

/// The value of a dictionary object is the value of its dictionary.
pub proof fn lemma_dictionary_view(d: PdfDict)
    ensures
        view_object(PdfObject::Dictionary(d)) == ObjectView::Dictionary(d@),
{
    assert(view_object(PdfObject::Dictionary(d))->Dictionary_0 =~= d@);
}

/// The value of a stream object is the value of its stream.
pub proof fn lemma_stream_view(st: PdfStream)
    ensures
        view_object(PdfObject::Stream(st)) == st@,
{
    assert(view_object(PdfObject::Stream(st))->Stream_0 =~= view_entries(st.dict.0@));
}

/// The value of an array object is the sequence of the values of its items.
pub proof fn lemma_array_view(items: Vec<PdfObject>)
    ensures
        view_object(PdfObject::Array(items)) == ObjectView::Array(
            Seq::new(items@.len(), |i: int| view_object(items@[i])),
        ),
{
    assert(view_object(PdfObject::Array(items))->Array_0 =~= Seq::new(
        items@.len(),
        |i: int| view_object(items@[i]),
    ));
}

impl View for PdfDict {
    type V = Seq<(Seq<u8>, ObjectView)>;

    open spec fn view(&self) -> Seq<(Seq<u8>, ObjectView)> {
        view_entries(self.0@)
    }
}

impl View for PdfStream {
    type V = ObjectView;

    open spec fn view(&self) -> ObjectView {
        ObjectView::Stream(view_entries(self.dict.0@), self.data@)
    }
}

impl View for IndirectObject {
    type V = (ObjectId, ObjectView);

    open spec fn view(&self) -> (ObjectId, ObjectView) {
        (self.id, self.object@)
    }
}

/// The value of the first entry whose key is `key`.
pub open spec fn dict_lookup(entries: Seq<(Seq<u8>, ObjectView)>, key: Seq<u8>) -> Option<ObjectView>
    decreases entries.len(),
{
    if entries.len() == 0 {
        None
    } else if entries[0].0 == key {
        Some(entries[0].1)
    } else {
        dict_lookup(entries.drop_first(), key)
    }
}

/// The value of the last entry whose key is `key`.
pub open spec fn dict_lookup_last(entries: Seq<(Seq<u8>, ObjectView)>, key: Seq<u8>) -> Option<ObjectView>
    decreases entries.len(),
{
    if entries.len() == 0 {
        None
    } else if entries.last().0 == key {
        Some(entries.last().1)
    } else {
        dict_lookup_last(entries.drop_last(), key)
    }
}

impl PdfDict {
    /// The value of the first entry with this key (ISO 32000-1 §7.3.7:
    /// "If a key is repeated, the first occurrence shall be used").
    pub open spec fn spec_get(&self, key: Seq<u8>) -> Option<ObjectView> {
        dict_lookup(self@, key)
    }

    /// The first entry whose key is `key`.
    pub fn get(&self, key: &[u8]) -> (r: Option<&PdfObject>)
        ensures
            match r {
                Some(v) => self.spec_get(key@) == Some(v@),
                None => self.spec_get(key@) is None,
            },
    {
        let mut i: usize = 0;
        assert(self@.skip(0) =~= self@);
        while i < self.0.len()
            invariant
                i <= self.0@.len(),
                self@.len() == self.0@.len(),
                dict_lookup(self@, key@) == dict_lookup(self@.skip(i as int), key@),
            decreases self.0@.len() - i,
        {
            assert(self@.skip(i as int).drop_first() =~= self@.skip(i + 1));
            assert(self@.skip(i as int)[0] == self@[i as int]);
            if bytes_equal(self.0[i].0.as_slice(), key) {
                return Some(&self.0[i].1);
            }
            i += 1;
        }
        None
    }

    /// The last entry whose key is `key`.
    pub fn get_last(&self, key: &[u8]) -> (r: Option<&PdfObject>)
        ensures
            match r {
                Some(v) => dict_lookup_last(self@, key@) == Some(v@),
                None => dict_lookup_last(self@, key@) is None,
            },
    {
        let mut i: usize = self.0.len();
        assert(self@.take(self@.len() as int) =~= self@);
        while i > 0
            invariant
                i <= self.0@.len(),
                self@.len() == self.0@.len(),
                dict_lookup_last(self@, key@) == dict_lookup_last(self@.take(i as int), key@),
            decreases i,
        {
            assert(self@.take(i as int).drop_last() =~= self@.take(i - 1));
            assert(self@.take(i as int).last() == self@[i - 1]);
            if bytes_equal(self.0[i - 1].0.as_slice(), key) {
                return Some(&self.0[i - 1].1);
            }
            i -= 1;
        }
        None
    }

    /// The entries in their order.
    pub fn iter(&self) -> (r: &[(Vec<u8>, PdfObject)])
        ensures
            r@ == self.0@,
    {
        self.0.as_slice()
    }

    pub fn is_empty(&self) -> (b: bool)
        ensures
            b == (self@.len() == 0),
    {
        self.0.len() == 0
    }

    /// The number of entries, repeated keys included.
    pub fn len(&self) -> (n: usize)
        ensures
            n == self@.len(),
    {
        self.0.len()
    }
}

/// Whether two byte strings are equal.
pub fn bytes_equal(a: &[u8], b: &[u8]) -> (r: bool)
    ensures
        r == (a@ == b@),
{
    if a.len() != b.len() {
        return false;
    }
    let mut i: usize = 0;
    while i < a.len()
        invariant
            a@.len() == b@.len(),
            i <= a@.len(),
            forall|j: int| 0 <= j < i ==> a@[j] == b@[j],
        decreases a@.len() - i,
    {
        if a[i] != b[i] {
            return false;
        }
        i += 1;
    }
    assert(a@ =~= b@);
    true
}

impl PdfObject {
    /// The bytes of a literal or hexadecimal string.
    pub fn as_string_bytes(&self) -> (r: Option<&[u8]>)
        ensures
            match self {
                PdfObject::LiteralString(b) | PdfObject::HexString(b) => r matches Some(s) && s@ == b@,
                _ => r is None,
            },
    {
        match self {
            PdfObject::LiteralString(b) => Some(b.as_slice()),
            PdfObject::HexString(b) => Some(b.as_slice()),
            _ => None,
        }
    }

    /// The syntax a string object was written in.
    pub fn string_format(&self) -> (r: Option<StringFormat>)
        ensures
            r == match self {
                PdfObject::LiteralString(_) => Some(StringFormat::Literal),
                PdfObject::HexString(_) => Some(StringFormat::Hex),
                _ => None::<StringFormat>,
            },
    {
        match self {
            PdfObject::LiteralString(_) => Some(StringFormat::Literal),
            PdfObject::HexString(_) => Some(StringFormat::Hex),
            _ => None,
        }
    }

    /// The bytes of a name.
    pub fn as_name_bytes(&self) -> (r: Option<&[u8]>)
        ensures
            match self {
                PdfObject::Name(b) => r matches Some(s) && s@ == b@,
                _ => r is None,
            },
    {
        match self {
            PdfObject::Name(b) => Some(b.as_slice()),
            _ => None,
        }
    }

    /// The value of an integer.
    pub fn as_i64(&self) -> (r: Option<i64>)
        ensures
            r == match self {
                PdfObject::Integer(n) => Some(*n),
                _ => None::<i64>,
            },
    {
        match self {
            PdfObject::Integer(n) => Some(*n),
            _ => None,
        }
    }

    /// The value of a non-negative integer.
    pub fn as_u64(&self) -> (r: Option<u64>)
        ensures
            r == view_as_u64(self@),
    {
        match self {
            PdfObject::Integer(n) => {
                if *n >= 0 {
                    Some(*n as u64)
                } else {
                    None
                }
            },
            _ => None,
        }
    }

    /// The value of a boolean.
    pub fn as_bool(&self) -> (r: Option<bool>)
        ensures
            r == match self {
                PdfObject::Boolean(b) => Some(*b),
                _ => None::<bool>,
            },
    {
        match self {
            PdfObject::Boolean(b) => Some(*b),
            _ => None,
        }
    }

    /// The dictionary of a dictionary object.
    pub fn as_dict(&self) -> (r: Option<&PdfDict>)
        ensures
            match self {
                PdfObject::Dictionary(d) => r == Some(d),
                _ => r is None,
            },
    {
        match self {
            PdfObject::Dictionary(d) => Some(d),
            _ => None,
        }
    }

    /// The items of an array.
    pub fn as_array(&self) -> (r: Option<&[PdfObject]>)
        ensures
            match self {
                PdfObject::Array(a) => r matches Some(s) && s@ == a@,
                _ => r is None,
            },
    {
        match self {
            PdfObject::Array(a) => Some(a.as_slice()),
            _ => None,
        }
    }
}

/// The value of a non-negative integer object.
pub open spec fn view_as_u64(o: ObjectView) -> Option<u64> {
    match o {
        ObjectView::Integer(n) => if n >= 0 { Some(n as u64) } else { None },
        _ => None,
    }
}

/// A copy of a byte string.
pub fn copy_bytes(v: &Vec<u8>) -> (r: Vec<u8>)
    ensures
        r@ == v@,
{
    let r = v.clone();
    assert(r@ =~= v@);
    r
}

proof fn lemma_item_decreases(o: PdfObject, items: Vec<PdfObject>, i: int)
    requires
        o == PdfObject::Array(items),
        0 <= i < items@.len(),
    ensures
        decreases_to!(o => items@[i]),
{
    match o {
        PdfObject::Array(its) => {
            assert(decreases_to!(o => its));
            assert(decreases_to!(its => its@));
            assert(decreases_to!(its@ => its@[i]));
        },
        _ => {},
    }
}

/// A deep copy of an object.
pub fn clone_object(o: &PdfObject) -> (r: PdfObject)
    ensures
        r@ == o@,
    decreases o,
{
    match o {
        PdfObject::Null => PdfObject::Null,
        PdfObject::Boolean(b) => PdfObject::Boolean(*b),
        PdfObject::Integer(n) => PdfObject::Integer(*n),
        PdfObject::Real(t) => PdfObject::Real(copy_bytes(t)),
        PdfObject::LiteralString(t) => PdfObject::LiteralString(copy_bytes(t)),
        PdfObject::HexString(t) => PdfObject::HexString(copy_bytes(t)),
        PdfObject::Name(t) => PdfObject::Name(copy_bytes(t)),
        PdfObject::Array(items) => {
            let mut out: Vec<PdfObject> = Vec::new();
            let mut i: usize = 0;
            while i < items.len()
                invariant
                    *o == PdfObject::Array(*items),
                    i <= items@.len(),
                    out@.len() == i,
                    forall|j: int| 0 <= j < i ==> (#[trigger] out@[j])@ == items@[j]@,
                decreases items@.len() - i,
            {
                proof {
                    lemma_item_decreases(*o, *items, i as int);
                }
                let c = clone_object(&items[i]);
                out.push(c);
                i += 1;
            }
            proof {
                lemma_array_view(out);
                lemma_array_view(*items);
                assert(Seq::new(out@.len(), |i: int| view_object(out@[i])) =~= Seq::new(
                    items@.len(),
                    |i: int| view_object(items@[i]),
                ));
            }
            PdfObject::Array(out)
        },
        PdfObject::Dictionary(d) => {
            let r = clone_dict(d);
            proof {
                lemma_dictionary_view(r);
                lemma_dictionary_view(*d);
            }
            PdfObject::Dictionary(r)
        },
        PdfObject::Stream(st) => {
            let r = PdfStream { dict: clone_dict(&st.dict), data: copy_bytes(&st.data) };
            proof {
                lemma_stream_view(r);
                lemma_stream_view(*st);
            }
            PdfObject::Stream(r)
        },
        PdfObject::Reference(id) => PdfObject::Reference(*id),
    }
}

/// A deep copy of a dictionary.
pub fn clone_dict(d: &PdfDict) -> (r: PdfDict)
    ensures
        r@ == d@,
    decreases d,
{
    let mut out: Vec<(Vec<u8>, PdfObject)> = Vec::new();
    let mut i: usize = 0;
    while i < d.0.len()
        invariant
            i <= d.0@.len(),
            out@.len() == i,
            forall|j: int|
                0 <= j < i ==> (#[trigger] out@[j]).0@ == d.0@[j].0@ && out@[j].1@ == d.0@[j].1@,
        decreases d.0@.len() - i,
    {
        let k = copy_bytes(&d.0[i].0);
        let v = clone_object(&d.0[i].1);
        out.push((k, v));
        i += 1;
    }
    let r = PdfDict(out);
    assert(r@ =~= d@);
    r
}

impl Clone for PdfObject {
    fn clone(&self) -> (r: Self)
        ensures
            r@ == self@,
    {
        clone_object(self)
    }
}

impl Clone for PdfDict {
    fn clone(&self) -> (r: Self)
        ensures
            r@ == self@,
    {
        clone_dict(self)
    }
}

impl Clone for PdfStream {
    fn clone(&self) -> (r: Self)
        ensures
            r@ == self@,
    {
        PdfStream { dict: clone_dict(&self.dict), data: copy_bytes(&self.data) }
    }
}

impl Clone for IndirectObject {
    fn clone(&self) -> (r: Self)
        ensures
            r@ == self@,
    {
        IndirectObject { id: self.id, object: clone_object(&self.object) }
    }
}

} // verus!
