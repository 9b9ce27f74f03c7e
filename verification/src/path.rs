//! File paths, as the bytes that the operating system knows them by.

use vstd::prelude::*;

use crate::text;

verus! {

/// The byte that parts the names in a path.
pub const SLASH: u8 = 0x2f;

/// A file path. It need not be text.
#[derive(Debug, PartialEq, Eq, Hash)]
pub struct FilePath {
    bytes: Vec<u8>,
}

impl View for FilePath {
    type V = Seq<u8>;

    closed spec fn view(&self) -> Seq<u8> {
        self.bytes@
    }
}

/// The bytes of a text.
pub open spec fn utf8(s: Seq<char>) -> Seq<u8> {
    vstd::utf8::encode_utf8(s)
}

/// Whether a path starts at the root.
pub open spec fn is_absolute(path: Seq<u8>) -> bool {
    path.len() > 0 && path[0] == SLASH
}

/// The path of `name` below `base`: an absolute `name` stands for itself, and a slash parts the two
/// where `base` is not empty and does not end in one.
pub open spec fn joined(base: Seq<u8>, name: Seq<u8>) -> Seq<u8> {
    if is_absolute(name) {
        name
    } else if base.len() == 0 || base.last() == SLASH {
        base + name
    } else {
        base.push(SLASH) + name
    }
}

fn push_bytes(out: &mut Vec<u8>, bytes: &[u8])
    ensures
        final(out)@ == old(out)@ + bytes@,
{
    let mut i: usize = 0;
    let ghost before = out@;
    assert(before + bytes@.take(0) =~= before);
    while i < bytes.len()
        invariant
            i <= bytes@.len(),
            out@ == before + bytes@.take(i as int),
        decreases bytes@.len() - i,
    {
        out.push(bytes[i]);
        assert(before + bytes@.take(i + 1) =~= (before + bytes@.take(i as int)).push(bytes@[i as int]));
        i += 1;
    }
    assert(bytes@.take(i as int) =~= bytes@);
}

/// Tells whether bytes end in others.
pub(crate) fn ends_in(bytes: &[u8], ending: &[u8]) -> (ends: bool)
    ensures
        ends == (bytes@.len() >= ending@.len() && bytes@.skip(bytes@.len() - ending@.len()) == ending@),
{
    if bytes.len() < ending.len() {
        return false;
    }
    let n = bytes.len();
    let start = n - ending.len();
    let ghost tail = bytes@.skip(start as int);
    let mut i: usize = 0;
    while i < ending.len()
        invariant
            i <= ending@.len(),
            n == bytes@.len(),
            start + ending@.len() == n,
            tail == bytes@.skip(start as int),
            forall|j: int| 0 <= j < i ==> tail[j] == ending@[j],
        decreases ending@.len() - i,
    {
        if bytes[start + i] != ending[i] {
            assert(tail[i as int] != ending@[i as int]);
            return false;
        }
        i += 1;
    }
    assert(tail =~= ending@);
    true
}

impl FilePath {
    /// The path that is written as a text.
    pub fn new(path: &str) -> (file: FilePath)
        ensures
            file@ == utf8(path@),
    {
        let mut bytes: Vec<u8> = Vec::new();
        push_bytes(&mut bytes, path.as_bytes());
        assert(bytes@ =~= utf8(path@));
        FilePath { bytes }
    }

    /// The path with these bytes.
    pub fn from_bytes(bytes: Vec<u8>) -> (file: FilePath)
        ensures
            file@ == bytes@,
    {
        FilePath { bytes }
    }

    pub fn as_bytes(&self) -> (bytes: &[u8])
        ensures
            bytes@ == self@,
    {
        self.bytes.as_slice()
    }

    /// The path of a name below this one.
    pub fn join(&self, name: &str) -> (file: FilePath)
        ensures
            file@ == joined(self@, utf8(name@)),
    {
        let name = name.as_bytes();
        let mut bytes: Vec<u8> = Vec::new();
        if name.len() > 0 && name[0] == SLASH {
            push_bytes(&mut bytes, name);
            assert(bytes@ =~= name@);
            return FilePath { bytes };
        }
        push_bytes(&mut bytes, self.bytes.as_slice());
        let n = self.bytes.len();
        if n > 0 && self.bytes[n - 1] != SLASH {
            bytes.push(SLASH);
        }
        push_bytes(&mut bytes, name);
        assert(bytes@ =~= joined(self@, name@));
        FilePath { bytes }
    }

    /// The path as text, if it is one.
    pub fn to_text(&self) -> (text: Option<String>)
        ensures
            match text {
                Some(s) => vstd::utf8::valid_utf8(self@) && s@ == vstd::utf8::decode_utf8(self@),
                None => !vstd::utf8::valid_utf8(self@),
            },
    {
        text::decode_strict(self.bytes.clone())
    }

    /// The path for display, with replacement characters where it is not text.
    pub fn display(&self) -> (text: String)
        ensures
            text@ == text::utf8_lossy(self@),
            vstd::utf8::valid_utf8(self@) ==> text@ == vstd::utf8::decode_utf8(self@),
    {
        text::decode_lossy(self.bytes.as_slice())
    }
}

impl Clone for FilePath {
    fn clone(&self) -> (file: FilePath)
        ensures
            file@ == self@,
    {
        let mut bytes: Vec<u8> = Vec::new();
        push_bytes(&mut bytes, self.bytes.as_slice());
        assert(bytes@ =~= self@);
        FilePath { bytes }
    }
}

impl From<&str> for FilePath {
    fn from(path: &str) -> (file: FilePath)
        ensures
            file@ == utf8(path@),
    {
        FilePath::new(path)
    }
}

impl vstd::std_specs::convert::FromSpecImpl<&str> for FilePath {
    open spec fn obeys_from_spec() -> bool {
        false
    }

    open spec fn from_spec(path: &str) -> FilePath {
        arbitrary()
    }
}

/// A text that ends in an ASCII character ends in its byte.
pub proof fn lemma_last_byte(s: Seq<char>)
    requires
        s.len() > 0,
        (s.last() as u32) < 0x80,
    ensures
        utf8(s).len() > 0,
        utf8(s).last() as u32 == s.last() as u32,
    decreases s.len(),
{
    let rest = s.drop_first();
    if s.len() == 1 {
        let c = s[0] as u32;
        assert(((c & 0x7f) as u8) as u32 == c) by (bit_vector)
            requires
                c < 0x80,
        ;
        assert(utf8(rest) =~= Seq::empty());
        assert(utf8(s) =~= seq![(c & 0x7f) as u8]);
    } else {
        assert(rest.last() == s.last());
        lemma_last_byte(rest);
    }
}

/// A text starts with the byte of a slash only where it starts with a slash.
pub proof fn lemma_absolute_text(s: Seq<char>)
    ensures
        is_absolute(utf8(s)) <==> s.len() > 0 && s[0] == '/',
{
    if s.len() > 0 {
        let bytes = utf8(s);
        vstd::utf8::encode_utf8_first_scalar(s);
        assert((0x2fu8 & 0x7f) as u32 == 0x2f) by (bit_vector);
        assert((0x2fu32 & 0x7f) as u8 == 0x2f) by (bit_vector);
        assert('/' as u32 == 0x2f);
        if s[0] == '/' {
            assert(bytes[0] == SLASH);
        }
        if bytes[0] == SLASH {
            assert(s[0] as u32 == 0x2f);
            vstd::utf8::char_u32_cast(s[0], 0x2f);
            vstd::utf8::char_u32_cast('/', 0x2f);
        }
    }
}

/// Different texts have different bytes.
pub proof fn lemma_utf8_injective(a: Seq<char>, b: Seq<char>)
    requires
        utf8(a) == utf8(b),
    ensures
        a == b,
{
    vstd::utf8::encode_utf8_decode_utf8(a);
    vstd::utf8::encode_utf8_decode_utf8(b);
}

/// The bytes of two texts put together are those of the one followed by those of the other.
pub proof fn lemma_utf8_concat(a: Seq<char>, b: Seq<char>)
    ensures
        utf8(a + b) == utf8(a) + utf8(b),
    decreases a.len(),
{
    if a.len() == 0 {
        assert(a + b =~= b);
        assert(utf8(a) + utf8(b) =~= utf8(b));
    } else {
        let rest = a.drop_first();
        lemma_utf8_concat(rest, b);
        assert((a + b).drop_first() =~= rest + b);
        assert((a + b)[0] == a[0]);
        assert(utf8(a + b) =~= utf8(a) + utf8(b));
    }
}

/// A relative name below a path is the path, followed by one slash where it is not empty and has none at its
/// end, followed by the name. A name that starts at the root stays as it is.
pub proof fn lemma_join_keeps_both(base: &FilePath, name: &str, file: FilePath)
    requires
        call_ensures(FilePath::join, (base, name), file),
    ensures
        name@.len() > 0 && name@[0] == '/' ==> file@ == utf8(name@),
        !(name@.len() > 0 && name@[0] == '/') ==> {
            let parted = base@.len() > 0 && base@.last() != 0x2f;
            &&& file@.len() == base@.len() + utf8(name@).len() + if parted {
                1int
            } else {
                0int
            }
            &&& file@.take(base@.len() as int) == base@
            &&& parted ==> file@[base@.len() as int] == 0x2f
            &&& file@.skip(file@.len() - utf8(name@).len()) == utf8(name@)
        },
{
    lemma_absolute_text(name@);
    if !(name@.len() > 0 && name@[0] == '/') {
        assert(file@.take(base@.len() as int) =~= base@);
        assert(file@.skip(file@.len() - utf8(name@).len()) =~= utf8(name@));
    }
}

/// It makes no difference in which order three parts of a path are joined, nor whether a slash stands at the
/// end of the first.
pub proof fn lemma_join_is_associative(a: Seq<u8>, b: Seq<u8>, c: Seq<u8>)
    ensures
        joined(joined(a, b), c) == joined(a, joined(b, c)),
        a.len() > 0 && a.last() != 0x2f ==> joined(a.push(0x2f), b) == joined(a, b),
        joined(Seq::empty(), b) == b,
{
    assert(joined(Seq::empty(), b) =~= b);
    assert(joined(a.push(0x2f), b) =~= if is_absolute(b) {
        b
    } else {
        a.push(0x2f) + b
    });
    if !is_absolute(c) {
        assert(joined(joined(a, b), c) =~= joined(a, joined(b, c)));
    }
}

/// A slash is one byte.
pub proof fn lemma_slash()
    ensures
        utf8(seq!['/']) == seq![SLASH],
{
    let s = seq!['/'];
    let rest = s.drop_first();
    let c = s[0] as u32;
    assert(c == 0x2f);
    assert((0x2fu32 & 0x7f) as u8 == 0x2f) by (bit_vector);
    assert(utf8(rest) =~= Seq::empty());
    assert(utf8(s) =~= seq![(c & 0x7f) as u8]);
}

} // verus!
