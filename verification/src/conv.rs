//! Wide strings: the host's zero-terminated UTF-16 text.

use vstd::prelude::*;
use vstd::std_specs::iter::IteratorSpec;

verus! {

broadcast use vstd::string::group_string_axioms;

/// The UTF-16 code units of one character: itself below `0x10000`, a
/// surrogate pair above.
pub open spec fn encode_char(c: char) -> Seq<u16> {
    let v = c as u32;
    if v < 0x1_0000 {
        seq![v as u16]
    } else {
        seq![
            (0xD800 + (v - 0x1_0000) / 0x400) as u16,
            (0xDC00 + (v - 0x1_0000) % 0x400) as u16,
        ]
    }
}

/// The UTF-16 code units of a text, character by character.
pub open spec fn encode_utf16(text: Seq<char>) -> Seq<u16>
    decreases text.len(),
{
    if text.len() == 0 {
        Seq::empty()
    } else {
        encode_utf16(text.drop_last()) + encode_char(text.last())
    }
}

/// Encoding distributes over appending one character.
pub proof fn lemma_encode_push(text: Seq<char>, c: char)
    ensures
        encode_utf16(text.push(c)) == encode_utf16(text) + encode_char(c),
{
    assert(text.push(c).drop_last() =~= text);
}

/// A text of characters below `0x10000` encodes unit for character.
pub proof fn lemma_encode_basic_plane(text: Seq<char>)
    requires
        forall|i: int| 0 <= i < text.len() ==> ((#[trigger] text[i]) as u32) < 0x1_0000,
    ensures
        encode_utf16(text).len() == text.len(),
        forall|i: int| 0 <= i < text.len() ==> #[trigger] encode_utf16(text)[i] == text[i] as u32,
    decreases text.len(),
{
    if text.len() > 0 {
        let front = text.drop_last();
        assert forall|i: int| 0 <= i < front.len() implies ((#[trigger] front[i]) as u32)
            < 0x1_0000 by {
            assert(front[i] == text[i]);
        }
        lemma_encode_basic_plane(front);
        assert(text.last() == text[text.len() - 1]);
        assert forall|i: int| 0 <= i < text.len() implies #[trigger] encode_utf16(text)[i]
            == text[i] as u32 by {
            if i < front.len() {
                assert(encode_utf16(text)[i] == encode_utf16(front)[i]);
                assert(front[i] == text[i]);
            }
        }
    }
}

/// An owned wide string. It always ends in a zero unit, which is not part
/// of its text.
#[derive(Debug)]
pub struct WStr {
    data: Vec<u16>,
}

impl View for WStr {
    type V = Seq<u16>;

    /// The text: every unit before the terminator.
    closed spec fn view(&self) -> Seq<u16> {
        self.data@.drop_last()
    }
}

impl WStr {
    #[verifier::type_invariant]
    spec fn terminated(&self) -> bool {
        self.data@.len() > 0 && self.data@.last() == 0
    }

    /// The empty wide string.
    pub fn new() -> (w: WStr)
        ensures
            w@ == Seq::<u16>::empty(),
    {
        let mut data: Vec<u16> = Vec::new();
        data.push(0);
        WStr { data }
    }

    /// The wide string whose text is `text`, unit for unit.
    pub fn from_text(text: Vec<u16>) -> (w: WStr)
        ensures
            w@ == text@,
    {
        let mut data = text;
        data.push(0);
        assert(data@.drop_last() =~= text@);
        WStr { data }
    }

    /// The units of the text from position `from` up to, not including,
    /// position `to`.
    pub fn subrange(&self, from: usize, to: usize) -> (w: WStr)
        requires
            from <= to <= self@.len(),
        ensures
            w@ == self@.subrange(from as int, to as int),
    {
        let mut text: Vec<u16> = Vec::new();
        let mut i: usize = from;
        while i < to
            invariant
                from <= i <= to,
                to <= self@.len(),
                text@ == self@.subrange(from as int, i as int),
            decreases to - i,
        {
            text.push(self.unit(i));
            i = i + 1;
            assert(text@ =~= self@.subrange(from as int, i as int));
        }
        WStr::from_text(text)
    }

    /// Copies the text that `units` holds: everything before its first zero
    /// unit, or all of it when there is none.
    pub fn from_units(units: &[u16]) -> (w: WStr)
        ensures
            w@.len() <= units@.len(),
            w@ == units@.take(w@.len() as int),
            !w@.contains(0),
            w@.len() < units@.len() ==> units@[w@.len() as int] == 0,
    {
        let mut data: Vec<u16> = Vec::new();
        let mut i: usize = 0;
        while i < units.len() && units[i] != 0
            invariant
                i <= units@.len(),
                data@ == units@.take(i as int),
                !data@.contains(0),
            decreases units@.len() - i,
        {
            data.push(units[i]);
            i = i + 1;
            assert(data@ =~= units@.take(i as int));
        }
        let ghost text = data@;
        data.push(0);
        assert(data@.drop_last() =~= text);
        WStr { data }
    }

    /// The number of units in the text.
    pub fn len(&self) -> (n: usize)
        ensures
            n == self@.len(),
    {
        proof {
            use_type_invariant(self);
        }
        self.data.len() - 1
    }

    /// Whether the text is empty.
    pub fn is_empty(&self) -> (b: bool)
        ensures
            b == (self@.len() == 0),
    {
        self.len() == 0
    }

    /// The unit at position `i` of the text.
    pub fn unit(&self, i: usize) -> (u: u16)
        requires
            i < self@.len(),
        ensures
            u == self@[i as int],
    {
        proof {
            use_type_invariant(self);
        }
        self.data[i]
    }

    /// The text followed by its terminator, as the host reads it.
    pub fn as_slice(&self) -> (s: &[u16])
        ensures
            s@ == self@.push(0),
    {
        proof {
            use_type_invariant(self);
            assert(self.data@ =~= self.data@.drop_last().push(0));
        }
        self.data.as_slice()
    }

    /// Whether two wide strings hold the same text.
    pub fn same_text(&self, other: &WStr) -> (b: bool)
        ensures
            b == (self@ == other@),
    {
        let n = self.len();
        if n != other.len() {
            return false;
        }
        let mut i: usize = 0;
        while i < n
            invariant
                i <= n,
                n == self@.len(),
                n == other@.len(),
                self@.take(i as int) == other@.take(i as int),
            decreases n - i,
        {
            if self.unit(i) != other.unit(i) {
                return false;
            }
            i = i + 1;
            assert(self@.take(i as int) =~= self@.take(i - 1).push(self@[i - 1]));
            assert(other@.take(i as int) =~= other@.take(i - 1).push(other@[i - 1]));
        }
        assert(self@ =~= self@.take(n as int));
        assert(other@ =~= other@.take(n as int));
        true
    }
}

impl Clone for WStr {
    fn clone(&self) -> (w: WStr)
        ensures
            w@ == self@,
    {
        proof {
            use_type_invariant(self);
        }
        let data = self.data.clone();
        assert(data@ =~= self.data@);
        WStr { data }
    }
}

/// Text that can be handed to the host as a wide string.
pub trait WStrExt {
    /// The characters of this text.
    spec fn text(&self) -> Seq<char>;

    /// Encodes the text as UTF-16 and terminates it.
    fn to_wstr(&self) -> (w: WStr)
        ensures
            w@ == encode_utf16(self.text()),
    ;
}

impl WStrExt for str {
    open spec fn text(&self) -> Seq<char> {
        self@
    }

    fn to_wstr(&self) -> (w: WStr) {
        let mut data: Vec<u16> = Vec::new();
        let mut chars = self.chars();
        let ghost mut done: Seq<char> = Seq::empty();
        loop
            invariant
                chars.obeys_prophetic_iter_laws(),
                chars.decrease() is Some,
                done + chars.remaining() == self@,
                data@ == encode_utf16(done),
            ensures
                data@ == encode_utf16(self@),
            decreases chars.decrease()->0,
        {
            let ghost before = chars.remaining();
            match chars.next() {
                Some(c) => {
                    proof {
                        lemma_encode_push(done, c);
                        assert(done.push(c) + chars.remaining() =~= done + before);
                        done = done.push(c);
                    }
                    let v: u32 = c as u32;
                    if v < 0x1_0000 {
                        data.push(v as u16);
                    } else {
                        let w: u32 = v - 0x1_0000;
                        data.push((0xD800 + w / 0x400) as u16);
                        data.push((0xDC00 + w % 0x400) as u16);
                    }
                    assert(data@ =~= encode_utf16(done));
                },
                None => {
                    assert(done =~= self@);
                    break;
                },
            }
        }
        let ghost units = data@;
        data.push(0);
        assert(data@.drop_last() =~= units);
        WStr { data }
    }
}

impl WStrExt for String {
    open spec fn text(&self) -> Seq<char> {
        self@
    }

    fn to_wstr(&self) -> (w: WStr) {
        self.as_str().to_wstr()
    }
}

/// Raw wide text as the host hands it over: units that end at the first
/// zero unit.
pub trait RawWStrExt {
    /// The units as they are handed over.
    spec fn units(&self) -> Seq<u16>;

    /// Copies the text: everything before the first zero unit, or all
    /// units when none is zero.
    fn to_os(&self) -> (w: WStr)
        ensures
            w@.len() <= self.units().len(),
            w@ == self.units().take(w@.len() as int),
            !w@.contains(0),
            w@.len() < self.units().len() ==> self.units()[w@.len() as int] == 0,
    ;
}

impl RawWStrExt for [u16] {
    open spec fn units(&self) -> Seq<u16> {
        self@
    }

    fn to_os(&self) -> (w: WStr) {
        WStr::from_units(self)
    }
}

impl RawWStrExt for Vec<u16> {
    open spec fn units(&self) -> Seq<u16> {
        self@
    }

    fn to_os(&self) -> (w: WStr) {
        WStr::from_units(self.as_slice())
    }
}

} // verus!
