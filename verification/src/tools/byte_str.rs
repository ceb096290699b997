//! Sized byte string with predefined sizes of 8, 16, 32 or 64 bytes.
//!
//! A byte string holds the bytes of a text, followed by zeros up to its
//! size.

use vstd::prelude::*;
use vstd::string::StringSliceAdditionalSpecFns;
use vstd::utf8::{decode_utf8, encode_utf8, valid_utf8};

verus! {

/// Sized byte string with predefined sizes of 8, 16, 32 or 64 bytes.
#[derive(Clone, Copy, Debug)]
pub enum ByteStr {
    Str8([u8; 8]),
    Str16([u8; 16]),
    Str32([u8; 32]),
    Str64([u8; 64]),
}

impl View for ByteStr {
    type V = Seq<u8>;

    /// All bytes of the string, the zeros at its end among them.
    open spec fn view(&self) -> Seq<u8> {
        match self {
            ByteStr::Str8(s) => s@,
            ByteStr::Str16(s) => s@,
            ByteStr::Str32(s) => s@,
            ByteStr::Str64(s) => s@,
        }
    }
}

/// The size of the byte string that is made for a text of `n` bytes.
pub open spec fn size_for(n: nat) -> nat {
    if n <= 8 {
        8
    } else if n <= 16 {
        16
    } else if n <= 32 {
        32
    } else {
        64
    }
}

/// The bytes of the byte string that is made for the text `bytes`: the
/// text, cut off behind 64 bytes, and then zeros.
pub open spec fn padded(bytes: Seq<u8>) -> Seq<u8> {
    Seq::new(
        size_for(bytes.len()),
        |i: int|
            if i < bytes.len() {
                bytes[i]
            } else {
                0u8
            },
    )
}

/// True if `text` is what stands in `bytes` before the first zero, or all
/// of `bytes` where it holds no zero.
pub open spec fn is_text_of(text: Seq<u8>, bytes: Seq<u8>) -> bool {
    &&& text.len() <= bytes.len()
    &&& text == bytes.subrange(0, text.len() as int)
    &&& forall|i: int| 0 <= i < text.len() ==> #[trigger] text[i] != 0
    &&& text.len() == bytes.len() || bytes[text.len() as int] == 0
}

/// True if the byte string `bytes` starts with the text `text`.
pub open spec fn starts_with(bytes: Seq<u8>, text: Seq<u8>) -> bool {
    text.len() <= bytes.len() && bytes.subrange(0, text.len() as int) == text
}

/// What stands in `bytes` before the first zero is one text and no other.
pub proof fn lemma_text_unique(a: Seq<u8>, b: Seq<u8>, bytes: Seq<u8>)
    requires
        is_text_of(a, bytes),
        is_text_of(b, bytes),
    ensures
        a == b,
{
    if a.len() < b.len() {
        assert(b[a.len() as int] == bytes[a.len() as int]);
    }
    if b.len() < a.len() {
        assert(a[b.len() as int] == bytes[b.len() as int]);
    }
}

/// A text without a zero byte, of 64 bytes at most, is what stands before
/// the first zero in the byte string that is made for it.
pub proof fn lemma_text_of_padded(text: Seq<u8>)
    requires
        text.len() <= 64,
        forall|i: int| 0 <= i < text.len() ==> #[trigger] text[i] != 0,
    ensures
        is_text_of(text, padded(text)),
        starts_with(padded(text), text),
{
    assert(padded(text).subrange(0, text.len() as int) =~= text);
}

/// The string of `bytes`, if they are valid UTF-8, as std's
/// `String::from_utf8` gives it; `None` if they are not.
#[verifier::external_body]
fn string_from_utf8(bytes: Vec<u8>) -> (r: Option<String>)
    ensures
        r is Some <==> valid_utf8(bytes@),
        r is Some ==> r.unwrap()@ == decode_utf8(bytes@),
{
    String::from_utf8(bytes).ok()
}

impl ByteStr {
    /// Returns the size of the byte string in bytes.
    pub fn len(&self) -> (r: usize)
        ensures
            r == self@.len(),
            r == 8 || r == 16 || r == 32 || r == 64,
    {
        match self {
            ByteStr::Str8(s) => s.len(),
            ByteStr::Str16(s) => s.len(),
            ByteStr::Str32(s) => s.len(),
            ByteStr::Str64(s) => s.len(),
        }
    }

    /// Returns the byte at the index `at_index`.
    pub fn char(&self, at_index: usize) -> (r: u8)
        requires
            at_index < self@.len(),
        ensures
            r == self@[at_index as int],
    {
        match self {
            ByteStr::Str8(s) => s[at_index],
            ByteStr::Str16(s) => s[at_index],
            ByteStr::Str32(s) => s[at_index],
            ByteStr::Str64(s) => s[at_index],
        }
    }

    /// Returns all bytes of the string.
    pub fn bytes(&self) -> (r: &[u8])
        ensures
            r@ == self@,
    {
        match self {
            ByteStr::Str8(s) => s.as_slice(),
            ByteStr::Str16(s) => s.as_slice(),
            ByteStr::Str32(s) => s.as_slice(),
            ByteStr::Str64(s) => s.as_slice(),
        }
    }

    /// Makes the byte string for the text `bytes`: the smallest one that
    /// holds the text, filled up with zeros. A text of more than 64 bytes
    /// is cut off behind the 64th.
    pub fn from_bytes(bytes: &[u8]) -> (r: ByteStr)
        ensures
            r@ == padded(bytes@),
    {
        let n = bytes.len();
        if n <= 8 {
            let mut array = [0u8; 8];
            let mut i: usize = 0;
            while i < n
                invariant
                    n == bytes@.len(),
                    n <= 8,
                    i <= n,
                    forall|j: int| 0 <= j < i ==> array@[j] == bytes@[j],
                    forall|j: int| i <= j < 8 ==> array@[j] == 0,
                decreases n - i,
            {
                array[i] = bytes[i];
                i += 1;
            }
            ByteStr::Str8(array)
        } else if n <= 16 {
            let mut array = [0u8; 16];
            let mut i: usize = 0;
            while i < n
                invariant
                    n == bytes@.len(),
                    n <= 16,
                    i <= n,
                    forall|j: int| 0 <= j < i ==> array@[j] == bytes@[j],
                    forall|j: int| i <= j < 16 ==> array@[j] == 0,
                decreases n - i,
            {
                array[i] = bytes[i];
                i += 1;
            }
            ByteStr::Str16(array)
        } else if n <= 32 {
            let mut array = [0u8; 32];
            let mut i: usize = 0;
            while i < n
                invariant
                    n == bytes@.len(),
                    n <= 32,
                    i <= n,
                    forall|j: int| 0 <= j < i ==> array@[j] == bytes@[j],
                    forall|j: int| i <= j < 32 ==> array@[j] == 0,
                decreases n - i,
            {
                array[i] = bytes[i];
                i += 1;
            }
            ByteStr::Str32(array)
        } else {
            let mut array = [0u8; 64];
            let mut i: usize = 0;
            while i < n && i < 64
                invariant
                    n == bytes@.len(),
                    i <= n,
                    i <= 64,
                    forall|j: int| 0 <= j < i ==> array@[j] == bytes@[j],
                    forall|j: int| i <= j < 64 ==> array@[j] == 0,
                decreases 64 - i,
            {
                array[i] = bytes[i];
                i += 1;
            }
            ByteStr::Str64(array)
        }
    }

    /// Returns true if the byte string starts with the bytes of `text`. For
    /// a text without a zero byte that is no longer than the byte string
    /// made for it, this tells whether the byte string holds that text or a
    /// longer one.
    pub fn eq_str(&self, text: &str) -> (r: bool)
        ensures
            r == starts_with(self@, text.spec_bytes()),
    {
        let bytes = text.as_bytes();
        let own = self.bytes();
        if bytes.len() > own.len() {
            return false;
        }
        let mut i: usize = 0;
        while i < bytes.len()
            invariant
                bytes@ == text.spec_bytes(),
                own@ == self@,
                bytes@.len() <= own@.len(),
                i <= bytes@.len(),
                forall|j: int| 0 <= j < i ==> own@[j] == bytes@[j],
            decreases bytes@.len() - i,
        {
            if own[i] != bytes[i] {
                return false;
            }
            i += 1;
        }
        assert(self@.subrange(0, bytes@.len() as int) =~= bytes@);
        true
    }

    /// Returns what stands in the byte string before the first zero.
    pub fn text_bytes(&self) -> (r: Vec<u8>)
        ensures
            is_text_of(r@, self@),
    {
        let own = self.bytes();
        let mut text: Vec<u8> = Vec::new();
        let mut i: usize = 0;
        while i < own.len() && own[i] != 0
            invariant
                own@ == self@,
                i <= own@.len(),
                text@.len() == i,
                text@ == own@.subrange(0, i as int),
                forall|j: int| 0 <= j < i ==> #[trigger] text@[j] != 0,
            decreases own@.len() - i,
        {
            text.push(own[i]);
            i += 1;
        }
        text
    }

    /// Returns the text of the byte string: what stands before the first
    /// zero, as a string. Returns `None` if that is not valid UTF-8.
    pub fn text(&self) -> (r: Option<String>)
        ensures
            forall|text: Seq<u8>|
                #![trigger is_text_of(text, self@)]
                is_text_of(text, self@) ==> {
                    &&& r is Some <==> valid_utf8(text)
                    &&& r is Some ==> r.unwrap()@ == decode_utf8(text)
                },
    {
        let bytes = self.text_bytes();
        let ghost found = bytes@;
        let r = string_from_utf8(bytes);
        proof {
            assert forall|text: Seq<u8>| #![trigger is_text_of(text, self@)] is_text_of(
                text,
                self@,
            ) implies {
                &&& r is Some <==> valid_utf8(text)
                &&& r is Some ==> r.unwrap()@ == decode_utf8(text)
            } by {
                lemma_text_unique(text, found, self@);
            }
        }
        r
    }
}

/// The default byte string has eight zeros.
impl Default for ByteStr {
    fn default() -> (r: Self)
        ensures
            r@ == padded(Seq::<u8>::empty()),
    {
        let r = ByteStr::Str8([0u8; 8]);
        r
    }
}

/// Two byte strings are equal if they have the same size and the same
/// bytes.
impl PartialEq for ByteStr {
    fn eq(&self, other: &ByteStr) -> (r: bool) {
        let a = self.bytes();
        let b = other.bytes();
        if a.len() != b.len() {
            return false;
        }
        let mut i: usize = 0;
        while i < a.len()
            invariant
                a@ == self@,
                b@ == other@,
                a@.len() == b@.len(),
                i <= a@.len(),
                forall|j: int| 0 <= j < i ==> a@[j] == b@[j],
            decreases a@.len() - i,
        {
            if a[i] != b[i] {
                return false;
            }
            i += 1;
        }
        assert(self@ =~= other@);
        true
    }
}

impl vstd::std_specs::cmp::PartialEqSpecImpl for ByteStr {
    open spec fn obeys_eq_spec() -> bool {
        true
    }

    open spec fn eq_spec(&self, other: &ByteStr) -> bool {
        self@ == other@
    }
}

/// A byte string equals a text if it starts with the bytes of the text, as
/// `ByteStr::eq_str` tells.
impl PartialEq<&str> for ByteStr {
    fn eq(&self, other: &&str) -> (r: bool) {
        self.eq_str(*other)
    }
}

impl vstd::std_specs::cmp::PartialEqSpecImpl<&str> for ByteStr {
    open spec fn obeys_eq_spec() -> bool {
        true
    }

    open spec fn eq_spec(&self, other: &&str) -> bool {
        starts_with(self@, other.spec_bytes())
    }
}

/// A byte string equals a text if it starts with the bytes of the text, as
/// `ByteStr::eq_str` tells.
impl PartialEq<String> for ByteStr {
    fn eq(&self, other: &String) -> (r: bool) {
        self.eq_str(other.as_str())
    }
}

impl vstd::std_specs::cmp::PartialEqSpecImpl<String> for ByteStr {
    open spec fn obeys_eq_spec() -> bool {
        true
    }

    open spec fn eq_spec(&self, other: &String) -> bool {
        starts_with(self@, encode_utf8(other@))
    }
}

/// The byte string that holds the bytes `bytes`.
pub open spec fn byte_str_of(bytes: Seq<u8>) -> ByteStr {
    choose|b: ByteStr| b@ == bytes
}

/// A byte string is the byte string that holds its bytes: two byte strings
/// with the same bytes are one.
pub proof fn lemma_byte_str_of_view(b: ByteStr)
    ensures
        byte_str_of(b@) == b,
{
    let c = byte_str_of(b@);
    match (b, c) {
        (ByteStr::Str8(x), ByteStr::Str8(y)) => {
            assert(x =~= y);
        },
        (ByteStr::Str16(x), ByteStr::Str16(y)) => {
            assert(x =~= y);
        },
        (ByteStr::Str32(x), ByteStr::Str32(y)) => {
            assert(x =~= y);
        },
        (ByteStr::Str64(x), ByteStr::Str64(y)) => {
            assert(x =~= y);
        },
        _ => {
            assert(b@.len() != c@.len());
        },
    }
}

/// Makes the byte string for a text, as `ByteStr::from_bytes` does.
impl From<&str> for ByteStr {
    fn from(s: &str) -> (r: ByteStr) {
        let r = ByteStr::from_bytes(s.as_bytes());
        proof {
            lemma_byte_str_of_view(r);
        }
        r
    }
}

impl vstd::std_specs::convert::FromSpecImpl<&str> for ByteStr {
    open spec fn obeys_from_spec() -> bool {
        true
    }

    open spec fn from_spec(s: &str) -> ByteStr {
        byte_str_of(padded(s.spec_bytes()))
    }
}

/// Makes the byte string for a text, as `ByteStr::from_bytes` does.
impl From<String> for ByteStr {
    fn from(s: String) -> (r: ByteStr) {
        let r = ByteStr::from_bytes(s.as_str().as_bytes());
        proof {
            lemma_byte_str_of_view(r);
        }
        r
    }
}

impl vstd::std_specs::convert::FromSpecImpl<String> for ByteStr {
    open spec fn obeys_from_spec() -> bool {
        true
    }

    open spec fn from_spec(s: String) -> ByteStr {
        byte_str_of(padded(encode_utf8(s@)))
    }
}

} // verus!
