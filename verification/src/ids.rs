//! 128-bit identifiers (instance ids, player UUIDs) and their textual forms.
use vstd::prelude::*;

use crate::ext::{generated_form_bytes, uuid_parse, uuid_parse_of};
use crate::text::{hex_byte_lower, hex_lower, hex_lower_of, hex_encode};

verus! {

broadcast use vstd::array::group_array_axioms;

/// A 128-bit identifier, held as its 16 bytes in RFC 4122 order.
#[derive(Debug, Clone, Copy, PartialEq, Eq, Hash)]
pub struct Uuid {
    pub bytes: [u8; 16],
}

/// The 32 lower-case hex digits of the bytes, no separators
/// (the "simple" form).
pub open spec fn simple_form(b: Seq<u8>) -> Seq<char> {
    hex_lower_of(b)
}

/// The canonical hyphenated form `8-4-4-4-12`, lower case.
pub open spec fn hyphenated_form(b: Seq<u8>) -> Seq<char> {
    hex_lower_of(b.subrange(0, 4)) + seq!['-'] + hex_lower_of(b.subrange(4, 6)) + seq!['-']
        + hex_lower_of(b.subrange(6, 8)) + seq!['-'] + hex_lower_of(b.subrange(8, 10)) + seq![
        '-',
    ] + hex_lower_of(b.subrange(10, 16))
}

/// Two hex digits per byte: the rendering has twice the length, and each
/// byte's digits sit at its own two positions.
pub proof fn lemma_hex_lower_of(b: Seq<u8>)
    ensures
        hex_lower_of(b).len() == 2 * b.len(),
        forall|i: int|
            0 <= i < b.len() ==> (#[trigger] hex_lower_of(b)[2 * i]) == hex_lower(b[i] as int / 16)
                && hex_lower_of(b)[2 * i + 1] == hex_lower(b[i] as int % 16),
    decreases b.len(),
{
    if b.len() > 0 {
        lemma_hex_lower_of(b.drop_last());
        assert forall|i: int| 0 <= i < b.len() implies (#[trigger] hex_lower_of(b)[2 * i])
            == hex_lower(b[i] as int / 16) && hex_lower_of(b)[2 * i + 1] == hex_lower(
            b[i] as int % 16,
        ) by {
            if i < b.len() - 1 {
                assert(b.drop_last()[i] == b[i]);
            }
        }
    }
}

/// Distinct hex digits stand for distinct values.
pub proof fn lemma_hex_lower_injective(x: int, y: int)
    requires
        0 <= x < 16,
        0 <= y < 16,
        hex_lower(x) == hex_lower(y),
    ensures
        x == y,
{
    let s = seq!['0', '1', '2', '3', '4', '5', '6', '7', '8', '9', 'a', 'b', 'c', 'd', 'e', 'f'];
    assert(s[0] == '0' && s[1] == '1' && s[2] == '2' && s[3] == '3' && s[4] == '4' && s[5] == '5'
        && s[6] == '6' && s[7] == '7' && s[8] == '8' && s[9] == '9' && s[10] == 'a' && s[11] == 'b'
        && s[12] == 'c' && s[13] == 'd' && s[14] == 'e' && s[15] == 'f');
}

/// The hex rendering determines the bytes.
pub proof fn lemma_hex_lower_of_injective(a: Seq<u8>, b: Seq<u8>)
    requires
        hex_lower_of(a) == hex_lower_of(b),
    ensures
        a == b,
{
    lemma_hex_lower_of(a);
    lemma_hex_lower_of(b);
    assert(a.len() == b.len());
    assert forall|i: int| 0 <= i < a.len() implies a[i] == b[i] by {
        assert(hex_lower_of(a)[2 * i] == hex_lower_of(b)[2 * i]);
        assert(hex_lower_of(a)[2 * i + 1] == hex_lower_of(b)[2 * i + 1]);
        assert(hex_lower_of(a)[2 * i] == hex_lower(a[i] as int / 16));
        assert(hex_lower_of(b)[2 * i] == hex_lower(b[i] as int / 16));
        assert(hex_lower_of(a)[2 * i + 1] == hex_lower(a[i] as int % 16));
        assert(hex_lower_of(b)[2 * i + 1] == hex_lower(b[i] as int % 16));
        lemma_hex_lower_injective(a[i] as int / 16, b[i] as int / 16);
        lemma_hex_lower_injective(a[i] as int % 16, b[i] as int % 16);
    }
    assert(a =~= b);
}

/// The hyphenated form is 36 characters long, none of them a `/`.
pub proof fn lemma_hyphenated_shape(b: Seq<u8>)
    requires
        b.len() == 16,
    ensures
        hyphenated_form(b).len() == 36,
        forall|i: int| 0 <= i < 36 ==> #[trigger] hyphenated_form(b)[i] != '/',
{
    lemma_hex_lower_of(b.subrange(0, 4));
    lemma_hex_lower_of(b.subrange(4, 6));
    lemma_hex_lower_of(b.subrange(6, 8));
    lemma_hex_lower_of(b.subrange(8, 10));
    lemma_hex_lower_of(b.subrange(10, 16));
    lemma_hex_no_slash(b.subrange(0, 4));
    lemma_hex_no_slash(b.subrange(4, 6));
    lemma_hex_no_slash(b.subrange(6, 8));
    lemma_hex_no_slash(b.subrange(8, 10));
    lemma_hex_no_slash(b.subrange(10, 16));
}

/// Hex digits are never `/`.
pub proof fn lemma_hex_no_slash(b: Seq<u8>)
    ensures
        forall|i: int| 0 <= i < hex_lower_of(b).len() ==> #[trigger] hex_lower_of(b)[i] != '/',
    decreases b.len(),
{
    if b.len() > 0 {
        lemma_hex_no_slash(b.drop_last());
        let d = b.last();
        assert(hex_byte_lower(d)[0] != '/');
        assert(hex_byte_lower(d)[1] != '/');
        assert forall|i: int| 0 <= i < hex_lower_of(b).len() implies #[trigger] hex_lower_of(b)[i]
            != '/' by {
            let p = hex_lower_of(b.drop_last());
            if i < p.len() {
                assert(hex_lower_of(b)[i] == p[i]);
            } else {
                assert(hex_lower_of(b)[i] == hex_byte_lower(d)[i - p.len()]);
            }
        }
    }
}

/// Distinct identifiers have distinct hyphenated forms.
pub proof fn lemma_hyphenated_injective(a: Seq<u8>, b: Seq<u8>)
    requires
        a.len() == 16,
        b.len() == 16,
        hyphenated_form(a) == hyphenated_form(b),
    ensures
        a == b,
{
    let ha = hyphenated_form(a);
    let hb = hyphenated_form(b);
    lemma_hex_lower_of(a.subrange(0, 4));
    lemma_hex_lower_of(a.subrange(4, 6));
    lemma_hex_lower_of(a.subrange(6, 8));
    lemma_hex_lower_of(a.subrange(8, 10));
    lemma_hex_lower_of(a.subrange(10, 16));
    lemma_hex_lower_of(b.subrange(0, 4));
    lemma_hex_lower_of(b.subrange(4, 6));
    lemma_hex_lower_of(b.subrange(6, 8));
    lemma_hex_lower_of(b.subrange(8, 10));
    lemma_hex_lower_of(b.subrange(10, 16));
    assert(ha.subrange(0, 8) =~= hex_lower_of(a.subrange(0, 4)));
    assert(hb.subrange(0, 8) =~= hex_lower_of(b.subrange(0, 4)));
    assert(ha.subrange(9, 13) =~= hex_lower_of(a.subrange(4, 6)));
    assert(hb.subrange(9, 13) =~= hex_lower_of(b.subrange(4, 6)));
    assert(ha.subrange(14, 18) =~= hex_lower_of(a.subrange(6, 8)));
    assert(hb.subrange(14, 18) =~= hex_lower_of(b.subrange(6, 8)));
    assert(ha.subrange(19, 23) =~= hex_lower_of(a.subrange(8, 10)));
    assert(hb.subrange(19, 23) =~= hex_lower_of(b.subrange(8, 10)));
    assert(ha.subrange(24, 36) =~= hex_lower_of(a.subrange(10, 16)));
    assert(hb.subrange(24, 36) =~= hex_lower_of(b.subrange(10, 16)));
    lemma_hex_lower_of_injective(a.subrange(0, 4), b.subrange(0, 4));
    lemma_hex_lower_of_injective(a.subrange(4, 6), b.subrange(4, 6));
    lemma_hex_lower_of_injective(a.subrange(6, 8), b.subrange(6, 8));
    lemma_hex_lower_of_injective(a.subrange(8, 10), b.subrange(8, 10));
    lemma_hex_lower_of_injective(a.subrange(10, 16), b.subrange(10, 16));
    assert forall|i: int| 0 <= i < 16 implies a[i] == b[i] by {
        if i < 4 {
            assert(a.subrange(0, 4)[i] == b.subrange(0, 4)[i]);
        } else if i < 6 {
            assert(a.subrange(4, 6)[i - 4] == b.subrange(4, 6)[i - 4]);
        } else if i < 8 {
            assert(a.subrange(6, 8)[i - 6] == b.subrange(6, 8)[i - 6]);
        } else if i < 10 {
            assert(a.subrange(8, 10)[i - 8] == b.subrange(8, 10)[i - 8]);
        } else {
            assert(a.subrange(10, 16)[i - 10] == b.subrange(10, 16)[i - 10]);
        }
    }
    assert(a =~= b);
}

/// Both text forms this module writes read back as the identifier they were
/// written from: each form determines the bytes, and the two forms never
/// coincide (36 characters against 32).
pub proof fn lemma_text_forms_read_back(b: Seq<u8>)
    requires
        b.len() == 16,
    ensures
        generated_form_bytes(hyphenated_form(b)) == Some(b),
        generated_form_bytes(simple_form(b)) == Some(b),
{
    lemma_hyphenated_shape(b);
    lemma_hex_lower_of(b);
    let h = hyphenated_form(b);
    let s = simple_form(b);
    assert(h.len() == 36 && s.len() == 32);
    assert(b.len() == 16 && (h == hyphenated_form(b) || h == simple_form(b)));
    assert(b.len() == 16 && (s == hyphenated_form(b) || s == simple_form(b)));
    let c = choose|c: Seq<u8>| c.len() == 16 && (h == hyphenated_form(c) || h == simple_form(c));
    lemma_hex_lower_of(c);
    lemma_hyphenated_shape(c);
    if h == hyphenated_form(c) {
        lemma_hyphenated_injective(b, c);
    }
    let d = choose|d: Seq<u8>| d.len() == 16 && (s == hyphenated_form(d) || s == simple_form(d));
    lemma_hex_lower_of(d);
    lemma_hyphenated_shape(d);
    if s == simple_form(d) {
        lemma_hex_lower_of_injective(b, d);
    }
}

impl Uuid {
    /// The identifier with the given 16 bytes.
    pub fn from_bytes(bytes: [u8; 16]) -> (u: Uuid)
        ensures
            u.bytes == bytes,
    {
        Uuid { bytes }
    }

    /// The 16 bytes of the identifier.
    pub fn as_bytes(&self) -> (b: &[u8; 16])
        ensures
            *b == self.bytes,
    {
        &self.bytes
    }

    /// The canonical hyphenated form, e.g.
    /// `67e55044-10b1-426f-9247-bb680e5fe0c8` (what `Uuid::to_string` gives).
    pub fn to_hyphenated_string(&self) -> (s: String)
        ensures
            s@ == hyphenated_form(self.bytes@),
    {
        let b = self.bytes.as_slice();
        let mut s = hex_encode(slice_range(b, 0, 4).as_slice());
        s.append("-");
        s.append(hex_encode(slice_range(b, 4, 6).as_slice()).as_str());
        s.append("-");
        s.append(hex_encode(slice_range(b, 6, 8).as_slice()).as_str());
        s.append("-");
        s.append(hex_encode(slice_range(b, 8, 10).as_slice()).as_str());
        s.append("-");
        s.append(hex_encode(slice_range(b, 10, 16).as_slice()).as_str());
        proof {
            reveal_strlit("-");
        }
        assert(s@ =~= hyphenated_form(self.bytes@));
        s
    }

    /// The 32 hex digits without separators (what `Uuid::simple` renders).
    pub fn to_simple_string(&self) -> (s: String)
        ensures
            s@ == simple_form(self.bytes@),
    {
        hex_encode(self.bytes.as_slice())
    }

    /// Reads an identifier from text in any form the `uuid` crate accepts
    /// (hyphenated, simple, braced, URN).
    pub fn parse_str(text: &str) -> (r: Option<Uuid>)
        ensures
            r is Some <==> uuid_parse_of(text@) is Some,
            r matches Some(u) ==> u.bytes@ == uuid_parse_of(text@)->0,
            generated_form_bytes(text@) matches Some(b) ==> (r matches Some(u) && u.bytes@ == b),
    {
        match uuid_parse(text) {
            Some(b) => Some(Uuid { bytes: b }),
            None => None,
        }
    }
}

/// A copy of `b[from..to]`.
pub fn slice_range(b: &[u8], from: usize, to: usize) -> (v: Vec<u8>)
    requires
        from <= to <= b@.len(),
    ensures
        v@ == b@.subrange(from as int, to as int),
{
    let mut v: Vec<u8> = Vec::new();
    let mut i: usize = from;
    while i < to
        invariant
            from <= i <= to <= b@.len(),
            v@ == b@.subrange(from as int, i as int),
        decreases to - i,
    {
        v.push(b[i]);
        i = i + 1;
        assert(v@ =~= b@.subrange(from as int, i as int));
    }
    v
}

} // verus!
