//! Owner and record identifiers, kept in their canonical textual form.

use vstd::prelude::*;

verus! {

/// True for a hexadecimal digit character; stored rows may carry either case.
pub open spec fn is_hex_char(c: char) -> bool {
    (('0' as u32) <= (c as u32) && (c as u32) <= ('9' as u32)) || (('a' as u32) <= (c as u32) && (c
        as u32) <= ('f' as u32)) || (('A' as u32) <= (c as u32) && (c as u32) <= ('F' as u32))
}

/// What the character at position `i` of an identifier must be: a hyphen at
/// the four group separators, a hexadecimal digit everywhere else.
pub open spec fn uuid_char_ok(s: Seq<char>, i: int) -> bool {
    if i == 8 || i == 13 || i == 18 || i == 23 {
        s[i] == '-'
    } else {
        is_hex_char(s[i])
    }
}

/// Canonical textual form of an identifier: five groups of hexadecimal
/// digits (8-4-4-4-12) separated by hyphens, 36 characters in all.
pub open spec fn is_uuid_text(s: Seq<char>) -> bool {
    s.len() == 36 && (forall|i: int| 0 <= i < 36 ==> #[trigger] uuid_char_ok(s, i))
}

/// An owner or record identifier. The store keys every record by the pair
/// (owner, record) of these, and the codec writes them out unchanged, so the
/// value is exactly its canonical text.
#[derive(Debug, PartialEq, Eq, Hash)]
pub struct Uid {
    text: String,
}

impl View for Uid {
    type V = Seq<char>;

    closed spec fn view(&self) -> Seq<char> {
        self.text@
    }
}

impl Uid {
    /// Validity of the identifier held: always established by the
    /// constructors below.
    pub open spec fn wf(&self) -> bool {
        is_uuid_text(self@)
    }

    /// Accepts `s` as an identifier exactly when it has the canonical shape.
    pub fn parse(s: &str) -> (r: Option<Uid>)
        ensures
            r matches Some(u) ==> u@ == s@ && is_uuid_text(s@),
            r is None <==> !is_uuid_text(s@),
    {
        if is_uuid_str(s) {
            Some(Uid { text: s.to_owned() })
        } else {
            None
        }
    }

    /// The canonical text of the identifier.
    pub fn as_string(&self) -> (r: &String)
        ensures
            r@ == self@,
    {
        &self.text
    }

    /// A copy that denotes the same identifier.
    pub fn duplicate(&self) -> (r: Uid)
        ensures
            r@ == self@,
    {
        Uid { text: self.text.clone() }
    }

    /// True exactly when both sides hold the same identifier text.
    pub fn same(&self, other: &Uid) -> (r: bool)
        ensures
            r == (self@ == other@),
    {
        self.text == other.text
    }

    /// A freshly generated identifier, distinct from every previously
    /// generated one with overwhelming probability.
    pub fn fresh() -> (r: Uid)
        ensures
            r.wf(),
    {
        let s = new_v4_text();
        Uid { text: s }
    }
}

/// Relies on `uuid::Uuid::new_v4` and its `Display` impl: a version-4
/// identifier printed in the hyphenated form, five groups of lowercase
/// hexadecimal digits (8-4-4-4-12).
#[verifier::external_body]
fn new_v4_text() -> (s: String)
    ensures
        is_uuid_text(s@),
{
    uuid::Uuid::new_v4().to_string()
}

/// Checks the canonical identifier shape, character by character.
fn is_uuid_str(s: &str) -> (r: bool)
    ensures
        r == is_uuid_text(s@),
{
    let n = s.unicode_len();
    if n != 36 {
        return false;
    }
    let mut i: usize = 0;
    while i < 36
        invariant
            0 <= i <= 36,
            s@.len() == 36,
            forall|j: int| 0 <= j < i ==> #[trigger] uuid_char_ok(s@, j),
        decreases 36 - i,
    {
        let c = s.get_char(i);
        if i == 8 || i == 13 || i == 18 || i == 23 {
            if c != '-' {
                assert(!uuid_char_ok(s@, i as int));
                return false;
            }
        } else {
            if !is_hex_char_exec(c) {
                assert(!uuid_char_ok(s@, i as int));
                return false;
            }
        }
        i = i + 1;
    }
    true
}

/// Hexadecimal digit test on a single character.
fn is_hex_char_exec(c: char) -> (r: bool)
    ensures
        r == is_hex_char(c),
{
    let v = c as u32;
    (('0' as u32) <= v && v <= ('9' as u32)) || (('a' as u32) <= v && v <= ('f' as u32)) || (('A'
        as u32) <= v && v <= ('F' as u32))
}

} // verus!
