//! Authentication kinds, a set of bit flags as the wire format carries them.

use vstd::prelude::*;

verus! {

/// A set of authentication kinds, one bit each.
#[derive(Clone, Copy, Debug, PartialEq, Eq, Structural)]
pub struct AuthType {
    pub bits: u8,
}

pub open spec fn no_auth_bits() -> u8 {
    1
}

pub open spec fn password_bits() -> u8 {
    2
}

pub open spec fn login_bits() -> u8 {
    4
}

pub open spec fn token_bits() -> u8 {
    8
}

/// The kind of authentication that a configuration file names, given the
/// name already in lower case.
pub open spec fn auth_type_named(name: Seq<char>) -> Option<AuthType> {
    if name == "noauth"@ {
        Some(AuthType { bits: no_auth_bits() })
    } else if name == "password"@ {
        Some(AuthType { bits: password_bits() })
    } else if name == "login"@ {
        Some(AuthType { bits: login_bits() })
    } else if name == "token"@ {
        Some(AuthType { bits: token_bits() })
    } else {
        None
    }
}

/// What reading the name `name` from a configuration file gives: the kind
/// its lower case names, or else that lower case, to report.
pub open spec fn name_outcome(name: Seq<char>) -> Result<AuthType, Seq<char>> {
    match auth_type_named(lowercase(name)) {
        Some(t) => Ok(t),
        None => Err(lowercase(name)),
    }
}

/// What `str::to_lowercase` gives for `s`.
pub uninterp spec fn lowercase(s: Seq<char>) -> Seq<char>;

/// Calls `str::to_lowercase`, the Unicode lower case of `s`.
#[verifier::external_body]
fn to_lowercase(s: &str) -> (res: String)
    ensures
        res@ == lowercase(s@),
{
    s.to_lowercase()
}

/// The union of the flags in `types`, taken in order.
pub open spec fn condensed_bits(types: Seq<AuthType>) -> u8
    decreases types.len(),
{
    if types.len() == 0 {
        0
    } else {
        condensed_bits(types.drop_last()) | types.last().bits
    }
}

proof fn lemma_or_identity(x: u8)
    ensures
        x | 0 == x,
        0u8 | x == x,
{
    assert(x | 0 == x) by (bit_vector);
    assert(0u8 | x == x) by (bit_vector);
}

proof fn lemma_or_assoc(x: u8, y: u8, z: u8)
    ensures
        (x | y) | z == x | (y | z),
{
    assert((x | y) | z == x | (y | z)) by (bit_vector);
}

proof fn lemma_or_comm(x: u8, y: u8)
    ensures
        x | y == y | x,
{
    assert(x | y == y | x) by (bit_vector);
}

proof fn lemma_or_mask(x: u8, y: u8, m: u8)
    ensures
        ((x | y) & m != 0) <==> (x & m != 0 || y & m != 0),
{
    assert(((x | y) & m != 0) <==> (x & m != 0 || y & m != 0)) by (bit_vector);
}

/// Condensing the kinds of two lists one after the other gives the union
/// of condensing each list.
pub proof fn law_condense_concat(a: Seq<AuthType>, b: Seq<AuthType>)
    ensures
        condensed_bits(a + b) == condensed_bits(a) | condensed_bits(b),
    decreases b.len(),
{
    if b.len() == 0 {
        assert(a + b =~= a);
        lemma_or_identity(condensed_bits(a));
    } else {
        law_condense_concat(a, b.drop_last());
        assert((a + b).drop_last() =~= a + b.drop_last());
        assert((a + b).last() == b.last());
        lemma_or_assoc(condensed_bits(a), condensed_bits(b.drop_last()), b.last().bits);
    }
}

/// The order in which the kinds are listed does not change the condensed flags.
pub proof fn law_condense_order_free(a: Seq<AuthType>, b: Seq<AuthType>)
    ensures
        condensed_bits(a + b) == condensed_bits(b + a),
{
    law_condense_concat(a, b);
    law_condense_concat(b, a);
    lemma_or_comm(condensed_bits(a), condensed_bits(b));
}

/// The condensed flags have a bit of `mask` set exactly when some listed
/// kind has it: every listed kind is offered, and nothing else is.
pub proof fn law_condense_members(types: Seq<AuthType>, mask: u8)
    ensures
        (condensed_bits(types) & mask != 0) <==> exists|i: int|
            0 <= i < types.len() && #[trigger] types[i].bits & mask != 0,
    decreases types.len(),
{
    if types.len() == 0 {
        assert(0u8 & mask == 0) by (bit_vector);
    } else {
        let init = types.drop_last();
        law_condense_members(init, mask);
        lemma_or_mask(condensed_bits(init), types.last().bits, mask);
        if condensed_bits(types) & mask != 0 {
            if condensed_bits(init) & mask != 0 {
                let i = choose|i: int| 0 <= i < init.len() && #[trigger] init[i].bits & mask != 0;
                assert(types[i] == init[i]);
            } else {
                assert(types[types.len() - 1].bits & mask != 0);
            }
        } else {
            assert forall|i: int| 0 <= i < types.len() implies !(#[trigger] types[i].bits & mask
                != 0) by {
                if i < init.len() {
                    assert(types[i] == init[i]);
                }
            }
        }
    }
}

/// Every listed kind is in the condensed flags.
pub proof fn law_condense_contains(types: Seq<AuthType>, i: int)
    requires
        0 <= i < types.len(),
    ensures
        condensed_bits(types) & types[i].bits == types[i].bits,
    decreases types.len(),
{
    let init = types.drop_last();
    let x = condensed_bits(init);
    let y = types.last().bits;
    if i == types.len() - 1 {
        assert((x | y) & y == y) by (bit_vector);
    } else {
        law_condense_contains(init, i);
        assert(types[i] == init[i]);
        let t = init[i].bits;
        assert(x & t == t ==> (x | y) & t == t) by (bit_vector);
    }
}

/// Letter case does not matter in a configured name: names with the same
/// lower case read the same.
pub proof fn law_names_ignore_case(a: Seq<char>, b: Seq<char>)
    requires
        lowercase(a) == lowercase(b),
    ensures
        name_outcome(a) == name_outcome(b),
{
}

/// Listing the kinds twice offers the same kinds as listing them once.
pub proof fn law_condense_repeat(a: Seq<AuthType>)
    ensures
        condensed_bits(a + a) == condensed_bits(a),
{
    law_condense_concat(a, a);
    let x = condensed_bits(a);
    assert(x | x == x) by (bit_vector);
}

impl AuthType {
    /// No kind at all.
    pub fn empty() -> (t: AuthType)
        ensures
            t.bits == 0,
    {
        AuthType { bits: 0 }
    }

    pub fn no_auth() -> (t: AuthType)
        ensures
            t.bits == no_auth_bits(),
    {
        AuthType { bits: 1 }
    }

    pub fn password() -> (t: AuthType)
        ensures
            t.bits == password_bits(),
    {
        AuthType { bits: 2 }
    }

    pub fn login() -> (t: AuthType)
        ensures
            t.bits == login_bits(),
    {
        AuthType { bits: 4 }
    }

    pub fn token() -> (t: AuthType)
        ensures
            t.bits == token_bits(),
    {
        AuthType { bits: 8 }
    }

    pub fn bits(&self) -> (b: u8)
        ensures
            b == self.bits,
    {
        self.bits
    }

    /// Every kind in `other` is in `self`.
    pub fn contains(&self, other: AuthType) -> (r: bool)
        ensures
            r == (self.bits & other.bits == other.bits),
    {
        self.bits & other.bits == other.bits
    }

    /// Adds the kinds of `other` to `self` (`|=`).
    pub fn insert(&mut self, other: AuthType)
        ensures
            final(self).bits == old(self).bits | other.bits,
    {
        self.bits = self.bits | other.bits;
    }

    /// The kind named by `name`, which is already in lower case.
    pub fn from_lowercase_name(name: &str) -> (res: Option<AuthType>)
        ensures
            res == auth_type_named(name@),
    {
        let name = name.to_owned();
        if name == "noauth".to_owned() {
            Some(AuthType { bits: 1 })
        } else if name == "password".to_owned() {
            Some(AuthType { bits: 2 })
        } else if name == "login".to_owned() {
            Some(AuthType { bits: 4 })
        } else if name == "token".to_owned() {
            Some(AuthType { bits: 8 })
        } else {
            None
        }
    }

    /// The kind that a configuration file names, in any letter case. An
    /// unknown name gives back the name in lower case.
    pub fn from_name(name: &str) -> (res: Result<AuthType, String>)
        ensures
            match name_outcome(name@) {
                Ok(t) => res == Ok::<AuthType, String>(t),
                Err(lowered) => res matches Err(v) && v@ == lowered,
            },
    {
        let value = to_lowercase(name);
        match AuthType::from_lowercase_name(value.as_str()) {
            Some(t) => Ok(t),
            None => Err(value),
        }
    }

    /// The union of all kinds in `types`.
    pub fn union_of(types: &Vec<AuthType>) -> (t: AuthType)
        ensures
            t.bits == condensed_bits(types@),
    {
        let mut condensed = AuthType::empty();
        let mut i: usize = 0;
        while i < types.len()
            invariant
                i <= types.len(),
                condensed.bits == condensed_bits(types@.take(i as int)),
            decreases types.len() - i,
        {
            assert(types@.take(i + 1).drop_last() =~= types@.take(i as int));
            condensed.insert(types[i]);
            i = i + 1;
        }
        assert(types@.take(types.len() as int) =~= types@);
        condensed
    }
}

} // verus!
